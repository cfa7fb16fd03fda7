use botox::bot_commands::{command_of, help_text, BotCommands, BOT_COMMAND_PREFIX};
use botox::bot_external_commands::{
    ExternalBotCommand, ExternalBotCommands, EXTERNAL_COMMANDS_FILE,
};

#[test]
fn registry_finds_what_was_registered() {
    let mut registry: BotCommands<u8> = BotCommands::new();
    assert_eq!(registry.len(), 0);
    assert_eq!(registry.run_command("help"), None);
    registry.add_command("help", 1);
    registry.add_command("die", 2);
    assert_eq!(registry.run_command("help"), Some(&1));
    assert_eq!(registry.run_command("die"), Some(&2));
    assert_eq!(registry.run_command("Help"), None);
    assert_eq!(registry.run_command(""), None);
    assert_eq!(registry.len(), 2);
}

#[test]
fn registering_again_replaces_the_handler() {
    let mut registry: BotCommands<&str> = BotCommands::new();
    registry.add_command("help", "old");
    registry.add_command("stop", "stop");
    registry.add_command("help", "new");
    assert_eq!(registry.len(), 2);
    assert_eq!(registry.run_command("help"), Some(&"new"));
    assert_eq!(registry.run_command("stop"), Some(&"stop"));
    assert_eq!(registry.triggers(), vec!["help", "stop"]);
}

#[test]
fn help_lists_the_triggers_with_prefix() {
    assert_eq!(BOT_COMMAND_PREFIX, '!');
    let mut registry: BotCommands<u8> = BotCommands::new();
    assert_eq!(help_text(&registry.triggers()), "Available commands: ");
    registry.add_command("help", 1);
    assert_eq!(help_text(&registry.triggers()), "Available commands: !help");
    registry.add_command("die", 2);
    registry.add_command("stop", 3);
    assert_eq!(help_text(&registry.triggers()), "Available commands: !help, !die, !stop");
}

#[test]
fn command_is_the_first_word_without_prefixes() {
    assert_eq!(command_of("!help"), Some("help".to_string()));
    assert_eq!(command_of("!for_president bob the cat"), Some("for_president".to_string()));
    assert_eq!(command_of("!!!loud now"), Some("loud".to_string()));
    assert_eq!(command_of("!"), Some("".to_string()));
    assert_eq!(command_of("! help"), Some("".to_string()));
    assert_eq!(command_of("!a!b"), Some("a!b".to_string()));
}

#[test]
fn other_messages_call_for_no_command() {
    assert_eq!(command_of("help"), None);
    assert_eq!(command_of(" !help"), None);
    assert_eq!(command_of(""), None);
    assert_eq!(command_of("hello !help"), None);
}

fn command(pattern: &str, aliases: Option<Vec<&str>>, need_arg: bool, url: &str, text: &str) -> ExternalBotCommand {
    ExternalBotCommand {
        activation_pattern: pattern.to_string(),
        aliases: aliases.map(|names| names.into_iter().map(String::from).collect()),
        need_arg,
        custom_audio_url: url.to_string(),
        replay_text: text.to_string(),
    }
}

#[test]
fn fresh_installation_has_three_commands() {
    assert_eq!(EXTERNAL_COMMANDS_FILE, "ExternalBotCommands.toml");
    let all = ExternalBotCommands::default();
    assert_eq!(all.len(), 3);
    let (name, test) = all.entry(0).unwrap();
    assert_eq!(name, "test");
    assert_eq!(test.activation_pattern, "test");
    assert_eq!(test.aliases, None);
    assert!(!test.need_arg);
    assert_eq!(test.custom_audio_url, "");
    assert_eq!(test.replay_text, "Hi there {SENDER} this is the reply to your test command");
    let (name, meow) = all.entry(1).unwrap();
    assert_eq!(name, "meow");
    assert_eq!(meow.activation_pattern, "meow");
    assert_eq!(meow.aliases, Some(vec!["cat".to_string()]));
    assert!(!meow.need_arg);
    assert_eq!(meow.custom_audio_url, "https://www.myinstants.com/media/sounds/m-e-o-w.mp3");
    assert_eq!(meow.replay_text, "");
    let (name, president) = all.entry(2).unwrap();
    assert_eq!(name, "for_president");
    assert_eq!(president.activation_pattern, "for_president");
    assert_eq!(president.aliases, None);
    assert!(president.need_arg);
    assert_eq!(president.custom_audio_url, "");
    assert_eq!(president.replay_text, "{ARG} for President!");
    assert!(all.entry(3).is_none());
}

#[test]
fn triggers_are_pattern_then_aliases() {
    assert_eq!(command("meow", Some(vec!["cat", "kitty"]), false, "", "").triggers(), vec!["meow", "cat", "kitty"]);
    assert_eq!(command("test", None, false, "", "").triggers(), vec!["test"]);
    assert_eq!(command("test", Some(vec![]), false, "", "").triggers(), vec!["test"]);
    assert_eq!(command("", Some(vec!["cat"]), false, "", "").triggers(), Vec::<String>::new());
}

#[test]
fn registrations_follow_the_commands() {
    let registrations = ExternalBotCommands::default().reg_ext_bot_cmd();
    let triggers: Vec<&str> = registrations.iter().map(|(trigger, _)| trigger.as_str()).collect();
    assert_eq!(triggers, vec!["test", "meow", "cat", "for_president"]);
    assert_eq!(registrations[1].1.activation_pattern, "meow");
    assert_eq!(registrations[2].1.activation_pattern, "meow");
    assert_eq!(registrations[2].1.custom_audio_url, "https://www.myinstants.com/media/sounds/m-e-o-w.mp3");
    assert_eq!(registrations[3].1.replay_text, "{ARG} for President!");
    let custom = ExternalBotCommands::new(vec![
        ("silent".to_string(), command("", Some(vec!["x"]), false, "", "")),
        ("hi".to_string(), command("hi", Some(vec!["hello"]), false, "", "yo")),
    ]);
    let triggers: Vec<String> = custom.reg_ext_bot_cmd().into_iter().map(|(trigger, _)| trigger).collect();
    assert_eq!(triggers, vec!["hi", "hello"]);
    assert_eq!(ExternalBotCommands::new(Vec::new()).reg_ext_bot_cmd().len(), 0);
}

#[test]
fn reply_fills_in_the_sender() {
    let test = command("test", None, false, "", "Hi there {SENDER} this is the reply to your test command");
    assert_eq!(test.reply("!test", "bob"), "Hi there bob this is the reply to your test command");
    assert_eq!(command("x", None, false, "", "{SENDER}{SENDER}").reply("!x y", "al"), "alal");
    assert_eq!(command("x", None, false, "", "{ARG}").reply("!x y", "al"), "{ARG}");
    assert_eq!(command("x", None, false, "", "").reply("!x", "al"), "");
}

#[test]
fn reply_fills_in_the_argument() {
    let president = command("for_president", None, true, "", "{ARG} for President!");
    assert_eq!(president.reply("!for_president bob the cat", "al"), "bob the cat for President!");
    assert_eq!(president.reply("!for_president ", "al"), " for President!");
    assert_eq!(command("x", None, true, "", "{SENDER}").reply("!x y", "al"), "{SENDER}");
}

#[test]
fn reply_asks_for_a_missing_argument() {
    let president = command("for_president", None, true, "", "{ARG} for President!");
    assert_eq!(
        president.reply("!for_president", "al"),
        "Hey @al, you need to provide an argument for !for_president command"
    );
}

#[test]
fn command_with_url_plays_a_sound() {
    assert!(command("meow", None, false, "https://x/y.mp3", "").has_audio());
    assert!(!command("test", None, false, "", "").has_audio());
}

#[test]
fn clone_keeps_every_field() {
    let first = command("meow", Some(vec!["cat"]), true, "u", "t");
    let copy = first.clone();
    assert_eq!(copy.activation_pattern, "meow");
    assert_eq!(copy.aliases, Some(vec!["cat".to_string()]));
    assert!(copy.need_arg);
    assert_eq!(copy.custom_audio_url, "u");
    assert_eq!(copy.replay_text, "t");
}

#[test]
fn later_command_under_a_name_takes_the_place_of_the_earlier() {
    let all = ExternalBotCommands::new(vec![
        ("hi".to_string(), command("hi", None, false, "", "first")),
        ("bye".to_string(), command("bye", None, false, "", "bye")),
        ("hi".to_string(), command("hello", None, false, "", "second")),
    ]);
    assert_eq!(all.len(), 2);
    let (name, first) = all.entry(0).unwrap();
    assert_eq!(name, "hi");
    assert_eq!(first.activation_pattern, "hello");
    assert_eq!(first.replay_text, "second");
    let (name, second) = all.entry(1).unwrap();
    assert_eq!(name, "bye");
    assert_eq!(second.replay_text, "bye");
    let triggers: Vec<String> = all.reg_ext_bot_cmd().into_iter().map(|(trigger, _)| trigger).collect();
    assert_eq!(triggers, vec!["hello", "bye"]);
}
