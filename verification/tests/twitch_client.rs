use botox::irc_parser::{parse_message, IrcMessage};
use botox::queue::Wake;
use botox::tts::{SpeechConfig, Voice, VoiceDB};
use botox::twitch_client::{
    route_message, split_lines, BotSpeechConfig, TwitchBotInfo, TwitchConfig, TwitchEvent,
    TwitchReceiver, TWITCH_MAX_MSG_LINE_LENGTH,
};

fn line(sender: &str, command: &str, destination: &str, payload: &str) -> IrcMessage {
    IrcMessage {
        sender: sender.to_string(),
        command: command.to_string(),
        destination: destination.to_string(),
        payload: payload.to_string(),
    }
}

fn drain(receiver: &mut TwitchReceiver) -> Vec<String> {
    let mut lines = Vec::new();
    while let Some(text) = receiver.recv() {
        lines.push(text);
    }
    lines
}

#[test]
fn short_message_is_one_line() {
    assert_eq!(TWITCH_MAX_MSG_LINE_LENGTH, 400);
    assert_eq!(split_lines("hello   world"), vec!["hello world"]);
    assert_eq!(split_lines(""), Vec::<String>::new());
    assert_eq!(split_lines("  \n "), Vec::<String>::new());
}

#[test]
fn long_message_is_cut_at_four_hundred_bytes() {
    let word = "a".repeat(99);
    let message = vec![word.clone(); 9].join(" ");
    let lines = split_lines(&message);
    assert_eq!(lines.len(), 3);
    assert_eq!(lines[0], vec![word.clone(); 4].join(" "));
    assert_eq!(lines[0].len(), 399);
    assert_eq!(lines[1], lines[0]);
    assert_eq!(lines[2], word);
}

#[test]
fn line_of_exactly_four_hundred_bytes_is_kept() {
    let message = format!("{} {}", "a".repeat(199), "b".repeat(200));
    assert_eq!(split_lines(&message), vec![message.clone()]);
    let longer = format!("{} {}", "a".repeat(200), "b".repeat(200));
    assert_eq!(split_lines(&longer), vec!["a".repeat(200), "b".repeat(200)]);
}

#[test]
fn length_is_counted_in_bytes() {
    let message = format!("{} {}", "é".repeat(100), "é".repeat(100));
    assert_eq!(split_lines(&message), vec!["é".repeat(100), "é".repeat(100)]);
    let fits = format!("{} {}", "é".repeat(100), "é".repeat(99));
    assert_eq!(split_lines(&fits), vec![fits.clone()]);
}

#[test]
fn overlong_word_stands_alone() {
    let long = "x".repeat(450);
    let message = format!("hi {} there you", long);
    assert_eq!(split_lines(&message), vec!["hi".to_string(), long, "there you".to_string()]);
}

#[test]
fn receiver_hands_lines_out_in_order() {
    let mut receiver = TwitchReceiver::new();
    assert_eq!(receiver.len(), 0);
    assert_eq!(receiver.recv(), None);
    assert_eq!(receiver.send_raw("NICK bot"), Wake::All);
    assert_eq!(receiver.send_raw("JOIN #chan"), Wake::All);
    assert_eq!(receiver.len(), 2);
    assert_eq!(receiver.recv(), Some("NICK bot".to_string()));
    assert_eq!(receiver.recv(), Some("JOIN #chan".to_string()));
    assert_eq!(receiver.recv(), None);
}

#[test]
fn privmsg_is_queued_line_by_line() {
    let mut receiver = TwitchReceiver::new();
    receiver.send_raw("first");
    let message = format!("{} {}", "a".repeat(300), "b".repeat(300));
    assert_eq!(receiver.send_privmsg(&message, "#chan"), Wake::All);
    assert_eq!(
        drain(&mut receiver),
        vec![
            "first".to_string(),
            format!("PRIVMSG #chan :{}", "a".repeat(300)),
            format!("PRIVMSG #chan :{}", "b".repeat(300)),
        ]
    );
    assert_eq!(receiver.send_privmsg("", "#chan"), Wake::All);
    assert_eq!(receiver.len(), 0);
}

#[test]
fn whisper_is_queued_line_by_line() {
    let mut receiver = TwitchReceiver::new();
    assert_eq!(receiver.send_whisper("psst  you", "alice"), Wake::All);
    assert_eq!(drain(&mut receiver), vec!["WHISPER alice :psst you"]);
}

#[test]
fn default_config_is_the_anonymous_login() {
    let config = TwitchConfig::default();
    assert_eq!(config.server, "irc.chat.twitch.tv");
    assert_eq!(config.nick, "justinfan69696942");
    assert_eq!(config.channel, "icsboyx");
    assert_eq!(config.auth_token, "1234567890");
    assert_eq!(
        config.irc_cap_req,
        vec!["twitch.tv/commands", "twitch.tv/membership", "twitch.tv/tags"]
    );
    assert_eq!(config.ping_interval, 180);
}

#[test]
fn login_lines_in_order() {
    let mut receiver = TwitchReceiver::new();
    assert_eq!(receiver.send_auth(&TwitchConfig::default()), Wake::All);
    assert_eq!(
        drain(&mut receiver),
        vec![
            "PASS oauth:1234567890",
            "NICK justinfan69696942",
            "CAP REQ :twitch.tv/commands",
            "CAP REQ :twitch.tv/membership",
            "CAP REQ :twitch.tv/tags",
            "JOIN #icsboyx",
        ]
    );
    let bare = TwitchConfig {
        server: "s".to_string(),
        nick: "n".to_string(),
        channel: "c".to_string(),
        auth_token: "t".to_string(),
        irc_cap_req: Vec::new(),
        ping_interval: 1,
    };
    receiver.send_auth(&bare);
    assert_eq!(drain(&mut receiver), vec!["PASS oauth:t", "NICK n", "JOIN #c"]);
}

#[test]
fn ping_is_answered_with_its_payload() {
    let event = route_message(&line("", "PING", "", "tmi.twitch.tv"));
    assert!(matches!(event, TwitchEvent::Pong(ref answer) if answer == "PONG :tmi.twitch.tv"));
}

#[test]
fn die_ends_the_client() {
    assert!(matches!(route_message(&line("bob", "PRIVMSG", "#chan", "!die")), TwitchEvent::Die));
    assert!(matches!(
        route_message(&line("bob", "NOTICE", "#chan", "!die")),
        TwitchEvent::Nothing
    ));
}

#[test]
fn greeting_and_join_tell_name_and_channel() {
    let greeted = route_message(&line("tmi.twitch.tv", "001", "mybot", "Welcome, GLHF!"));
    assert!(matches!(greeted, TwitchEvent::Nickname(ref nick) if nick == "mybot"));
    let joined = route_message(&line("mybot", "JOIN", "#chan", ""));
    assert!(matches!(joined, TwitchEvent::Joined(ref channel) if channel == "#chan"));
}

#[test]
fn chat_is_spoken_unless_it_is_a_command() {
    assert!(matches!(
        route_message(&line("bob", "PRIVMSG", "#chan", "hello all")),
        TwitchEvent::Chat { speak: true }
    ));
    assert!(matches!(
        route_message(&line("bob", "PRIVMSG", "#chan", "!help")),
        TwitchEvent::Chat { speak: false }
    ));
    assert!(matches!(
        route_message(&line("bob", "PRIVMSG", "#chan", "")),
        TwitchEvent::Chat { speak: true }
    ));
    assert!(matches!(
        route_message(&line("bob", "PRIVMSG", "#chan", "!die now")),
        TwitchEvent::Chat { speak: false }
    ));
}

#[test]
fn other_lines_are_passed_over() {
    assert!(matches!(route_message(&line("", "PONG", "", "x")), TwitchEvent::Nothing));
    assert!(matches!(route_message(&line("", "CAP", "*", "ACK")), TwitchEvent::Nothing));
    assert!(matches!(route_message(&line("", "", "", "")), TwitchEvent::Nothing));
    assert!(matches!(route_message(&line("", "ping", "", "x")), TwitchEvent::Nothing));
}

#[test]
fn chat_line_is_taken_apart() {
    let message = parse_message(
        "@badges=;color=#FF0000 :bob!bob@bob.tmi.twitch.tv PRIVMSG #chan :hello : there",
    );
    assert_eq!(message.sender, "bob");
    assert_eq!(message.command, "PRIVMSG");
    assert_eq!(message.destination, "#chan");
    assert_eq!(message.payload, "hello : there");
}

#[test]
fn ping_line_is_taken_apart() {
    let message = parse_message("PING :tmi.twitch.tv\r");
    assert_eq!(message.sender, "");
    assert_eq!(message.command, "PING");
    assert_eq!(message.destination, "");
    assert_eq!(message.payload, "tmi.twitch.tv");
}

#[test]
fn greeting_and_join_lines_are_taken_apart() {
    let greeting = parse_message(":tmi.twitch.tv 001 mybot :Welcome, GLHF!");
    assert_eq!(greeting.sender, "tmi.twitch.tv");
    assert_eq!(greeting.command, "001");
    assert_eq!(greeting.destination, "mybot");
    assert_eq!(greeting.payload, "Welcome, GLHF!");
    let join = parse_message(":mybot!mybot@mybot.tmi.twitch.tv JOIN #chan");
    assert_eq!(join.sender, "mybot");
    assert_eq!(join.command, "JOIN");
    assert_eq!(join.destination, "#chan");
    assert_eq!(join.payload, "");
}

#[test]
fn odd_lines_are_taken_apart_too() {
    let empty = parse_message("");
    assert_eq!(
        (empty.sender, empty.command, empty.destination, empty.payload),
        (String::new(), String::new(), String::new(), String::new())
    );
    let only_tags = parse_message("@a=b");
    assert_eq!(only_tags.command, "");
    let several = parse_message(":srv 353 me = #chan :a b c");
    assert_eq!(several.sender, "srv");
    assert_eq!(several.command, "353");
    assert_eq!(several.destination, "me");
    assert_eq!(several.payload, "a b c");
    let bare = parse_message("CAP * ACK");
    assert_eq!(bare.destination, "*");
    assert_eq!(bare.payload, "");
}

#[test]
fn parsed_line_is_routed() {
    let event = route_message(&parse_message(":bob!bob@bob.tmi.twitch.tv PRIVMSG #chan :!die"));
    assert!(matches!(event, TwitchEvent::Die));
}

fn config(voice_name: &str) -> SpeechConfig {
    SpeechConfig {
        voice_name: voice_name.to_string(),
        audio_format: "fmt".to_string(),
        pitch: 1,
        rate: 2,
        volume: 3,
    }
}

#[test]
fn bot_info_starts_anonymous_and_learns() {
    let mut info = TwitchBotInfo::init(config("v"));
    assert_eq!(info.nick_name(), "justinfan69696942");
    assert_eq!(info.channel(), "icsboyx");
    assert_eq!(info.speech_config().voice_name, "v");
    info.set_nickname("mybot");
    assert_eq!(info.nick_name(), "mybot");
    assert_eq!(info.channel(), "icsboyx");
    info.set_channel("#chan");
    assert_eq!(info.channel(), "#chan");
    assert_eq!(info.nick_name(), "mybot");
    assert_eq!(info.speech_config().volume, 3);
}

fn voice(name: &str, description: &str) -> Voice {
    Voice {
        name: name.to_string(),
        gender: None,
        locale: None,
        suggested_codec: None,
        description: description.to_string(),
    }
}

#[test]
fn bot_voice_is_italian_and_multilingual_if_there_is_one() {
    let voices = VoiceDB::new(vec![
        voice("en", "en-US Neural"),
        voice("it", "it-IT GiuseppeMultilingualNeural"),
        voice("it plain", "it-IT plain"),
    ]);
    for _ in 0..20 {
        assert_eq!(BotSpeechConfig::pick(&voices).speech_config().voice_name, "it");
    }
    let stored = BotSpeechConfig::new(config("kept"));
    assert_eq!(stored.speech_config().voice_name, "kept");
    assert_eq!(stored.speech_config().rate, 2);
}

#[test]
fn bot_voice_is_any_voice_if_none_matches() {
    let voices = VoiceDB::new(vec![voice("a", "x"), voice("b", "y")]);
    for _ in 0..20 {
        let name = BotSpeechConfig::pick(&voices).speech_config().voice_name.clone();
        assert!(name == "a" || name == "b");
    }
}
