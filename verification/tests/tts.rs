use botox::tts::{
    contains_text, remove_url_in_text, speakable_text, spoken_text, voice_msg, SpeechConfig,
    TTSMassage, Voice, VoiceDB, DEFAULT_AUDIO_FORMAT,
};
use botox::twitch_client::TwitchBotInfo;
use botox::users::{User, UserDefaultVoiceConfig, UsersDB};

fn voice(name: &str, gender: Option<&str>, locale: Option<&str>, codec: Option<&str>, description: &str) -> Voice {
    Voice {
        name: name.to_string(),
        gender: gender.map(String::from),
        locale: locale.map(String::from),
        suggested_codec: codec.map(String::from),
        description: description.to_string(),
    }
}

fn sample() -> VoiceDB {
    VoiceDB::new(vec![
        voice("Elsa", Some("Female"), Some("it-IT"), Some("codec-a"), "Voice { name: \"Elsa\", locale: \"it-IT\" }"),
        voice("Guy", Some("Male"), Some("en-US"), None, "Voice { name: \"Guy\", Multilingual, locale: \"en-US\" }"),
        voice("Ava", Some("Female"), Some("en-US"), None, "Voice { name: \"Ava\", MULTILINGUAL, locale: \"en-US\" }"),
        voice("Nemo", None, None, None, "Voice { name: \"Nemo\" }"),
        voice("Remy", Some("Male"), Some("fr-FR"), None, "Voice { name: \"Remy\", Multilingual, locale: \"fr-FR\" }"),
    ])
}

fn names(voices: &VoiceDB) -> Vec<String> {
    voices.list_all_voices()
}

fn texts(items: &[&str]) -> Vec<String> {
    items.iter().map(|item| item.to_string()).collect()
}

#[test]
fn voices_are_listed_by_name() {
    let voices = sample();
    assert_eq!(voices.len(), 5);
    assert_eq!(names(&voices), vec!["Elsa", "Guy", "Ava", "Nemo", "Remy"]);
    assert_eq!(voices.voice(3).unwrap().name, "Nemo");
    assert!(voices.voice(5).is_none());
    assert_eq!(names(&VoiceDB::new(Vec::new())), Vec::<String>::new());
}

#[test]
fn filter_by_text_ignores_letter_case() {
    let voices = sample();
    assert_eq!(names(&voices.filter_voices_by_text(&texts(&["multilingual"]))), vec!["Guy", "Ava", "Remy"]);
    assert_eq!(names(&voices.filter_voices_by_text(&texts(&["MULTI", "en-us"]))), vec!["Guy", "Ava"]);
    assert_eq!(names(&voices.filter_voices_by_text(&texts(&["fr-fr", "multilingual"]))), vec!["Remy"]);
}

#[test]
fn filter_without_match_is_not_applied() {
    let voices = sample();
    assert_eq!(names(&voices.filter_voices_by_text(&texts(&["klingon"]))), names(&voices));
    assert_eq!(names(&voices.filter_voices_by_text(&texts(&["multilingual", "it-it"]))), names(&voices));
    assert_eq!(names(&voices.filter_voices_by_text(&texts(&[]))), names(&voices));
    assert_eq!(names(&voices.filter_voices_by_text(&texts(&[""]))), names(&voices));
    assert_eq!(VoiceDB::new(Vec::new()).filter_voices_by_text(&texts(&["x"])).len(), 0);
}

#[test]
fn filter_by_locale_and_gender() {
    let voices = sample();
    assert_eq!(names(&voices.filter_locale("EN")), vec!["Guy", "Ava"]);
    assert_eq!(names(&voices.filter_locale("it-it")), vec!["Elsa"]);
    assert_eq!(names(&voices.filter_locale("zz")), names(&voices));
    assert_eq!(names(&voices.filter_locale("")), vec!["Elsa", "Guy", "Ava", "Remy"]);
    assert_eq!(names(&voices.filter_gender("female")), vec!["Elsa", "Ava"]);
    assert_eq!(names(&voices.filter_gender("MALE")), vec!["Elsa", "Guy", "Ava", "Remy"]);
    assert_eq!(names(&voices.filter_gender("other")), names(&voices));
}

#[test]
fn locales_are_listed_once_each() {
    assert_eq!(sample().list_all_locales(), vec!["it-IT", "en-US", "fr-FR"]);
    assert_eq!(VoiceDB::new(Vec::new()).list_all_locales(), Vec::<String>::new());
}

#[test]
fn random_voice_is_one_of_the_voices() {
    let voices = sample();
    let all = names(&voices);
    let mut seen = Vec::new();
    for _ in 0..200 {
        let name = voices.random().name.clone();
        assert!(all.contains(&name));
        if !seen.contains(&name) {
            seen.push(name);
        }
    }
    assert!(seen.len() > 1);
    let single = VoiceDB::new(vec![voice("Only", None, None, None, "")]);
    assert_eq!(single.random().name, "Only");
}

#[test]
fn speech_config_of_a_voice() {
    assert_eq!(DEFAULT_AUDIO_FORMAT, "audio-24khz-48kbitrate-mono-mp3");
    let voices = sample();
    let with_codec = voices.voice(0).unwrap().speech_config();
    assert_eq!(with_codec.voice_name, "Elsa");
    assert_eq!(with_codec.audio_format, "codec-a");
    assert_eq!((with_codec.pitch, with_codec.rate, with_codec.volume), (0, 0, 0));
    let without = voices.voice(1).unwrap().speech_config();
    assert_eq!(without.voice_name, "Guy");
    assert_eq!(without.audio_format, "audio-24khz-48kbitrate-mono-mp3");
    assert_eq!((without.pitch, without.rate, without.volume), (0, 0, 0));
}

#[test]
fn contains_text_finds_a_stretch() {
    assert!(contains_text("hello world", "lo w"));
    assert!(contains_text("hello", "hello"));
    assert!(contains_text("hello", ""));
    assert!(contains_text("", ""));
    assert!(contains_text("aab", "ab"));
    assert!(!contains_text("hello", "hellos"));
    assert!(!contains_text("", "a"));
    assert!(!contains_text("abc", "ac"));
}

#[test]
fn links_are_replaced() {
    assert_eq!(remove_url_in_text("see https://example.com/x now"), "see , URL removed, now");
    assert_eq!(remove_url_in_text("www.example.com and ftp://a.b"), ", URL removed, and , URL removed,");
    assert_eq!(remove_url_in_text("go to example.org/page"), "go to , URL removed,");
    assert_eq!(remove_url_in_text("no link here."), "no link here.");
    assert_eq!(remove_url_in_text(""), "");
}

#[test]
fn ampersand_and_percent_are_spelled_out() {
    assert_eq!(spoken_text("you & me"), "you and me");
    assert_eq!(spoken_text("100%"), "100percent");
    assert_eq!(spoken_text("&%&"), "andpercentand");
    assert_eq!(spoken_text("plain"), "plain");
    assert_eq!(spoken_text(""), "");
}

#[test]
fn speakable_text_cleans_links_first() {
    assert_eq!(speakable_text("50% off at https://shop.example/a&b yes"), "50percent off at , URL removed, yes");
    assert_eq!(speakable_text("R&D"), "RandD");
}

#[test]
fn default_message_is_empty() {
    let message = TTSMassage::default();
    assert_eq!(message.payload, "");
    assert_eq!(message.speech_config.voice_name, "");
    assert_eq!(message.speech_config.audio_format, "");
    assert_eq!((message.speech_config.pitch, message.speech_config.rate, message.speech_config.volume), (0, 0, 0));
    let copy = message.clone();
    assert_eq!(copy.payload, "");
}

fn config(voice_name: &str) -> SpeechConfig {
    SpeechConfig { voice_name: voice_name.to_string(), audio_format: "f".to_string(), pitch: 1, rate: 2, volume: 3 }
}

#[test]
fn default_filter_is_multilingual() {
    let defaults = UserDefaultVoiceConfig::default();
    defaults.warm_up();
    assert_eq!(defaults.filter(), Some("multilingual"));
    assert_eq!(defaults.filter_text(), "multilingual");
    let none = UserDefaultVoiceConfig::new(None);
    assert_eq!(none.filter(), None);
    assert_eq!(none.filter_text(), "");
    assert_eq!(UserDefaultVoiceConfig::new(Some("it".to_string())).filter_text(), "it");
}

#[test]
fn new_user_gets_a_filtered_voice() {
    let voices = sample();
    let defaults = UserDefaultVoiceConfig::default();
    for _ in 0..50 {
        let user = User::new("bob", &voices, &defaults);
        assert_eq!(user.nick(), "bob");
        let name = user.get_speech_config().voice_name.clone();
        assert!(name == "Guy" || name == "Ava" || name == "Remy");
        assert_eq!(user.get_speech_config().audio_format, "audio-24khz-48kbitrate-mono-mp3");
    }
    let italian = UserDefaultVoiceConfig::new(Some("IT-it".to_string()));
    let user = User::new("al", &voices, &italian);
    assert_eq!(user.get_speech_config().voice_name, "Elsa");
    assert_eq!(user.get_speech_config().audio_format, "codec-a");
}

#[test]
fn users_are_met_once() {
    let voices = sample();
    let defaults = UserDefaultVoiceConfig::new(Some("fr-fr".to_string()));
    let mut users = UsersDB::new();
    users.warm_up();
    assert_eq!(users.len(), 0);
    assert!(users.find_user("bob").is_none());
    let first = users.get_user("bob", &voices, &defaults);
    assert_eq!(first.nick(), "bob");
    assert_eq!(first.get_speech_config().voice_name, "Remy");
    assert_eq!(users.len(), 1);
    let other = UserDefaultVoiceConfig::new(Some("it-it".to_string()));
    let again = users.get_user("bob", &voices, &other);
    assert_eq!(again.get_speech_config().voice_name, "Remy");
    assert_eq!(users.len(), 1);
    let al = users.get_user("al", &voices, &other);
    assert_eq!(al.get_speech_config().voice_name, "Elsa");
    assert_eq!(users.len(), 2);
    assert_eq!(users.user(0).unwrap().nick(), "bob");
    assert_eq!(users.user(1).unwrap().nick(), "al");
    assert!(users.user(2).is_none());
    assert_eq!(users.find_user("al").unwrap().get_speech_config().voice_name, "Elsa");
}

#[test]
fn update_replaces_or_adds() {
    let voices = sample();
    let defaults = UserDefaultVoiceConfig::new(Some("fr-fr".to_string()));
    let mut users = UsersDB::new();
    users.get_user("bob", &voices, &defaults);
    let updated = users.update_user("bob", config("Custom"));
    assert_eq!(updated.nick(), "bob");
    assert_eq!(updated.get_speech_config().voice_name, "Custom");
    assert_eq!(updated.get_speech_config().volume, 3);
    assert_eq!(users.len(), 1);
    assert_eq!(users.find_user("bob").unwrap().get_speech_config().voice_name, "Custom");
    users.update_user("carl", config("Other"));
    assert_eq!(users.len(), 2);
    assert_eq!(users.user(1).unwrap().nick(), "carl");
    let met_again = users.add_new_user("bob", &voices, &defaults);
    assert_eq!(met_again.get_speech_config().voice_name, "Remy");
    assert_eq!(users.len(), 2);
    assert_eq!(users.user(0).unwrap().get_speech_config().voice_name, "Remy");
    let stored = User::with_config("dora", config("D"));
    assert_eq!(stored.nick(), "dora");
    assert_eq!(stored.clone().get_speech_config().voice_name, "D");
}

#[test]
fn bot_speaks_with_its_own_voice_users_with_theirs() {
    let voices = sample();
    let defaults = UserDefaultVoiceConfig::new(Some("it-it".to_string()));
    let mut users = UsersDB::new();
    let mut bot = TwitchBotInfo::init(config("BotVoice"));
    bot.set_nickname("mybot");
    let own = voice_msg("hello", "mybot", &bot, &mut users, &voices, &defaults);
    assert_eq!(own.payload, "hello");
    assert_eq!(own.speech_config.voice_name, "BotVoice");
    assert_eq!(users.len(), 0);
    let theirs = voice_msg("hi bot", "bob", &bot, &mut users, &voices, &defaults);
    assert_eq!(theirs.payload, "hi bot");
    assert_eq!(theirs.speech_config.voice_name, "Elsa");
    assert_eq!(users.len(), 1);
    users.update_user("bob", config("Chosen"));
    let later = voice_msg("again", "bob", &bot, &mut users, &voices, &defaults);
    assert_eq!(later.speech_config.voice_name, "Chosen");
    assert_eq!(users.len(), 1);
}

#[test]
fn known_user_needs_no_voice_to_choose() {
    let voices = sample();
    let defaults = UserDefaultVoiceConfig::default();
    let none = VoiceDB::new(Vec::new());
    let mut users = UsersDB::new();
    users.update_user("bob", config("Kept"));
    let bob = users.get_user("bob", &none, &defaults);
    assert_eq!(bob.get_speech_config().voice_name, "Kept");
    assert_eq!(users.len(), 1);
    let bot = TwitchBotInfo::init(config("BotVoice"));
    let own = voice_msg("hi", "justinfan69696942", &bot, &mut users, &none, &defaults);
    assert_eq!(own.speech_config.voice_name, "BotVoice");
    let theirs = voice_msg("hi", "bob", &bot, &mut users, &none, &defaults);
    assert_eq!(theirs.speech_config.voice_name, "Kept");
    let new = voice_msg("hi", "carl", &bot, &mut users, &voices, &defaults);
    assert!(["Guy", "Ava", "Remy"].contains(&new.speech_config.voice_name.as_str()));
    assert_eq!(users.len(), 2);
}
