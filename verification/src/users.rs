//! The chat users that the bot has met, each with the voice that speaks
//! for it.

use crate::bot_commands::{
    distinct_triggers, law_registered_keeps_distinct, lemma_position_found, lemma_position_missing,
    position_of, registered,
};
use crate::text::same_text;
use crate::tts::{
    law_filter_leaves_a_voice, selected_by_text, speech_config_of, SpeechConfig, SpeechConfigView,
    VoiceDB,
};
use vstd::prelude::*;
use vstd::string::*;

verus! {

/// The filter by which a new user's voice is chosen.
#[derive(Debug)]
pub struct UserDefaultVoiceConfig {
    filter: Option<String>,
}

impl View for UserDefaultVoiceConfig {
    type V = Option<Seq<char>>;

    closed spec fn view(&self) -> Option<Seq<char>> {
        match self.filter {
            Some(text) => Some(text@),
            None => None,
        }
    }
}

/// The text that a filter searches for: its own, or the empty text where
/// it has none.
pub open spec fn filter_text_of(filter: Option<Seq<char>>) -> Seq<char> {
    match filter {
        Some(text) => text,
        None => Seq::empty(),
    }
}

impl Default for UserDefaultVoiceConfig {
    /// The filter for voices that speak many languages.
    fn default() -> (config: Self)
        ensures
            config@ == Some("multilingual"@),
    {
        UserDefaultVoiceConfig { filter: Some(String::from_str("multilingual")) }
    }
}

impl UserDefaultVoiceConfig {
    /// A configuration with this filter.
    pub fn new(filter: Option<String>) -> (config: Self)
        ensures
            config@ == match filter {
                Some(text) => Some(text@),
                None => None,
            },
    {
        UserDefaultVoiceConfig { filter }
    }

    /// Nothing to prepare: the configuration is ready once it exists.
    pub fn warm_up(&self) {
    }

    /// The filter, if one is set.
    pub fn filter(&self) -> (filter: Option<&str>)
        ensures
            match filter {
                Some(text) => self@ == Some(text@),
                None => self@ is None,
            },
    {
        match &self.filter {
            Some(text) => Some(text.as_str()),
            None => None,
        }
    }

    /// The text to filter the voices by: the filter, or the empty text
    /// where none is set.
    pub fn filter_text(&self) -> (text: String)
        ensures
            text@ == filter_text_of(self@),
    {
        match &self.filter {
            Some(text) => text.clone(),
            None => String::new(),
        }
    }
}

/// A chat user. Its view is the pair of its nick name and its speech
/// configuration.
#[derive(Debug)]
pub struct User {
    nick: String,
    speech_config: SpeechConfig,
}

impl View for User {
    type V = (Seq<char>, SpeechConfigView);

    closed spec fn view(&self) -> (Seq<char>, SpeechConfigView) {
        (self.nick@, self.speech_config@)
    }
}

impl Clone for User {
    fn clone(&self) -> (copy: Self)
        ensures
            copy@ == self@,
    {
        User { nick: self.nick.clone(), speech_config: self.speech_config.clone() }
    }
}

/// Whether `config` is the speech configuration of one of the voices that
/// the filter of new users leaves of `voices`.
pub open spec fn is_choice_for_new_user(
    config: SpeechConfigView,
    voices: Seq<crate::tts::VoiceView>,
    filter: Option<Seq<char>>,
) -> bool {
    exists|i: int|
        0 <= i < selected_by_text(voices, seq![filter_text_of(filter)]).len() && config
            == speech_config_of(#[trigger] selected_by_text(voices, seq![filter_text_of(filter)])[i])
}

impl User {
    /// The user `nick` with the speech configuration `speech_config`.
    pub fn with_config(nick: &str, speech_config: SpeechConfig) -> (user: Self)
        ensures
            user@ == (nick@, speech_config@),
    {
        User { nick: String::from_str(nick), speech_config }
    }

    /// A new user `nick`. Its voice is chosen at random among the voices
    /// that the filter of `defaults` leaves. There has to be a voice to
    /// choose.
    pub fn new(nick: &str, voices: &VoiceDB, defaults: &UserDefaultVoiceConfig) -> (user: Self)
        requires
            voices@.len() > 0,
        ensures
            user@.0 == nick@,
            is_choice_for_new_user(user@.1, voices@, defaults@),
    {
        let mut filter: Vec<String> = Vec::new();
        filter.push(defaults.filter_text());
        assert(filter.deep_view() =~= seq![filter_text_of(defaults@)]);
        let chosen = voices.filter_voices_by_text(&filter);
        proof {
            law_filter_leaves_a_voice(
                voices@,
                |voice: crate::tts::VoiceView|
                    crate::tts::matches_text(voice, seq![filter_text_of(defaults@)]),
            );
        }
        let voice = chosen.random();
        User { nick: String::from_str(nick), speech_config: voice.speech_config() }
    }

    /// The nick name.
    pub fn nick(&self) -> (nick: &str)
        ensures
            nick@ == self@.0,
    {
        self.nick.as_str()
    }

    /// The speech configuration.
    pub fn get_speech_config(&self) -> (config: &SpeechConfig)
        ensures
            config@ == self@.1,
    {
        &self.speech_config
    }
}

/// The users that the bot has met. Its view is the sequence of the users
/// as pairs of nick name and speech configuration, in the order in which
/// they were met. No nick name stands twice: every method keeps it so.
#[derive(Debug)]
pub struct UsersDB {
    users: Vec<User>,
}

impl View for UsersDB {
    type V = Seq<(Seq<char>, SpeechConfigView)>;

    closed spec fn view(&self) -> Seq<(Seq<char>, SpeechConfigView)> {
        Seq::new(self.users@.len(), |i: int| self.users@[i]@)
    }
}

impl UsersDB {
    /// No user yet.
    pub fn new() -> (db: Self)
        ensures
            db@ == Seq::<(Seq<char>, SpeechConfigView)>::empty(),
            distinct_triggers(db@),
    {
        let db = UsersDB { users: Vec::new() };
        assert(db@ =~= Seq::<(Seq<char>, SpeechConfigView)>::empty());
        db
    }

    /// Nothing to prepare: the users are ready once they are loaded.
    pub fn warm_up(&self) {
    }

    /// The number of users.
    pub fn len(&self) -> (n: usize)
        ensures
            n == self@.len(),
    {
        self.users.len()
    }

    /// The user at `index`, if there is one.
    pub fn user(&self, index: usize) -> (user: Option<&User>)
        ensures
            match user {
                Some(found) => index < self@.len() && found@ == self@[index as int],
                None => index >= self@.len(),
            },
    {
        if index < self.users.len() {
            Some(&self.users[index])
        } else {
            None
        }
    }

    /// The place of the user `nick`, if the bot has met it.
    fn find(&self, nick: &str) -> (at: Option<usize>)
        ensures
            match at {
                Some(i) => position_of(self@, nick@) == Some(i as int) && i < self@.len(),
                None => position_of(self@, nick@) is None,
            },
    {
        let mut i: usize = 0;
        while i < self.users.len()
            invariant
                i <= self.users@.len(),
                forall|k: int| 0 <= k < i ==> (#[trigger] self@[k]).0 != nick@,
            decreases self.users@.len() - i,
        {
            if same_text(self.users[i].nick(), nick) {
                proof {
                    lemma_position_found(self@, nick@, i as int);
                }
                return Some(i);
            }
            assert(self@[i as int] == self.users@[i as int]@);
            i = i + 1;
        }
        proof {
            lemma_position_missing(self@, nick@);
        }
        None
    }

    /// The user `nick`, if the bot has met it.
    pub fn find_user(&self, nick: &str) -> (user: Option<&User>)
        ensures
            match position_of(self@, nick@) {
                Some(at) => user is Some && user->Some_0@ == self@[at],
                None => user is None,
            },
    {
        match self.find(nick) {
            Some(at) => Some(&self.users[at]),
            None => None,
        }
    }

    /// Stores `nick` with `speech_config`, in the place of what was stored
    /// for `nick` before or behind the users that are there.
    fn store(&mut self, nick: &str, speech_config: SpeechConfig) -> (user: User)
        ensures
            user@ == (nick@, speech_config@),
            final(self)@ == registered(old(self)@, nick@, speech_config@),
            distinct_triggers(old(self)@) ==> distinct_triggers(final(self)@),
    {
        proof {
            if distinct_triggers(old(self)@) {
                law_registered_keeps_distinct(old(self)@, nick@, speech_config@);
            }
        }
        let user = User::with_config(nick, speech_config);
        let copy = user.clone();
        match self.find(nick) {
            Some(at) => {
                self.users[at] = user;
                assert(self@ =~= old(self)@.update(at as int, (nick@, speech_config@)));
            },
            None => {
                self.users.push(user);
                assert(self@ =~= old(self)@.push((nick@, speech_config@)));
            },
        }
        copy
    }

    /// Meets the user `nick`: chooses a voice for it as [`User::new`] does
    /// and stores it, in the place of what was stored for `nick` before.
    /// Returns the user as stored.
    pub fn add_new_user(
        &mut self,
        nick: &str,
        voices: &VoiceDB,
        defaults: &UserDefaultVoiceConfig,
    ) -> (user: User)
        requires
            voices@.len() > 0,
        ensures
            user@.0 == nick@,
            is_choice_for_new_user(user@.1, voices@, defaults@),
            final(self)@ == registered(old(self)@, nick@, user@.1),
            distinct_triggers(old(self)@) ==> distinct_triggers(final(self)@),
    {
        let fresh = User::new(nick, voices, defaults);
        self.store(nick, fresh.get_speech_config().clone())
    }

    /// Gives the user `nick` the speech configuration `speech_config`,
    /// whether the bot has met it or not. Returns the user as stored.
    pub fn update_user(&mut self, nick: &str, speech_config: SpeechConfig) -> (user: User)
        ensures
            user@ == (nick@, speech_config@),
            final(self)@ == registered(old(self)@, nick@, speech_config@),
            distinct_triggers(old(self)@) ==> distinct_triggers(final(self)@),
    {
        self.store(nick, speech_config)
    }

    /// The user `nick`: as stored where the bot has met it, and nothing
    /// changes; met now, as [`UsersDB::add_new_user`] does it, where not.
    /// Only a user that is met now needs a voice to choose.
    pub fn get_user(&mut self, nick: &str, voices: &VoiceDB, defaults: &UserDefaultVoiceConfig) -> (user:
        User)
        requires
            position_of(old(self)@, nick@) is None ==> voices@.len() > 0,
        ensures
            distinct_triggers(old(self)@) ==> distinct_triggers(final(self)@),
            match position_of(old(self)@, nick@) {
                Some(at) => user@ == old(self)@[at] && final(self)@ == old(self)@,
                None => {
                    &&& user@.0 == nick@
                    &&& is_choice_for_new_user(user@.1, voices@, defaults@)
                    &&& final(self)@ == old(self)@.push(user@)
                },
            },
    {
        match self.find(nick) {
            Some(at) => self.users[at].clone(),
            None => self.add_new_user(nick, voices, defaults),
        }
    }
}

} // verus!
