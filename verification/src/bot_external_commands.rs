//! Commands that are defined by data: a trigger, perhaps other names for
//! it, a text to answer with and perhaps a sound to play.

use crate::bot_commands::{
    distinct_triggers, law_registered_keeps_distinct, lemma_position_found, lemma_position_missing,
    position_of, registered,
};
use crate::text::{
    after_first_space, copy_of_texts, replace_text, replaced, rest_after_space, same_text,
};
use vstd::prelude::*;
use vstd::string::*;

verus! {

/// The name of the file that holds the commands.
pub const EXTERNAL_COMMANDS_FILE: &'static str = "ExternalBotCommands.toml";

/// The model of an [`ExternalBotCommand`].
pub struct ExternalCommandView {
    /// The trigger.
    pub activation_pattern: Seq<char>,
    /// Other triggers for the same command, if any.
    pub aliases: Option<Seq<Seq<char>>>,
    /// Whether the command takes an argument.
    pub need_arg: bool,
    /// Where the sound to play is found; empty for none.
    pub custom_audio_url: Seq<char>,
    /// The text to answer with, with `{ARG}` or `{SENDER}` for what the
    /// answer fills in.
    pub replay_text: Seq<char>,
}

/// A command defined by data.
#[derive(Debug)]
pub struct ExternalBotCommand {
    /// The trigger.
    pub activation_pattern: String,
    /// Other triggers for the same command, if any.
    pub aliases: Option<Vec<String>>,
    /// Whether the command takes an argument.
    pub need_arg: bool,
    /// Where the sound to play is found; empty for none.
    pub custom_audio_url: String,
    /// The text to answer with, with `{ARG}` or `{SENDER}` for what the
    /// answer fills in.
    pub replay_text: String,
}

impl View for ExternalBotCommand {
    type V = ExternalCommandView;

    open spec fn view(&self) -> ExternalCommandView {
        ExternalCommandView {
            activation_pattern: self.activation_pattern@,
            aliases: match self.aliases {
                Some(names) => Some(names.deep_view()),
                None => None,
            },
            need_arg: self.need_arg,
            custom_audio_url: self.custom_audio_url@,
            replay_text: self.replay_text@,
        }
    }
}

impl Clone for ExternalBotCommand {
    fn clone(&self) -> (copy: Self)
        ensures
            copy@ == self@,
    {
        ExternalBotCommand {
            activation_pattern: self.activation_pattern.clone(),
            aliases: match &self.aliases {
                Some(names) => Some(copy_of_texts(names)),
                None => None,
            },
            need_arg: self.need_arg,
            custom_audio_url: self.custom_audio_url.clone(),
            replay_text: self.replay_text.clone(),
        }
    }
}

impl ExternalCommandView {
    /// The triggers that the command answers to: its activation pattern
    /// and then its aliases. A command without activation pattern answers
    /// to nothing, whatever its aliases.
    pub open spec fn triggers(self) -> Seq<Seq<char>> {
        if self.activation_pattern.len() == 0 {
            Seq::empty()
        } else {
            match self.aliases {
                Some(names) => seq![self.activation_pattern] + names,
                None => seq![self.activation_pattern],
            }
        }
    }

    /// The text that the command answers with to the chat message
    /// `payload` of `sender`. A command that takes an argument fills what
    /// follows the message's first space in for `{ARG}`, and asks for an
    /// argument where the message holds no space; any other command fills
    /// the sender in for `{SENDER}`.
    pub open spec fn reply(self, payload: Seq<char>, sender: Seq<char>) -> Seq<char> {
        if self.need_arg {
            match after_first_space(payload) {
                Some(argument) => replaced(self.replay_text, "{ARG}"@, argument),
                None => "Hey @"@ + sender + ", you need to provide an argument for !"@
                    + self.activation_pattern + " command"@,
            }
        } else {
            replaced(self.replay_text, "{SENDER}"@, sender)
        }
    }
}

impl ExternalBotCommand {
    /// The triggers that the command is registered under.
    pub fn triggers(&self) -> (names: Vec<String>)
        ensures
            names.deep_view() == self@.triggers(),
    {
        let mut names: Vec<String> = Vec::new();
        if self.activation_pattern.as_str().unicode_len() == 0 {
            assert(names.deep_view() =~= Seq::<Seq<char>>::empty());
            return names;
        }
        names.push(self.activation_pattern.clone());
        match &self.aliases {
            Some(aliases) => {
                let mut i: usize = 0;
                assert(names.deep_view() =~= seq![self.activation_pattern@]
                    + aliases.deep_view().take(0));
                while i < aliases.len()
                    invariant
                        i <= aliases@.len(),
                        names.deep_view() == seq![self.activation_pattern@]
                            + aliases.deep_view().take(i as int),
                    decreases aliases@.len() - i,
                {
                    let ghost before = names.deep_view();
                    names.push(aliases[i].clone());
                    assert(names.deep_view() =~= before.push(aliases@[i as int]@));
                    assert(aliases.deep_view().take(i + 1) =~= aliases.deep_view().take(
                        i as int,
                    ).push(aliases@[i as int]@));
                    assert(names.deep_view() =~= seq![self.activation_pattern@]
                        + aliases.deep_view().take(i + 1));
                    i = i + 1;
                }
                assert(aliases.deep_view().take(aliases@.len() as int) =~= aliases.deep_view());
            },
            None => {
                assert(names.deep_view() =~= seq![self.activation_pattern@]);
            },
        }
        names
    }

    /// Whether the command plays a sound before it answers.
    pub fn has_audio(&self) -> (yes: bool)
        ensures
            yes == (self@.custom_audio_url.len() > 0),
    {
        self.custom_audio_url.as_str().unicode_len() > 0
    }

    /// The text that the command answers with to the chat message
    /// `payload` of `sender`.
    pub fn reply(&self, payload: &str, sender: &str) -> (text: String)
        ensures
            text@ == self@.reply(payload@, sender@),
    {
        if self.need_arg {
            match rest_after_space(payload) {
                Some(argument) => replace_text(
                    self.replay_text.as_str(),
                    "{ARG}",
                    argument.as_str(),
                ),
                None => {
                    let mut text = String::from_str("Hey @");
                    text.append(sender);
                    text.append(", you need to provide an argument for !");
                    text.append(self.activation_pattern.as_str());
                    text.append(" command");
                    text
                },
            }
        } else {
            replace_text(self.replay_text.as_str(), "{SENDER}", sender)
        }
    }
}

/// The registrations that a list of named commands asks for: for each
/// command in turn, each of its triggers with the command.
pub open spec fn registrations_of(commands: Seq<(Seq<char>, ExternalCommandView)>) -> Seq<
    (Seq<char>, ExternalCommandView),
>
    decreases commands.len(),
{
    if commands.len() == 0 {
        Seq::empty()
    } else {
        let command = commands.last().1;
        registrations_of(commands.drop_last()) + Seq::new(
            command.triggers().len(),
            |i: int| (command.triggers()[i], command),
        )
    }
}

/// The commands that a list of named commands comes to when each is stored
/// under its name in turn: a command stored under a name that is there
/// already takes the place of the one before, so that no name stands twice.
pub open spec fn collected(entries: Seq<(Seq<char>, ExternalCommandView)>) -> Seq<
    (Seq<char>, ExternalCommandView),
>
    decreases entries.len(),
{
    if entries.len() == 0 {
        Seq::empty()
    } else {
        registered(collected(entries.drop_last()), entries.last().0, entries.last().1)
    }
}

/// The names with the views of the commands of a list.
pub open spec fn named(entries: Seq<(String, ExternalBotCommand)>) -> Seq<
    (Seq<char>, ExternalCommandView),
> {
    Seq::new(entries.len(), |i: int| (entries[i].0@, entries[i].1@))
}

/// No name stands twice in what a list comes to, and a list in which no
/// name stands twice comes to itself.
pub proof fn law_collected_is_distinct(entries: Seq<(Seq<char>, ExternalCommandView)>)
    ensures
        distinct_triggers(collected(entries)),
        distinct_triggers(entries) ==> collected(entries) == entries,
    decreases entries.len(),
{
    if entries.len() > 0 {
        let earlier = entries.drop_last();
        law_collected_is_distinct(earlier);
        law_registered_keeps_distinct(collected(earlier), entries.last().0, entries.last().1);
        if distinct_triggers(entries) {
            assert forall|i: int, j: int| 0 <= i < j < earlier.len() implies (
            #[trigger] earlier[i]).0 != (#[trigger] earlier[j]).0 by {
                assert(earlier[i] == entries[i]);
                assert(earlier[j] == entries[j]);
            }
            assert forall|k: int| 0 <= k < earlier.len() implies (#[trigger] earlier[k]).0
                != entries.last().0 by {
                assert(earlier[k] == entries[k]);
                assert(entries.last() == entries[entries.len() - 1]);
            }
            lemma_position_missing(earlier, entries.last().0);
            assert(earlier.push(entries.last()) =~= entries);
        }
    }
}

/// The commands defined by data, each under its name. No name stands
/// twice.
#[derive(Debug)]
pub struct ExternalBotCommands {
    commands: Vec<(String, ExternalBotCommand)>,
}

impl View for ExternalBotCommands {
    type V = Seq<(Seq<char>, ExternalCommandView)>;

    closed spec fn view(&self) -> Seq<(Seq<char>, ExternalCommandView)> {
        Seq::new(self.commands@.len(), |i: int| (self.commands@[i].0@, self.commands@[i].1@))
    }
}

/// The command `test` that every fresh installation has.
pub open spec fn default_test() -> ExternalCommandView {
    ExternalCommandView {
        activation_pattern: "test"@,
        aliases: None,
        need_arg: false,
        custom_audio_url: ""@,
        replay_text: "Hi there {SENDER} this is the reply to your test command"@,
    }
}

/// The command `meow` that every fresh installation has.
pub open spec fn default_meow() -> ExternalCommandView {
    ExternalCommandView {
        activation_pattern: "meow"@,
        aliases: Some(seq!["cat"@]),
        need_arg: false,
        custom_audio_url: "https://www.myinstants.com/media/sounds/m-e-o-w.mp3"@,
        replay_text: ""@,
    }
}

/// The command `for_president` that every fresh installation has.
pub open spec fn default_for_president() -> ExternalCommandView {
    ExternalCommandView {
        activation_pattern: "for_president"@,
        aliases: None,
        need_arg: true,
        custom_audio_url: ""@,
        replay_text: "{ARG} for President!"@,
    }
}

impl Default for ExternalBotCommands {
    /// The three commands of a fresh installation.
    fn default() -> (all: Self)
        ensures
            all@ == seq![
                ("test"@, default_test()),
                ("meow"@, default_meow()),
                ("for_president"@, default_for_president()),
            ],
            distinct_triggers(all@),
    {
        proof {
            reveal_strlit("test");
            reveal_strlit("meow");
            reveal_strlit("for_president");
            assert("test"@[0] == 't' && "meow"@[0] == 'm' && "for_president"@[0] == 'f');
        }
        let cmd_test = ExternalBotCommand {
            activation_pattern: String::from_str("test"),
            aliases: None,
            need_arg: false,
            custom_audio_url: String::from_str(""),
            replay_text: String::from_str(
                "Hi there {SENDER} this is the reply to your test command",
            ),
        };
        let mut cat: Vec<String> = Vec::new();
        cat.push(String::from_str("cat"));
        assert(cat.deep_view() =~= seq!["cat"@]);
        let cmd_meow = ExternalBotCommand {
            activation_pattern: String::from_str("meow"),
            aliases: Some(cat),
            need_arg: false,
            custom_audio_url: String::from_str(
                "https://www.myinstants.com/media/sounds/m-e-o-w.mp3",
            ),
            replay_text: String::from_str(""),
        };
        let cmd_for_president = ExternalBotCommand {
            activation_pattern: String::from_str("for_president"),
            aliases: None,
            need_arg: true,
            custom_audio_url: String::from_str(""),
            replay_text: String::from_str("{ARG} for President!"),
        };
        let mut commands: Vec<(String, ExternalBotCommand)> = Vec::new();
        commands.push((String::from_str("test"), cmd_test));
        commands.push((String::from_str("meow"), cmd_meow));
        commands.push((String::from_str("for_president"), cmd_for_president));
        let all = ExternalBotCommands { commands };
        assert(all@ =~= seq![
            ("test"@, default_test()),
            ("meow"@, default_meow()),
            ("for_president"@, default_for_president()),
        ]);
        all
    }
}

impl ExternalBotCommands {
    /// The commands of `commands`, each stored under its name in turn. A
    /// list in which no name stands twice is taken as it is; of two
    /// commands under one name the later takes the place of the earlier.
    pub fn new(commands: Vec<(String, ExternalBotCommand)>) -> (all: Self)
        ensures
            all@ == collected(named(commands@)),
            distinct_triggers(all@),
            distinct_triggers(named(commands@)) ==> all@ == named(commands@),
    {
        let mut kept: Vec<(String, ExternalBotCommand)> = Vec::new();
        let mut i: usize = 0;
        assert(named(commands@).take(0) =~= Seq::<(Seq<char>, ExternalCommandView)>::empty());
        assert(named(kept@) =~= Seq::<(Seq<char>, ExternalCommandView)>::empty());
        while i < commands.len()
            invariant
                i <= commands@.len(),
                named(kept@) == collected(named(commands@).take(i as int)),
            decreases commands@.len() - i,
        {
            let ghost before = named(kept@);
            let ghost taken = named(commands@).take(i + 1);
            assert(taken.drop_last() =~= named(commands@).take(i as int));
            assert(taken.last() == (commands@[i as int].0@, commands@[i as int].1@));
            let name = commands[i].0.clone();
            let command = commands[i].1.clone();
            let mut at: usize = 0;
            while at < kept.len() && !same_text(kept[at].0.as_str(), name.as_str())
                invariant
                    at <= kept@.len(),
                    before == named(kept@),
                    forall|k: int| 0 <= k < at ==> (#[trigger] before[k]).0 != name@,
                decreases kept@.len() - at,
            {
                assert(before[at as int].0 == kept@[at as int].0@);
                at = at + 1;
            }
            if at < kept.len() {
                proof {
                    assert(before[at as int].0 == kept@[at as int].0@);
                    lemma_position_found(before, name@, at as int);
                }
                kept[at] = (name, command);
                assert(named(kept@) =~= before.update(at as int, (name@, command@)));
            } else {
                proof {
                    lemma_position_missing(before, name@);
                }
                kept.push((name, command));
                assert(named(kept@) =~= before.push((name@, command@)));
            }
            i = i + 1;
        }
        assert(named(commands@).take(commands@.len() as int) =~= named(commands@));
        proof {
            law_collected_is_distinct(named(commands@));
        }
        let all = ExternalBotCommands { commands: kept };
        assert(all@ =~= named(kept@));
        all
    }

    /// The number of commands.
    pub fn len(&self) -> (n: usize)
        ensures
            n == self@.len(),
    {
        self.commands.len()
    }

    /// The name and the command at `index`, if there is one.
    pub fn entry(&self, index: usize) -> (entry: Option<(&str, &ExternalBotCommand)>)
        ensures
            match entry {
                Some((name, command)) => index < self@.len() && (name@, command@)
                    == self@[index as int],
                None => index >= self@.len(),
            },
    {
        if index < self.commands.len() {
            Some((self.commands[index].0.as_str(), &self.commands[index].1))
        } else {
            None
        }
    }

    /// The registrations that the commands ask for: each trigger with a
    /// copy of its command, in the order of the commands. The driver turns
    /// each into a handler and registers it.
    pub fn reg_ext_bot_cmd(&self) -> (registrations: Vec<(String, ExternalBotCommand)>)
        ensures
            Seq::new(
                registrations@.len(),
                |i: int| (registrations@[i].0@, registrations@[i].1@),
            ) == registrations_of(self@),
    {
        let mut registrations: Vec<(String, ExternalBotCommand)> = Vec::new();
        let mut i: usize = 0;
        assert(self@.take(0) =~= Seq::<(Seq<char>, ExternalCommandView)>::empty());
        assert(Seq::new(
            registrations@.len(),
            |k: int| (registrations@[k].0@, registrations@[k].1@),
        ) =~= registrations_of(self@.take(0)));
        while i < self.commands.len()
            invariant
                i <= self.commands@.len(),
                Seq::new(
                    registrations@.len(),
                    |k: int| (registrations@[k].0@, registrations@[k].1@),
                ) == registrations_of(self@.take(i as int)),
            decreases self.commands@.len() - i,
        {
            let command = &self.commands[i].1;
            let names = command.triggers();
            let ghost start = Seq::new(
                registrations@.len(),
                |k: int| (registrations@[k].0@, registrations@[k].1@),
            );
            let ghost own = Seq::new(
                command@.triggers().len(),
                |k: int| (command@.triggers()[k], command@),
            );
            let mut j: usize = 0;
            assert(start =~= start + own.take(0));
            while j < names.len()
                invariant
                    j <= names@.len(),
                    names.deep_view() == command@.triggers(),
                    own == Seq::new(
                        command@.triggers().len(),
                        |k: int| (command@.triggers()[k], command@),
                    ),
                    Seq::new(
                        registrations@.len(),
                        |k: int| (registrations@[k].0@, registrations@[k].1@),
                    ) == start + own.take(j as int),
                decreases names@.len() - j,
            {
                let ghost before = Seq::new(
                    registrations@.len(),
                    |k: int| (registrations@[k].0@, registrations@[k].1@),
                );
                let pair = (names[j].clone(), command.clone());
                assert(names.deep_view()[j as int] == names@[j as int]@);
                assert((pair.0@, pair.1@) == own[j as int]);
                registrations.push(pair);
                assert(Seq::new(
                    registrations@.len(),
                    |k: int| (registrations@[k].0@, registrations@[k].1@),
                ) =~= before.push(own[j as int]));
                assert(own.take(j + 1) =~= own.take(j as int).push(own[j as int]));
                assert(before.push(own[j as int]) =~= start + own.take(j + 1));
                j = j + 1;
            }
            proof {
                assert(own.take(names@.len() as int) =~= own);
                let taken = self@.take(i + 1);
                assert(taken.drop_last() =~= self@.take(i as int));
                assert(taken.last() == self@[i as int]);
                assert(taken.last().1 == command@);
            }
            i = i + 1;
        }
        assert(self@.take(self@.len() as int) =~= self@);
        registrations
    }
}

} // verus!
