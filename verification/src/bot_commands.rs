//! The registry of chat commands: which handler answers to which trigger,
//! and which trigger a chat message calls for.

use crate::text::{chars_of, has_prefix, starts_with, string_of, words, words_of};
use vstd::prelude::*;
use vstd::string::*;

verus! {

/// The character that a chat message starts with when it is a command.
pub const BOT_COMMAND_PREFIX: char = '!';

/// The first entry of `entries` whose trigger is `trigger`, if there is one.
pub open spec fn position_of<H>(entries: Seq<(Seq<char>, H)>, trigger: Seq<char>) -> Option<int>
    decreases entries.len(),
{
    if entries.len() == 0 {
        None
    } else if entries[0].0 == trigger {
        Some(0int)
    } else {
        match position_of(entries.drop_first(), trigger) {
            Some(at) => Some(at + 1),
            None => None,
        }
    }
}

/// Whether no trigger stands twice in `entries`.
pub open spec fn distinct_triggers<H>(entries: Seq<(Seq<char>, H)>) -> bool {
    forall|i: int, j: int|
        0 <= i < j < entries.len() ==> (#[trigger] entries[i]).0 != (#[trigger] entries[j]).0
}

/// The entries after `command` was registered for `trigger`: in the place
/// of the handler that answered to the trigger before, or at the end where
/// there was none.
pub open spec fn registered<H>(entries: Seq<(Seq<char>, H)>, trigger: Seq<char>, command: H) -> Seq<
    (Seq<char>, H),
> {
    match position_of(entries, trigger) {
        Some(at) => entries.update(at, (trigger, command)),
        None => entries.push((trigger, command)),
    }
}

/// `text` without the command prefixes at its start.
pub open spec fn without_prefixes(text: Seq<char>) -> Seq<char>
    decreases text.len(),
{
    if text.len() > 0 && text[0] == BOT_COMMAND_PREFIX {
        without_prefixes(text.drop_first())
    } else {
        text
    }
}

/// The trigger that a chat message calls for: the first word of a message
/// that starts with the command prefix, without the prefixes at the word's
/// start. Any other message calls for none.
pub open spec fn command_in(payload: Seq<char>) -> Option<Seq<char>> {
    if starts_with(payload, seq![BOT_COMMAND_PREFIX]) {
        Some(without_prefixes(words_of(payload)[0]))
    } else {
        None
    }
}

/// A message that starts with the command prefix has a first word.
pub proof fn lemma_command_has_a_word(payload: Seq<char>)
    requires
        starts_with(payload, seq![BOT_COMMAND_PREFIX]),
    ensures
        words_of(payload).len() > 0,
{
    assert(payload.take(1)[0] == BOT_COMMAND_PREFIX);
    assert(payload[0] == BOT_COMMAND_PREFIX);
    assert(BOT_COMMAND_PREFIX as u32 == 0x21);
    assert(!crate::text::is_white_space(payload[0]));
}

/// The texts of `parts` with `separator` between each two.
pub open spec fn joined(parts: Seq<Seq<char>>, separator: Seq<char>) -> Seq<char>
    decreases parts.len(),
{
    if parts.len() == 0 {
        Seq::empty()
    } else if parts.len() == 1 {
        parts[0]
    } else {
        joined(parts.drop_last(), separator) + separator + parts.last()
    }
}

/// `position_of` finds a place within the entries that holds the trigger,
/// and none before it does; it finds none only where no entry holds it.
pub proof fn lemma_position_of<H>(entries: Seq<(Seq<char>, H)>, trigger: Seq<char>)
    ensures
        match position_of(entries, trigger) {
            Some(at) => {
                &&& 0 <= at < entries.len()
                &&& entries[at].0 == trigger
                &&& forall|k: int| 0 <= k < at ==> (#[trigger] entries[k]).0 != trigger
            },
            None => forall|k: int| 0 <= k < entries.len() ==> (#[trigger] entries[k]).0 != trigger,
        },
    decreases entries.len(),
{
    if entries.len() > 0 && entries[0].0 != trigger {
        let rest = entries.drop_first();
        lemma_position_of(rest, trigger);
        match position_of(rest, trigger) {
            Some(at) => {
                assert forall|k: int| 0 <= k < at + 1 implies (#[trigger] entries[k]).0
                    != trigger by {
                    if k > 0 {
                        assert(entries[k] == rest[k - 1]);
                    }
                }
            },
            None => {
                assert forall|k: int| 0 <= k < entries.len() implies (#[trigger] entries[k]).0
                    != trigger by {
                    if k > 0 {
                        assert(entries[k] == rest[k - 1]);
                    }
                }
            },
        }
    }
}

/// The first place that holds the trigger is what `position_of` finds.
pub proof fn lemma_position_found<H>(entries: Seq<(Seq<char>, H)>, trigger: Seq<char>, at: int)
    requires
        0 <= at < entries.len(),
        entries[at].0 == trigger,
        forall|k: int| 0 <= k < at ==> (#[trigger] entries[k]).0 != trigger,
    ensures
        position_of(entries, trigger) == Some(at),
{
    lemma_position_of(entries, trigger);
}

/// Where no place holds the trigger, `position_of` finds none.
pub proof fn lemma_position_missing<H>(entries: Seq<(Seq<char>, H)>, trigger: Seq<char>)
    requires
        forall|k: int| 0 <= k < entries.len() ==> (#[trigger] entries[k]).0 != trigger,
    ensures
        position_of(entries, trigger) is None,
{
    lemma_position_of(entries, trigger);
}

/// Where no trigger stood twice, none does after a registration.
pub proof fn law_registered_keeps_distinct<H>(
    entries: Seq<(Seq<char>, H)>,
    trigger: Seq<char>,
    command: H,
)
    requires
        distinct_triggers(entries),
    ensures
        distinct_triggers(registered(entries, trigger, command)),
{
    let other = trigger.push('x');
    assert(other.len() != trigger.len());
    law_registered_is_a_map_update(entries, trigger, command, other);
}

/// Registering keeps the registry a map. Where no trigger stood twice,
/// none does afterwards; the trigger that was registered now leads to the
/// new handler; and every other trigger leads to where it led before.
pub proof fn law_registered_is_a_map_update<H>(
    entries: Seq<(Seq<char>, H)>,
    trigger: Seq<char>,
    command: H,
    other: Seq<char>,
)
    requires
        distinct_triggers(entries),
        other != trigger,
    ensures
        distinct_triggers(registered(entries, trigger, command)),
        position_of(registered(entries, trigger, command), trigger) is Some,
        registered(entries, trigger, command)[position_of(
            registered(entries, trigger, command),
            trigger,
        )->Some_0] == (trigger, command),
        position_of(registered(entries, trigger, command), other) == position_of(entries, other),
        position_of(entries, other) matches Some(at) ==> registered(entries, trigger, command)[at]
            == entries[at],
{
    let after = registered(entries, trigger, command);
    lemma_position_of(entries, trigger);
    lemma_position_of(entries, other);
    match position_of(entries, trigger) {
        Some(at) => {
            assert forall|k: int| 0 <= k < at implies (#[trigger] after[k]).0 != trigger by {
                assert(after[k] == entries[k]);
            }
            lemma_position_found(after, trigger, at);
        },
        None => {
            assert forall|k: int| 0 <= k < entries.len() implies (#[trigger] after[k]).0
                != trigger by {
                assert(after[k] == entries[k]);
            }
            lemma_position_found(after, trigger, entries.len() as int);
        },
    }
    assert forall|i: int, j: int| 0 <= i < j < after.len() implies (#[trigger] after[i]).0 != (
    #[trigger] after[j]).0 by {
        if j < entries.len() {
            assert(after[i].0 == entries[i].0);
            assert(after[j].0 == entries[j].0);
        } else {
            assert(after[i] == entries[i]);
        }
    }
    match position_of(entries, other) {
        Some(at) => {
            assert forall|k: int| 0 <= k < at implies (#[trigger] after[k]).0 != other by {
                assert(after[k].0 == entries[k].0);
            }
            assert(after[at] == entries[at]);
            lemma_position_found(after, other, at);
        },
        None => {
            assert forall|k: int| 0 <= k < after.len() implies (#[trigger] after[k]).0
                != other by {
                if k < entries.len() {
                    assert(after[k].0 == entries[k].0);
                }
            }
            lemma_position_missing(after, other);
        },
    }
}

/// The registry of commands. Its view is the sequence of the triggers with
/// their handlers, in the order in which the triggers were first
/// registered. `H` is the type of a handler: something the driver can invoke
/// with a chat message.
pub struct BotCommands<H> {
    commands: Vec<(String, H)>,
}

impl<H> View for BotCommands<H> {
    type V = Seq<(Seq<char>, H)>;

    closed spec fn view(&self) -> Seq<(Seq<char>, H)> {
        Seq::new(self.commands@.len(), |i: int| (self.commands@[i].0@, self.commands@[i].1))
    }
}

impl<H> BotCommands<H> {
    /// A registry without commands.
    pub fn new() -> (registry: Self)
        ensures
            registry@ == Seq::<(Seq<char>, H)>::empty(),
            distinct_triggers(registry@),
    {
        let registry = BotCommands { commands: Vec::new() };
        assert(registry@ =~= Seq::<(Seq<char>, H)>::empty());
        registry
    }

    /// The place of the entry for `trigger`, if there is one.
    fn find(&self, trigger: &str) -> (at: Option<usize>)
        ensures
            match at {
                Some(i) => position_of(self@, trigger@) == Some(i as int) && i < self@.len(),
                None => position_of(self@, trigger@) is None,
            },
    {
        let mut i: usize = 0;
        while i < self.commands.len()
            invariant
                i <= self.commands@.len(),
                forall|k: int| 0 <= k < i ==> (#[trigger] self@[k]).0 != trigger@,
            decreases self.commands@.len() - i,
        {
            if crate::text::same_text(self.commands[i].0.as_str(), trigger) {
                proof {
                    lemma_position_found(self@, trigger@, i as int);
                }
                return Some(i);
            }
            assert(self@[i as int].0 == self.commands@[i as int].0@);
            i = i + 1;
        }
        proof {
            lemma_position_missing(self@, trigger@);
        }
        None
    }

    /// Registers `command` for `trigger`. A handler that answered to the
    /// trigger before is replaced, so that no trigger ever stands twice.
    pub fn add_command(&mut self, trigger: &str, command: H)
        ensures
            final(self)@ == registered(old(self)@, trigger@, command),
            distinct_triggers(old(self)@) ==> distinct_triggers(final(self)@),
    {
        proof {
            if distinct_triggers(old(self)@) {
                law_registered_keeps_distinct(old(self)@, trigger@, command);
            }
        }
        match self.find(trigger) {
            Some(at) => {
                self.commands[at] = (String::from_str(trigger), command);
                assert(self@ =~= old(self)@.update(at as int, (trigger@, command)));
            },
            None => {
                self.commands.push((String::from_str(trigger), command));
                assert(self@ =~= old(self)@.push((trigger@, command)));
            },
        }
    }

    /// The handler to run for the trigger `command`, if one is registered.
    /// An unknown trigger has none, and that is no error.
    pub fn run_command(&self, command: &str) -> (handler: Option<&H>)
        ensures
            match position_of(self@, command@) {
                Some(at) => handler == Some(&self@[at].1),
                None => handler is None,
            },
    {
        match self.find(command) {
            Some(at) => Some(&self.commands[at].1),
            None => None,
        }
    }

    /// The number of triggers.
    pub fn len(&self) -> (n: usize)
        ensures
            n == self@.len(),
    {
        self.commands.len()
    }

    /// The registered triggers, in the order of their first registration.
    pub fn triggers(&self) -> (names: Vec<String>)
        ensures
            names.deep_view() == Seq::new(self@.len(), |i: int| self@[i].0),
    {
        let mut names: Vec<String> = Vec::new();
        let mut i: usize = 0;
        while i < self.commands.len()
            invariant
                i <= self.commands@.len(),
                names.deep_view() == Seq::new(i as nat, |k: int| self@[k].0),
            decreases self.commands@.len() - i,
        {
            let ghost before = names.deep_view();
            names.push(self.commands[i].0.clone());
            assert(names.deep_view() =~= before.push(self.commands@[i as int].0@));
            assert(names.deep_view() =~= Seq::new((i + 1) as nat, |k: int| self@[k].0));
            i = i + 1;
        }
        assert(names.deep_view() =~= Seq::new(self@.len(), |i: int| self@[i].0));
        names
    }
}

/// The triggers as a chat message would call them: each with the command
/// prefix in front.
pub open spec fn prefixed(triggers: Seq<Seq<char>>) -> Seq<Seq<char>> {
    Seq::new(triggers.len(), |i: int| seq![BOT_COMMAND_PREFIX] + triggers[i])
}

/// The answer to a call for help over these triggers.
pub open spec fn help_text_of(triggers: Seq<Seq<char>>) -> Seq<char> {
    "Available commands: "@ + joined(prefixed(triggers), ", "@)
}

/// The answer to a call for help: the triggers, each with the command
/// prefix, separated by commas.
pub fn help_text(triggers: &Vec<String>) -> (text: String)
    ensures
        text@ == help_text_of(triggers.deep_view()),
{
    let mut list = String::new();
    let mut i: usize = 0;
    assert(prefixed(triggers.deep_view()).take(0) =~= Seq::<Seq<char>>::empty());
    while i < triggers.len()
        invariant
            i <= triggers@.len(),
            list@ == joined(prefixed(triggers.deep_view()).take(i as int), ", "@),
        decreases triggers@.len() - i,
    {
        let ghost all = prefixed(triggers.deep_view());
        let ghost before = list@;
        if i > 0 {
            list.append(", ");
        }
        list.push(BOT_COMMAND_PREFIX);
        list.append(triggers[i].as_str());
        proof {
            let taken = all.take(i + 1);
            assert(taken.drop_last() =~= all.take(i as int));
            assert(taken.last() == seq![BOT_COMMAND_PREFIX] + triggers@[i as int]@);
            if i > 0 {
                assert(list@ =~= before + ", "@ + taken.last());
            } else {
                assert(list@ =~= taken.last());
                assert(taken[0] == taken.last());
            }
        }
        i = i + 1;
    }
    assert(prefixed(triggers.deep_view()).take(triggers@.len() as int) =~= prefixed(
        triggers.deep_view(),
    ));
    let mut text = String::from_str("Available commands: ");
    text.append(list.as_str());
    text
}

/// The trigger that a chat message calls for, if it is a command.
pub fn command_of(payload: &str) -> (command: Option<String>)
    ensures
        match command {
            Some(trigger) => command_in(payload@) == Some(trigger@),
            None => command_in(payload@) is None,
        },
{
    proof {
        reveal_strlit("!");
        assert("!"@ =~= seq![BOT_COMMAND_PREFIX]);
    }
    if !has_prefix(payload, "!") {
        return None;
    }
    let all = words(payload);
    proof {
        lemma_command_has_a_word(payload@);
    }
    assert(all.deep_view()[0] == all@[0]@);
    let first = chars_of(all[0].as_str());
    let mut i: usize = 0;
    assert(first@.skip(0) =~= first@);
    while i < first.len() && first[i] == BOT_COMMAND_PREFIX
        invariant
            i <= first@.len(),
            without_prefixes(first@) == without_prefixes(first@.skip(i as int)),
        decreases first@.len() - i,
    {
        assert(first@.skip(i as int).drop_first() =~= first@.skip(i + 1));
        i = i + 1;
    }
    let mut rest: Vec<char> = Vec::new();
    let mut j: usize = i;
    while j < first.len()
        invariant
            i <= j <= first@.len(),
            rest@ == first@.subrange(i as int, j as int),
        decreases first@.len() - j,
    {
        rest.push(first[j]);
        assert(first@.subrange(i as int, j + 1) =~= first@.subrange(i as int, j as int).push(
            first@[j as int],
        ));
        j = j + 1;
    }
    assert(rest@ =~= first@.skip(i as int));
    Some(string_of(&rest))
}

} // verus!
