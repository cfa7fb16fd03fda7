//! One line of the chat protocol, taken apart.

use crate::text::{chars_of, starts_with};
use vstd::prelude::*;

verus! {

/// The model of a chat line: its four parts as character sequences.
pub struct IrcLine {
    /// Who sent the line: the nick name in front of the command.
    pub sender: Seq<char>,
    /// The command word or number.
    pub command: Seq<char>,
    /// The first parameter: a channel or a nick name.
    pub destination: Seq<char>,
    /// The text behind the parameters.
    pub payload: Seq<char>,
}

/// One line of the chat protocol, taken apart.
#[derive(Debug, Clone)]
pub struct IrcMessage {
    /// Who sent the line.
    pub sender: String,
    /// The command word or number.
    pub command: String,
    /// The first parameter: a channel or a nick name.
    pub destination: String,
    /// The text behind the parameters.
    pub payload: String,
}

impl View for IrcMessage {
    type V = IrcLine;

    open spec fn view(&self) -> IrcLine {
        IrcLine {
            sender: self.sender@,
            command: self.command@,
            destination: self.destination@,
            payload: self.payload@,
        }
    }
}

/// What stands in `text` before the first `mark`; the whole text where it
/// holds none.
pub open spec fn before_char(text: Seq<char>, mark: char) -> Seq<char>
    decreases text.len(),
{
    if text.len() == 0 || text[0] == mark {
        Seq::empty()
    } else {
        seq![text[0]] + before_char(text.drop_first(), mark)
    }
}

/// What stands in `text` behind the first `mark`; nothing where it holds
/// none.
pub open spec fn after_char(text: Seq<char>, mark: char) -> Seq<char>
    decreases text.len(),
{
    if text.len() == 0 {
        Seq::empty()
    } else if text[0] == mark {
        text.drop_first()
    } else {
        after_char(text.drop_first(), mark)
    }
}

/// What stands in `text` behind the first space that a colon follows;
/// nothing where there is no such place.
pub open spec fn after_space_colon(text: Seq<char>) -> Seq<char>
    decreases text.len(),
{
    if text.len() < 2 {
        Seq::empty()
    } else if text[0] == ' ' && text[1] == ':' {
        text.skip(2)
    } else {
        after_space_colon(text.drop_first())
    }
}

/// `line` without the carriage return at its end, if it has one.
pub open spec fn without_return(line: Seq<char>) -> Seq<char> {
    if line.len() > 0 && line.last() == '\r' {
        line.drop_last()
    } else {
        line
    }
}

/// `line` without the tags at its start: tags begin with `@` and end at
/// the first space.
pub open spec fn without_tags(line: Seq<char>) -> Seq<char> {
    if line.len() > 0 && line[0] == '@' {
        after_char(line, ' ')
    } else {
        line
    }
}

/// The source of a line without tags: what stands between a colon at its
/// start and the first space. A line that does not start with a colon
/// names no source.
pub open spec fn source_of(line: Seq<char>) -> Seq<char> {
    if line.len() > 0 && line[0] == ':' {
        before_char(line.drop_first(), ' ')
    } else {
        Seq::empty()
    }
}

/// A line without tags, without its source.
pub open spec fn without_source(line: Seq<char>) -> Seq<char> {
    if line.len() > 0 && line[0] == ':' {
        after_char(line, ' ')
    } else {
        line
    }
}

/// The parts of a line. Tags are dropped. The sender is the nick name in
/// the source, which ends at `!`. The command is the first word behind
/// the source. The destination is the first parameter unless the
/// parameters start with the payload. The payload is what follows the
/// first colon that starts a parameter.
pub open spec fn parse_of(line: Seq<char>) -> IrcLine {
    let body = without_tags(without_return(line));
    let rest = without_source(body);
    let parameters = after_char(rest, ' ');
    IrcLine {
        sender: before_char(source_of(body), '!'),
        command: before_char(rest, ' '),
        destination: if parameters.len() > 0 && parameters[0] == ':' {
            Seq::empty()
        } else {
            before_char(parameters, ' ')
        },
        payload: if parameters.len() > 0 && parameters[0] == ':' {
            parameters.drop_first()
        } else {
            after_space_colon(parameters)
        },
    }
}

/// The place of the first `mark` in `chars` from `from` up to `end`, or
/// `end` where there is none.
fn seek(chars: &Vec<char>, from: usize, end: usize, mark: char) -> (at: usize)
    requires
        from <= end <= chars@.len(),
    ensures
        from <= at <= end,
        before_char(chars@.subrange(from as int, end as int), mark) == chars@.subrange(
            from as int,
            at as int,
        ),
        after_char(chars@.subrange(from as int, end as int), mark) == if at < end {
            chars@.subrange(at + 1, end as int)
        } else {
            Seq::<char>::empty()
        },
    decreases end - from,
{
    let ghost text = chars@.subrange(from as int, end as int);
    if from == end {
        assert(chars@.subrange(from as int, from as int) =~= Seq::<char>::empty());
        return from;
    }
    if chars[from] == mark {
        assert(text[0] == mark);
        assert(chars@.subrange(from as int, from as int) =~= Seq::<char>::empty());
        assert(text.drop_first() =~= chars@.subrange(from + 1, end as int));
        return from;
    }
    let at = seek(chars, from + 1, end, mark);
    assert(text.drop_first() =~= chars@.subrange(from + 1, end as int));
    assert(seq![text[0]] + chars@.subrange(from + 1, at as int) =~= chars@.subrange(
        from as int,
        at as int,
    ));
    at
}

/// The place behind the first space that a colon follows in `chars` from
/// `from` up to `end`, or `end` where there is no such place.
fn seek_payload(chars: &Vec<char>, from: usize, end: usize) -> (at: usize)
    requires
        from <= end <= chars@.len(),
    ensures
        from <= at <= end,
        after_space_colon(chars@.subrange(from as int, end as int)) == chars@.subrange(
            at as int,
            end as int,
        ),
    decreases end - from,
{
    let ghost text = chars@.subrange(from as int, end as int);
    if end - from < 2 {
        assert(chars@.subrange(end as int, end as int) =~= Seq::<char>::empty());
        return end;
    }
    if chars[from] == ' ' && chars[from + 1] == ':' {
        assert(text[0] == ' ' && text[1] == ':');
        assert(text.skip(2) =~= chars@.subrange(from + 2, end as int));
        return from + 2;
    }
    assert(text[0] == chars@[from as int] && text[1] == chars@[from + 1]);
    assert(text.drop_first() =~= chars@.subrange(from + 1, end as int));
    seek_payload(chars, from + 1, end)
}

/// The characters of `chars` from `from` up to `to`, as a string.
fn piece(chars: &Vec<char>, from: usize, to: usize) -> (text: String)
    requires
        from <= to <= chars@.len(),
    ensures
        text@ == chars@.subrange(from as int, to as int),
{
    let mut text = String::new();
    let mut i: usize = from;
    while i < to
        invariant
            from <= i <= to <= chars@.len(),
            text@ == chars@.subrange(from as int, i as int),
        decreases to - i,
    {
        text.push(chars[i]);
        assert(chars@.subrange(from as int, i + 1) =~= chars@.subrange(from as int, i as int).push(
            chars@[i as int],
        ));
        i = i + 1;
    }
    text
}

/// Takes a line of the chat protocol apart.
pub fn parse_message(line: &str) -> (message: IrcMessage)
    ensures
        message@ == parse_of(line@),
{
    let chars = chars_of(line);
    let mut end = chars.len();
    assert(chars@.subrange(0, end as int) =~= chars@);
    if end > 0 && chars[end - 1] == '\r' {
        end = end - 1;
        assert(chars@.subrange(0, end as int) =~= chars@.drop_last());
    }
    let ghost trimmed = chars@.subrange(0, end as int);
    assert(trimmed == without_return(line@));
    // The body starts behind the tags.
    let mut start: usize = 0;
    if end > 0 && chars[0] == '@' {
        let space = seek(&chars, 0, end, ' ');
        start = if space < end { space + 1 } else { end };
        assert(chars@.subrange(end as int, end as int) =~= Seq::<char>::empty());
    }
    let ghost body = chars@.subrange(start as int, end as int);
    assert(body == without_tags(trimmed));
    // The source stands between a colon and the first space.
    let mut sender = String::new();
    let mut rest_at: usize = start;
    if start < end && chars[start] == ':' {
        assert(body[0] == ':');
        assert(body.drop_first() =~= chars@.subrange(start + 1, end as int));
        let space = seek(&chars, start + 1, end, ' ');
        let bang = seek(&chars, start + 1, space, '!');
        sender = piece(&chars, start + 1, bang);
        assert(chars@.subrange(start + 1, space as int).subrange(0, bang - start - 1)
            =~= chars@.subrange(start + 1, bang as int));
        let whole = seek(&chars, start, end, ' ');
        rest_at = if whole < end { whole + 1 } else { end };
        assert(chars@.subrange(end as int, end as int) =~= Seq::<char>::empty());
        assert(source_of(body) == chars@.subrange(start + 1, space as int));
    } else {
        assert(source_of(body) =~= Seq::<char>::empty());
        assert(sender@ =~= before_char(source_of(body), '!'));
    }
    let ghost rest = chars@.subrange(rest_at as int, end as int);
    assert(rest == without_source(body));
    let command_end = seek(&chars, rest_at, end, ' ');
    let command = piece(&chars, rest_at, command_end);
    let parameters_at: usize = if command_end < end { command_end + 1 } else { end };
    assert(chars@.subrange(end as int, end as int) =~= Seq::<char>::empty());
    let ghost parameters = chars@.subrange(parameters_at as int, end as int);
    assert(parameters == after_char(rest, ' '));
    let mut destination = String::new();
    let payload;
    if parameters_at < end && chars[parameters_at] == ':' {
        assert(parameters[0] == ':');
        payload = piece(&chars, parameters_at + 1, end);
        assert(parameters.drop_first() =~= chars@.subrange(parameters_at + 1, end as int));
    } else {
        let destination_end = seek(&chars, parameters_at, end, ' ');
        destination = piece(&chars, parameters_at, destination_end);
        let payload_at = seek_payload(&chars, parameters_at, end);
        payload = piece(&chars, payload_at, end);
    }
    IrcMessage { sender, command, destination, payload }
}

} // verus!
