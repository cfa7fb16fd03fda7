//! The outgoing side of the chat connection: the lines that wait to be
//! written to the server, and how a reply is cut into lines.

use crate::irc_parser::{IrcLine, IrcMessage};
use crate::queue::{MSGQueue, Wake};
use crate::tts::{law_filter_leaves_a_voice, selected_by_text, speech_config_of, matches_text};
use crate::tts::{SpeechConfig, SpeechConfigView, VoiceDB, VoiceView};
use crate::text::{
    byte_len, byte_length, has_prefix, lemma_byte_len_concat, lemma_byte_len_space, same_text,
    starts_with, words, words_of,
};
use vstd::prelude::*;
use vstd::string::*;

verus! {

/// The longest line, in bytes, that a reply is cut into.
pub const TWITCH_MAX_MSG_LINE_LENGTH: usize = 400;

/// The lines that `words` fill when each word goes on the last line while
/// that line, one space and the word stay within `limit` bytes, and starts
/// a line of its own otherwise.
pub open spec fn wrap_words(words: Seq<Seq<char>>, limit: int) -> Seq<Seq<char>>
    decreases words.len(),
{
    if words.len() == 0 {
        Seq::empty()
    } else {
        let lines = wrap_words(words.drop_last(), limit);
        let word = words.last();
        if lines.len() > 0 && byte_len(lines.last()) + byte_len(word) + 1 <= limit {
            lines.update(lines.len() - 1, lines.last() + seq![' '] + word)
        } else {
            lines.push(word)
        }
    }
}

/// The lines that a message is cut into.
pub open spec fn lines_of(message: Seq<char>) -> Seq<Seq<char>> {
    wrap_words(words_of(message), TWITCH_MAX_MSG_LINE_LENGTH as int)
}

/// Cuts a message into lines of at most 400 bytes. The message is taken
/// word by word; the words of a line are joined by one space each, and a
/// word that is longer than a line stands alone on its own.
pub fn split_lines(message: &str) -> (lines: Vec<String>)
    ensures
        lines.deep_view() == lines_of(message@),
{
    let all = words(message);
    let mut lines: Vec<String> = Vec::new();
    let mut i: usize = 0;
    assert(all.deep_view().take(0) =~= Seq::<Seq<char>>::empty());
    assert(lines.deep_view() =~= Seq::<Seq<char>>::empty());
    while i < all.len()
        invariant
            i <= all@.len(),
            all.deep_view() == words_of(message@),
            lines.deep_view() == wrap_words(
                all.deep_view().take(i as int),
                TWITCH_MAX_MSG_LINE_LENGTH as int,
            ),
        decreases all@.len() - i,
    {
        let ghost before = lines.deep_view();
        let ghost taken = all.deep_view().take(i + 1);
        assert(taken.drop_last() =~= all.deep_view().take(i as int));
        assert(taken.last() == all@[i as int]@);
        let word = all[i].as_str();
        let count = lines.len();
        let mut fits = false;
        if count > 0 {
            let room = byte_length(lines[count - 1].as_str());
            let need = byte_length(word);
            assert(lines@[count - 1]@ == before.last());
            fits = need < TWITCH_MAX_MSG_LINE_LENGTH && room <= TWITCH_MAX_MSG_LINE_LENGTH - 1
                - need;
        }
        if fits {
            let ghost last = count - 1;
            let ghost first = lines@;
            lines[count - 1].push(' ');
            let ghost second = lines@;
            assert(second == first.update(last, second[last]));
            assert(second[last]@ == first[last]@.push(' '));
            lines[count - 1].append(word);
            assert(lines@ == second.update(last, lines@[last]));
            assert(lines@[last]@ =~= before.last() + seq![' '] + word@);
            assert(lines.deep_view() =~= before.update(
                before.len() - 1,
                before.last() + seq![' '] + word@,
            ));
        } else {
            lines.push(String::from_str(word));
            assert(lines.deep_view() =~= before.push(word@));
        }
        i = i + 1;
    }
    assert(all.deep_view().take(all@.len() as int) =~= all.deep_view());
    lines
}

/// Every line of a wrapped text is within the limit, but for a word that
/// is itself longer than a line and therefore stands alone.
pub proof fn law_lines_fit(words: Seq<Seq<char>>, limit: int)
    ensures
        forall|i: int|
            0 <= i < wrap_words(words, limit).len() ==> byte_len(
                #[trigger] wrap_words(words, limit)[i],
            ) <= limit || words.contains(wrap_words(words, limit)[i]),
    decreases words.len(),
{
    if words.len() > 0 {
        let earlier = words.drop_last();
        let lines = wrap_words(earlier, limit);
        let word = words.last();
        let wrapped = wrap_words(words, limit);
        law_lines_fit(earlier, limit);
        assert forall|i: int| 0 <= i < wrapped.len() implies byte_len(#[trigger] wrapped[i])
            <= limit || words.contains(wrapped[i]) by {
            if lines.len() > 0 && byte_len(lines.last()) + byte_len(word) + 1 <= limit {
                if i == lines.len() - 1 {
                    lemma_byte_len_concat(lines.last(), seq![' ']);
                    lemma_byte_len_concat(lines.last() + seq![' '], word);
                    lemma_byte_len_space();
                } else {
                    assert(wrapped[i] == lines[i]);
                    if earlier.contains(lines[i]) {
                        let k = choose|k: int| 0 <= k < earlier.len() && earlier[k] == lines[i];
                        assert(words[k] == lines[i]);
                    }
                }
            } else {
                if i == lines.len() {
                    assert(words[words.len() - 1] == word);
                } else {
                    assert(wrapped[i] == lines[i]);
                    if earlier.contains(lines[i]) {
                        let k = choose|k: int| 0 <= k < earlier.len() && earlier[k] == lines[i];
                        assert(words[k] == lines[i]);
                    }
                }
            }
        }
    }
}

/// The line that addresses `line` to `target`: the verb with its space,
/// the target, a space and a colon, and the text.
pub open spec fn addressed_line(verb: Seq<char>, target: Seq<char>, line: Seq<char>) -> Seq<char> {
    verb + target + " :"@ + line
}

/// The lines that address `message` to `target`, one for each line that
/// the message is cut into.
pub open spec fn addressed_lines(verb: Seq<char>, target: Seq<char>, message: Seq<char>) -> Seq<
    Seq<char>,
> {
    Seq::new(
        lines_of(message).len(),
        |i: int| addressed_line(verb, target, lines_of(message)[i]),
    )
}

/// The line that says `line` in the channel `channel`.
pub open spec fn privmsg_line(channel: Seq<char>, line: Seq<char>) -> Seq<char> {
    addressed_line("PRIVMSG "@, channel, line)
}

/// The line that whispers `line` to `receiver`.
pub open spec fn whisper_line(receiver: Seq<char>, line: Seq<char>) -> Seq<char> {
    addressed_line("WHISPER "@, receiver, line)
}

/// The lines that say `message` in `channel`, one for each line that the
/// message is cut into.
pub open spec fn privmsg_lines(channel: Seq<char>, message: Seq<char>) -> Seq<Seq<char>> {
    addressed_lines("PRIVMSG "@, channel, message)
}

/// The lines that whisper `message` to `receiver`.
pub open spec fn whisper_lines(receiver: Seq<char>, message: Seq<char>) -> Seq<Seq<char>> {
    addressed_lines("WHISPER "@, receiver, message)
}

/// The lines that wait to be written to the chat server, oldest first.
pub struct TwitchReceiver {
    queue: MSGQueue<String>,
}

impl View for TwitchReceiver {
    type V = Seq<Seq<char>>;

    closed spec fn view(&self) -> Seq<Seq<char>> {
        Seq::new(self.queue@.len(), |i: int| self.queue@[i]@)
    }
}

impl TwitchReceiver {
    /// No line waits.
    pub fn new() -> (receiver: Self)
        ensures
            receiver@ == Seq::<Seq<char>>::empty(),
    {
        let receiver = TwitchReceiver { queue: MSGQueue::new() };
        assert(receiver@ =~= Seq::<Seq<char>>::empty());
        receiver
    }

    /// Claims the oldest line. `None` means that no line waits and the
    /// writer has to wait for a wake-up before it claims again.
    pub fn recv(&mut self) -> (line: Option<String>)
        ensures
            match line {
                Some(text) => {
                    &&& old(self)@.len() > 0
                    &&& text@ == old(self)@[0]
                    &&& final(self)@ == old(self)@.skip(1)
                },
                None => old(self)@.len() == 0 && final(self)@ == old(self)@,
            },
    {
        let line = self.queue.next();
        assert(old(self)@.len() > 0 ==> self@ =~= old(self)@.skip(1));
        line
    }

    /// Queues `payload` as it is and asks to wake every waiting writer.
    pub fn send_raw(&mut self, payload: &str) -> (wake: Wake)
        ensures
            final(self)@ == old(self)@.push(payload@),
            wake == Wake::All,
    {
        let wake = self.queue.push_back(String::from_str(payload));
        assert(self@ =~= old(self)@.push(payload@));
        wake
    }

    /// Queues `message`, cut into lines, each addressed to `target` with
    /// `verb`.
    fn send_lines(&mut self, verb: &str, target: &str, message: &str) -> (wake: Wake)
        ensures
            final(self)@ == old(self)@ + addressed_lines(verb@, target@, message@),
            wake == Wake::All,
    {
        let ghost all = addressed_lines(verb@, target@, message@);
        let lines = split_lines(message);
        let mut i: usize = 0;
        assert(self@ =~= old(self)@ + all.take(0));
        while i < lines.len()
            invariant
                i <= lines@.len(),
                lines.deep_view() == lines_of(message@),
                all == addressed_lines(verb@, target@, message@),
                self@ == old(self)@ + all.take(i as int),
            decreases lines@.len() - i,
        {
            let mut line = String::from_str(verb);
            line.append(target);
            line.append(" :");
            line.append(lines[i].as_str());
            assert(lines.deep_view()[i as int] == lines@[i as int]@);
            assert(line@ == all[i as int]);
            let ghost before = self@;
            self.queue.push_back(line);
            assert(self@ =~= before.push(line@));
            assert(all.take(i + 1) =~= all.take(i as int).push(line@));
            assert(self@ =~= old(self)@ + all.take(i + 1));
            i = i + 1;
        }
        assert(all.take(lines@.len() as int) =~= all);
        Wake::All
    }

    /// Queues `message` as a chat message to `channel`, cut into lines,
    /// and asks to wake every waiting writer.
    pub fn send_privmsg(&mut self, message: &str, channel: &str) -> (wake: Wake)
        ensures
            final(self)@ == old(self)@ + privmsg_lines(channel@, message@),
            wake == Wake::All,
    {
        self.send_lines("PRIVMSG ", channel, message)
    }

    /// Queues `message` as a whisper to `receiver`, cut into lines, and
    /// asks to wake every waiting writer.
    pub fn send_whisper(&mut self, message: &str, receiver: &str) -> (wake: Wake)
        ensures
            final(self)@ == old(self)@ + whisper_lines(receiver@, message@),
            wake == Wake::All,
    {
        self.send_lines("WHISPER ", receiver, message)
    }

    /// The number of lines that wait.
    pub fn len(&self) -> (n: usize)
        ensures
            n == self@.len(),
    {
        self.queue.len()
    }
}

/// What the client does with a line that the server sent.
#[derive(Debug, Clone)]
pub enum TwitchEvent {
    /// The server pinged: answer with this line.
    Pong(String),
    /// A chat message asked the bot to die: the client gives up with an
    /// error.
    Die,
    /// The server greeted the bot under this nick name.
    Nickname(String),
    /// The bot has joined this channel.
    Joined(String),
    /// A chat message: publish it to the subscribers, and have it spoken
    /// if `speak` is set.
    Chat {
        /// Whether the message is to be spoken: it is unless it is a
        /// command for the bot.
        speak: bool,
    },
    /// Nothing to do.
    Nothing,
}

/// The model of a [`TwitchEvent`].
pub enum TwitchEventView {
    /// Answer with this line.
    Pong(Seq<char>),
    /// Give up with an error.
    Die,
    /// The nick name the server greeted the bot under.
    Nickname(Seq<char>),
    /// The channel the bot has joined.
    Joined(Seq<char>),
    /// Publish the message, and speak it if `speak` is set.
    Chat {
        /// Whether the message is to be spoken.
        speak: bool,
    },
    /// Nothing to do.
    Nothing,
}

impl View for TwitchEvent {
    type V = TwitchEventView;

    open spec fn view(&self) -> TwitchEventView {
        match self {
            TwitchEvent::Pong(line) => TwitchEventView::Pong(line@),
            TwitchEvent::Die => TwitchEventView::Die,
            TwitchEvent::Nickname(nick) => TwitchEventView::Nickname(nick@),
            TwitchEvent::Joined(channel) => TwitchEventView::Joined(channel@),
            TwitchEvent::Chat { speak } => TwitchEventView::Chat { speak: *speak },
            TwitchEvent::Nothing => TwitchEventView::Nothing,
        }
    }
}

/// What the client does with a line of the server. A ping is answered with
/// its own payload; the greeting `001` tells the bot's nick name and `JOIN`
/// its channel; a chat message is published, and spoken unless it starts
/// with the command prefix `!`; the chat message `!die` ends the client.
/// Every other line is passed over.
pub open spec fn route_of(line: IrcLine) -> TwitchEventView {
    if line.command == "PING"@ {
        TwitchEventView::Pong("PONG :"@ + line.payload)
    } else if line.command == "PRIVMSG"@ && line.payload == "!die"@ {
        TwitchEventView::Die
    } else if line.command == "001"@ {
        TwitchEventView::Nickname(line.destination)
    } else if line.command == "JOIN"@ {
        TwitchEventView::Joined(line.destination)
    } else if line.command == "PRIVMSG"@ {
        TwitchEventView::Chat { speak: !starts_with(line.payload, "!"@) }
    } else {
        TwitchEventView::Nothing
    }
}

/// Decides what the client does with a line of the server.
pub fn route_message(line: &IrcMessage) -> (event: TwitchEvent)
    ensures
        event@ == route_of(line@),
{
    let command = line.command.as_str();
    if same_text(command, "PING") {
        let mut answer = String::from_str("PONG :");
        answer.append(line.payload.as_str());
        TwitchEvent::Pong(answer)
    } else if same_text(command, "PRIVMSG") && same_text(line.payload.as_str(), "!die") {
        TwitchEvent::Die
    } else if same_text(command, "001") {
        TwitchEvent::Nickname(line.destination.clone())
    } else if same_text(command, "JOIN") {
        TwitchEvent::Joined(line.destination.clone())
    } else if same_text(command, "PRIVMSG") {
        TwitchEvent::Chat { speak: !has_prefix(line.payload.as_str(), "!") }
    } else {
        TwitchEvent::Nothing
    }
}

/// The settings of the connection to the chat server.
#[derive(Debug, Clone)]
pub struct TwitchConfig {
    /// The host name of the server.
    pub server: String,
    /// The nick name to log in with.
    pub nick: String,
    /// The channel to join, without the leading `#`.
    pub channel: String,
    /// The token to log in with.
    pub auth_token: String,
    /// The capabilities to ask the server for.
    pub irc_cap_req: Vec<String>,
    /// Seconds between two pings to the server.
    pub ping_interval: u64,
}

impl Default for TwitchConfig {
    /// An anonymous login to the default channel.
    fn default() -> (config: Self)
        ensures
            config.server@ == "irc.chat.twitch.tv"@,
            config.nick@ == "justinfan69696942"@,
            config.channel@ == "icsboyx"@,
            config.auth_token@ == "1234567890"@,
            config.irc_cap_req.deep_view() == seq![
                "twitch.tv/commands"@,
                "twitch.tv/membership"@,
                "twitch.tv/tags"@,
            ],
            config.ping_interval == 180,
    {
        let mut irc_cap_req: Vec<String> = Vec::new();
        irc_cap_req.push(String::from_str("twitch.tv/commands"));
        irc_cap_req.push(String::from_str("twitch.tv/membership"));
        irc_cap_req.push(String::from_str("twitch.tv/tags"));
        assert(irc_cap_req.deep_view() =~= seq![
            "twitch.tv/commands"@,
            "twitch.tv/membership"@,
            "twitch.tv/tags"@,
        ]);
        TwitchConfig {
            server: String::from_str("irc.chat.twitch.tv"),
            nick: String::from_str("justinfan69696942"),
            channel: String::from_str("icsboyx"),
            auth_token: String::from_str("1234567890"),
            irc_cap_req,
            ping_interval: 180,
        }
    }
}

/// The lines that log the bot in: the token, the nick name, one request
/// for each capability, and the channel to join.
pub open spec fn auth_lines(
    auth_token: Seq<char>,
    nick: Seq<char>,
    capabilities: Seq<Seq<char>>,
    channel: Seq<char>,
) -> Seq<Seq<char>> {
    seq!["PASS oauth:"@ + auth_token, "NICK "@ + nick] + Seq::new(
        capabilities.len(),
        |i: int| "CAP REQ :"@ + capabilities[i],
    ) + seq!["JOIN #"@ + channel]
}

impl TwitchReceiver {
    /// Queues the lines that log the bot in with `config`. Each line asks
    /// to wake every waiting writer, and so does the whole.
    pub fn send_auth(&mut self, config: &TwitchConfig) -> (wake: Wake)
        ensures
            final(self)@ == old(self)@ + auth_lines(
                config.auth_token@,
                config.nick@,
                config.irc_cap_req.deep_view(),
                config.channel@,
            ),
            wake == Wake::All,
    {
        let ghost target = auth_lines(
            config.auth_token@,
            config.nick@,
            config.irc_cap_req.deep_view(),
            config.channel@,
        );
        let mut pass = String::from_str("PASS oauth:");
        pass.append(config.auth_token.as_str());
        self.send_raw(pass.as_str());
        let mut nick = String::from_str("NICK ");
        nick.append(config.nick.as_str());
        self.send_raw(nick.as_str());
        assert(self@ =~= old(self)@ + target.take(2));
        let mut i: usize = 0;
        while i < config.irc_cap_req.len()
            invariant
                i <= config.irc_cap_req@.len(),
                target == auth_lines(
                    config.auth_token@,
                    config.nick@,
                    config.irc_cap_req.deep_view(),
                    config.channel@,
                ),
                self@ == old(self)@ + target.take(2 + i),
            decreases config.irc_cap_req@.len() - i,
        {
            let mut cap = String::from_str("CAP REQ :");
            cap.append(config.irc_cap_req[i].as_str());
            assert(config.irc_cap_req.deep_view()[i as int] == config.irc_cap_req@[i as int]@);
            assert(cap@ == target[2 + i]);
            self.send_raw(cap.as_str());
            assert(target.take(2 + i + 1) =~= target.take(2 + i).push(cap@));
            assert(self@ =~= old(self)@ + target.take(2 + i + 1));
            i = i + 1;
        }
        let mut join = String::from_str("JOIN #");
        join.append(config.channel.as_str());
        let wake = self.send_raw(join.as_str());
        assert(target =~= target.take(target.len() - 1).push(join@));
        assert(self@ =~= old(self)@ + target);
        wake
    }
}

/// The texts by which the bot's own voice is sought.
pub open spec fn bot_voice_filter() -> Seq<Seq<char>> {
    seq!["it-IT"@, "multi"@]
}

/// The voice that speaks for the bot itself.
#[derive(Debug)]
pub struct BotSpeechConfig {
    speech_config: SpeechConfig,
}

impl View for BotSpeechConfig {
    type V = SpeechConfigView;

    closed spec fn view(&self) -> SpeechConfigView {
        self.speech_config@
    }
}

impl BotSpeechConfig {
    /// The bot's voice as it was stored.
    pub fn new(speech_config: SpeechConfig) -> (config: Self)
        ensures
            config@ == speech_config@,
    {
        BotSpeechConfig { speech_config }
    }

    /// A voice for a bot that has none stored: one of the voices whose
    /// description holds `it-IT` and `multi`, chosen at random; any voice
    /// where no description does. There has to be a voice to choose.
    pub fn pick(voices: &VoiceDB) -> (config: Self)
        requires
            voices@.len() > 0,
        ensures
            exists|i: int|
                0 <= i < selected_by_text(voices@, bot_voice_filter()).len() && config@
                    == speech_config_of(#[trigger] selected_by_text(voices@, bot_voice_filter())[i]),
    {
        let mut filter: Vec<String> = Vec::new();
        filter.push(String::from_str("it-IT"));
        filter.push(String::from_str("multi"));
        assert(filter.deep_view() =~= bot_voice_filter());
        let chosen = voices.filter_voices_by_text(&filter);
        proof {
            law_filter_leaves_a_voice(
                voices@,
                |voice: VoiceView| matches_text(voice, bot_voice_filter()),
            );
        }
        let voice = chosen.random();
        BotSpeechConfig { speech_config: voice.speech_config() }
    }

    /// The speech configuration.
    pub fn speech_config(&self) -> (config: &SpeechConfig)
        ensures
            config@ == self@,
    {
        &self.speech_config
    }
}

/// The model of a [`TwitchBotInfo`].
pub struct BotInfoView {
    /// The nick name of the bot.
    pub nick_name: Seq<char>,
    /// The channel that the bot is in.
    pub channel: Seq<char>,
    /// The voice of the bot.
    pub speech_config: SpeechConfigView,
}

/// Who the bot is on the chat server.
#[derive(Debug)]
pub struct TwitchBotInfo {
    nick_name: String,
    channel: String,
    speech_config: SpeechConfig,
}

impl View for TwitchBotInfo {
    type V = BotInfoView;

    closed spec fn view(&self) -> BotInfoView {
        BotInfoView {
            nick_name: self.nick_name@,
            channel: self.channel@,
            speech_config: self.speech_config@,
        }
    }
}

impl TwitchBotInfo {
    /// The bot before the server has told it its name and channel: under
    /// the anonymous nick name, in the default channel.
    pub fn init(speech_config: SpeechConfig) -> (info: Self)
        ensures
            info@ == (BotInfoView {
                nick_name: "justinfan69696942"@,
                channel: "icsboyx"@,
                speech_config: speech_config@,
            }),
    {
        TwitchBotInfo {
            nick_name: String::from_str("justinfan69696942"),
            channel: String::from_str("icsboyx"),
            speech_config,
        }
    }

    /// The nick name.
    pub fn nick_name(&self) -> (nick_name: String)
        ensures
            nick_name@ == self@.nick_name,
    {
        self.nick_name.clone()
    }

    /// Replaces the nick name.
    pub fn set_nickname(&mut self, nick_name: &str)
        ensures
            final(self)@ == (BotInfoView { nick_name: nick_name@, ..old(self)@ }),
    {
        self.nick_name = String::from_str(nick_name);
    }

    /// The channel.
    pub fn channel(&self) -> (channel: String)
        ensures
            channel@ == self@.channel,
    {
        self.channel.clone()
    }

    /// Replaces the channel.
    pub fn set_channel(&mut self, channel: &str)
        ensures
            final(self)@ == (BotInfoView { channel: channel@, ..old(self)@ }),
    {
        self.channel = String::from_str(channel);
    }

    /// The voice of the bot.
    pub fn speech_config(&self) -> (config: &SpeechConfig)
        ensures
            config@ == self@.speech_config,
    {
        &self.speech_config
    }
}

} // verus!
