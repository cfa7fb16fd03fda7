//! Text to speech: the voices to choose from, the choice among them, and
//! the text as it is handed to the speech service.

use crate::bot_commands::position_of;
use crate::text::{chars_of, same_text, starts_with};
use crate::twitch_client::TwitchBotInfo;
use crate::users::{is_choice_for_new_user, UserDefaultVoiceConfig, UsersDB};
use rand::RngExt;
use vstd::prelude::*;
use vstd::string::*;

verus! {

/// The pattern of what counts as a link in a chat message.
pub const URL_PATTERN: &'static str =
    r"(?:[a-zA-Z]+://|www\.|[a-zA-Z0-9.-]+\.[a-zA-Z]{2,}/)[^\s]+";

/// What is spoken in place of a link.
pub const URL_REPLACEMENT: &'static str = ", URL removed,";

/// The audio format of a voice that suggests none.
pub const DEFAULT_AUDIO_FORMAT: &'static str = "audio-24khz-48kbitrate-mono-mp3";

/// The model of a [`SpeechConfig`].
pub struct SpeechConfigView {
    /// The name of the voice.
    pub voice_name: Seq<char>,
    /// The audio format to ask for.
    pub audio_format: Seq<char>,
    /// The pitch, relative to the voice's own.
    pub pitch: i32,
    /// The rate, relative to the voice's own.
    pub rate: i32,
    /// The volume, relative to the voice's own.
    pub volume: i32,
}

/// How a text is to be spoken.
#[derive(Debug)]
pub struct SpeechConfig {
    /// The name of the voice.
    pub voice_name: String,
    /// The audio format to ask for.
    pub audio_format: String,
    /// The pitch, relative to the voice's own.
    pub pitch: i32,
    /// The rate, relative to the voice's own.
    pub rate: i32,
    /// The volume, relative to the voice's own.
    pub volume: i32,
}

impl View for SpeechConfig {
    type V = SpeechConfigView;

    open spec fn view(&self) -> SpeechConfigView {
        SpeechConfigView {
            voice_name: self.voice_name@,
            audio_format: self.audio_format@,
            pitch: self.pitch,
            rate: self.rate,
            volume: self.volume,
        }
    }
}

impl Clone for SpeechConfig {
    fn clone(&self) -> (copy: Self)
        ensures
            copy@ == self@,
    {
        SpeechConfig {
            voice_name: self.voice_name.clone(),
            audio_format: self.audio_format.clone(),
            pitch: self.pitch,
            rate: self.rate,
            volume: self.volume,
        }
    }
}

/// A text on its way to the speech service, with the voice to speak it.
#[derive(Debug)]
pub struct TTSMassage {
    /// How the text is to be spoken.
    pub speech_config: SpeechConfig,
    /// The text.
    pub payload: String,
}

impl Clone for TTSMassage {
    fn clone(&self) -> (copy: Self)
        ensures
            copy.speech_config@ == self.speech_config@,
            copy.payload@ == self.payload@,
    {
        TTSMassage { speech_config: self.speech_config.clone(), payload: self.payload.clone() }
    }
}

impl Default for TTSMassage {
    /// An empty text for a voice without a name.
    fn default() -> (message: Self)
        ensures
            message.payload@ == Seq::<char>::empty(),
            message.speech_config@ == (SpeechConfigView {
                voice_name: Seq::empty(),
                audio_format: Seq::empty(),
                pitch: 0,
                rate: 0,
                volume: 0,
            }),
    {
        TTSMassage {
            speech_config: SpeechConfig {
                voice_name: String::new(),
                audio_format: String::new(),
                pitch: 0,
                rate: 0,
                volume: 0,
            },
            payload: String::new(),
        }
    }
}

/// The model of a [`Voice`].
pub struct VoiceView {
    /// The full name of the voice.
    pub name: Seq<char>,
    /// The gender of the voice, where the service tells it.
    pub gender: Option<Seq<char>>,
    /// The locale of the voice, where the service tells it.
    pub locale: Option<Seq<char>>,
    /// The audio format that the service suggests for the voice.
    pub suggested_codec: Option<Seq<char>>,
    /// All that the service tells of the voice, as one text.
    pub description: Seq<char>,
}

/// A voice of the speech service.
#[derive(Debug)]
pub struct Voice {
    /// The full name of the voice.
    pub name: String,
    /// The gender of the voice, where the service tells it.
    pub gender: Option<String>,
    /// The locale of the voice, where the service tells it.
    pub locale: Option<String>,
    /// The audio format that the service suggests for the voice.
    pub suggested_codec: Option<String>,
    /// All that the service tells of the voice, as one text: what a search
    /// by text looks through.
    pub description: String,
}

/// The view of a text that may be missing.
pub open spec fn view_of(text: Option<String>) -> Option<Seq<char>> {
    match text {
        Some(text) => Some(text@),
        None => None,
    }
}

impl View for Voice {
    type V = VoiceView;

    open spec fn view(&self) -> VoiceView {
        VoiceView {
            name: self.name@,
            gender: view_of(self.gender),
            locale: view_of(self.locale),
            suggested_codec: view_of(self.suggested_codec),
            description: self.description@,
        }
    }
}

/// A copy of a text that may be missing.
fn copy_of(text: &Option<String>) -> (copy: Option<String>)
    ensures
        view_of(copy) == view_of(*text),
{
    match text {
        Some(text) => Some(text.clone()),
        None => None,
    }
}

impl Clone for Voice {
    fn clone(&self) -> (copy: Self)
        ensures
            copy@ == self@,
    {
        Voice {
            name: self.name.clone(),
            gender: copy_of(&self.gender),
            locale: copy_of(&self.locale),
            suggested_codec: copy_of(&self.suggested_codec),
            description: self.description.clone(),
        }
    }
}

/// The speech configuration that belongs to a voice: the voice by its name,
/// in the format it suggests or else the default format, with pitch, rate
/// and volume untouched.
pub open spec fn speech_config_of(voice: VoiceView) -> SpeechConfigView {
    SpeechConfigView {
        voice_name: voice.name,
        audio_format: match voice.suggested_codec {
            Some(format) => format,
            None => DEFAULT_AUDIO_FORMAT@,
        },
        pitch: 0,
        rate: 0,
        volume: 0,
    }
}

/// msedge_tts's `SpeechConfig::from(&Voice)`, on a voice of that crate that
/// has the given name and suggested codec and no other field set. The
/// conversion reads those two fields only: it takes the name, takes the codec
/// or, where there is none, `audio-24khz-48kbitrate-mono-mp3`, and sets
/// pitch, rate and volume to 0.
#[verifier::external_body]
fn convert_voice(name: &str, suggested_codec: Option<&str>) -> (config: SpeechConfig)
    ensures
        config@ == (SpeechConfigView {
            voice_name: name@,
            audio_format: match suggested_codec {
                Some(format) => format@,
                None => DEFAULT_AUDIO_FORMAT@,
            },
            pitch: 0,
            rate: 0,
            volume: 0,
        }),
{
    let suggested_codec = suggested_codec.map(str::to_owned);
    let (short_name, gender, locale, friendly_name) = (None, None, None, None);
    let voice = msedge_tts::voice::Voice {
        name: name.to_owned(), short_name, gender, locale, suggested_codec,
        friendly_name, status: None, voice_tag: None,
    };
    let made = msedge_tts::tts::SpeechConfig::from(&voice);
    SpeechConfig {
        voice_name: made.voice_name, audio_format: made.audio_format,
        pitch: made.pitch, rate: made.rate, volume: made.volume,
    }
}

impl Voice {
    /// The speech configuration that belongs to this voice.
    pub fn speech_config(&self) -> (config: SpeechConfig)
        ensures
            config@ == speech_config_of(self@),
    {
        match &self.suggested_codec {
            Some(format) => convert_voice(self.name.as_str(), Some(format.as_str())),
            None => convert_voice(self.name.as_str(), None),
        }
    }
}

/// The lower-case form of a text as Unicode defines it.
pub uninterp spec fn lowercase_of(text: Seq<char>) -> Seq<char>;

/// `str::to_lowercase` returns the lower-case form of the text. How each
/// character is mapped is left to std.
pub assume_specification[ str::to_lowercase ](text: &str) -> (lower: String)
    ensures
        lower@ == lowercase_of(text@),
;

/// Whether `pattern` stands somewhere in `text`.
pub open spec fn occurs_in(text: Seq<char>, pattern: Seq<char>) -> bool {
    exists|at: int| 0 <= at <= text.len() && #[trigger] starts_with(text.skip(at), pattern)
}

/// Whether `pattern` stands somewhere in `text`.
pub fn contains_text(text: &str, pattern: &str) -> (yes: bool)
    ensures
        yes == occurs_in(text@, pattern@),
{
    let chars = chars_of(text);
    let sought = chars_of(pattern);
    let mut at: usize = 0;
    while at <= chars.len()
        invariant
            chars@ == text@,
            sought@ == pattern@,
            at <= chars@.len() + 1,
            forall|k: int| 0 <= k < at ==> !#[trigger] starts_with(chars@.skip(k), sought@),
        decreases chars@.len() + 1 - at,
    {
        if sought.len() <= chars.len() - at {
            let mut i: usize = 0;
            while i < sought.len() && chars[at + i] == sought[i]
                invariant
                    at <= chars@.len() <= usize::MAX,
                    sought@.len() <= chars@.len() - at,
                    i <= sought@.len(),
                    forall|k: int| 0 <= k < i ==> chars@[at + k] == sought@[k],
                decreases sought@.len() - i,
            {
                i = i + 1;
            }
            if i == sought.len() {
                assert(chars@.skip(at as int).take(sought@.len() as int) =~= sought@);
                assert(starts_with(chars@.skip(at as int), sought@));
                return true;
            }
            assert(chars@.skip(at as int).take(sought@.len() as int)[i as int] != sought@[i as int]);
        }
        assert(!starts_with(chars@.skip(at as int), sought@));
        if at == chars.len() {
            return false;
        }
        at = at + 1;
    }
    false
}

/// The voices among `voices` that `wanted` holds of, in their order.
pub open spec fn kept(voices: Seq<VoiceView>, wanted: spec_fn(VoiceView) -> bool) -> Seq<
    VoiceView,
>
    decreases voices.len(),
{
    if voices.len() == 0 {
        Seq::empty()
    } else if wanted(voices.last()) {
        kept(voices.drop_last(), wanted).push(voices.last())
    } else {
        kept(voices.drop_last(), wanted)
    }
}

/// The outcome of a filter: the voices that `wanted` holds of, or every
/// voice where it holds of none, so that a filter never leaves the bot
/// without a voice.
pub open spec fn selected(voices: Seq<VoiceView>, wanted: spec_fn(VoiceView) -> bool) -> Seq<
    VoiceView,
> {
    if kept(voices, wanted).len() == 0 {
        voices
    } else {
        kept(voices, wanted)
    }
}

/// Whether the description of a voice holds each of the filter's texts,
/// letter case aside.
pub open spec fn matches_text(voice: VoiceView, filter: Seq<Seq<char>>) -> bool {
    forall|i: int|
        0 <= i < filter.len() ==> occurs_in(
            lowercase_of(voice.description),
            lowercase_of(#[trigger] filter[i]),
        )
}

/// What a voice tells of itself: its gender or its locale.
pub open spec fn told(voice: VoiceView, by_gender: bool) -> Option<Seq<char>> {
    if by_gender {
        voice.gender
    } else {
        voice.locale
    }
}

/// Whether a voice tells its gender, or its locale, and what it tells
/// holds `sought`, letter case aside.
pub open spec fn matches_told(voice: VoiceView, sought: Seq<char>, by_gender: bool) -> bool {
    match told(voice, by_gender) {
        Some(own) => occurs_in(lowercase_of(own), lowercase_of(sought)),
        None => false,
    }
}

/// Whether a voice tells its locale and the locale holds `locale`, letter
/// case aside.
pub open spec fn matches_locale(voice: VoiceView, locale: Seq<char>) -> bool {
    matches_told(voice, locale, false)
}

/// Whether a voice tells its gender and the gender holds `gender`, letter
/// case aside.
pub open spec fn matches_gender(voice: VoiceView, gender: Seq<char>) -> bool {
    matches_told(voice, gender, true)
}

/// The outcome of a filter by text.
pub open spec fn selected_by_text(voices: Seq<VoiceView>, filter: Seq<Seq<char>>) -> Seq<VoiceView> {
    selected(voices, |voice: VoiceView| matches_text(voice, filter))
}

/// The outcome of a filter by what a voice tells of itself.
pub open spec fn selected_by_told(voices: Seq<VoiceView>, sought: Seq<char>, by_gender: bool) -> Seq<
    VoiceView,
> {
    selected(voices, |voice: VoiceView| matches_told(voice, sought, by_gender))
}

/// The outcome of a filter by locale.
pub open spec fn selected_by_locale(voices: Seq<VoiceView>, locale: Seq<char>) -> Seq<VoiceView> {
    selected_by_told(voices, locale, false)
}

/// The outcome of a filter by gender.
pub open spec fn selected_by_gender(voices: Seq<VoiceView>, gender: Seq<char>) -> Seq<VoiceView> {
    selected_by_told(voices, gender, true)
}

/// A filter leaves a voice wherever there is one, and only voices that
/// were there.
pub proof fn law_filter_leaves_a_voice(voices: Seq<VoiceView>, wanted: spec_fn(VoiceView) -> bool)
    ensures
        voices.len() > 0 ==> selected(voices, wanted).len() > 0,
        forall|i: int|
            0 <= i < selected(voices, wanted).len() ==> voices.contains(
                #[trigger] selected(voices, wanted)[i],
            ),
{
    lemma_kept_is_part(voices, wanted);
}

/// What a filter keeps was there, and the filter holds of it.
proof fn lemma_kept_is_part(voices: Seq<VoiceView>, wanted: spec_fn(VoiceView) -> bool)
    ensures
        forall|i: int|
            0 <= i < kept(voices, wanted).len() ==> voices.contains(
                #[trigger] kept(voices, wanted)[i],
            ) && wanted(kept(voices, wanted)[i]),
    decreases voices.len(),
{
    if voices.len() > 0 {
        let earlier = voices.drop_last();
        lemma_kept_is_part(earlier, wanted);
        assert forall|i: int| 0 <= i < kept(voices, wanted).len() implies voices.contains(
            #[trigger] kept(voices, wanted)[i],
        ) && wanted(kept(voices, wanted)[i]) by {
            if i < kept(earlier, wanted).len() {
                let found = kept(earlier, wanted)[i];
                assert(earlier.contains(found));
                let k = choose|k: int| 0 <= k < earlier.len() && earlier[k] == found;
                assert(voices[k] == found);
            } else {
                assert(voices[voices.len() - 1] == voices.last());
            }
        }
    }
}

/// The locales that the voices tell, each once, in the order in which they
/// first come.
pub open spec fn locales_of(voices: Seq<VoiceView>) -> Seq<Seq<char>>
    decreases voices.len(),
{
    if voices.len() == 0 {
        Seq::empty()
    } else {
        let earlier = locales_of(voices.drop_last());
        match voices.last().locale {
            Some(locale) => if earlier.contains(locale) {
                earlier
            } else {
                earlier.push(locale)
            },
            None => earlier,
        }
    }
}

/// No locale stands twice among the locales that the voices tell.
pub proof fn law_locales_are_distinct(voices: Seq<VoiceView>)
    ensures
        locales_of(voices).no_duplicates(),
    decreases voices.len(),
{
    if voices.len() > 0 {
        law_locales_are_distinct(voices.drop_last());
    }
}

/// The voices to choose from. Its view is the sequence of the voices.
#[derive(Debug)]
pub struct VoiceDB {
    voice_list: Vec<Voice>,
}

impl View for VoiceDB {
    type V = Seq<VoiceView>;

    closed spec fn view(&self) -> Seq<VoiceView> {
        Seq::new(self.voice_list@.len(), |i: int| self.voice_list@[i]@)
    }
}

impl Clone for VoiceDB {
    fn clone(&self) -> (copy: Self)
        ensures
            copy@ == self@,
    {
        let mut voice_list: Vec<Voice> = Vec::new();
        let mut i: usize = 0;
        while i < self.voice_list.len()
            invariant
                i <= self.voice_list@.len(),
                voice_list@.len() == i,
                forall|k: int| 0 <= k < i ==> voice_list@[k]@ == self.voice_list@[k]@,
            decreases self.voice_list@.len() - i,
        {
            voice_list.push(self.voice_list[i].clone());
            i = i + 1;
        }
        let copy = VoiceDB { voice_list };
        assert(copy@ =~= self@);
        copy
    }
}

/// Whether `candidate` was seen before: whether it is one of `seen`.
fn seen_before(seen: &Vec<String>, candidate: &str) -> (yes: bool)
    ensures
        yes == seen.deep_view().contains(candidate@),
{
    let mut i: usize = 0;
    while i < seen.len()
        invariant
            i <= seen@.len(),
            forall|k: int| 0 <= k < i ==> seen.deep_view()[k] != candidate@,
        decreases seen@.len() - i,
    {
        if crate::text::same_text(seen[i].as_str(), candidate) {
            assert(seen.deep_view()[i as int] == candidate@);
            return true;
        }
        assert(seen.deep_view()[i as int] == seen@[i as int]@);
        i = i + 1;
    }
    false
}

impl VoiceDB {
    /// The voices of `voice_list`.
    pub fn new(voice_list: Vec<Voice>) -> (voices: Self)
        ensures
            voices@ == Seq::new(voice_list@.len(), |i: int| voice_list@[i]@),
    {
        VoiceDB { voice_list }
    }

    /// The number of voices.
    pub fn len(&self) -> (n: usize)
        ensures
            n == self@.len(),
    {
        self.voice_list.len()
    }

    /// The voice at `index`, if there is one.
    pub fn voice(&self, index: usize) -> (voice: Option<&Voice>)
        ensures
            match voice {
                Some(found) => index < self@.len() && found@ == self@[index as int],
                None => index >= self@.len(),
            },
    {
        if index < self.voice_list.len() {
            Some(&self.voice_list[index])
        } else {
            None
        }
    }

    /// The names of the voices, in order.
    pub fn list_all_voices(&self) -> (names: Vec<String>)
        ensures
            names.deep_view() == Seq::new(self@.len(), |i: int| self@[i].name),
    {
        let mut names: Vec<String> = Vec::new();
        let mut i: usize = 0;
        while i < self.voice_list.len()
            invariant
                i <= self.voice_list@.len(),
                names@.len() == i,
                forall|k: int| 0 <= k < i ==> names@[k]@ == self@[k].name,
            decreases self.voice_list@.len() - i,
        {
            names.push(self.voice_list[i].name.clone());
            i = i + 1;
        }
        assert(names.deep_view() =~= Seq::new(self@.len(), |i: int| self@[i].name));
        names
    }

    /// The voices that `wanted`, one flag for each voice, marks; every
    /// voice where it marks none.
    fn select(&self, wanted: &Vec<bool>, Ghost(holds): Ghost<spec_fn(VoiceView) -> bool>) -> (chosen:
        Self)
        requires
            wanted@.len() == self@.len(),
            forall|i: int| 0 <= i < self@.len() ==> wanted@[i] == holds(#[trigger] self@[i]),
        ensures
            chosen@ == selected(self@, holds),
    {
        let mut voice_list: Vec<Voice> = Vec::new();
        let mut i: usize = 0;
        assert(self@.take(0) =~= Seq::<VoiceView>::empty());
        while i < self.voice_list.len()
            invariant
                i <= self.voice_list@.len(),
                wanted@.len() == self@.len(),
                self@.len() == self.voice_list@.len(),
                forall|k: int| 0 <= k < self@.len() ==> wanted@[k] == holds(#[trigger] self@[k]),
                Seq::new(voice_list@.len(), |k: int| voice_list@[k]@) == kept(
                    self@.take(i as int),
                    holds,
                ),
            decreases self.voice_list@.len() - i,
        {
            let ghost before = Seq::new(voice_list@.len(), |k: int| voice_list@[k]@);
            let ghost taken = self@.take(i + 1);
            assert(taken.drop_last() =~= self@.take(i as int));
            assert(taken.last() == self@[i as int]);
            if wanted[i] {
                voice_list.push(self.voice_list[i].clone());
                assert(Seq::new(voice_list@.len(), |k: int| voice_list@[k]@) =~= before.push(
                    self@[i as int],
                ));
            }
            i = i + 1;
        }
        assert(self@.take(self@.len() as int) =~= self@);
        if voice_list.len() == 0 {
            return self.clone();
        }
        VoiceDB { voice_list }
    }

    /// The voices whose description holds every text of `filter`, letter
    /// case aside. Where no voice does, the filter is not applied and every
    /// voice is returned.
    pub fn filter_voices_by_text(&self, filter: &Vec<String>) -> (chosen: Self)
        ensures
            chosen@ == selected_by_text(self@, filter.deep_view()),
    {
        let mut lowered: Vec<String> = Vec::new();
        let mut f: usize = 0;
        while f < filter.len()
            invariant
                f <= filter@.len(),
                lowered@.len() == f,
                forall|k: int| 0 <= k < f ==> lowered@[k]@ == lowercase_of(filter@[k]@),
            decreases filter@.len() - f,
        {
            lowered.push(filter[f].as_str().to_lowercase());
            f = f + 1;
        }
        let ghost holds = |voice: VoiceView| matches_text(voice, filter.deep_view());
        let mut wanted: Vec<bool> = Vec::new();
        let mut i: usize = 0;
        while i < self.voice_list.len()
            invariant
                i <= self.voice_list@.len(),
                self@.len() == self.voice_list@.len(),
                wanted@.len() == i,
                lowered@.len() == filter@.len(),
                forall|k: int| 0 <= k < filter@.len() ==> lowered@[k]@ == lowercase_of(filter@[k]@),
                forall|k: int| 0 <= k < i ==> wanted@[k] == matches_text(
                    #[trigger] self@[k],
                    filter.deep_view(),
                ),
            decreases self.voice_list@.len() - i,
        {
            let text = self.voice_list[i].description.as_str().to_lowercase();
            let mut all = true;
            let mut j: usize = 0;
            while j < lowered.len() && all
                invariant
                    j <= lowered@.len(),
                    lowered@.len() == filter@.len(),
                    text@ == lowercase_of(self@[i as int].description),
                    forall|k: int|
                        0 <= k < filter@.len() ==> lowered@[k]@ == lowercase_of(filter@[k]@),
                    all == (forall|k: int|
                        0 <= k < j ==> occurs_in(
                            text@,
                            lowercase_of(#[trigger] filter.deep_view()[k]),
                        )),
                decreases lowered@.len() - j,
            {
                let found = contains_text(text.as_str(), lowered[j].as_str());
                assert(filter.deep_view()[j as int] == filter@[j as int]@);
                if !found {
                    all = false;
                }
                j = j + 1;
            }
            wanted.push(all);
            i = i + 1;
        }
        self.select(&wanted, Ghost(holds))
    }

    /// The voices that tell their gender, or their locale, and tell one
    /// that holds `sought`, letter case aside; every voice where none does.
    fn filter_told(&self, sought: &str, by_gender: bool) -> (chosen: Self)
        ensures
            chosen@ == selected_by_told(self@, sought@, by_gender),
    {
        let lowered = sought.to_lowercase();
        let ghost holds = |voice: VoiceView| matches_told(voice, sought@, by_gender);
        let mut wanted: Vec<bool> = Vec::new();
        let mut i: usize = 0;
        while i < self.voice_list.len()
            invariant
                i <= self.voice_list@.len(),
                self@.len() == self.voice_list@.len(),
                wanted@.len() == i,
                lowered@ == lowercase_of(sought@),
                forall|k: int| 0 <= k < i ==> wanted@[k] == matches_told(
                    #[trigger] self@[k],
                    sought@,
                    by_gender,
                ),
            decreases self.voice_list@.len() - i,
        {
            let own = if by_gender {
                &self.voice_list[i].gender
            } else {
                &self.voice_list[i].locale
            };
            assert(view_of(*own) == told(self@[i as int], by_gender));
            let found = match own {
                Some(own) => contains_text(own.as_str().to_lowercase().as_str(), lowered.as_str()),
                None => false,
            };
            wanted.push(found);
            i = i + 1;
        }
        self.select(&wanted, Ghost(holds))
    }

    /// The voices that tell a locale which holds `locale`, letter case
    /// aside; every voice where none does.
    pub fn filter_locale(&self, locale: &str) -> (chosen: Self)
        ensures
            chosen@ == selected_by_locale(self@, locale@),
    {
        self.filter_told(locale, false)
    }

    /// The voices that tell a gender which holds `gender`, letter case
    /// aside; every voice where none does.
    pub fn filter_gender(&self, gender: &str) -> (chosen: Self)
        ensures
            chosen@ == selected_by_gender(self@, gender@),
    {
        self.filter_told(gender, true)
    }

    /// The locales that the voices tell, each once, in the order in which
    /// they first come.
    pub fn list_all_locales(&self) -> (locales: Vec<String>)
        ensures
            locales.deep_view() == locales_of(self@),
            locales.deep_view().no_duplicates(),
    {
        proof {
            law_locales_are_distinct(self@);
        }
        let mut locales: Vec<String> = Vec::new();
        let mut i: usize = 0;
        assert(self@.take(0) =~= Seq::<VoiceView>::empty());
        assert(locales.deep_view() =~= Seq::<Seq<char>>::empty());
        while i < self.voice_list.len()
            invariant
                i <= self.voice_list@.len(),
                self@.len() == self.voice_list@.len(),
                locales.deep_view() == locales_of(self@.take(i as int)),
            decreases self.voice_list@.len() - i,
        {
            let ghost before = locales.deep_view();
            let ghost taken = self@.take(i + 1);
            assert(taken.drop_last() =~= self@.take(i as int));
            assert(taken.last() == self@[i as int]);
            match &self.voice_list[i].locale {
                Some(locale) => {
                    if !seen_before(&locales, locale.as_str()) {
                        locales.push(locale.clone());
                        assert(locales.deep_view() =~= before.push(locale@));
                    }
                },
                None => {},
            }
            i = i + 1;
        }
        assert(self@.take(self@.len() as int) =~= self@);
        locales
    }
}

/// rand's `rng` and `RngExt::random_range` over `0..upper`: a number below
/// `upper`, drawn from the thread's random generator. Which number is
/// anybody's guess. rand panics on an empty range, and where the system
/// gives the generator no seed at its first use.
#[verifier::external_body]
fn random_below(upper: usize) -> (chosen: usize)
    requires
        upper > 0,
    ensures
        chosen < upper,
{
    rand::rng().random_range(0..upper)
}

impl VoiceDB {
    /// One of the voices, chosen at random. There has to be a voice to
    /// choose.
    pub fn random(&self) -> (voice: &Voice)
        requires
            self@.len() > 0,
        ensures
            exists|i: int| 0 <= i < self@.len() && voice@ == self@[i],
    {
        let chosen = random_below(self.voice_list.len());
        assert(self.voice_list@[chosen as int]@ == self@[chosen as int]);
        &self.voice_list[chosen]
    }
}

/// What regex makes of `text` when every match of `pattern` is replaced by
/// `with`; `None` where regex does not accept the pattern.
pub uninterp spec fn pattern_replaced(pattern: Seq<char>, text: Seq<char>, with: Seq<char>) -> Option<
    Seq<char>,
>;

/// regex's `Regex::new` on `pattern` and, where that succeeds,
/// `Regex::replace_all` of the compiled pattern on `text` with `with`. Both
/// depend on their arguments alone; what they match is left to regex.
#[verifier::external_body]
fn replace_pattern(pattern: &str, text: &str, with: &str) -> (out: Option<String>)
    ensures
        view_of(out) == pattern_replaced(pattern@, text@, with@),
{
    match regex::Regex::new(pattern) {
        Ok(compiled) => Some(compiled.replace_all(text, with).into_owned()),
        Err(_) => None,
    }
}

/// `text` with every link replaced by the words that stand for one.
pub open spec fn urls_removed(text: Seq<char>) -> Seq<char> {
    match pattern_replaced(URL_PATTERN@, text, URL_REPLACEMENT@) {
        Some(clean) => clean,
        None => text,
    }
}

/// Replaces every link in `text` by `, URL removed,`.
pub fn remove_url_in_text(text: &str) -> (clean: String)
    ensures
        clean@ == urls_removed(text@),
{
    match replace_pattern(URL_PATTERN, text, URL_REPLACEMENT) {
        Some(clean) => clean,
        None => String::from_str(text),
    }
}

/// What is spoken for a character: a word for `&` and for `%`, the
/// character itself for any other.
pub open spec fn spoken_char(ch: char) -> Seq<char> {
    if ch == '&' {
        "and"@
    } else if ch == '%' {
        "percent"@
    } else {
        seq![ch]
    }
}

/// `text` with each character replaced by what is spoken for it.
pub open spec fn spoken(text: Seq<char>) -> Seq<char>
    decreases text.len(),
{
    if text.len() == 0 {
        Seq::empty()
    } else {
        spoken(text.drop_last()) + spoken_char(text.last())
    }
}

/// Replaces each `&` by `and` and each `%` by `percent`.
pub fn spoken_text(text: &str) -> (out: String)
    ensures
        out@ == spoken(text@),
{
    let chars = chars_of(text);
    let mut out = String::new();
    let mut i: usize = 0;
    assert(chars@.take(0) =~= Seq::<char>::empty());
    while i < chars.len()
        invariant
            i <= chars@.len(),
            out@ == spoken(chars@.take(i as int)),
        decreases chars@.len() - i,
    {
        let ghost taken = chars@.take(i + 1);
        assert(taken.drop_last() =~= chars@.take(i as int));
        assert(taken.last() == chars@[i as int]);
        let ch = chars[i];
        if ch == '&' {
            out.append("and");
        } else if ch == '%' {
            out.append("percent");
        } else {
            out.push(ch);
            assert(out@ =~= spoken(chars@.take(i as int)) + seq![ch]);
        }
        i = i + 1;
    }
    assert(chars@.take(chars@.len() as int) =~= chars@);
    out
}

/// The text that is handed to the speech service for a chat message: the
/// message without its links, every `&` and `%` spelled out.
pub fn speakable_text(payload: &str) -> (out: String)
    ensures
        out@ == spoken(urls_removed(payload@)),
{
    let clean = remove_url_in_text(payload);
    spoken_text(clean.as_str())
}

/// The message that has `payload` spoken for `nick`. What the bot says
/// itself is spoken with the bot's voice. What anybody else says is spoken
/// with that user's voice; a user that the bot has not met is met now and
/// gets a voice as [`UsersDB::get_user`] gives it.
pub fn voice_msg(
    payload: &str,
    nick: &str,
    bot: &TwitchBotInfo,
    users: &mut UsersDB,
    voices: &VoiceDB,
    defaults: &UserDefaultVoiceConfig,
) -> (message: TTSMassage)
    requires
        nick@ != bot@.nick_name && position_of(old(users)@, nick@) is None ==> voices@.len() > 0,
    ensures
        message.payload@ == payload@,
        nick@ == bot@.nick_name ==> message.speech_config@ == bot@.speech_config && final(users)@
            == old(users)@,
        nick@ != bot@.nick_name ==> match position_of(old(users)@, nick@) {
            Some(at) => message.speech_config@ == old(users)@[at].1 && final(users)@ == old(
                users,
            )@,
            None => {
                &&& is_choice_for_new_user(message.speech_config@, voices@, defaults@)
                &&& final(users)@ == old(users)@.push((nick@, message.speech_config@))
            },
        },
{
    let speech_config = if !same_text(nick, bot.nick_name().as_str()) {
        users.get_user(nick, voices, defaults).get_speech_config().clone()
    } else {
        bot.speech_config().clone()
    };
    TTSMassage { speech_config, payload: String::from_str(payload) }
}

} // verus!
