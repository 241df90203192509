//! The chart model and the builders that turn the entries of each section of a
//! `.chart` file into it.
use vstd::prelude::*;
use vstd::arithmetic::power2::{pow2, lemma2_to64, lemma_pow2_unfold, lemma_pow2_strictly_increases};
use crate::text::{
    ParseIntError, decimal, parse_decimal, split_spaces, split_spaces_of, split_first_space,
    same_text, lemma_split_shape, trim_quotes, trimmed_quotes, ascii_lower,
    equals_ignoring_ascii_case, unquote, unquoted,
};

verus! {

/// Names of the audio streams that go with a song.
#[derive(Debug, Clone, PartialEq, Eq)]
pub struct SongStreams {
    pub music: Option<String>,
    pub guitar: Option<String>,
    pub bass: Option<String>,
    pub rhythm: Option<String>,
    pub drum: Option<String>,
}

/// The instrument that a second player takes.
#[derive(Debug, Clone, Copy, PartialEq, Eq, Structural)]
pub enum SongPlayer2 {
    Bass,
    Rhythm,
}

/// The `[Song]` section. The preview bounds are kept as written: they are
/// fractional seconds, which this library does not compute with.
#[derive(Debug, Clone, PartialEq, Eq)]
pub struct Song {
    pub name: Option<String>,
    pub artist: Option<String>,
    pub charter: Option<String>,
    pub album: Option<String>,
    pub year: Option<String>,
    pub offset: Option<u64>,
    /// Ticks per quarter note.
    pub resolution: u64,
    pub player2: Option<SongPlayer2>,
    pub difficulty: Option<u64>,
    pub preview_start: Option<String>,
    pub preview_end: Option<String>,
    pub genre: Option<String>,
    pub media_type: Option<String>,
    pub streams: SongStreams,
}

/// An entry of the `[SyncTrack]` section.
#[derive(Debug, Clone, Copy, PartialEq, Eq, Structural)]
pub enum SyncTrack {
    /// `lower` is the denominator itself, a power of two.
    TimeSignature { ticks: u64, upper: u64, lower: u64 },
    /// Beats per minute times one thousand.
    BeatsPerMinute { ticks: u64, bpm1000: u64 },
}

/// An entry of the `[Events]` section.
#[derive(Debug, Clone, PartialEq, Eq)]
pub enum Event {
    Section { ticks: u64, name: String },
}

/// Star power and the like; not read from charts yet.
#[derive(Debug, Clone, Copy, PartialEq, Eq, Structural)]
pub enum SpecialEvent {
    StarPower { ticks: u64, duration: u64 },
}

/// A note entry of an instrument section: lane codes 0 to 4 are frets, 5 forces
/// a hammer-on, 6 marks a tap and 7 an open note.
#[derive(Debug, Clone, Copy, PartialEq, Eq, Structural)]
pub struct Note {
    pub ticks: u64,
    pub note: u64,
    pub duration: u64,
}

#[derive(Debug, Clone, Copy, PartialEq, Eq, Structural)]
pub enum Instrument {
    Guitar,
    GuitarCoop,
    Bass,
    Rhythm,
    GHLGuitar,
    GHLBass,
    Drums,
    Keyboard,
    RealBass,
    RealGuitar,
    RealKeys,
}

#[derive(Debug, Clone, Copy, PartialEq, Eq, Structural)]
pub enum Difficulty {
    Easy,
    Medium,
    Hard,
    Expert,
}

/// The notes of one instrument at one difficulty.
#[derive(Debug, Clone, PartialEq, Eq)]
pub struct Part {
    pub instrument: Instrument,
    pub difficulty: Difficulty,
    pub notes: Vec<Note>,
    pub special_events: Vec<SpecialEvent>,
}

/// A whole chart.
#[derive(Debug, Clone, PartialEq, Eq)]
pub struct Chart {
    pub song: Song,
    pub sync_track: Vec<SyncTrack>,
    pub events: Vec<Event>,
    pub parts: Vec<Part>,
}

#[derive(Debug, Clone, Copy, PartialEq, Eq, Structural)]
pub enum SongError {
    ParseIntError(ParseIntError),
    MissingResolution,
}

#[derive(Debug, Clone, Copy, PartialEq, Eq, Structural)]
pub enum SyncTrackError {
    ParseIntError(ParseIntError),
    TSMissingUpper,
    /// The denominator exponent is 64 or more: the denominator would not fit.
    TSLowerTooLarge,
    BMissingBPM,
}

#[derive(Debug, Clone, Copy, PartialEq, Eq, Structural)]
pub enum EventError {
    ParseIntError(ParseIntError),
    ESectionMissingSectionName,
}

#[derive(Debug, Clone, Copy, PartialEq, Eq, Structural)]
pub enum PartError {
    UnknownInstrumentDifficulty,
    ParseIntError(ParseIntError),
    NMissingNote,
    NMissingDuration,
}

#[derive(Debug, Clone, Copy, PartialEq, Eq, Structural)]
pub enum ChartParseError {
    BadSection,
    MissingSongSection,
    MissingSyncTrackSection,
    SongSectionError(SongError),
    SyncTrackSectionError(SyncTrackError),
    EventSectionError(EventError),
    PartSectionError(PartError),
}

/// The entries of a section, as (key, value) text.
pub type Entries = Seq<(Seq<char>, Seq<char>)>;

/// Reads each entry in turn with `f`, keeping what it yields and skipping what
/// it declines; the first failure is the result.
pub open spec fn collect<T, E>(
    es: Entries,
    f: spec_fn(Seq<char>, Seq<char>) -> Result<Option<T>, E>,
) -> Result<Seq<T>, E>
    decreases es.len(),
{
    if es.len() == 0 {
        Ok(Seq::empty())
    } else {
        match collect(es.drop_last(), f) {
            Err(e) => Err(e),
            Ok(v) => match f(es.last().0, es.last().1) {
                Err(e) => Err(e),
                Ok(None) => Ok(v),
                Ok(Some(t)) => Ok(v.push(t)),
            },
        }
    }
}

/// A failure on some entry is the failure of the whole section.
pub proof fn lemma_collect_error_sticks<T, E>(
    es: Entries,
    f: spec_fn(Seq<char>, Seq<char>) -> Result<Option<T>, E>,
    k: nat,
)
    requires
        k <= es.len(),
        collect(es.take(k as int), f) is Err,
    ensures
        collect(es, f) == collect(es.take(k as int), f),
    decreases es.len() - k,
{
    if k < es.len() {
        assert(es.take(k + 1 as int).drop_last() == es.take(k as int));
        lemma_collect_error_sticks(es, f, k + 1);
    } else {
        assert(es.take(k as int) == es);
    }
}

/// The error of a failed integer reading.
pub open spec fn int_error<T>(r: Result<T, ParseIntError>) -> ParseIntError {
    r->Err_0
}

/// What one `[SyncTrack]` entry yields: `TS <upper> [<log2 lower>]` and
/// `B <bpm * 1000>` are read, anything else is skipped.
pub open spec fn synctrack_entry(key: Seq<char>, value: Seq<char>) -> Result<Option<SyncTrack>, SyncTrackError> {
    let parts = split_spaces(value);
    let ticks = decimal(key, u64::MAX);
    if parts[0] == "TS"@ {
        if ticks is Err {
            Err(SyncTrackError::ParseIntError(int_error(ticks)))
        } else if parts.len() < 2 {
            Err(SyncTrackError::TSMissingUpper)
        } else if decimal(parts[1], u64::MAX) is Err {
            Err(SyncTrackError::ParseIntError(int_error(decimal(parts[1], u64::MAX))))
        } else if parts.len() < 3 {
            Ok(Some(SyncTrack::TimeSignature {
                ticks: ticks->Ok_0,
                upper: decimal(parts[1], u64::MAX)->Ok_0,
                lower: 4,
            }))
        } else if decimal(parts[2], u32::MAX as u64) is Err {
            Err(SyncTrackError::ParseIntError(int_error(decimal(parts[2], u32::MAX as u64))))
        } else if decimal(parts[2], u32::MAX as u64)->Ok_0 >= 64 {
            Err(SyncTrackError::TSLowerTooLarge)
        } else {
            Ok(Some(SyncTrack::TimeSignature {
                ticks: ticks->Ok_0,
                upper: decimal(parts[1], u64::MAX)->Ok_0,
                lower: pow2(decimal(parts[2], u32::MAX as u64)->Ok_0 as nat) as u64,
            }))
        }
    } else if parts[0] == "B"@ {
        if ticks is Err {
            Err(SyncTrackError::ParseIntError(int_error(ticks)))
        } else if parts.len() < 2 {
            Err(SyncTrackError::BMissingBPM)
        } else if decimal(parts[1], u64::MAX) is Err {
            Err(SyncTrackError::ParseIntError(int_error(decimal(parts[1], u64::MAX))))
        } else {
            Ok(Some(SyncTrack::BeatsPerMinute {
                ticks: ticks->Ok_0,
                bpm1000: decimal(parts[1], u64::MAX)->Ok_0,
            }))
        }
    } else {
        Ok(None)
    }
}

pub open spec fn synctrack_reader() -> spec_fn(Seq<char>, Seq<char>) -> Result<Option<SyncTrack>, SyncTrackError> {
    |k: Seq<char>, v: Seq<char>| synctrack_entry(k, v)
}

pub open spec fn synctrack_of(es: Entries) -> Result<Seq<SyncTrack>, SyncTrackError> {
    collect(es, synctrack_reader())
}

/// 2 to the power `e`.
fn power_of_two(e: u64) -> (r: u64)
    requires
        e < 64,
    ensures
        r == pow2(e as nat),
{
    proof { lemma2_to64(); }
    let mut r: u64 = 1;
    let mut i: u64 = 0;
    while i < e
        invariant
            i <= e < 64,
            r == pow2(i as nat),
        decreases e - i,
    {
        proof {
            lemma_pow2_unfold((i + 1) as nat);
            lemma_pow2_strictly_increases((i + 1) as nat, 64);
            lemma2_to64();
        }
        r = r * 2;
        i = i + 1;
    }
    r
}

fn synctrack_entry_of(key: &str, value: &str) -> (r: Result<Option<SyncTrack>, SyncTrackError>)
    ensures
        r == synctrack_entry(key@, value@),
{
    let parts = split_spaces_of(value);
    proof { lemma_split_shape(value@); }
    let is_ts = same_text(parts[0], "TS");
    let is_b = same_text(parts[0], "B");
    if !is_ts && !is_b {
        return Ok(None);
    }
    let ticks = match parse_decimal(key, u64::MAX) {
        Ok(t) => t,
        Err(e) => return Err(SyncTrackError::ParseIntError(e)),
    };
    if is_ts {
        if parts.len() < 2 {
            return Err(SyncTrackError::TSMissingUpper);
        }
        let upper = match parse_decimal(parts[1], u64::MAX) {
            Ok(u) => u,
            Err(e) => return Err(SyncTrackError::ParseIntError(e)),
        };
        if parts.len() < 3 {
            return Ok(Some(SyncTrack::TimeSignature { ticks, upper, lower: 4 }));
        }
        let exponent = match parse_decimal(parts[2], u32::MAX as u64) {
            Ok(x) => x,
            Err(e) => return Err(SyncTrackError::ParseIntError(e)),
        };
        if exponent >= 64 {
            return Err(SyncTrackError::TSLowerTooLarge);
        }
        let lower = power_of_two(exponent);
        Ok(Some(SyncTrack::TimeSignature { ticks, upper, lower }))
    } else {
        if parts.len() < 2 {
            return Err(SyncTrackError::BMissingBPM);
        }
        match parse_decimal(parts[1], u64::MAX) {
            Ok(bpm1000) => Ok(Some(SyncTrack::BeatsPerMinute { ticks, bpm1000 })),
            Err(e) => Err(SyncTrackError::ParseIntError(e)),
        }
    }
}

/// Reads the `[SyncTrack]` section: time signatures and tempo markers in the
/// order written; entries of other kinds are skipped.
pub fn build_synctrack(entries: &Vec<(String, String)>) -> (r: Result<Vec<SyncTrack>, SyncTrackError>)
    ensures
        match r {
            Ok(v) => synctrack_of(entries.deep_view()) == Ok::<Seq<SyncTrack>, SyncTrackError>(v@),
            Err(e) => synctrack_of(entries.deep_view()) == Err::<Seq<SyncTrack>, SyncTrackError>(e),
        },
{
    let ghost es = entries.deep_view();
    let ghost f = synctrack_reader();
    let mut out: Vec<SyncTrack> = Vec::new();
    let mut i: usize = 0;
    while i < entries.len()
        invariant
            es == entries.deep_view(),
            f == synctrack_reader(),
            i <= entries@.len(),
            collect(es.take(i as int), f) == Ok::<Seq<SyncTrack>, SyncTrackError>(out@),
        decreases entries@.len() - i,
    {
        assert(es.take(i + 1 as int).drop_last() == es.take(i as int));
        assert(es.take(i + 1 as int).last() == es[i as int]);
        assert(es[i as int] == (entries@[i as int].0@, entries@[i as int].1@));
        let entry = synctrack_entry_of(entries[i].0.as_str(), entries[i].1.as_str());
        match entry {
            Err(e) => {
                proof { lemma_collect_error_sticks(es, f, (i + 1) as nat); }
                return Err(e);
            },
            Ok(Some(t)) => out.push(t),
            Ok(None) => {},
        }
        i = i + 1;
    }
    assert(es.take(i as int) == es);
    Ok(out)
}

/// Splits `s` at its first space, as `split_first_space` says.
fn split_first_space_of<'a>(s: &'a str) -> (r: (&'a str, Option<&'a str>))
    ensures
        r.0@ == split_first_space(s@).0,
        r.1.deep_view() == split_first_space(s@).1,
{
    let pieces = split_spaces_of(s);
    proof { lemma_split_shape(s@); }
    if pieces.len() > 1 {
        let first = pieces[0];
        let n = s.unicode_len();
        let k = first.unicode_len();
        let rest = s.substring_char(k + 1, n);
        (first, Some(rest))
    } else {
        (s, None)
    }
}

/// The ticks and the name of an event.
pub open spec fn event_view(e: Event) -> (u64, Seq<char>) {
    match e {
        Event::Section { ticks, name } => (ticks, name@),
    }
}

/// What one `[Events]` entry yields: `E "section <name>"` is a section marker
/// and needs a non-empty name; anything else is skipped.
pub open spec fn event_entry(key: Seq<char>, value: Seq<char>) -> Result<Option<(u64, Seq<char>)>, EventError> {
    let (event_type, rest) = split_first_space(value);
    match rest {
        None => Ok(None),
        Some(r) => {
            let (subtype, param) = split_first_space(trim_quotes(r));
            if event_type == "E"@ && subtype == "section"@ {
                match decimal(key, u64::MAX) {
                    Err(e) => Err(EventError::ParseIntError(e)),
                    Ok(ticks) => match param {
                        Some(name) => if name.len() > 0 {
                            Ok(Some((ticks, name)))
                        } else {
                            Err(EventError::ESectionMissingSectionName)
                        },
                        None => Err(EventError::ESectionMissingSectionName),
                    },
                }
            } else {
                Ok(None)
            }
        },
    }
}

pub open spec fn event_reader() -> spec_fn(Seq<char>, Seq<char>) -> Result<Option<(u64, Seq<char>)>, EventError> {
    |k: Seq<char>, v: Seq<char>| event_entry(k, v)
}

pub open spec fn events_of(es: Entries) -> Result<Seq<(u64, Seq<char>)>, EventError> {
    collect(es, event_reader())
}

fn event_entry_of(key: &str, value: &str) -> (r: Result<Option<Event>, EventError>)
    ensures
        match r {
            Ok(Some(e)) => event_entry(key@, value@) == Ok::<Option<(u64, Seq<char>)>, EventError>(Some(event_view(e))),
            Ok(None) => event_entry(key@, value@) == Ok::<Option<(u64, Seq<char>)>, EventError>(None),
            Err(e) => event_entry(key@, value@) == Err::<Option<(u64, Seq<char>)>, EventError>(e),
        },
{
    let (event_type, rest) = split_first_space_of(value);
    let rest = match rest {
        Some(r) => r,
        None => return Ok(None),
    };
    let (subtype, param) = split_first_space_of(trimmed_quotes(rest));
    if !same_text(event_type, "E") || !same_text(subtype, "section") {
        return Ok(None);
    }
    let ticks = match parse_decimal(key, u64::MAX) {
        Ok(t) => t,
        Err(e) => return Err(EventError::ParseIntError(e)),
    };
    match param {
        Some(name) => {
            if name.unicode_len() == 0 {
                Err(EventError::ESectionMissingSectionName)
            } else {
                Ok(Some(Event::Section { ticks, name: name.to_string() }))
            }
        },
        None => Err(EventError::ESectionMissingSectionName),
    }
}

/// Reads the `[Events]` section: section markers in the order written; other
/// events are skipped.
pub fn build_events(entries: &Vec<(String, String)>) -> (r: Result<Vec<Event>, EventError>)
    ensures
        match r {
            Ok(v) => events_of(entries.deep_view()) == Ok::<Seq<(u64, Seq<char>)>, EventError>(v@.map_values(|e: Event| event_view(e))),
            Err(e) => events_of(entries.deep_view()) == Err::<Seq<(u64, Seq<char>)>, EventError>(e),
        },
{
    let ghost es = entries.deep_view();
    let ghost f = event_reader();
    let mut out: Vec<Event> = Vec::new();
    assert(out@.map_values(|e: Event| event_view(e)) =~= Seq::<(u64, Seq<char>)>::empty());
    let mut i: usize = 0;
    while i < entries.len()
        invariant
            es == entries.deep_view(),
            f == event_reader(),
            i <= entries@.len(),
            collect(es.take(i as int), f) == Ok::<Seq<(u64, Seq<char>)>, EventError>(out@.map_values(|e: Event| event_view(e))),
        decreases entries@.len() - i,
    {
        assert(es.take(i + 1 as int).drop_last() == es.take(i as int));
        assert(es.take(i + 1 as int).last() == es[i as int]);
        assert(es[i as int] == (entries@[i as int].0@, entries@[i as int].1@));
        let entry = event_entry_of(entries[i].0.as_str(), entries[i].1.as_str());
        match entry {
            Err(e) => {
                proof { lemma_collect_error_sticks(es, f, (i + 1) as nat); }
                return Err(e);
            },
            Ok(Some(ev)) => {
                let ghost before = out@;
                out.push(ev);
                assert(out@.map_values(|e: Event| event_view(e)) == before.map_values(|e: Event| event_view(e)).push(event_view(ev)));
            },
            Ok(None) => {},
        }
        i = i + 1;
    }
    assert(es.take(i as int) == es);
    Ok(out)
}

/// The instrument and difficulty of each section name that is known.
pub open spec fn part_table(name: Seq<char>) -> Option<(Instrument, Difficulty)> {
    if name == "ExpertSingle"@ { Some((Instrument::Guitar, Difficulty::Expert)) }
    else if name == "HardSingle"@ { Some((Instrument::Guitar, Difficulty::Hard)) }
    else if name == "MediumSingle"@ { Some((Instrument::Guitar, Difficulty::Medium)) }
    else if name == "EasySingle"@ { Some((Instrument::Guitar, Difficulty::Easy)) }
    else if name == "ExpertDoubleBass"@ { Some((Instrument::Bass, Difficulty::Expert)) }
    else if name == "HardDoubleBass"@ { Some((Instrument::Bass, Difficulty::Hard)) }
    else if name == "MediumDoubleBass"@ { Some((Instrument::Bass, Difficulty::Medium)) }
    else if name == "EasyDoubleBass"@ { Some((Instrument::Bass, Difficulty::Easy)) }
    else if name == "ExpertKeyboard"@ { Some((Instrument::Keyboard, Difficulty::Expert)) }
    else if name == "HardKeyboard"@ { Some((Instrument::Keyboard, Difficulty::Hard)) }
    else if name == "MediumKeyboard"@ { Some((Instrument::Keyboard, Difficulty::Medium)) }
    else if name == "EasyKeyboard"@ { Some((Instrument::Keyboard, Difficulty::Easy)) }
    else if name == "ExpertDrums"@ { Some((Instrument::Drums, Difficulty::Expert)) }
    else if name == "HardDrums"@ { Some((Instrument::Drums, Difficulty::Hard)) }
    else if name == "MediumDrums"@ { Some((Instrument::Drums, Difficulty::Medium)) }
    else if name == "EasyDrums"@ { Some((Instrument::Drums, Difficulty::Easy)) }
    else if name == "PART REAL_GUITAR"@ { Some((Instrument::RealGuitar, Difficulty::Expert)) }
    else if name == "PART REAL_BASS"@ { Some((Instrument::RealBass, Difficulty::Expert)) }
    else if name == "PART REAL_KEYS_X"@ { Some((Instrument::RealKeys, Difficulty::Expert)) }
    else if name == "PART REAL_KEYS_H"@ { Some((Instrument::RealKeys, Difficulty::Hard)) }
    else if name == "PART REAL_KEYS_M"@ { Some((Instrument::RealKeys, Difficulty::Medium)) }
    else if name == "PART REAL_KEYS_E"@ { Some((Instrument::RealKeys, Difficulty::Easy)) }
    else { None }
}

/// The instrument and difficulty that a section name stands for. A name that
/// is not known is taken as expert guitar.
pub open spec fn part_kind(name: Seq<char>) -> (Instrument, Difficulty) {
    match part_table(name) {
        Some(kind) => kind,
        None => (Instrument::Guitar, Difficulty::Expert),
    }
}

fn part_kind_of(name: &str) -> (r: (Instrument, Difficulty))
    ensures
        r == part_kind(name@),
{
    if same_text(name, "ExpertSingle") { (Instrument::Guitar, Difficulty::Expert) }
    else if same_text(name, "HardSingle") { (Instrument::Guitar, Difficulty::Hard) }
    else if same_text(name, "MediumSingle") { (Instrument::Guitar, Difficulty::Medium) }
    else if same_text(name, "EasySingle") { (Instrument::Guitar, Difficulty::Easy) }
    else if same_text(name, "ExpertDoubleBass") { (Instrument::Bass, Difficulty::Expert) }
    else if same_text(name, "HardDoubleBass") { (Instrument::Bass, Difficulty::Hard) }
    else if same_text(name, "MediumDoubleBass") { (Instrument::Bass, Difficulty::Medium) }
    else if same_text(name, "EasyDoubleBass") { (Instrument::Bass, Difficulty::Easy) }
    else if same_text(name, "ExpertKeyboard") { (Instrument::Keyboard, Difficulty::Expert) }
    else if same_text(name, "HardKeyboard") { (Instrument::Keyboard, Difficulty::Hard) }
    else if same_text(name, "MediumKeyboard") { (Instrument::Keyboard, Difficulty::Medium) }
    else if same_text(name, "EasyKeyboard") { (Instrument::Keyboard, Difficulty::Easy) }
    else if same_text(name, "ExpertDrums") { (Instrument::Drums, Difficulty::Expert) }
    else if same_text(name, "HardDrums") { (Instrument::Drums, Difficulty::Hard) }
    else if same_text(name, "MediumDrums") { (Instrument::Drums, Difficulty::Medium) }
    else if same_text(name, "EasyDrums") { (Instrument::Drums, Difficulty::Easy) }
    else if same_text(name, "PART REAL_GUITAR") { (Instrument::RealGuitar, Difficulty::Expert) }
    else if same_text(name, "PART REAL_BASS") { (Instrument::RealBass, Difficulty::Expert) }
    else if same_text(name, "PART REAL_KEYS_X") { (Instrument::RealKeys, Difficulty::Expert) }
    else if same_text(name, "PART REAL_KEYS_H") { (Instrument::RealKeys, Difficulty::Hard) }
    else if same_text(name, "PART REAL_KEYS_M") { (Instrument::RealKeys, Difficulty::Medium) }
    else if same_text(name, "PART REAL_KEYS_E") { (Instrument::RealKeys, Difficulty::Easy) }
    else { (Instrument::Guitar, Difficulty::Expert) }
}

/// What one entry of an instrument section yields: `N <lane> <duration>` is a
/// note; anything else is skipped.
pub open spec fn note_entry(key: Seq<char>, value: Seq<char>) -> Result<Option<Note>, PartError> {
    let parts = split_spaces(value);
    let ticks = decimal(key, u64::MAX);
    if parts[0] == "N"@ {
        if ticks is Err {
            Err(PartError::ParseIntError(int_error(ticks)))
        } else if parts.len() < 2 {
            Err(PartError::NMissingNote)
        } else if decimal(parts[1], u64::MAX) is Err {
            Err(PartError::ParseIntError(int_error(decimal(parts[1], u64::MAX))))
        } else if parts.len() < 3 {
            Err(PartError::NMissingDuration)
        } else if decimal(parts[2], u64::MAX) is Err {
            Err(PartError::ParseIntError(int_error(decimal(parts[2], u64::MAX))))
        } else {
            Ok(Some(Note {
                ticks: ticks->Ok_0,
                note: decimal(parts[1], u64::MAX)->Ok_0,
                duration: decimal(parts[2], u64::MAX)->Ok_0,
            }))
        }
    } else {
        Ok(None)
    }
}

pub open spec fn note_reader() -> spec_fn(Seq<char>, Seq<char>) -> Result<Option<Note>, PartError> {
    |k: Seq<char>, v: Seq<char>| note_entry(k, v)
}

pub open spec fn notes_of(es: Entries) -> Result<Seq<Note>, PartError> {
    collect(es, note_reader())
}

fn note_entry_of(key: &str, value: &str) -> (r: Result<Option<Note>, PartError>)
    ensures
        r == note_entry(key@, value@),
{
    let parts = split_spaces_of(value);
    proof { lemma_split_shape(value@); }
    if !same_text(parts[0], "N") {
        return Ok(None);
    }
    let ticks = match parse_decimal(key, u64::MAX) {
        Ok(t) => t,
        Err(e) => return Err(PartError::ParseIntError(e)),
    };
    if parts.len() < 2 {
        return Err(PartError::NMissingNote);
    }
    let note = match parse_decimal(parts[1], u64::MAX) {
        Ok(n) => n,
        Err(e) => return Err(PartError::ParseIntError(e)),
    };
    if parts.len() < 3 {
        return Err(PartError::NMissingDuration);
    }
    match parse_decimal(parts[2], u64::MAX) {
        Ok(duration) => Ok(Some(Note { ticks, note, duration })),
        Err(e) => Err(PartError::ParseIntError(e)),
    }
}

/// A part built from section `name` with entries `es`.
pub open spec fn part_matches(p: Part, name: Seq<char>, es: Entries) -> bool {
    &&& (p.instrument, p.difficulty) == part_kind(name)
    &&& notes_of(es) == Ok::<Seq<Note>, PartError>(p.notes@)
    &&& p.special_events@.len() == 0
}

/// Reads an instrument section: its kind from the section name, and its notes
/// in the order written; entries other than notes are skipped.
pub fn build_part(name: &str, entries: &Vec<(String, String)>) -> (r: Result<Part, ChartParseError>)
    ensures
        match r {
            Ok(p) => part_matches(p, name@, entries.deep_view()),
            Err(e) => notes_of(entries.deep_view()) is Err
                && e == ChartParseError::PartSectionError(notes_of(entries.deep_view())->Err_0),
        },
{
    let (instrument, difficulty) = part_kind_of(name);
    let ghost es = entries.deep_view();
    let ghost f = note_reader();
    let mut notes: Vec<Note> = Vec::new();
    let mut i: usize = 0;
    while i < entries.len()
        invariant
            es == entries.deep_view(),
            f == note_reader(),
            i <= entries@.len(),
            collect(es.take(i as int), f) == Ok::<Seq<Note>, PartError>(notes@),
        decreases entries@.len() - i,
    {
        assert(es.take(i + 1 as int).drop_last() == es.take(i as int));
        assert(es.take(i + 1 as int).last() == es[i as int]);
        assert(es[i as int] == (entries@[i as int].0@, entries@[i as int].1@));
        let entry = note_entry_of(entries[i].0.as_str(), entries[i].1.as_str());
        match entry {
            Err(e) => {
                proof { lemma_collect_error_sticks(es, f, (i + 1) as nat); }
                return Err(ChartParseError::PartSectionError(e));
            },
            Ok(Some(n)) => notes.push(n),
            Ok(None) => {},
        }
        i = i + 1;
    }
    assert(es.take(i as int) == es);
    Ok(Part { instrument, difficulty, notes, special_events: Vec::new() })
}

/// The value of `key` in the `[Song]` section: keys are compared without ASCII
/// case, and of several entries with one key the last counts.
pub open spec fn song_field(es: Entries, key: Seq<char>) -> Option<Seq<char>>
    decreases es.len(),
{
    if es.len() == 0 {
        None
    } else if ascii_lower(es.last().0) == key {
        Some(es.last().1)
    } else {
        song_field(es.drop_last(), key)
    }
}

/// A text field: its value with one layer of quotes taken off.
pub open spec fn text_field(es: Entries, key: Seq<char>) -> Option<Seq<char>> {
    match song_field(es, key) {
        Some(v) => Some(unquote(v)),
        None => None,
    }
}

/// An integer field: absent is no error, present must be a decimal.
pub open spec fn int_field(es: Entries, key: Seq<char>) -> Result<Option<u64>, ParseIntError> {
    match song_field(es, key) {
        Some(v) => match decimal(v, u64::MAX) {
            Ok(n) => Ok(Some(n)),
            Err(e) => Err(e),
        },
        None => Ok(None),
    }
}

/// A year written after the separator `", "` loses the separator.
pub open spec fn strip_year_separator(s: Seq<char>) -> Seq<char> {
    if s.len() >= 2 && s[0] == ',' && s[1] == ' ' {
        s.subrange(2, s.len() as int)
    } else {
        s
    }
}

pub open spec fn year_field(es: Entries) -> Option<Seq<char>> {
    match text_field(es, "year"@) {
        Some(y) => Some(strip_year_separator(y)),
        None => None,
    }
}

/// `bass` and `rhythm`, in any ASCII case, name the second player's part;
/// anything else names none.
pub open spec fn player2_of(v: Option<Seq<char>>) -> Option<SongPlayer2> {
    match v {
        Some(s) => if ascii_lower(s) == "bass"@ {
            Some(SongPlayer2::Bass)
        } else if ascii_lower(s) == "rhythm"@ {
            Some(SongPlayer2::Rhythm)
        } else {
            None
        },
        None => None,
    }
}

/// Whether a `[Song]` section can be read, and else why not: the integer
/// fields `offset`, `resolution` and `difficulty` are checked in that order,
/// and `resolution` must be there.
pub open spec fn song_outcome(es: Entries) -> Result<(), SongError> {
    if int_field(es, "offset"@) is Err {
        Err(SongError::ParseIntError(int_field(es, "offset"@)->Err_0))
    } else if int_field(es, "resolution"@) is Err {
        Err(SongError::ParseIntError(int_field(es, "resolution"@)->Err_0))
    } else if int_field(es, "resolution"@) == Ok::<Option<u64>, ParseIntError>(None) {
        Err(SongError::MissingResolution)
    } else if int_field(es, "difficulty"@) is Err {
        Err(SongError::ParseIntError(int_field(es, "difficulty"@)->Err_0))
    } else {
        Ok(())
    }
}

/// `song` holds what the `[Song]` entries `es` say.
pub open spec fn song_matches(song: Song, es: Entries) -> bool {
    &&& song.name.deep_view() == text_field(es, "name"@)
    &&& song.artist.deep_view() == text_field(es, "artist"@)
    &&& song.charter.deep_view() == text_field(es, "charter"@)
    &&& song.album.deep_view() == text_field(es, "album"@)
    &&& song.year.deep_view() == year_field(es)
    &&& int_field(es, "offset"@) == Ok::<Option<u64>, ParseIntError>(song.offset)
    &&& int_field(es, "resolution"@) == Ok::<Option<u64>, ParseIntError>(Some(song.resolution))
    &&& song.player2 == player2_of(song_field(es, "player2"@))
    &&& int_field(es, "difficulty"@) == Ok::<Option<u64>, ParseIntError>(song.difficulty)
    &&& song.preview_start.deep_view() == song_field(es, "previewstart"@)
    &&& song.preview_end.deep_view() == song_field(es, "previewend"@)
    &&& song.genre.deep_view() == text_field(es, "genre"@)
    &&& song.media_type.deep_view() == text_field(es, "mediatype"@)
    &&& song.streams.music.deep_view() == text_field(es, "musicstream"@)
    &&& song.streams.guitar.deep_view() == text_field(es, "guitarstream"@)
    &&& song.streams.bass.deep_view() == text_field(es, "bassstream"@)
    &&& song.streams.rhythm.deep_view() == text_field(es, "rhythmstream"@)
    &&& song.streams.drum.deep_view() == text_field(es, "drumstream"@)
}

/// The last value under `key`, compared without ASCII case.
fn field_of<'a>(entries: &'a Vec<(String, String)>, key: &str) -> (r: Option<&'a str>)
    ensures
        match r {
            Some(v) => song_field(entries.deep_view(), key@) == Some(v@),
            None => song_field(entries.deep_view(), key@) is None,
        },
{
    let ghost es = entries.deep_view();
    let mut i: usize = entries.len();
    assert(es.take(i as int) == es);
    while i > 0
        invariant
            es == entries.deep_view(),
            i <= entries@.len(),
            song_field(es, key@) == song_field(es.take(i as int), key@),
        decreases i,
    {
        i = i - 1;
        assert(es.take(i + 1 as int).drop_last() == es.take(i as int));
        assert(es.take(i + 1 as int).last() == es[i as int]);
        assert(es[i as int] == (entries@[i as int].0@, entries@[i as int].1@));
        if equals_ignoring_ascii_case(entries[i].0.as_str(), key) {
            return Some(entries[i].1.as_str());
        }
    }
    None
}

fn text_of(entries: &Vec<(String, String)>, key: &str) -> (r: Option<String>)
    ensures
        r.deep_view() == text_field(entries.deep_view(), key@),
{
    match field_of(entries, key) {
        Some(v) => Some(unquoted(v).to_string()),
        None => None,
    }
}

fn int_of(entries: &Vec<(String, String)>, key: &str) -> (r: Result<Option<u64>, ParseIntError>)
    ensures
        r == int_field(entries.deep_view(), key@),
{
    match field_of(entries, key) {
        Some(v) => match parse_decimal(v, u64::MAX) {
            Ok(n) => Ok(Some(n)),
            Err(e) => Err(e),
        },
        None => Ok(None),
    }
}

fn raw_of(entries: &Vec<(String, String)>, key: &str) -> (r: Option<String>)
    ensures
        r.deep_view() == song_field(entries.deep_view(), key@),
{
    match field_of(entries, key) {
        Some(v) => Some(v.to_string()),
        None => None,
    }
}

fn year_of(entries: &Vec<(String, String)>) -> (r: Option<String>)
    ensures
        r.deep_view() == year_field(entries.deep_view()),
{
    match field_of(entries, "year") {
        Some(v) => {
            let y = unquoted(v);
            let n = y.unicode_len();
            if n >= 2 && y.get_char(0) == ',' && y.get_char(1) == ' ' {
                Some(y.substring_char(2, n).to_string())
            } else {
                Some(y.to_string())
            }
        },
        None => None,
    }
}

fn player2_from(entries: &Vec<(String, String)>) -> (r: Option<SongPlayer2>)
    ensures
        r == player2_of(song_field(entries.deep_view(), "player2"@)),
{
    match field_of(entries, "player2") {
        Some(v) => if equals_ignoring_ascii_case(v, "bass") {
            Some(SongPlayer2::Bass)
        } else if equals_ignoring_ascii_case(v, "rhythm") {
            Some(SongPlayer2::Rhythm)
        } else {
            None
        },
        None => None,
    }
}

/// Reads the `[Song]` section. Fields that are not known are dropped; a known
/// field that is absent is `None`, except `resolution`, which must be there.
pub fn build_song(entries: &Vec<(String, String)>) -> (r: Result<Song, SongError>)
    ensures
        match r {
            Ok(song) => song_outcome(entries.deep_view()) is Ok && song_matches(song, entries.deep_view()),
            Err(e) => song_outcome(entries.deep_view()) == Err::<(), SongError>(e),
        },
{
    let offset = match int_of(entries, "offset") {
        Ok(v) => v,
        Err(e) => return Err(SongError::ParseIntError(e)),
    };
    let resolution = match int_of(entries, "resolution") {
        Ok(Some(v)) => v,
        Ok(None) => return Err(SongError::MissingResolution),
        Err(e) => return Err(SongError::ParseIntError(e)),
    };
    let difficulty = match int_of(entries, "difficulty") {
        Ok(v) => v,
        Err(e) => return Err(SongError::ParseIntError(e)),
    };
    Ok(Song {
        name: text_of(entries, "name"),
        artist: text_of(entries, "artist"),
        charter: text_of(entries, "charter"),
        album: text_of(entries, "album"),
        year: year_of(entries),
        offset,
        resolution,
        player2: player2_from(entries),
        difficulty,
        preview_start: raw_of(entries, "previewstart"),
        preview_end: raw_of(entries, "previewend"),
        genre: text_of(entries, "genre"),
        media_type: text_of(entries, "mediatype"),
        streams: SongStreams {
            music: text_of(entries, "musicstream"),
            guitar: text_of(entries, "guitarstream"),
            bass: text_of(entries, "bassstream"),
            rhythm: text_of(entries, "rhythmstream"),
            drum: text_of(entries, "drumstream"),
        },
    })
}

/// The sections of a chart as found in its text: each one's name and entries,
/// or nothing where a section's name or body could not be taken out.
pub type RawSections = Seq<Option<(Seq<char>, Entries)>>;

/// Whether one section can be read, and else why not.
pub open spec fn section_check(s: Option<(Seq<char>, Entries)>) -> Result<(), ChartParseError> {
    match s {
        None => Err(ChartParseError::BadSection),
        Some((name, es)) => if name == "Song"@ {
            match song_outcome(es) {
                Err(e) => Err(ChartParseError::SongSectionError(e)),
                Ok(_) => Ok(()),
            }
        } else if name == "SyncTrack"@ {
            match synctrack_of(es) {
                Err(e) => Err(ChartParseError::SyncTrackSectionError(e)),
                Ok(_) => Ok(()),
            }
        } else if name == "Events"@ {
            match events_of(es) {
                Err(e) => Err(ChartParseError::EventSectionError(e)),
                Ok(_) => Ok(()),
            }
        } else {
            match notes_of(es) {
                Err(e) => Err(ChartParseError::PartSectionError(e)),
                Ok(_) => Ok(()),
            }
        },
    }
}

/// The first section, in order, that cannot be read decides the failure.
pub open spec fn sections_check(secs: RawSections) -> Result<(), ChartParseError>
    decreases secs.len(),
{
    if secs.len() == 0 {
        Ok(())
    } else {
        match sections_check(secs.drop_last()) {
            Err(e) => Err(e),
            Ok(_) => section_check(secs.last()),
        }
    }
}

/// The entries of the last section called `name`.
pub open spec fn last_section(secs: RawSections, name: Seq<char>) -> Option<Entries>
    decreases secs.len(),
{
    if secs.len() == 0 {
        None
    } else {
        match secs.last() {
            Some((n, es)) if n == name => Some(es),
            _ => last_section(secs.drop_last(), name),
        }
    }
}

pub open spec fn is_part_name(name: Seq<char>) -> bool {
    name != "Song"@ && name != "SyncTrack"@ && name != "Events"@
}

/// The instrument sections, in order: all but `Song`, `SyncTrack` and `Events`.
pub open spec fn part_sections(secs: RawSections) -> Seq<(Seq<char>, Entries)>
    decreases secs.len(),
{
    if secs.len() == 0 {
        Seq::empty()
    } else {
        match secs.last() {
            Some((n, es)) if is_part_name(n) => part_sections(secs.drop_last()).push((n, es)),
            _ => part_sections(secs.drop_last()),
        }
    }
}

/// Whether a chart can be read from its sections, and else why not.
pub open spec fn chart_outcome(secs: RawSections) -> Result<(), ChartParseError> {
    match sections_check(secs) {
        Err(e) => Err(e),
        Ok(_) => if last_section(secs, "Song"@) is None {
            Err(ChartParseError::MissingSongSection)
        } else if last_section(secs, "SyncTrack"@) is None {
            Err(ChartParseError::MissingSyncTrackSection)
        } else {
            Ok(())
        },
    }
}

pub open spec fn events_section(secs: RawSections) -> Entries {
    match last_section(secs, "Events"@) {
        Some(es) => es,
        None => Seq::empty(),
    }
}

/// `c` is the chart that the sections `secs` describe: song, tempo map and
/// events from the last section of each kind, and a part for each other
/// section.
pub open spec fn chart_matches(c: Chart, secs: RawSections) -> bool {
    &&& song_matches(c.song, last_section(secs, "Song"@)->Some_0)
    &&& synctrack_of(last_section(secs, "SyncTrack"@)->Some_0) == Ok::<Seq<SyncTrack>, SyncTrackError>(c.sync_track@)
    &&& events_of(events_section(secs)) == Ok::<Seq<(u64, Seq<char>)>, EventError>(c.events@.map_values(|e: Event| event_view(e)))
    &&& c.parts@.len() == part_sections(secs).len()
    &&& forall|k: int| 0 <= k < c.parts@.len()
        ==> part_matches(#[trigger] c.parts@[k], part_sections(secs)[k].0, part_sections(secs)[k].1)
}

proof fn lemma_sections_error_sticks(secs: RawSections, k: nat)
    requires
        k <= secs.len(),
        sections_check(secs.take(k as int)) is Err,
    ensures
        sections_check(secs) == sections_check(secs.take(k as int)),
    decreases secs.len() - k,
{
    if k < secs.len() {
        assert(secs.take(k + 1 as int).drop_last() == secs.take(k as int));
        lemma_sections_error_sticks(secs, k + 1);
    } else {
        assert(secs.take(k as int) == secs);
    }
}

/// Builds a chart from its sections, in order. `Song` and `SyncTrack` must be
/// there; `Events` may be missing; every other section is an instrument part.
/// The first section that cannot be read stops the whole reading.
pub fn read_sections(sections: &Vec<Option<(String, Vec<(String, String)>)>>) -> (r: Result<Chart, ChartParseError>)
    ensures
        match r {
            Ok(c) => chart_outcome(sections.deep_view()) is Ok && chart_matches(c, sections.deep_view()),
            Err(e) => chart_outcome(sections.deep_view()) == Err::<(), ChartParseError>(e),
        },
{
    let ghost secs = sections.deep_view();
    let mut song: Option<Song> = None;
    let mut sync_track: Option<Vec<SyncTrack>> = None;
    let mut events: Option<Vec<Event>> = None;
    let mut parts: Vec<Part> = Vec::new();
    let mut i: usize = 0;
    while i < sections.len()
        invariant
            secs == sections.deep_view(),
            i <= secs.len(),
            sections_check(secs.take(i as int)) is Ok,
            song is Some <==> last_section(secs.take(i as int), "Song"@) is Some,
            song is Some ==> song_matches(song->Some_0, last_section(secs.take(i as int), "Song"@)->Some_0),
            sync_track is Some <==> last_section(secs.take(i as int), "SyncTrack"@) is Some,
            sync_track is Some ==> synctrack_of(last_section(secs.take(i as int), "SyncTrack"@)->Some_0)
                == Ok::<Seq<SyncTrack>, SyncTrackError>(sync_track->Some_0@),
            events is Some <==> last_section(secs.take(i as int), "Events"@) is Some,
            events is Some ==> events_of(last_section(secs.take(i as int), "Events"@)->Some_0)
                == Ok::<Seq<(u64, Seq<char>)>, EventError>((events->Some_0)@.map_values(|e: Event| event_view(e))),
            parts@.len() == part_sections(secs.take(i as int)).len(),
            forall|k: int| 0 <= k < parts@.len() ==> part_matches(#[trigger] parts@[k],
                part_sections(secs.take(i as int))[k].0, part_sections(secs.take(i as int))[k].1),
        decreases secs.len() - i,
    {
        proof {
            reveal_strlit("Song");
            reveal_strlit("SyncTrack");
            reveal_strlit("Events");
            assert("Song"@.len() == 4 && "SyncTrack"@.len() == 9 && "Events"@.len() == 6);
            assert("Song"@ != "SyncTrack"@ && "Song"@ != "Events"@ && "SyncTrack"@ != "Events"@);
        }
        let ghost pre = secs.take(i as int);
        let ghost cur = secs.take(i + 1 as int);
        assert(cur.drop_last() == pre);
        assert(cur.last() == secs[i as int]);
        match &sections[i] {
            None => {
                assert(secs[i as int] is None);
                proof { lemma_sections_error_sticks(secs, (i + 1) as nat); }
                return Err(ChartParseError::BadSection);
            },
            Some((name, entries)) => {
                assert(secs[i as int] == Some((name@, entries.deep_view())));
                if same_text(name.as_str(), "Song") {
                    match build_song(entries) {
                        Ok(s) => song = Some(s),
                        Err(e) => {
                            proof { lemma_sections_error_sticks(secs, (i + 1) as nat); }
                            return Err(ChartParseError::SongSectionError(e));
                        },
                    }
                } else if same_text(name.as_str(), "SyncTrack") {
                    match build_synctrack(entries) {
                        Ok(v) => sync_track = Some(v),
                        Err(e) => {
                            proof { lemma_sections_error_sticks(secs, (i + 1) as nat); }
                            return Err(ChartParseError::SyncTrackSectionError(e));
                        },
                    }
                } else if same_text(name.as_str(), "Events") {
                    match build_events(entries) {
                        Ok(v) => events = Some(v),
                        Err(e) => {
                            proof { lemma_sections_error_sticks(secs, (i + 1) as nat); }
                            return Err(ChartParseError::EventSectionError(e));
                        },
                    }
                } else {
                    match build_part(name.as_str(), entries) {
                        Ok(p) => {
                            let ghost before = parts@;
                            parts.push(p);
                            assert(forall|k: int| 0 <= k < before.len() ==> parts@[k] == before[k]);
                        },
                        Err(e) => {
                            proof { lemma_sections_error_sticks(secs, (i + 1) as nat); }
                            return Err(e);
                        },
                    }
                }
            },
        }
        i = i + 1;
    }
    assert(secs.take(i as int) == secs);
    let song = match song {
        Some(s) => s,
        None => return Err(ChartParseError::MissingSongSection),
    };
    let sync_track = match sync_track {
        Some(v) => v,
        None => return Err(ChartParseError::MissingSyncTrackSection),
    };
    let events = match events {
        Some(v) => v,
        None => {
            let v: Vec<Event> = Vec::new();
            assert(v@.map_values(|e: Event| event_view(e)) =~= Seq::<(u64, Seq<char>)>::empty());
            v
        },
    };
    Ok(Chart { song, sync_track, events, parts })
}

/// A section: `[Name]` on its own line, then the body between `{` and `}` on
/// lines of their own.
pub const SECTION_PATTERN: &'static str = r"(?m)^\s*\[([^\]]+)\]\s*\{([\w\W]*?\n)\}\s*$";

/// An entry: `key = value` on one line, the value without its surrounding
/// white space.
pub const ENTRY_PATTERN: &'static str = r"(?m)^\s*(\w+)\s*=\s*([\w\W]+?)\s*$";

/// For each match of the regular expression `pattern` in `text`, in order, the
/// text of its first and second capture groups where they took part in the
/// match. A pattern that does not compile matches nothing.
pub uninterp spec fn regex_capture_pairs(pattern: Seq<char>, text: Seq<char>) -> Seq<(Option<Seq<char>>, Option<Seq<char>>)>;

/// Relies on `regex::Regex::new` and `Regex::captures_iter`, with
/// `Captures::get` for groups 1 and 2, to find every match of `pattern` in
/// `text`.
#[verifier::external_body]
fn capture_pairs(pattern: &str, text: &str) -> (r: Vec<(Option<String>, Option<String>)>)
    ensures
        r.deep_view() == regex_capture_pairs(pattern@, text@),
{
    match regex::Regex::new(pattern) {
        Ok(re) => re.captures_iter(text)
            .map(|c| (c.get(1).map(|m| m.as_str().to_string()), c.get(2).map(|m| m.as_str().to_string())))
            .collect(),
        Err(_) => Vec::new(),
    }
}

/// The matches in which both groups took part, as (key, value) pairs.
pub open spec fn complete_pairs(caps: Seq<(Option<Seq<char>>, Option<Seq<char>>)>) -> Entries
    decreases caps.len(),
{
    if caps.len() == 0 {
        Seq::empty()
    } else {
        match caps.last() {
            (Some(a), Some(b)) => complete_pairs(caps.drop_last()).push((a, b)),
            _ => complete_pairs(caps.drop_last()),
        }
    }
}

/// The sections of a chart's text, each with its entries.
pub open spec fn raw_sections(text: Seq<char>) -> RawSections {
    regex_capture_pairs(SECTION_PATTERN@, text).map_values(
        |cap: (Option<Seq<char>>, Option<Seq<char>>)| match cap {
            (Some(name), Some(body)) => Some((name, complete_pairs(regex_capture_pairs(ENTRY_PATTERN@, body)))),
            _ => None,
        },
    )
}

fn entries_of(caps: &Vec<(Option<String>, Option<String>)>) -> (r: Vec<(String, String)>)
    ensures
        r.deep_view() == complete_pairs(caps.deep_view()),
{
    let ghost cs = caps.deep_view();
    let mut out: Vec<(String, String)> = Vec::new();
    let mut i: usize = 0;
    while i < caps.len()
        invariant
            cs == caps.deep_view(),
            i <= cs.len(),
            out.deep_view() == complete_pairs(cs.take(i as int)),
        decreases cs.len() - i,
    {
        assert(cs.take(i + 1 as int).drop_last() == cs.take(i as int));
        assert(cs.take(i + 1 as int).last() == cs[i as int]);
        match &caps[i] {
            (Some(k), Some(v)) => {
                let ghost before = out.deep_view();
                out.push((k.clone(), v.clone()));
                assert(out.deep_view() =~= before.push((k@, v@)));
            },
            _ => {},
        }
        i = i + 1;
    }
    assert(cs.take(i as int) == cs);
    out
}

/// Reads a chart from its text. Sections of unknown names are read as
/// instrument parts; entries of unknown kinds are skipped; a known entry that
/// is malformed fails the whole reading.
pub fn read(contents: &str) -> (r: Result<Chart, ChartParseError>)
    ensures
        match r {
            Ok(c) => chart_outcome(raw_sections(contents@)) is Ok && chart_matches(c, raw_sections(contents@)),
            Err(e) => chart_outcome(raw_sections(contents@)) == Err::<(), ChartParseError>(e),
        },
{
    let caps = capture_pairs(SECTION_PATTERN, contents);
    let ghost cs = caps.deep_view();
    let mut sections: Vec<Option<(String, Vec<(String, String)>)>> = Vec::new();
    let mut i: usize = 0;
    while i < caps.len()
        invariant
            cs == caps.deep_view(),
            cs == regex_capture_pairs(SECTION_PATTERN@, contents@),
            i <= cs.len(),
            sections.deep_view() == raw_sections(contents@).take(i as int),
        decreases cs.len() - i,
    {
        let ghost before = sections.deep_view();
        match &caps[i] {
            (Some(name), Some(body)) => {
                let entry_caps = capture_pairs(ENTRY_PATTERN, body.as_str());
                let entries = entries_of(&entry_caps);
                let n = name.clone();
                assert(cs[i as int] == (Some(name@), Some(body@)));
                assert(raw_sections(contents@)[i as int] == Some((n@, entries.deep_view())));
                sections.push(Some((n, entries)));
                assert(sections.deep_view() =~= before.push(Some((n@, entries.deep_view()))));
            },
            _ => {
                assert(raw_sections(contents@)[i as int] is None);
                sections.push(None);
                assert(sections.deep_view() =~= before.push(None));
            },
        }
        assert(sections.deep_view() =~= raw_sections(contents@).take(i + 1 as int));
        i = i + 1;
    }
    assert(raw_sections(contents@).take(i as int) == raw_sections(contents@));
    read_sections(&sections)
}

/// A `[Song]` section without `resolution`, whose `offset` (checked before it)
/// is well formed, cannot be read: it fails with `MissingResolution`, and so
/// does the chart that holds it.
pub proof fn lemma_missing_resolution(es: Entries)
    requires
        song_field(es, "resolution"@) is None,
        int_field(es, "offset"@) is Ok,
    ensures
        song_outcome(es) == Err::<(), SongError>(SongError::MissingResolution),
        section_check(Some(("Song"@, es)))
            == Err::<(), ChartParseError>(ChartParseError::SongSectionError(SongError::MissingResolution)),
{
}

/// A `[Song]` section fails only for want of `resolution` or for an integer
/// field that is there and malformed: leaving out any other field never fails
/// the reading.
pub proof fn lemma_song_failures(es: Entries)
    ensures
        song_outcome(es) is Err ==> {
            ||| song_field(es, "resolution"@) is None
            ||| int_field(es, "offset"@) is Err
            ||| int_field(es, "resolution"@) is Err
            ||| int_field(es, "difficulty"@) is Err
        },
        song_field(es, "offset"@) is None ==> int_field(es, "offset"@) is Ok,
        song_field(es, "difficulty"@) is None ==> int_field(es, "difficulty"@) is Ok,
{
}

/// A section whose name is neither `Song`, `SyncTrack`, `Events` nor a known
/// instrument section is read as an expert guitar part: its name never fails
/// the reading, only its notes can.
pub proof fn lemma_unknown_part_name(name: Seq<char>, es: Entries)
    requires
        is_part_name(name),
        part_table(name) is None,
    ensures
        part_kind(name) == (Instrument::Guitar, Difficulty::Expert),
        section_check(Some((name, es))) == match notes_of(es) {
            Ok(_) => Ok::<(), ChartParseError>(()),
            Err(e) => Err(ChartParseError::PartSectionError(e)),
        },
{
}

} // verus!
