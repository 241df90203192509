//! Guitar play: the chart's notes folded into chords, and a judge that holds
//! the frets pressed and a cursor on the next chord, and scores strums and the
//! passing of time.
use vstd::prelude::*;
use vstd::arithmetic::div_mod::{lemma_fundamental_div_mod, lemma_mod_bound};
use crate::chart::{Chart, Note, Part, SyncTrack, Instrument, Difficulty};

verus! {

#[derive(Debug, Clone, Copy, PartialEq, Eq, Structural)]
pub enum Fret {
    G,
    R,
    Y,
    B,
    O,
}

impl Fret {
    /// The lane of the fret, 0 for green to 4 for orange.
    pub open spec fn lane(self) -> nat {
        match self {
            Fret::G => 0,
            Fret::R => 1,
            Fret::Y => 2,
            Fret::B => 3,
            Fret::O => 4,
        }
    }

    pub fn index(&self) -> (r: usize)
        ensures
            r == self.lane(),
    {
        match self {
            Fret::G => 0,
            Fret::R => 1,
            Fret::Y => 2,
            Fret::B => 3,
            Fret::O => 4,
        }
    }
}

#[derive(Debug, Clone, Copy, PartialEq, Eq, Structural)]
pub enum GuitarNoteStrumType {
    Strum,
    Hopo,
    Tap,
}

/// A chord: the frets to hold at one tick, and how it is to be played.
#[derive(Debug, Clone, Copy, PartialEq, Eq)]
pub struct GuitarNote {
    pub ticks: u64,
    pub chord: [bool; 5],
    pub strum_type: GuitarNoteStrumType,
    pub duration: u64,
}

pub open spec fn no_frets() -> [bool; 5] {
    [false, false, false, false, false]
}

impl GuitarNote {
    /// An open chord is played with no fret held.
    pub fn is_open(&self) -> (r: bool)
        ensures
            r == (self.chord == no_frets()),
    {
        let open = !(self.chord[0] || self.chord[1] || self.chord[2] || self.chord[3] || self.chord[4]);
        assert(open ==> self.chord =~= no_frets());
        open
    }
}

/// The chords of one part, with the tempo they are timed by.
#[derive(Debug, Clone, PartialEq, Eq)]
pub struct GuitarChart {
    /// Ticks per quarter note.
    pub ticks_per_beat: u64,
    /// Beats per minute times one thousand.
    pub bpm1000: u64,
    /// The chords in the order of the chart.
    pub notes: Vec<GuitarNote>,
}

/// A tick lies at `ms_num(ticks) / ms_den(c)` milliseconds: ticks over ticks
/// per beat, over beats per minute, times sixty thousand.
pub open spec fn ms_num(ticks: u64) -> int {
    ticks * 60_000_000
}

pub open spec fn ms_den(c: GuitarChart) -> int {
    c.ticks_per_beat * c.bpm1000
}

/// Half the width of the window in which a chord can be hit.
pub const HALF_HIT_WINDOW_MS: u64 = 40;

/// A strum at `time_ms` is within the hit window of the chord at `ticks`:
/// the two times are at most `HALF_HIT_WINDOW_MS` apart. A chart without tempo
/// or resolution places no chord in time.
pub open spec fn on_time(c: GuitarChart, ticks: u64, time_ms: u64) -> bool {
    &&& ms_den(c) > 0
    &&& (time_ms - HALF_HIT_WINDOW_MS) * ms_den(c) <= ms_num(ticks)
    &&& ms_num(ticks) <= (time_ms + HALF_HIT_WINDOW_MS) * ms_den(c)
}

/// At `time_ms` the hit window of the chord at `ticks` has gone by.
pub open spec fn window_passed(c: GuitarChart, ticks: u64, time_ms: u64) -> bool {
    &&& ms_den(c) > 0
    &&& ms_num(ticks) < (time_ms - HALF_HIT_WINDOW_MS) * ms_den(c)
}

proof fn lemma_floor_compare(x: int, d: int, k: int)
    requires
        d > 0,
        x >= 0,
    ensures
        (k * d <= x) == (k <= x / d),
        (x <= k * d) == (x / d + (if x % d == 0 { 0int } else { 1int }) <= k),
        (x < k * d) == (x / d < k),
{
    lemma_fundamental_div_mod(x, d);
    lemma_mod_bound(x, d);
    let q = x / d;
    let r = x % d;
    assert(x == d * q + r);
    if k <= q {
        assert(k * d <= q * d) by (nonlinear_arith) requires k <= q, d > 0;
    } else {
        assert(k * d >= q * d + d) by (nonlinear_arith) requires k >= q + 1, d > 0;
    }
    if k <= q - 1 {
        assert(k * d <= q * d - d) by (nonlinear_arith) requires k <= q - 1, d > 0;
    } else if k == q {
        assert(k * d == q * d) by (nonlinear_arith) requires k == q;
    } else {
        assert(k * d >= q * d + d) by (nonlinear_arith) requires k >= q + 1, d > 0;
    }
    assert(d * q == q * d) by (nonlinear_arith);
}

proof fn lemma_den_fits(a: u64, b: u64)
    ensures
        a * b <= u128::MAX,
{
    assert(a * b <= u64::MAX * u64::MAX) by (nonlinear_arith)
        requires a <= u64::MAX, b <= u64::MAX, a >= 0, b >= 0;
}

impl GuitarChart {
    /// The time of `ticks`, in whole milliseconds, rounded down.
    pub fn ticks_to_ms(&self, ticks: u64) -> (r: u128)
        requires
            ms_den(*self) > 0,
        ensures
            r == ms_num(ticks) / ms_den(*self),
    {
        let num = ticks as u128 * 60_000_000u128;
        proof { lemma_den_fits(self.ticks_per_beat, self.bpm1000); }
        let den = self.ticks_per_beat as u128 * self.bpm1000 as u128;
        num / den
    }

    /// The time of `ticks` as a quotient and a flag for a remainder.
    fn time_of(&self, ticks: u64) -> (r: (u128, bool))
        requires
            ms_den(*self) > 0,
        ensures
            r.0 == ms_num(ticks) / ms_den(*self),
            r.1 == (ms_num(ticks) % ms_den(*self) != 0),
            r.0 <= ms_num(ticks),
    {
        let num = ticks as u128 * 60_000_000u128;
        proof { lemma_den_fits(self.ticks_per_beat, self.bpm1000); }
        let den = self.ticks_per_beat as u128 * self.bpm1000 as u128;
        proof {
            vstd::arithmetic::div_mod::lemma_div_is_ordered_by_denominator(num as int, 1, den as int);
        }
        (num / den, num % den != 0)
    }

    /// Whether a strum at `time_ms` is within the hit window of a chord at `ticks`.
    fn in_window(&self, ticks: u64, time_ms: u64) -> (r: bool)
        ensures
            r == on_time(*self, ticks, time_ms),
    {
        if self.ticks_per_beat == 0 || self.bpm1000 == 0 {
            assert(ms_den(*self) == 0) by (nonlinear_arith)
                requires self.ticks_per_beat == 0 || self.bpm1000 == 0;
            return false;
        }
        assert(ms_den(*self) > 0) by (nonlinear_arith)
            requires self.ticks_per_beat > 0, self.bpm1000 > 0;
        let (q, rem) = self.time_of(ticks);
        let ceil = if rem { q + 1 } else { q };
        proof {
            lemma_floor_compare(ms_num(ticks), ms_den(*self), time_ms - HALF_HIT_WINDOW_MS);
            lemma_floor_compare(ms_num(ticks), ms_den(*self), time_ms + HALF_HIT_WINDOW_MS);
        }
        q + HALF_HIT_WINDOW_MS as u128 >= time_ms as u128 && ceil <= time_ms as u128 + HALF_HIT_WINDOW_MS as u128
    }

    /// Whether at `time_ms` the hit window of a chord at `ticks` has gone by.
    fn window_gone(&self, ticks: u64, time_ms: u64) -> (r: bool)
        ensures
            r == window_passed(*self, ticks, time_ms),
    {
        if self.ticks_per_beat == 0 || self.bpm1000 == 0 {
            assert(ms_den(*self) == 0) by (nonlinear_arith)
                requires self.ticks_per_beat == 0 || self.bpm1000 == 0;
            return false;
        }
        assert(ms_den(*self) > 0) by (nonlinear_arith)
            requires self.ticks_per_beat > 0, self.bpm1000 > 0;
        let (q, _) = self.time_of(ticks);
        proof {
            lemma_floor_compare(ms_num(ticks), ms_den(*self), time_ms - HALF_HIT_WINDOW_MS);
        }
        q + (HALF_HIT_WINDOW_MS as u128) < time_ms as u128
    }
}

/// `c` with lane `lane` held.
pub open spec fn with_lane(c: [bool; 5], lane: int) -> [bool; 5] {
    [lane == 0 || c[0], lane == 1 || c[1], lane == 2 || c[2], lane == 3 || c[3], lane == 4 || c[4]]
}

/// `c` with lane `lane` released.
pub open spec fn without_lane(c: [bool; 5], lane: int) -> [bool; 5] {
    [lane != 0 && c[0], lane != 1 && c[1], lane != 2 && c[2], lane != 3 && c[3], lane != 4 && c[4]]
}

/// What a note's lane code does to the chord it belongs to: 0 to 4 add a fret,
/// 5 makes it a hammer-on, 6 a tap, 7 clears the frets for an open note; other
/// codes do nothing.
pub open spec fn apply_code(g: GuitarNote, code: u64) -> GuitarNote {
    if code < 5 {
        GuitarNote { ticks: g.ticks, chord: with_lane(g.chord, code as int), strum_type: g.strum_type, duration: g.duration }
    } else if code == 5 {
        GuitarNote { ticks: g.ticks, chord: g.chord, strum_type: GuitarNoteStrumType::Hopo, duration: g.duration }
    } else if code == 6 {
        GuitarNote { ticks: g.ticks, chord: g.chord, strum_type: GuitarNoteStrumType::Tap, duration: g.duration }
    } else if code == 7 {
        GuitarNote { ticks: g.ticks, chord: no_frets(), strum_type: g.strum_type, duration: g.duration }
    } else {
        g
    }
}

/// The empty strummed chord that a note at a new tick starts.
pub open spec fn start_chord(n: Note) -> GuitarNote {
    GuitarNote { ticks: n.ticks, chord: no_frets(), strum_type: GuitarNoteStrumType::Strum, duration: n.duration }
}

/// The chords of `notes`, taken in order: a note at the tick of the chord
/// before it joins that chord, any other note starts a new one.
pub open spec fn aggregate(notes: Seq<Note>) -> Seq<GuitarNote>
    decreases notes.len(),
{
    if notes.len() == 0 {
        Seq::empty()
    } else {
        let prev = aggregate(notes.drop_last());
        let n = notes.last();
        if prev.len() > 0 && prev.last().ticks == n.ticks {
            prev.update(prev.len() - 1, apply_code(prev.last(), n.note))
        } else {
            prev.push(apply_code(start_chord(n), n.note))
        }
    }
}

fn apply_code_to(g: GuitarNote, code: u64) -> (r: GuitarNote)
    ensures
        r == apply_code(g, code),
{
    let c = g.chord;
    if code < 5 {
        let chord = [code == 0 || c[0], code == 1 || c[1], code == 2 || c[2], code == 3 || c[3], code == 4 || c[4]];
        GuitarNote { ticks: g.ticks, chord, strum_type: g.strum_type, duration: g.duration }
    } else if code == 5 {
        GuitarNote { ticks: g.ticks, chord: c, strum_type: GuitarNoteStrumType::Hopo, duration: g.duration }
    } else if code == 6 {
        GuitarNote { ticks: g.ticks, chord: c, strum_type: GuitarNoteStrumType::Tap, duration: g.duration }
    } else if code == 7 {
        GuitarNote { ticks: g.ticks, chord: [false, false, false, false, false], strum_type: g.strum_type, duration: g.duration }
    } else {
        g
    }
}

/// Folds notes into chords, as `aggregate` says.
pub fn aggregate_notes(notes: &Vec<Note>) -> (r: Vec<GuitarNote>)
    ensures
        r@ == aggregate(notes@),
{
    let mut out: Vec<GuitarNote> = Vec::new();
    let mut i: usize = 0;
    while i < notes.len()
        invariant
            i <= notes@.len(),
            out@ == aggregate(notes@.take(i as int)),
        decreases notes@.len() - i,
    {
        let n = notes[i];
        assert(notes@.take(i + 1 as int).drop_last() == notes@.take(i as int));
        assert(notes@.take(i + 1 as int).last() == n);
        let len = out.len();
        if len > 0 && out[len - 1].ticks == n.ticks {
            let g = apply_code_to(out[len - 1], n.note);
            out.set(len - 1, g);
        } else {
            let start = GuitarNote {
                ticks: n.ticks,
                chord: [false, false, false, false, false],
                strum_type: GuitarNoteStrumType::Strum,
                duration: n.duration,
            };
            out.push(apply_code_to(start, n.note));
        }
        i = i + 1;
    }
    assert(notes@.take(i as int) == notes@);
    out
}

/// The fret mask held equals the chord's, lane for lane.
pub fn frets_match(frets: [bool; 5], chord: [bool; 5]) -> (r: bool)
    ensures
        r == (frets == chord),
{
    let same = frets[0] == chord[0] && frets[1] == chord[1] && frets[2] == chord[2]
        && frets[3] == chord[3] && frets[4] == chord[4];
    assert(same ==> frets =~= chord);
    same
}

pub enum GuitarInputAction {
    FretDown(Fret),
    FretUp(Fret),
    Strum,
}

/// What the judge reports. `Hit` and `ReleaseSustain` are not reported yet.
#[derive(Debug, Clone, Copy, PartialEq, Eq, Structural)]
pub enum GuitarGameEffect {
    Hit,
    Overstrum,
    MissStreak,
    MissNoStreak,
    ReleaseSustain,
}

/// Everything the judge holds.
pub struct PlaythroughState {
    pub chart: GuitarChart,
    pub score: u64,
    pub notes_hit: u64,
    pub streak: u64,
    pub sp_phrases: u64,
    pub avg_multiplier: u64,
    pub frets: [bool; 5],
    pub time: u64,
    /// The index of the next chord to be played.
    pub cursor: usize,
}

/// The first tempo marker's beats per minute times one thousand.
pub open spec fn first_bpm(st: Seq<SyncTrack>) -> Option<u64>
    decreases st.len(),
{
    if st.len() == 0 {
        None
    } else {
        match st[0] {
            SyncTrack::BeatsPerMinute { bpm1000, .. } => Some(bpm1000),
            _ => first_bpm(st.drop_first()),
        }
    }
}

/// The first expert guitar part.
pub open spec fn first_expert_guitar(parts: Seq<Part>) -> Option<Part>
    decreases parts.len(),
{
    if parts.len() == 0 {
        None
    } else if parts[0].instrument == Instrument::Guitar && parts[0].difficulty == Difficulty::Expert {
        Some(parts[0])
    } else {
        first_expert_guitar(parts.drop_first())
    }
}

/// The cursor after the chords from `from` on whose windows have gone by at
/// `time_ms` are passed over.
pub open spec fn sweep(c: GuitarChart, from: int, time_ms: u64) -> int
    decreases c.notes@.len() - from,
{
    if 0 <= from < c.notes@.len() && window_passed(c, c.notes@[from].ticks, time_ms) {
        sweep(c, from + 1, time_ms)
    } else {
        from
    }
}

/// A strum at `time_ms` hits the chord under the cursor: the frets held are
/// exactly the chord's and the time is within its window.
pub open spec fn strum_hits(s: PlaythroughState, time_ms: u64) -> bool {
    let note = s.chart.notes@[s.cursor as int];
    s.frets == note.chord && on_time(s.chart, note.ticks, time_ms)
}

fn first_bpm_in(st: &Vec<SyncTrack>) -> (r: Option<u64>)
    ensures
        r == first_bpm(st@),
{
    let mut i: usize = 0;
    assert(st@.skip(0) == st@);
    while i < st.len()
        invariant
            i <= st@.len(),
            first_bpm(st@) == first_bpm(st@.skip(i as int)),
        decreases st@.len() - i,
    {
        assert(st@.skip(i as int).drop_first() == st@.skip(i + 1 as int));
        if let SyncTrack::BeatsPerMinute { bpm1000, .. } = st[i] {
            return Some(bpm1000);
        }
        i = i + 1;
    }
    None
}

fn first_expert_guitar_in(parts: &Vec<Part>) -> (r: Option<usize>)
    ensures
        match r {
            Some(j) => j < parts@.len() && first_expert_guitar(parts@) == Some(parts@[j as int]),
            None => first_expert_guitar(parts@) is None,
        },
{
    let mut j: usize = 0;
    assert(parts@.skip(0) == parts@);
    while j < parts.len()
        invariant
            j <= parts@.len(),
            first_expert_guitar(parts@) == first_expert_guitar(parts@.skip(j as int)),
        decreases parts@.len() - j,
    {
        assert(parts@.skip(j as int).drop_first() == parts@.skip(j + 1 as int));
        if parts[j].instrument == Instrument::Guitar && parts[j].difficulty == Difficulty::Expert {
            return Some(j);
        }
        j = j + 1;
    }
    None
}

/// The judge of one guitar playthrough.
pub struct GuitarPlaythrough {
    chart: GuitarChart,
    score: u64,
    notes_hit: u64,
    streak: u64,
    sp_phrases: u64,
    avg_multiplier: u64,
    frets: [bool; 5],
    time: u64,
    next_note_index: usize,
}

impl View for GuitarPlaythrough {
    type V = PlaythroughState;

    closed spec fn view(&self) -> PlaythroughState {
        PlaythroughState {
            chart: self.chart,
            score: self.score,
            notes_hit: self.notes_hit,
            streak: self.streak,
            sp_phrases: self.sp_phrases,
            avg_multiplier: self.avg_multiplier,
            frets: self.frets,
            time: self.time,
            cursor: self.next_note_index,
        }
    }
}

impl GuitarPlaythrough {
    /// The cursor stays on the chart, and hits and streak never outrun the
    /// chords passed.
    #[verifier::type_invariant]
    spec fn well_formed(self) -> bool {
        &&& self.next_note_index <= self.chart.notes@.len()
        &&& self.notes_hit <= self.next_note_index
        &&& self.streak <= self.notes_hit
    }

    /// Starts a playthrough of the chart's first expert guitar part, timed by
    /// its first tempo marker and its resolution.
    pub fn new(chart: Chart) -> (r: Result<GuitarPlaythrough, &'static str>)
        ensures
            match r {
                Ok(p) => {
                    &&& first_bpm(chart.sync_track@) == Some(p@.chart.bpm1000)
                    &&& first_expert_guitar(chart.parts@) is Some
                    &&& p@.chart.notes@ == aggregate(first_expert_guitar(chart.parts@)->Some_0.notes@)
                    &&& p@.chart.ticks_per_beat == chart.song.resolution
                    &&& p@.frets == no_frets()
                    &&& p@.cursor == 0 && p@.time == 0
                    &&& p@.score == 0 && p@.notes_hit == 0 && p@.streak == 0
                    &&& p@.sp_phrases == 0 && p@.avg_multiplier == 0
                },
                Err(m) => if first_bpm(chart.sync_track@) is None {
                    m@ == "no BPM found"@
                } else {
                    first_expert_guitar(chart.parts@) is None && m@ == "no Expert Guitar part found"@
                },
            },
    {
        let bpm1000 = match first_bpm_in(&chart.sync_track) {
            Some(b) => b,
            None => return Err("no BPM found"),
        };
        let j = match first_expert_guitar_in(&chart.parts) {
            Some(j) => j,
            None => return Err("no Expert Guitar part found"),
        };
        let notes = aggregate_notes(&chart.parts[j].notes);
        Ok(GuitarPlaythrough {
            chart: GuitarChart { ticks_per_beat: chart.song.resolution, bpm1000, notes },
            score: 0,
            notes_hit: 0,
            streak: 0,
            sp_phrases: 0,
            avg_multiplier: 0,
            frets: [false, false, false, false, false],
            time: 0,
            next_note_index: 0,
        })
    }
}

impl GuitarPlaythrough {
    /// Takes one input at `time_ms`. A fret going down or up only changes the
    /// frets held. A strum that holds exactly the chord under the cursor and
    /// falls in its window hits it: hits and streak grow and the cursor moves
    /// on, with nothing reported. Any other strum, also one past the last
    /// chord, is an overstrum: the streak drops to zero and the cursor stays.
    pub fn apply(&mut self, action: &GuitarInputAction, time_ms: u64) -> (r: Option<GuitarGameEffect>)
        ensures
            match *action {
                GuitarInputAction::FretDown(f) => r is None
                    && final(self)@ == (PlaythroughState { frets: with_lane(old(self)@.frets, f.lane() as int), ..old(self)@ }),
                GuitarInputAction::FretUp(f) => r is None
                    && final(self)@ == (PlaythroughState { frets: without_lane(old(self)@.frets, f.lane() as int), ..old(self)@ }),
                GuitarInputAction::Strum => if old(self)@.cursor >= old(self)@.chart.notes@.len() {
                    r == Some(GuitarGameEffect::Overstrum) && final(self)@ == old(self)@
                } else if strum_hits(old(self)@, time_ms) {
                    r is None && final(self)@ == (PlaythroughState {
                        notes_hit: (old(self)@.notes_hit + 1) as u64,
                        streak: (old(self)@.streak + 1) as u64,
                        cursor: (old(self)@.cursor + 1) as usize,
                        ..old(self)@
                    })
                } else {
                    r == Some(GuitarGameEffect::Overstrum) && final(self)@ == (PlaythroughState { streak: 0, ..old(self)@ })
                },
            },
    {
        proof { use_type_invariant(&*self); }
        match action {
            GuitarInputAction::FretDown(fret) => {
                let k = fret.index();
                let c = self.frets;
                self.frets = [k == 0 || c[0], k == 1 || c[1], k == 2 || c[2], k == 3 || c[3], k == 4 || c[4]];
                None
            },
            GuitarInputAction::FretUp(fret) => {
                let k = fret.index();
                let c = self.frets;
                self.frets = [k != 0 && c[0], k != 1 && c[1], k != 2 && c[2], k != 3 && c[3], k != 4 && c[4]];
                None
            },
            GuitarInputAction::Strum => {
                if self.next_note_index >= self.chart.notes.len() {
                    return Some(GuitarGameEffect::Overstrum);
                }
                let note = self.chart.notes[self.next_note_index];
                let fretted = frets_match(self.frets, note.chord);
                let timed = self.chart.in_window(note.ticks, time_ms);
                if fretted && timed {
                    self.next_note_index = self.next_note_index + 1;
                    self.notes_hit = self.notes_hit + 1;
                    self.streak = self.streak + 1;
                    None
                } else {
                    self.streak = 0;
                    Some(GuitarGameEffect::Overstrum)
                }
            },
        }
    }

    /// Lets the song clock reach `time_ms`; a clock that would go back stays
    /// where it was. Every chord under the cursor whose window has gone by is
    /// missed and passed over. If any was, the streak drops to zero and one miss
    /// is reported, `MissStreak` if there was a streak to lose.
    pub fn update_time(&mut self, time_ms: u64) -> (r: Option<GuitarGameEffect>)
        ensures
            ({
                let t = if time_ms > old(self)@.time { time_ms } else { old(self)@.time };
                let cursor = sweep(old(self)@.chart, old(self)@.cursor as int, t);
                &&& final(self)@.time == t
                &&& final(self)@.cursor == cursor
                &&& if cursor > old(self)@.cursor {
                    &&& final(self)@.streak == 0
                    &&& r == Some(if old(self)@.streak > 0 { GuitarGameEffect::MissStreak } else { GuitarGameEffect::MissNoStreak })
                } else {
                    &&& final(self)@.streak == old(self)@.streak
                    &&& r is None
                }
                &&& final(self)@ == (PlaythroughState {
                    time: final(self)@.time,
                    cursor: final(self)@.cursor,
                    streak: final(self)@.streak,
                    ..old(self)@
                })
            }),
    {
        proof { use_type_invariant(&*self); }
        let t = if time_ms > self.time { time_ms } else { self.time };
        self.time = t;
        let start = self.next_note_index;
        let mut i = self.next_note_index;
        let len = self.chart.notes.len();
        while i < len && self.chart.window_gone(self.chart.notes[i].ticks, t)
            invariant
                start <= i <= len,
                len == self.chart.notes@.len(),
                sweep(self.chart, start as int, t) == sweep(self.chart, i as int, t),
            decreases len - i,
        {
            i = i + 1;
        }
        self.next_note_index = i;
        if i > start {
            let effect = if self.streak > 0 { GuitarGameEffect::MissStreak } else { GuitarGameEffect::MissNoStreak };
            self.streak = 0;
            Some(effect)
        } else {
            None
        }
    }

    pub fn chart(&self) -> (r: &GuitarChart)
        ensures
            *r == self@.chart,
    {
        &self.chart
    }

    pub fn frets(&self) -> (r: [bool; 5])
        ensures
            r == self@.frets,
    {
        self.frets
    }

    pub fn score(&self) -> (r: u64)
        ensures
            r == self@.score,
    {
        self.score
    }

    pub fn notes_hit(&self) -> (r: u64)
        ensures
            r == self@.notes_hit,
    {
        self.notes_hit
    }

    pub fn streak(&self) -> (r: u64)
        ensures
            r == self@.streak,
    {
        self.streak
    }

    pub fn sp_phrases(&self) -> (r: u64)
        ensures
            r == self@.sp_phrases,
    {
        self.sp_phrases
    }

    pub fn avg_multiplier(&self) -> (r: u64)
        ensures
            r == self@.avg_multiplier,
    {
        self.avg_multiplier
    }

    /// The song time last given, in milliseconds.
    pub fn time(&self) -> (r: u64)
        ensures
            r == self@.time,
    {
        self.time
    }

    /// The index of the next chord to be played.
    pub fn next_note_index(&self) -> (r: usize)
        ensures
            r == self@.cursor,
            r <= self@.chart.notes@.len(),
    {
        proof { use_type_invariant(self); }
        self.next_note_index
    }
}

proof fn lemma_scale_compare(a: int, b: int, d: int)
    requires
        d > 0,
    ensures
        (a * d <= b * d) == (a <= b),
        (a * d < b * d) == (a < b),
{
    if a <= b {
        assert(a * d <= b * d) by (nonlinear_arith) requires a <= b, d > 0;
    } else {
        assert(a * d > b * d) by (nonlinear_arith) requires a > b, d > 0;
    }
    if a < b {
        assert(a * d < b * d) by (nonlinear_arith) requires a < b, d > 0;
    } else {
        assert(a * d >= b * d) by (nonlinear_arith) requires a >= b, d > 0;
    }
}

/// Around the chord under the cursor, due at exactly `chord_ms` milliseconds,
/// a strum hits from `HALF_HIT_WINDOW_MS` before to `HALF_HIT_WINDOW_MS` after
/// that time with exactly its frets held; one step further out, or with other
/// frets held, it does not.
pub proof fn lemma_hit_window(s: PlaythroughState, chord_ms: u64, time_ms: u64)
    requires
        s.cursor < s.chart.notes@.len(),
        ms_den(s.chart) > 0,
        ms_num(s.chart.notes@[s.cursor as int].ticks) == chord_ms * ms_den(s.chart),
    ensures
        strum_hits(s, time_ms) <==> {
            &&& s.frets == s.chart.notes@[s.cursor as int].chord
            &&& chord_ms - HALF_HIT_WINDOW_MS <= time_ms <= chord_ms + HALF_HIT_WINDOW_MS
        },
{
    lemma_scale_compare(time_ms - HALF_HIT_WINDOW_MS, chord_ms as int, ms_den(s.chart));
    lemma_scale_compare(chord_ms as int, time_ms + HALF_HIT_WINDOW_MS, ms_den(s.chart));
}

/// The chord under the cursor, due at exactly `chord_ms` milliseconds, is
/// passed over as missed by a clock more than `HALF_HIT_WINDOW_MS` later, and
/// by no earlier one.
pub proof fn lemma_miss_after_window(s: PlaythroughState, chord_ms: u64, time_ms: u64)
    requires
        s.cursor < s.chart.notes@.len(),
        ms_den(s.chart) > 0,
        ms_num(s.chart.notes@[s.cursor as int].ticks) == chord_ms * ms_den(s.chart),
    ensures
        (sweep(s.chart, s.cursor as int, time_ms) > s.cursor) <==> (time_ms > chord_ms + HALF_HIT_WINDOW_MS),
{
    lemma_scale_compare(chord_ms as int, time_ms - HALF_HIT_WINDOW_MS, ms_den(s.chart));
    lemma_sweep_from(s.chart, s.cursor as int, time_ms);
}

proof fn lemma_sweep_from(c: GuitarChart, from: int, time_ms: u64)
    requires
        0 <= from,
    ensures
        sweep(c, from, time_ms) >= from,
        from < c.notes@.len() && window_passed(c, c.notes@[from].ticks, time_ms) ==> sweep(c, from, time_ms) > from,
    decreases c.notes@.len() - from,
{
    if 0 <= from < c.notes@.len() && window_passed(c, c.notes@[from].ticks, time_ms) {
        lemma_sweep_from(c, from + 1, time_ms);
    }
}

/// Once the cursor is past the last chord, no clock moves it.
pub proof fn lemma_end_is_final(c: GuitarChart, cursor: int, time_ms: u64)
    requires
        cursor >= c.notes@.len(),
    ensures
        sweep(c, cursor, time_ms) == cursor,
{
}

} // verus!
