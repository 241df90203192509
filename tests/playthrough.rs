use bumpit::chart::{build_song, Chart, Difficulty, Instrument, Note, Part, SyncTrack};
use bumpit::guitarplaythrough::{
    aggregate_notes, frets_match, Fret, GuitarChart, GuitarGameEffect, GuitarInputAction, GuitarNote,
    GuitarNoteStrumType, GuitarPlaythrough,
};
use bumpit::input::{GameButton, GameInputAction};

fn note(ticks: u64, lane: u64) -> Note {
    Note { ticks, note: lane, duration: 0 }
}

fn chart_with(notes: Vec<Note>) -> Chart {
    let song = build_song(&vec![("Resolution".to_string(), "192".to_string())]).unwrap();
    Chart {
        song,
        sync_track: vec![
            SyncTrack::TimeSignature { ticks: 0, upper: 4, lower: 4 },
            SyncTrack::BeatsPerMinute { ticks: 0, bpm1000: 120000 },
        ],
        events: vec![],
        parts: vec![
            Part { instrument: Instrument::Bass, difficulty: Difficulty::Expert, notes: vec![note(0, 1)], special_events: vec![] },
            Part { instrument: Instrument::Guitar, difficulty: Difficulty::Expert, notes, special_events: vec![] },
        ],
    }
}

/// One green-yellow chord at tick 192, which is 500 ms.
fn one_chord() -> GuitarPlaythrough {
    GuitarPlaythrough::new(chart_with(vec![note(192, 0), note(192, 2)])).unwrap()
}

fn hold_green_yellow(p: &mut GuitarPlaythrough) {
    assert_eq!(p.apply(&GuitarInputAction::FretDown(Fret::G), 0), None);
    assert_eq!(p.apply(&GuitarInputAction::FretDown(Fret::Y), 0), None);
}

#[test]
fn quarter_note_at_120_bpm_is_half_a_second() {
    let chart = GuitarChart { ticks_per_beat: 192, bpm1000: 120000, notes: vec![] };
    assert_eq!(chart.ticks_to_ms(192), 500);
    assert_eq!(chart.ticks_to_ms(96), 250);
    assert_eq!(chart.ticks_to_ms(0), 0);
    let slow = GuitarChart { ticks_per_beat: 480, bpm1000: 90500, notes: vec![] };
    assert_eq!(slow.ticks_to_ms(480), 662);
}

#[test]
fn chord_aggregation() {
    let chords = aggregate_notes(&vec![note(0, 0), note(0, 2), note(0, 5)]);
    assert_eq!(
        chords,
        vec![GuitarNote {
            ticks: 0,
            chord: [true, false, true, false, false],
            strum_type: GuitarNoteStrumType::Hopo,
            duration: 0
        }]
    );
}

#[test]
fn aggregation_open_tap_and_runs() {
    let chords = aggregate_notes(&vec![note(0, 1), note(0, 7), note(10, 6), note(10, 4), note(0, 3), note(20, 9)]);
    assert_eq!(chords.len(), 4);
    assert_eq!(chords[0].chord, [false; 5]);
    assert!(chords[0].is_open());
    assert_eq!(chords[1].strum_type, GuitarNoteStrumType::Tap);
    assert_eq!(chords[1].chord, [false, false, false, false, true]);
    assert_eq!(chords[2].ticks, 0);
    assert_eq!(chords[2].chord, [false, false, false, true, false]);
    assert!(!chords[2].is_open());
    assert_eq!(chords[3].strum_type, GuitarNoteStrumType::Strum);
    assert!(chords[3].is_open());
    assert!(aggregate_notes(&vec![]).is_empty());
}

#[test]
fn new_takes_first_tempo_and_expert_guitar() {
    let p = one_chord();
    assert_eq!(p.chart().bpm1000, 120000);
    assert_eq!(p.chart().ticks_per_beat, 192);
    assert_eq!(p.chart().notes.len(), 1);
    assert_eq!(p.chart().notes[0].chord, [true, false, true, false, false]);
    assert_eq!(p.next_note_index(), 0);
    assert_eq!(p.streak(), 0);
    assert_eq!(p.notes_hit(), 0);
    assert_eq!(p.score(), 0);
    assert_eq!(p.frets(), [false; 5]);
}

#[test]
fn new_failures() {
    let mut no_bpm = chart_with(vec![]);
    no_bpm.sync_track = vec![SyncTrack::TimeSignature { ticks: 0, upper: 4, lower: 4 }];
    assert_eq!(GuitarPlaythrough::new(no_bpm).err(), Some("no BPM found"));
    let mut no_part = chart_with(vec![]);
    no_part.parts.remove(1);
    assert_eq!(GuitarPlaythrough::new(no_part).err(), Some("no Expert Guitar part found"));
}

#[test]
fn strum_at_window_edges_hits() {
    for t in [460u64, 500, 540] {
        let mut p = one_chord();
        hold_green_yellow(&mut p);
        assert_eq!(p.apply(&GuitarInputAction::Strum, t), None);
        assert_eq!(p.next_note_index(), 1);
        assert_eq!(p.streak(), 1);
        assert_eq!(p.notes_hit(), 1);
    }
}

#[test]
fn strum_outside_window_overstrums() {
    for t in [459u64, 541] {
        let mut p = one_chord();
        hold_green_yellow(&mut p);
        assert_eq!(p.apply(&GuitarInputAction::Strum, t), Some(GuitarGameEffect::Overstrum));
        assert_eq!(p.next_note_index(), 0);
        assert_eq!(p.streak(), 0);
    }
}

#[test]
fn strum_with_wrong_frets_overstrums() {
    let mut p = GuitarPlaythrough::new(chart_with(vec![note(0, 0), note(192, 0), note(192, 2)])).unwrap();
    assert_eq!(p.apply(&GuitarInputAction::FretDown(Fret::G), 0), None);
    assert_eq!(p.apply(&GuitarInputAction::Strum, 0), None);
    assert_eq!(p.streak(), 1);
    assert_eq!(p.apply(&GuitarInputAction::FretDown(Fret::B), 0), None);
    assert_eq!(p.apply(&GuitarInputAction::FretDown(Fret::Y), 0), None);
    assert_eq!(p.apply(&GuitarInputAction::Strum, 500), Some(GuitarGameEffect::Overstrum));
    assert_eq!(p.streak(), 0);
    assert_eq!(p.next_note_index(), 1);
    assert_eq!(p.apply(&GuitarInputAction::FretUp(Fret::B), 0), None);
    assert_eq!(p.frets(), [true, false, true, false, false]);
    assert_eq!(p.apply(&GuitarInputAction::Strum, 500), None);
    assert_eq!(p.next_note_index(), 2);
    assert_eq!(p.streak(), 1);
    assert_eq!(p.notes_hit(), 2);
}

#[test]
fn late_clock_misses_without_streak() {
    let mut p = one_chord();
    assert_eq!(p.update_time(540), None);
    assert_eq!(p.next_note_index(), 0);
    assert_eq!(p.update_time(541), Some(GuitarGameEffect::MissNoStreak));
    assert_eq!(p.next_note_index(), 1);
    assert_eq!(p.time(), 541);
    assert_eq!(p.update_time(10_000), None);
}

#[test]
fn late_clock_misses_with_streak() {
    let mut p = GuitarPlaythrough::new(chart_with(vec![note(0, 7), note(192, 1), note(384, 1)])).unwrap();
    assert_eq!(p.apply(&GuitarInputAction::Strum, 10), None);
    assert_eq!(p.streak(), 1);
    assert_eq!(p.update_time(2000), Some(GuitarGameEffect::MissStreak));
    assert_eq!(p.next_note_index(), 3);
    assert_eq!(p.streak(), 0);
    assert_eq!(p.notes_hit(), 1);
}

#[test]
fn clock_does_not_go_back() {
    let mut p = one_chord();
    assert_eq!(p.update_time(300), None);
    assert_eq!(p.update_time(100), None);
    assert_eq!(p.time(), 300);
}

#[test]
fn strum_after_the_end_overstrums() {
    let mut p = one_chord();
    hold_green_yellow(&mut p);
    assert_eq!(p.apply(&GuitarInputAction::Strum, 500), None);
    for t in [500u64, 1000, 0] {
        assert_eq!(p.apply(&GuitarInputAction::Strum, t), Some(GuitarGameEffect::Overstrum));
        assert_eq!(p.next_note_index(), 1);
    }
    assert_eq!(p.streak(), 1);
    assert_eq!(p.update_time(5000), None);
}

#[test]
fn zero_tempo_never_judges_in_time() {
    let mut chart = chart_with(vec![note(0, 7)]);
    chart.sync_track = vec![SyncTrack::BeatsPerMinute { ticks: 0, bpm1000: 0 }];
    let mut p = GuitarPlaythrough::new(chart).unwrap();
    assert_eq!(p.apply(&GuitarInputAction::Strum, 0), Some(GuitarGameEffect::Overstrum));
    assert_eq!(p.update_time(100_000), None);
}

#[test]
fn fret_masks() {
    assert!(frets_match([true, false, true, false, false], [true, false, true, false, false]));
    assert!(!frets_match([true, true, true, false, false], [true, false, true, false, false]));
    assert_eq!(Fret::O.index(), 4);
}

#[test]
fn game_actions() {
    assert_eq!(GameButton::Yellow.to_guitar(), Fret::Y);
    assert!(GameInputAction::Quit.to_guitar_action().is_none());
    assert!(matches!(
        GameInputAction::ButtonDown(GameButton::Blue).to_guitar_action(),
        Some(GuitarInputAction::FretDown(Fret::B))
    ));
    assert!(matches!(
        GameInputAction::ButtonUp(GameButton::Red).to_guitar_action(),
        Some(GuitarInputAction::FretUp(Fret::R))
    ));
    assert!(matches!(GameInputAction::Strum.to_guitar_action(), Some(GuitarInputAction::Strum)));
}
