use bumpit::chart::{
    build_events, build_part, build_song, build_synctrack, read, read_sections, ChartParseError,
    Difficulty, Event, EventError, Instrument, Note, PartError, SongError, SongPlayer2, SyncTrack,
    SyncTrackError,
};
use bumpit::text::ParseIntError;

fn entries(pairs: &[(&str, &str)]) -> Vec<(String, String)> {
    pairs.iter().map(|(k, v)| (k.to_string(), v.to_string())).collect()
}

const CHART: &str = "[Song]
{
  Name = \"My Song\"
  Artist = \"Someone\"
  Resolution = 192
  Year = \", 2010\"
  Player2 = bass
  PreviewStart = 0.00
}
[SyncTrack]
{
  0 = TS 4
  0 = B 120000
}
[Events]
{
  768 = E \"section Intro\"
}
[ExpertSingle]
{
  192 = N 0 0
  192 = N 2 0
  384 = N 7 0
}
";

#[test]
fn tempo_marker_entry() {
    let r = build_synctrack(&entries(&[("0", "B 120000")])).unwrap();
    assert_eq!(r, vec![SyncTrack::BeatsPerMinute { ticks: 0, bpm1000: 120000 }]);
}

#[test]
fn time_signature_default_denominator() {
    let r = build_synctrack(&entries(&[("0", "TS 4")])).unwrap();
    assert_eq!(r, vec![SyncTrack::TimeSignature { ticks: 0, upper: 4, lower: 4 }]);
}

#[test]
fn time_signature_with_exponent() {
    let r = build_synctrack(&entries(&[("0", "TS 3 1")])).unwrap();
    assert_eq!(r, vec![SyncTrack::TimeSignature { ticks: 0, upper: 3, lower: 2 }]);
}

#[test]
fn synctrack_keeps_order_and_skips_unknown() {
    let r = build_synctrack(&entries(&[("768", "B 90000"), ("0", "A 5"), ("0", "TS 6 3")])).unwrap();
    assert_eq!(
        r,
        vec![
            SyncTrack::BeatsPerMinute { ticks: 768, bpm1000: 90000 },
            SyncTrack::TimeSignature { ticks: 0, upper: 6, lower: 8 },
        ]
    );
}

#[test]
fn synctrack_errors() {
    assert_eq!(build_synctrack(&entries(&[("0", "TS")])), Err(SyncTrackError::TSMissingUpper));
    assert_eq!(build_synctrack(&entries(&[("0", "B")])), Err(SyncTrackError::BMissingBPM));
    assert_eq!(build_synctrack(&entries(&[("0", "TS 4 64")])), Err(SyncTrackError::TSLowerTooLarge));
    assert_eq!(
        build_synctrack(&entries(&[("x", "B 120000")])),
        Err(SyncTrackError::ParseIntError(ParseIntError::InvalidDigit))
    );
    assert_eq!(
        build_synctrack(&entries(&[("0", "TS 4 4294967296")])),
        Err(SyncTrackError::ParseIntError(ParseIntError::PosOverflow))
    );
}

#[test]
fn song_without_resolution_fails() {
    let r = build_song(&entries(&[("Name", "\"A\""), ("Offset", "0")]));
    assert_eq!(r, Err(SongError::MissingResolution));
}

#[test]
fn song_with_only_resolution() {
    let song = build_song(&entries(&[("resolution", "480")])).unwrap();
    assert_eq!(song.resolution, 480);
    assert_eq!(song.name, None);
    assert_eq!(song.offset, None);
    assert_eq!(song.player2, None);
    assert_eq!(song.preview_start, None);
}

#[test]
fn song_fields() {
    let song = build_song(&entries(&[
        ("Name", "\"My Song\""),
        ("YEAR", "\", 1999\""),
        ("Resolution", "96"),
        ("Resolution", "192"),
        ("Player2", "RHYTHM"),
        ("Difficulty", "4"),
        ("PreviewEnd", "12.5"),
        ("MusicStream", "\"song.ogg\""),
        ("Unknown", "x"),
    ]))
    .unwrap();
    assert_eq!(song.name, Some("My Song".to_string()));
    assert_eq!(song.year, Some("1999".to_string()));
    assert_eq!(song.resolution, 192);
    assert_eq!(song.player2, Some(SongPlayer2::Rhythm));
    assert_eq!(song.difficulty, Some(4));
    assert_eq!(song.preview_end, Some("12.5".to_string()));
    assert_eq!(song.streams.music, Some("song.ogg".to_string()));
    assert_eq!(song.streams.drum, None);
}

#[test]
fn song_unknown_player2_is_absent() {
    let song = build_song(&entries(&[("resolution", "192"), ("player2", "drums")])).unwrap();
    assert_eq!(song.player2, None);
}

#[test]
fn song_bad_integer() {
    assert_eq!(
        build_song(&entries(&[("resolution", "192"), ("offset", "")])),
        Err(SongError::ParseIntError(ParseIntError::Empty))
    );
    assert_eq!(
        build_song(&entries(&[("resolution", "-1")])),
        Err(SongError::ParseIntError(ParseIntError::InvalidDigit))
    );
}

#[test]
fn section_event() {
    let r = build_events(&entries(&[("768", "E \"section Intro\""), ("800", "E \"lyric hey\"")])).unwrap();
    assert_eq!(r, vec![Event::Section { ticks: 768, name: "Intro".to_string() }]);
}

#[test]
fn section_event_needs_name() {
    assert_eq!(
        build_events(&entries(&[("768", "E \"section\"")])),
        Err(EventError::ESectionMissingSectionName)
    );
    assert_eq!(
        build_events(&entries(&[("768", "E \"section \"")])),
        Err(EventError::ESectionMissingSectionName)
    );
}

#[test]
fn part_notes() {
    let p = build_part("HardDoubleBass", &entries(&[("0", "N 1 10"), ("0", "S 2 100"), ("5", "N 7 0")])).unwrap();
    assert_eq!(p.instrument, Instrument::Bass);
    assert_eq!(p.difficulty, Difficulty::Hard);
    assert_eq!(
        p.notes,
        vec![Note { ticks: 0, note: 1, duration: 10 }, Note { ticks: 5, note: 7, duration: 0 }]
    );
    assert!(p.special_events.is_empty());
}

#[test]
fn part_real_guitar() {
    let p = build_part("PART REAL_GUITAR", &entries(&[])).unwrap();
    assert_eq!(p.instrument, Instrument::RealGuitar);
    assert_eq!(p.difficulty, Difficulty::Expert);
}

#[test]
fn unknown_part_name_is_expert_guitar() {
    let p = build_part("SomethingNew", &entries(&[("0", "N 0 0")])).unwrap();
    assert_eq!(p.instrument, Instrument::Guitar);
    assert_eq!(p.difficulty, Difficulty::Expert);
}

#[test]
fn part_errors() {
    assert_eq!(
        build_part("ExpertSingle", &entries(&[("0", "N")])),
        Err(ChartParseError::PartSectionError(PartError::NMissingNote))
    );
    assert_eq!(
        build_part("ExpertSingle", &entries(&[("0", "N 1")])),
        Err(ChartParseError::PartSectionError(PartError::NMissingDuration))
    );
}

#[test]
fn read_whole_chart() {
    let chart = read(CHART).unwrap();
    assert_eq!(chart.song.name, Some("My Song".to_string()));
    assert_eq!(chart.song.artist, Some("Someone".to_string()));
    assert_eq!(chart.song.resolution, 192);
    assert_eq!(chart.song.year, Some("2010".to_string()));
    assert_eq!(chart.song.player2, Some(SongPlayer2::Bass));
    assert_eq!(chart.song.preview_start, Some("0.00".to_string()));
    assert_eq!(
        chart.sync_track,
        vec![
            SyncTrack::TimeSignature { ticks: 0, upper: 4, lower: 4 },
            SyncTrack::BeatsPerMinute { ticks: 0, bpm1000: 120000 },
        ]
    );
    assert_eq!(chart.events, vec![Event::Section { ticks: 768, name: "Intro".to_string() }]);
    assert_eq!(chart.parts.len(), 1);
    assert_eq!(chart.parts[0].instrument, Instrument::Guitar);
    assert_eq!(chart.parts[0].notes.len(), 3);
}

#[test]
fn read_unknown_section_as_part() {
    let text = "[Song]\n{\n  Resolution = 192\n}\n[SyncTrack]\n{\n  0 = B 120000\n}\n[Mystery]\n{\n  0 = N 0 0\n}\n";
    let chart = read(text).unwrap();
    assert_eq!(chart.events, vec![]);
    assert_eq!(chart.parts.len(), 1);
    assert_eq!(chart.parts[0].instrument, Instrument::Guitar);
    assert_eq!(chart.parts[0].difficulty, Difficulty::Expert);
}

#[test]
fn read_missing_sections() {
    let no_song = "[SyncTrack]\n{\n  0 = B 120000\n}\n";
    assert_eq!(read(no_song).err(), Some(ChartParseError::MissingSongSection));
    let no_sync = "[Song]\n{\n  Resolution = 192\n}\n";
    assert_eq!(read(no_sync).err(), Some(ChartParseError::MissingSyncTrackSection));
    assert_eq!(read("").err(), Some(ChartParseError::MissingSongSection));
}

#[test]
fn read_stops_at_first_bad_section() {
    let text = "[Song]\n{\n  Name = x\n}\n[SyncTrack]\n{\n  0 = TS\n}\n";
    assert_eq!(
        read(text).err(),
        Some(ChartParseError::SongSectionError(SongError::MissingResolution))
    );
    let text = "[Song]\n{\n  Resolution = 192\n}\n[SyncTrack]\n{\n  0 = TS\n}\n";
    assert_eq!(
        read(text).err(),
        Some(ChartParseError::SyncTrackSectionError(SyncTrackError::TSMissingUpper))
    );
    let text = "[Song]\n{\n  Resolution = 192\n}\n[SyncTrack]\n{\n  0 = B 1\n}\n[Events]\n{\n  0 = E \"section\"\n}\n";
    assert_eq!(
        read(text).err(),
        Some(ChartParseError::EventSectionError(EventError::ESectionMissingSectionName))
    );
}

#[test]
fn read_sections_bad_section() {
    let sections: Vec<Option<(String, Vec<(String, String)>)>> = vec![None];
    assert_eq!(read_sections(&sections).err(), Some(ChartParseError::BadSection));
}

#[test]
fn read_sections_last_song_counts() {
    let sections = vec![
        Some(("Song".to_string(), entries(&[("resolution", "96")]))),
        Some(("SyncTrack".to_string(), entries(&[("0", "B 60000")]))),
        Some(("Song".to_string(), entries(&[("resolution", "480")]))),
    ];
    let chart = read_sections(&sections).unwrap();
    assert_eq!(chart.song.resolution, 480);
    assert!(chart.parts.is_empty());
}
