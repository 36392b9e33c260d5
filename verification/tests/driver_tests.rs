use midi_osc_replay::driver::{Phase, ReplayDriver};
use midi_osc_replay::event::{ForwardableMessage, Song, TimedEvent};
use midi_osc_replay::replay::{schedule, Action, Wait};
use midi_osc_replay::tempo::TempoState;

fn live(delta_ticks: u32, bytes: Vec<u8>) -> TimedEvent {
    TimedEvent { delta_ticks, tempo: None, channel: Some(0), encoded: Some(bytes) }
}

fn tempo_change(delta_ticks: u32, micros: u32) -> TimedEvent {
    TimedEvent { delta_ticks, tempo: Some(micros), channel: None, encoded: None }
}

fn two_track_song() -> Song {
    Song {
        ticks_per_beat: 100,
        tracks: vec![
            vec![],
            vec![tempo_change(0, 1_000), live(4, vec![0x90, 1, 2])],
            vec![],
            vec![live(0, vec![0xc0, 9]), live(2, vec![0x80, 1, 0])],
            vec![],
        ],
    }
}

#[test]
fn new_driver_is_idle_and_gives_nothing() {
    let mut driver = ReplayDriver::new();
    assert_eq!(driver.phase(), Phase::Idle);
    assert_eq!(driver.tempo(), TempoState { ticks_per_beat: 0, microseconds_per_beat: 0 });
    assert_eq!(driver.next(), None);
    assert_eq!(driver.phase(), Phase::Idle);
    assert!(driver.song().tracks.is_empty());
}

#[test]
fn loading_an_empty_song_is_done_at_once() {
    let mut driver = ReplayDriver::new();
    driver.load(Song { ticks_per_beat: 96, tracks: vec![vec![], vec![]] });
    assert_eq!(driver.phase(), Phase::Done);
    assert_eq!(driver.tempo(), TempoState { ticks_per_beat: 96, microseconds_per_beat: 0 });
    assert_eq!(driver.next(), None);
    assert_eq!(driver.phase(), Phase::Done);
}

#[test]
fn loading_skips_leading_empty_tracks() {
    let mut driver = ReplayDriver::new();
    driver.load(two_track_song());
    assert_eq!(driver.phase(), Phase::Iterating { track: 1, event: 0 });
    assert_eq!(driver.song().ticks_per_beat, 100);
}

#[test]
fn driver_walks_every_event_in_file_order() {
    let mut driver = ReplayDriver::new();
    driver.load(two_track_song());

    assert_eq!(driver.next(), Some(Action { send: None, wait: Wait::Immediate }));
    assert_eq!(driver.phase(), Phase::Iterating { track: 1, event: 1 });
    assert_eq!(driver.tempo().microseconds_per_beat, 1_000);

    let note_on = ForwardableMessage { channel: 0, status: 0x90, data1: 1, data2: 2 };
    assert_eq!(driver.next(), Some(Action { send: Some(note_on), wait: Wait::Micros(40) }));
    assert_eq!(driver.phase(), Phase::Iterating { track: 3, event: 0 });

    assert_eq!(driver.next(), Some(Action { send: None, wait: Wait::Immediate }));
    assert_eq!(driver.phase(), Phase::Iterating { track: 3, event: 1 });

    let note_off = ForwardableMessage { channel: 0, status: 0x80, data1: 1, data2: 0 };
    assert_eq!(driver.next(), Some(Action { send: Some(note_off), wait: Wait::Micros(20) }));
    assert_eq!(driver.phase(), Phase::Done);

    assert_eq!(driver.next(), None);
    assert_eq!(driver.phase(), Phase::Done);
    assert_eq!(driver.tempo(), TempoState { ticks_per_beat: 100, microseconds_per_beat: 1_000 });
}

#[test]
fn driver_gives_the_schedule() {
    let song = two_track_song();
    let expected = schedule(&song);
    let mut driver = ReplayDriver::new();
    driver.load(song);
    let mut seen = Vec::new();
    while let Some(action) = driver.next() {
        seen.push(action);
    }
    assert_eq!(seen, expected);
    assert_eq!(seen.len(), 4);
}

#[test]
fn loading_again_starts_over() {
    let mut driver = ReplayDriver::new();
    driver.load(two_track_song());
    driver.next();
    driver.next();
    driver.load(Song { ticks_per_beat: 7, tracks: vec![vec![live(7, vec![0x91, 0, 0])]] });
    assert_eq!(driver.phase(), Phase::Iterating { track: 0, event: 0 });
    assert_eq!(driver.tempo(), TempoState { ticks_per_beat: 7, microseconds_per_beat: 0 });
    let sent = ForwardableMessage { channel: 0, status: 0x91, data1: 0, data2: 0 };
    assert_eq!(driver.next(), Some(Action { send: Some(sent), wait: Wait::Micros(0) }));
    assert_eq!(driver.phase(), Phase::Done);
}
