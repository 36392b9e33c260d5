//! The replay driver as a state machine that owns the song it plays.
//!
//! The caller asks for the next action, performs it (sends, then waits) and
//! asks again, until the driver is done.

use vstd::prelude::*;
use crate::event::{Song, SongView, TimedEventView, track_view};
use crate::replay::{
    action_for, initial_tempo, lemma_action_at, play_order, schedule_of, step, tempo_after,
    tempo_through, Action,
};
use crate::tempo::TempoState;

verus! {

/// Where playback stands.
#[derive(Clone, Copy, Debug, PartialEq, Eq, Structural)]
pub enum Phase {
    /// Nothing has been loaded.
    Idle,
    /// The event at this place is the next to be handled.
    Iterating { track: usize, event: usize },
    /// Every event of every track has been handled.
    Done,
}

/// A playback in progress.
pub struct ReplayDriver {
    song: Song,
    phase: Phase,
    tempo: TempoState,
}

/// The events of the first `track` tracks and the first `event` events of the
/// next one, in the order of play.
pub open spec fn played_before(tracks: Seq<Seq<TimedEventView>>, track: int, event: int) -> Seq<
    TimedEventView,
>
    recommends
        0 <= track < tracks.len(),
        0 <= event <= tracks[track].len(),
{
    play_order(tracks.take(track)) + tracks[track].take(event)
}

/// The order of play of the first `count` tracks opens the order of play of
/// all of them.
pub proof fn lemma_whole_tracks_open_the_order(tracks: Seq<Seq<TimedEventView>>, count: int)
    requires
        0 <= count <= tracks.len(),
    ensures
        play_order(tracks.take(count)).len() <= play_order(tracks).len(),
        play_order(tracks).take(play_order(tracks.take(count)).len() as int) == play_order(
            tracks.take(count),
        ),
    decreases tracks.len() - count,
{
    if count == tracks.len() {
        assert(tracks.take(count) =~= tracks);
        assert(play_order(tracks).take(play_order(tracks).len() as int) =~= play_order(tracks));
    } else {
        let more = tracks.take(count + 1);
        assert(more.drop_last() =~= tracks.take(count));
        assert(more.last() == tracks[count]);
        lemma_whole_tracks_open_the_order(tracks, count + 1);
        let short = play_order(tracks.take(count));
        assert(play_order(more) == short + tracks[count]);
        assert(play_order(tracks).take(short.len() as int) =~= short);
    }
}

/// What has been played before a place within a track opens the order of
/// play, and the event at that place comes next in it.
pub proof fn lemma_place_in_order(tracks: Seq<Seq<TimedEventView>>, track: int, event: int)
    requires
        0 <= track < tracks.len(),
        0 <= event <= tracks[track].len(),
    ensures
        played_before(tracks, track, event).len() <= play_order(tracks).len(),
        play_order(tracks).take(played_before(tracks, track, event).len() as int) == played_before(
            tracks,
            track,
            event,
        ),
        event < tracks[track].len() ==> {
            &&& played_before(tracks, track, event).len() < play_order(tracks).len()
            &&& play_order(tracks)[played_before(tracks, track, event).len() as int]
                == tracks[track][event]
        },
{
    let more = tracks.take(track + 1);
    assert(more.drop_last() =~= tracks.take(track));
    assert(more.last() == tracks[track]);
    lemma_whole_tracks_open_the_order(tracks, track + 1);
    let before = played_before(tracks, track, event);
    let through = play_order(more);
    assert(through == play_order(tracks.take(track)) + tracks[track]);
    assert(play_order(tracks).take(before.len() as int) =~= before);
    if event < tracks[track].len() {
        assert(through[before.len() as int] == tracks[track][event]);
        assert(play_order(tracks).take(through.len() as int)[before.len() as int]
            == play_order(tracks)[before.len() as int]);
    }
}

impl ReplayDriver {
    /// The song being played.
    pub closed spec fn song_view(self) -> SongView {
        self.song@
    }

    /// The current phase.
    pub closed spec fn phase_of(self) -> Phase {
        self.phase
    }

    /// The current tempo state.
    pub closed spec fn tempo_of(self) -> TempoState {
        self.tempo
    }

    /// All events of the song in the order of play.
    pub open spec fn order(self) -> Seq<TimedEventView> {
        play_order(self.song_view().tracks)
    }

    /// The tempo state in which playback of the song begins.
    pub open spec fn start_tempo(self) -> TempoState {
        initial_tempo(self.song_view().ticks_per_beat)
    }

    /// The events handled so far.
    pub open spec fn handled(self) -> Seq<TimedEventView> {
        match self.phase_of() {
            Phase::Idle => Seq::empty(),
            Phase::Iterating { track, event } => played_before(
                self.song_view().tracks,
                track as int,
                event as int,
            ),
            Phase::Done => self.order(),
        }
    }

    /// While iterating, the place names an event of the song; and in every
    /// phase the tempo is the one that the events handled so far leave behind.
    pub open spec fn wf(self) -> bool {
        &&& match self.phase_of() {
            Phase::Iterating { track, event } => {
                &&& track < self.song_view().tracks.len()
                &&& event < self.song_view().tracks[track as int].len()
            },
            _ => true,
        }
        &&& self.tempo_of() == tempo_through(self.start_tempo(), self.handled())
    }

    /// A driver with nothing loaded.
    pub fn new() -> (driver: ReplayDriver)
        ensures
            driver.wf(),
            driver.phase_of() == Phase::Idle,
            driver.song_view().tracks.len() == 0,
            driver.song_view().ticks_per_beat == 0,
            driver.tempo_of() == initial_tempo(0),
    {
        ReplayDriver {
            song: Song { ticks_per_beat: 0, tracks: Vec::new() },
            phase: Phase::Idle,
            tempo: TempoState::new(),
        }
    }

    /// The current phase.
    pub fn phase(&self) -> (phase: Phase)
        ensures
            phase == self.phase_of(),
    {
        self.phase
    }

    /// The current tempo state.
    pub fn tempo(&self) -> (tempo: TempoState)
        ensures
            tempo == self.tempo_of(),
    {
        self.tempo
    }

    /// The song being played.
    pub fn song(&self) -> (song: &Song)
        ensures
            song@ == self.song_view(),
    {
        &self.song
    }

    /// The first track at or after `from` that has an event, or `Done` if
    /// there is none.
    fn seek(song: &Song, from: usize) -> (phase: Phase)
        requires
            from <= song@.tracks.len(),
        ensures
            match phase {
                Phase::Iterating { track, event } => {
                    &&& from <= track < song@.tracks.len()
                    &&& event == 0
                    &&& song@.tracks[track as int].len() > 0
                    &&& play_order(song@.tracks.take(track as int)) == play_order(
                        song@.tracks.take(from as int),
                    )
                },
                Phase::Done => play_order(song@.tracks) == play_order(
                    song@.tracks.take(from as int),
                ),
                Phase::Idle => false,
            },
    {
        let ghost tracks = song@.tracks;
        let mut track: usize = from;
        while track < song.tracks.len()
            invariant
                from <= track <= song.tracks.len(),
                tracks == song@.tracks,
                play_order(tracks.take(track as int)) == play_order(tracks.take(from as int)),
            decreases song.tracks.len() - track,
        {
            if song.tracks[track].len() > 0 {
                assert(tracks[track as int] == track_view(song.tracks[track as int]));
                return Phase::Iterating { track, event: 0 };
            }
            proof {
                let more = tracks.take(track as int + 1);
                assert(more.drop_last() =~= tracks.take(track as int));
                assert(more.last() == track_view(song.tracks[track as int]));
                assert(play_order(more) =~= play_order(tracks.take(track as int)));
            }
            track = track + 1;
        }
        assert(tracks.take(track as int) =~= tracks);
        Phase::Done
    }

    /// Loads `song` and puts the driver at its first event. Whatever was
    /// being played before is dropped.
    pub fn load(&mut self, song: Song)
        ensures
            final(self).wf(),
            final(self).song_view() == song@,
            final(self).handled() == Seq::<TimedEventView>::empty(),
            final(self).tempo_of() == initial_tempo(song@.ticks_per_beat),
            final(self).phase_of() != Phase::Idle,
            final(self).phase_of() == Phase::Done <==> play_order(song@.tracks).len() == 0,
    {
        let mut tempo = TempoState::new();
        tempo.set_ticks_per_beat(song.ticks_per_beat);
        let phase = Self::seek(&song, 0);
        proof {
            let tracks = song@.tracks;
            assert(tracks.take(0) =~= Seq::<Seq<TimedEventView>>::empty());
            assert(play_order(tracks.take(0)) =~= Seq::<TimedEventView>::empty());
            match phase {
                Phase::Iterating { track, event } => {
                    assert(tracks[track as int].take(0) =~= Seq::<TimedEventView>::empty());
                    assert(played_before(tracks, track as int, 0) =~= Seq::<
                        TimedEventView,
                    >::empty());
                    lemma_place_in_order(tracks, track as int, 0);
                },
                _ => {},
            }
        }
        self.song = song;
        self.phase = phase;
        self.tempo = tempo;
    }

    /// Handles the event the driver stands at and moves on to the next one.
    ///
    /// While iterating, the answer is the action for that event: the entry of
    /// the song's schedule at the number of events handled before. Idle or
    /// done, the answer is `None` and nothing changes.
    pub fn next(&mut self) -> (action: Option<Action>)
        requires
            old(self).wf(),
        ensures
            final(self).wf(),
            final(self).song_view() == old(self).song_view(),
            match old(self).phase_of() {
                Phase::Iterating { track, event } => {
                    let current = old(self).song_view().tracks[track as int][event as int];
                    &&& action == Some(action_for(old(self).tempo_of(), current))
                    &&& old(self).handled().len() < old(self).order().len()
                    &&& action == Some(
                        schedule_of(old(self).song_view())[old(self).handled().len() as int],
                    )
                    &&& final(self).handled() == old(self).handled().push(current)
                    &&& final(self).tempo_of() == tempo_after(old(self).tempo_of(), current)
                    &&& final(self).phase_of() != Phase::Idle
                    &&& final(self).phase_of() == Phase::Done <==> final(self).handled().len()
                        == old(self).order().len()
                },
                _ => {
                    &&& action is None
                    &&& final(self).phase_of() == old(self).phase_of()
                    &&& final(self).tempo_of() == old(self).tempo_of()
                },
            },
    {
        match self.phase {
            Phase::Iterating { track, event } => {
                let ghost tracks = self.song@.tracks;
                let ghost before = played_before(tracks, track as int, event as int);
                let ghost current = tracks[track as int][event as int];
                let ghost start = initial_tempo(self.song@.ticks_per_beat);
                assert(tracks[track as int] == track_view(self.song.tracks[track as int]));
                let action = step(&mut self.tempo, &self.song.tracks[track][event]);
                let phase = if event + 1 < self.song.tracks[track].len() {
                    Phase::Iterating { track, event: event + 1 }
                } else {
                    Self::seek(&self.song, track + 1)
                };
                proof {
                    lemma_place_in_order(tracks, track as int, event as int);
                    lemma_action_at(start, play_order(tracks), before.len() as int);
                    let after = played_before(tracks, track as int, event as int + 1);
                    assert(after =~= before.push(current));
                    assert(after.drop_last() =~= before);
                    lemma_place_in_order(tracks, track as int, event as int + 1);
                    if event + 1 == tracks[track as int].len() {
                        let more = tracks.take(track as int + 1);
                        assert(more.drop_last() =~= tracks.take(track as int));
                        assert(more.last() == tracks[track as int]);
                        assert(tracks[track as int].take(event as int + 1) =~= tracks[track as int]);
                        assert(play_order(more) == after);
                        match phase {
                            Phase::Iterating { track: next, event: first } => {
                                assert(tracks[next as int].take(0) =~= Seq::<
                                    TimedEventView,
                                >::empty());
                                assert(played_before(tracks, next as int, 0) =~= after);
                                lemma_place_in_order(tracks, next as int, 0);
                            },
                            _ => {},
                        }
                    }
                }
                self.phase = phase;
                Some(action)
            },
            _ => None,
        }
    }
}

} // verus!
