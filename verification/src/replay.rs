//! The replay driver's decisions: what to send for an event and how long to
//! wait after it. The caller performs both and comes back for the next event.

use vstd::prelude::*;
use crate::event::{
    forwarded, track_view, Classified, ForwardableMessage, Song, SongView, TimedEvent,
    TimedEventView,
};
use crate::tempo::{delay_micros, TempoState};

verus! {

/// What to do between one event and the next.
#[derive(Clone, Copy, Debug, PartialEq, Eq, Structural)]
pub enum Wait {
    /// The delta is zero: go on without waiting.
    Immediate,
    /// Block for this many microseconds.
    Micros(u64),
    /// The delta is not zero but the file has no ticks per beat, so no delay
    /// can be computed. Playback of such a file cannot go on.
    Unsupported,
}

/// What handling one event asks of the caller: first the send, then the wait.
#[derive(Clone, Copy, Debug, PartialEq, Eq, Structural)]
pub struct Action {
    pub send: Option<ForwardableMessage>,
    pub wait: Wait,
}

/// The tempo state once `event` has been handled: a tempo event replaces the
/// tempo, any other event leaves the state alone.
pub open spec fn tempo_after(state: TempoState, event: TimedEventView) -> TempoState {
    match event.tempo {
        Some(t) => TempoState { ticks_per_beat: state.ticks_per_beat, microseconds_per_beat: t },
        None => state,
    }
}

/// The wait that a delta asks for under `state`.
pub open spec fn wait_for(state: TempoState, delta_ticks: u32) -> Wait {
    if delta_ticks == 0 {
        Wait::Immediate
    } else if state.ticks_per_beat == 0 {
        Wait::Unsupported
    } else {
        Wait::Micros(delay_micros(state, delta_ticks) as u64)
    }
}

/// The action for `event` met in state `before`. The event's own tempo, if it
/// carries one, already governs its wait.
pub open spec fn action_for(before: TempoState, event: TimedEventView) -> Action {
    Action {
        send: forwarded(event),
        wait: wait_for(tempo_after(before, event), event.delta_ticks),
    }
}

/// The tempo state after all of `events`, handled in order from `start`.
pub open spec fn tempo_through(start: TempoState, events: Seq<TimedEventView>) -> TempoState
    decreases events.len(),
{
    if events.len() == 0 {
        start
    } else {
        tempo_after(tempo_through(start, events.drop_last()), events.last())
    }
}

/// The actions for `events`, one per event and in the same order.
pub open spec fn actions_of(start: TempoState, events: Seq<TimedEventView>) -> Seq<Action>
    decreases events.len(),
{
    if events.len() == 0 {
        Seq::empty()
    } else {
        actions_of(start, events.drop_last()).push(
            action_for(tempo_through(start, events.drop_last()), events.last()),
        )
    }
}

/// The order of play: every event of the first track, then every event of the
/// second, and so on. Tracks are not interleaved by time.
pub open spec fn play_order(tracks: Seq<Seq<TimedEventView>>) -> Seq<TimedEventView>
    decreases tracks.len(),
{
    if tracks.len() == 0 {
        Seq::empty()
    } else {
        play_order(tracks.drop_last()) + tracks.last()
    }
}

/// The state in which playback of a file with this resolution begins.
pub open spec fn initial_tempo(ticks_per_beat: u32) -> TempoState {
    TempoState { ticks_per_beat, microseconds_per_beat: 0 }
}

/// The whole playback of a song: one action per event, in the order of play.
pub open spec fn schedule_of(song: SongView) -> Seq<Action> {
    actions_of(initial_tempo(song.ticks_per_beat), play_order(song.tracks))
}

/// Handles one event: updates the tempo first, then says what to send and how
/// long to wait before the next event.
pub fn step(tempo: &mut TempoState, event: &TimedEvent) -> (action: Action)
    ensures
        *final(tempo) == tempo_after(*old(tempo), event@),
        action == action_for(*old(tempo), event@),
{
    let send = match event.classify() {
        Classified::Tempo(t) => {
            tempo.observe_tempo(t);
            None
        },
        Classified::Forward(message) => Some(message),
        Classified::Ignored => None,
    };
    let wait = if event.delta_ticks == 0 {
        Wait::Immediate
    } else {
        match tempo.checked_delay_for(event.delta_ticks) {
            Some(micros) => Wait::Micros(micros),
            None => Wait::Unsupported,
        }
    };
    Action { send, wait }
}

/// The whole playback of `song` as a list of actions, one per event, in the
/// order of play.
pub fn schedule(song: &Song) -> (actions: Vec<Action>)
    ensures
        actions@ == schedule_of(song@),
{
    let mut tempo = TempoState::new();
    tempo.set_ticks_per_beat(song.ticks_per_beat);
    let ghost start = tempo;
    let ghost tracks = song@.tracks;
    let mut actions: Vec<Action> = Vec::new();
    let mut t: usize = 0;
    while t < song.tracks.len()
        invariant
            t <= song.tracks.len(),
            tracks == song@.tracks,
            start == initial_tempo(song@.ticks_per_beat),
            tempo == tempo_through(start, play_order(tracks.take(t as int))),
            actions@ == actions_of(start, play_order(tracks.take(t as int))),
        decreases song.tracks.len() - t,
    {
        let track = &song.tracks[t];
        let ghost done = play_order(tracks.take(t as int));
        let ghost current = track_view(*track);
        assert(current == tracks[t as int]);
        let mut i: usize = 0;
        assert(done + current.take(0) =~= done);
        while i < track.len()
            invariant
                i <= track.len(),
                current == track_view(*track),
                tempo == tempo_through(start, done + current.take(i as int)),
                actions@ == actions_of(start, done + current.take(i as int)),
            decreases track.len() - i,
        {
            let ghost before = done + current.take(i as int);
            let ghost after = done + current.take(i as int + 1);
            assert(after.drop_last() =~= before);
            assert(after.last() == track[i as int]@);
            let action = step(&mut tempo, &track[i]);
            actions.push(action);
            i = i + 1;
        }
        proof {
            assert(current.take(track.len() as int) =~= current);
            let next = tracks.take(t as int + 1);
            assert(next.drop_last() =~= tracks.take(t as int));
            assert(next.last() == current);
        }
        t = t + 1;
    }
    proof {
        assert(tracks.take(song.tracks.len() as int) =~= tracks);
    }
    actions
}

/// There is exactly one action per event.
pub proof fn lemma_actions_len(start: TempoState, events: Seq<TimedEventView>)
    ensures
        actions_of(start, events).len() == events.len(),
    decreases events.len(),
{
    if events.len() > 0 {
        lemma_actions_len(start, events.drop_last());
    }
}

/// The action at position `i` is the one for event `i`, taken in the tempo
/// state that the events before it leave behind.
pub proof fn lemma_action_at(start: TempoState, events: Seq<TimedEventView>, i: int)
    requires
        0 <= i < events.len(),
    ensures
        actions_of(start, events).len() == events.len(),
        actions_of(start, events)[i] == action_for(
            tempo_through(start, events.take(i)),
            events[i],
        ),
    decreases events.len(),
{
    lemma_actions_len(start, events);
    lemma_actions_len(start, events.drop_last());
    if i == events.len() - 1 {
        assert(events.take(i) =~= events.drop_last());
    } else {
        lemma_action_at(start, events.drop_last(), i);
        assert(events.drop_last().take(i) =~= events.take(i));
    }
}

/// Handling events never changes the resolution.
pub proof fn lemma_resolution_is_fixed(start: TempoState, events: Seq<TimedEventView>)
    ensures
        tempo_through(start, events).ticks_per_beat == start.ticks_per_beat,
    decreases events.len(),
{
    if events.len() > 0 {
        lemma_resolution_is_fixed(start, events.drop_last());
    }
}

/// The tempo in force after the first `upto` events is the one carried by the
/// last tempo event among them.
pub proof fn lemma_tempo_is_latest(
    start: TempoState,
    events: Seq<TimedEventView>,
    last_tempo: int,
    upto: int,
)
    requires
        0 <= last_tempo < upto <= events.len(),
        events[last_tempo].tempo is Some,
        forall|k: int| last_tempo < k < upto ==> (#[trigger] events[k]).tempo is None,
    ensures
        tempo_through(start, events.take(upto)) == (TempoState {
            ticks_per_beat: start.ticks_per_beat,
            microseconds_per_beat: events[last_tempo].tempo->Some_0,
        }),
    decreases upto,
{
    let prefix = events.take(upto);
    assert(prefix.drop_last() =~= events.take(upto - 1));
    assert(prefix.last() == events[upto - 1]);
    lemma_resolution_is_fixed(start, events.take(upto - 1));
    if last_tempo < upto - 1 {
        lemma_tempo_is_latest(start, events, last_tempo, upto - 1);
    }
}

/// As long as no tempo event has been met, the tempo is the one playback
/// started with.
pub proof fn lemma_tempo_unchanged_without_tempo_events(
    start: TempoState,
    events: Seq<TimedEventView>,
    upto: int,
)
    requires
        0 <= upto <= events.len(),
        forall|k: int| 0 <= k < upto ==> (#[trigger] events[k]).tempo is None,
    ensures
        tempo_through(start, events.take(upto)) == start,
    decreases upto,
{
    if upto > 0 {
        let prefix = events.take(upto);
        assert(prefix.drop_last() =~= events.take(upto - 1));
        assert(prefix.last() == events[upto - 1]);
        lemma_tempo_unchanged_without_tempo_events(start, events, upto - 1);
    }
}

/// The wait after an event is computed from the tempo event most recently met
/// at or before it, however many tempo changes came earlier.
pub proof fn lemma_wait_uses_latest_tempo(
    start: TempoState,
    events: Seq<TimedEventView>,
    last_tempo: int,
    i: int,
)
    requires
        0 <= last_tempo <= i < events.len(),
        events[last_tempo].tempo is Some,
        forall|k: int| last_tempo < k <= i ==> (#[trigger] events[k]).tempo is None,
    ensures
        actions_of(start, events)[i].wait == wait_for(
            TempoState {
                ticks_per_beat: start.ticks_per_beat,
                microseconds_per_beat: events[last_tempo].tempo->Some_0,
            },
            events[i].delta_ticks,
        ),
{
    lemma_action_at(start, events, i);
    lemma_tempo_is_latest(start, events, last_tempo, i + 1);
    let prefix = events.take(i + 1);
    assert(prefix.drop_last() =~= events.take(i));
    assert(prefix.last() == events[i]);
}

/// Before the first tempo event the wait is computed from the starting tempo.
pub proof fn lemma_wait_before_any_tempo(start: TempoState, events: Seq<TimedEventView>, i: int)
    requires
        0 <= i < events.len(),
        forall|k: int| 0 <= k <= i ==> (#[trigger] events[k]).tempo is None,
    ensures
        actions_of(start, events)[i].wait == wait_for(start, events[i].delta_ticks),
{
    lemma_action_at(start, events, i);
    lemma_tempo_unchanged_without_tempo_events(start, events, i);
}

/// An event is followed by no wait exactly when its delta is zero.
pub proof fn lemma_zero_delta_never_waits(start: TempoState, events: Seq<TimedEventView>, i: int)
    requires
        0 <= i < events.len(),
    ensures
        events[i].delta_ticks == 0 <==> actions_of(start, events)[i].wait == Wait::Immediate,
{
    lemma_action_at(start, events, i);
}

/// What is sent for an event depends on that event alone: on no earlier
/// event, on no tempo, and on nothing that happened to an earlier send. So
/// every forwardable event is offered to the transport, whatever became of
/// the others, and nothing else is.
pub proof fn lemma_every_event_is_attempted(
    start: TempoState,
    events: Seq<TimedEventView>,
    i: int,
)
    requires
        0 <= i < events.len(),
    ensures
        actions_of(start, events).len() == events.len(),
        actions_of(start, events)[i].send == forwarded(events[i]),
{
    lemma_action_at(start, events, i);
}

/// Playing `first` and then `second` gives the actions of `first` followed by
/// those of `second`, the latter starting from the tempo that `first` left.
pub proof fn lemma_actions_in_sequence(
    start: TempoState,
    first: Seq<TimedEventView>,
    second: Seq<TimedEventView>,
)
    ensures
        tempo_through(start, first + second) == tempo_through(
            tempo_through(start, first),
            second,
        ),
        actions_of(start, first + second) == actions_of(start, first) + actions_of(
            tempo_through(start, first),
            second,
        ),
    decreases second.len(),
{
    let middle = tempo_through(start, first);
    if second.len() == 0 {
        assert(first + second =~= first);
        assert(actions_of(start, first) + actions_of(middle, second) =~= actions_of(start, first));
    } else {
        let whole = first + second;
        assert(whole.drop_last() =~= first + second.drop_last());
        assert(whole.last() == second.last());
        lemma_actions_in_sequence(start, first, second.drop_last());
        assert(actions_of(start, whole) =~= actions_of(start, first) + actions_of(middle, second));
    }
}

/// A track is played only once every track before it has been played to its
/// end: adding a track to a file leaves the actions for the earlier tracks as
/// they were and appends those of the new one.
pub proof fn lemma_tracks_play_one_after_another(
    ticks_per_beat: u32,
    tracks: Seq<Seq<TimedEventView>>,
    track: Seq<TimedEventView>,
)
    ensures
        play_order(tracks.push(track)) == play_order(tracks) + track,
        actions_of(initial_tempo(ticks_per_beat), play_order(tracks.push(track))) == actions_of(
            initial_tempo(ticks_per_beat),
            play_order(tracks),
        ) + actions_of(
            tempo_through(initial_tempo(ticks_per_beat), play_order(tracks)),
            track,
        ),
{
    let more = tracks.push(track);
    assert(more.drop_last() =~= tracks);
    assert(more.last() == track);
    lemma_actions_in_sequence(initial_tempo(ticks_per_beat), play_order(tracks), track);
}

/// The schedule is determined by the file: two songs with the same resolution
/// and the same events at the same places have the same schedule, action for
/// action.
pub proof fn lemma_schedule_is_determined(first: SongView, second: SongView)
    requires
        first.ticks_per_beat == second.ticks_per_beat,
        first.tracks.len() == second.tracks.len(),
        forall|t: int|
            0 <= t < first.tracks.len() ==> (#[trigger] first.tracks[t]).len()
                == second.tracks[t].len(),
        forall|t: int, i: int|
            0 <= t < first.tracks.len() && 0 <= i < first.tracks[t].len() ==> {
                let a = #[trigger] first.tracks[t][i];
                let b = second.tracks[t][i];
                &&& a.delta_ticks == b.delta_ticks
                &&& a.tempo == b.tempo
                &&& a.channel == b.channel
                &&& a.encoded.is_some() == b.encoded.is_some()
                &&& a.encoded is Some ==> a.encoded->Some_0 =~= b.encoded->Some_0
            },
    ensures
        schedule_of(first) == schedule_of(second),
{
    assert forall|t: int| 0 <= t < first.tracks.len() implies first.tracks[t]
        == second.tracks[t] by {
        assert forall|i: int| 0 <= i < first.tracks[t].len() implies first.tracks[t][i]
            == second.tracks[t][i] by {
            let a = first.tracks[t][i];
            let b = second.tracks[t][i];
            if a.encoded is Some {
                assert(a.encoded->Some_0 == b.encoded->Some_0);
            }
        }
        assert(first.tracks[t] =~= second.tracks[t]);
    }
    assert(first.tracks =~= second.tracks);
}

} // verus!
