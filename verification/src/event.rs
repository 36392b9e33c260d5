//! Track events as the player sees them, and the filter that decides which of
//! them become messages.

use vstd::prelude::*;

verus! {

/// One event of a track, reduced to what playback reads.
#[derive(Clone, Debug)]
pub struct TimedEvent {
    /// Ticks to wait once this event has been handled.
    pub delta_ticks: u32,
    /// The tempo in microseconds per beat, if this is a tempo meta-event.
    pub tempo: Option<u32>,
    /// The channel, if this is a channel voice message.
    pub channel: Option<u8>,
    /// The raw bytes of the event's live form, if it has one.
    pub encoded: Option<Vec<u8>>,
}

/// The mathematical value of a [`TimedEvent`].
pub struct TimedEventView {
    pub delta_ticks: u32,
    pub tempo: Option<u32>,
    pub channel: Option<u8>,
    pub encoded: Option<Seq<u8>>,
}

impl View for TimedEvent {
    type V = TimedEventView;

    open spec fn view(&self) -> TimedEventView {
        TimedEventView {
            delta_ticks: self.delta_ticks,
            tempo: self.tempo,
            channel: self.channel,
            encoded: match self.encoded {
                Some(bytes) => Some(bytes@),
                None => None,
            },
        }
    }
}

/// The events of one track as mathematical values, in file order.
pub open spec fn track_view(track: Vec<TimedEvent>) -> Seq<TimedEventView> {
    Seq::new(track.len() as nat, |i: int| track[i]@)
}

/// A decoded file: its resolution and its tracks, each in file order.
#[derive(Clone, Debug)]
pub struct Song {
    /// Ticks per beat; zero when the header does not use metrical timing.
    pub ticks_per_beat: u32,
    pub tracks: Vec<Vec<TimedEvent>>,
}

/// The mathematical value of a [`Song`].
pub struct SongView {
    pub ticks_per_beat: u32,
    pub tracks: Seq<Seq<TimedEventView>>,
}

impl View for Song {
    type V = SongView;

    open spec fn view(&self) -> SongView {
        SongView {
            ticks_per_beat: self.ticks_per_beat,
            tracks: Seq::new(self.tracks.len() as nat, |t: int| track_view(self.tracks[t])),
        }
    }
}

/// A short message ready for the transport.
#[derive(Clone, Copy, Debug, PartialEq, Eq, Structural)]
pub struct ForwardableMessage {
    pub channel: u8,
    pub status: u8,
    pub data1: u8,
    pub data2: u8,
}

/// What the filter makes of an event.
#[derive(Clone, Copy, Debug, PartialEq, Eq, Structural)]
pub enum Classified {
    /// A tempo change, for the tempo tracker.
    Tempo(u32),
    /// A message to send.
    Forward(ForwardableMessage),
    /// Nothing to send; the event still counts for timing.
    Ignored,
}

/// The message that a live form of exactly three bytes stands for. An event
/// without a channel reports channel 0.
pub open spec fn message_of(channel: Option<u8>, bytes: Seq<u8>) -> ForwardableMessage
    recommends
        bytes.len() == 3,
{
    ForwardableMessage {
        channel: match channel {
            Some(c) => c,
            None => 0,
        },
        status: bytes[0],
        data1: bytes[1],
        data2: bytes[2],
    }
}

/// The filter's rule: a tempo event is none of the others; otherwise only a
/// live form of exactly three bytes is forwarded.
pub open spec fn classification(event: TimedEventView) -> Classified {
    match event.tempo {
        Some(t) => Classified::Tempo(t),
        None => match event.encoded {
            Some(bytes) => if bytes.len() == 3 {
                Classified::Forward(message_of(event.channel, bytes))
            } else {
                Classified::Ignored
            },
            None => Classified::Ignored,
        },
    }
}

/// The message that handling `event` sends, if any.
pub open spec fn forwarded(event: TimedEventView) -> Option<ForwardableMessage> {
    match classification(event) {
        Classified::Forward(message) => Some(message),
        _ => None,
    }
}

impl ForwardableMessage {
    /// Channels are numbered 0 to 15.
    pub open spec fn wf(self) -> bool {
        self.channel <= 15
    }
}

impl Song {
    /// Every event of every track is well formed.
    pub open spec fn wf(self) -> bool {
        forall|t: int, i: int|
            0 <= t < self.tracks.len() && 0 <= i < self.tracks[t].len()
                ==> (#[trigger] self.tracks[t][i]).wf()
    }
}

impl TimedEvent {
    /// A channel, where there is one, is numbered 0 to 15.
    pub open spec fn wf(self) -> bool {
        match self.channel {
            Some(c) => c <= 15,
            None => true,
        }
    }

    /// Sorts the event into tempo change, message to send, or neither.
    pub fn classify(&self) -> (class: Classified)
        ensures
            class == classification(self@),
            self.wf() ==> (class matches Classified::Forward(message) ==> message.wf()),
    {
        match self.tempo {
            Some(t) => Classified::Tempo(t),
            None => match &self.encoded {
                Some(bytes) => {
                    if bytes.len() == 3 {
                        let channel: u8 = match self.channel {
                            Some(c) => c,
                            None => 0,
                        };
                        Classified::Forward(
                            ForwardableMessage {
                                channel,
                                status: bytes[0],
                                data1: bytes[1],
                                data2: bytes[2],
                            },
                        )
                    } else {
                        Classified::Ignored
                    }
                },
                None => Classified::Ignored,
            },
        }
    }
}

/// Only a live form of exactly three bytes is ever forwarded, and the message
/// sent is made of those three bytes in order.
pub proof fn lemma_forwarded_is_three_bytes(event: TimedEventView)
    ensures
        forwarded(event) matches Some(message) ==> {
            &&& event.tempo is None
            &&& event.encoded matches Some(bytes)
            &&& bytes.len() == 3
            &&& bytes == seq![message.status, message.data1, message.data2]
        },
        (event.encoded matches Some(bytes) && bytes.len() != 3) ==> forwarded(event) is None,
        event.encoded is None ==> forwarded(event) is None,
{
    if let Some(message) = forwarded(event) {
        let bytes = event.encoded.unwrap();
        assert(bytes =~= seq![message.status, message.data1, message.data2]);
    }
}

} // verus!
