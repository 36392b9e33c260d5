//! Decoding a Standard MIDI File into a [`Song`].
//!
//! The byte-level parsing is `midly`'s. What this module adds is the
//! conversion of a parsed file into plain values, event by event.

use vstd::prelude::*;
use crate::event::{Song, SongView, TimedEvent, TimedEventView, track_view};

verus! {

#[verifier::external_type_specification]
#[verifier::external_body]
pub struct ExSmfBytemap<'a>(midly::SmfBytemap<'a>);

#[verifier::external_type_specification]
#[verifier::external_body]
pub struct ExMidlyError(midly::Error);

/// The tracks that a parsed file holds, each event reduced to what playback
/// reads of it: its delta, the tempo if it is a tempo meta-event, the channel
/// if it is a channel voice message, and the bytes that `midly` writes for
/// its live form if it has one.
pub uninterp spec fn smf_tracks(file: midly::SmfBytemap<'_>) -> Seq<Seq<TimedEventView>>;

/// The ticks per beat in a parsed file's header, if its timing is metrical.
pub uninterp spec fn smf_resolution(file: midly::SmfBytemap<'_>) -> Option<u16>;

/// What `midly` makes of a file's bytes: `None` where it rejects them.
pub uninterp spec fn smf_decoding(data: Seq<u8>) -> Option<SongView>;

/// The resolution as the tempo tracker holds it: zero stands for a header
/// without metrical timing.
pub open spec fn ticks_per_beat_of(resolution: Option<u16>) -> u32 {
    match resolution {
        Some(ticks) => ticks as u32,
        None => 0,
    }
}

/// A parsed file as a plain value.
pub open spec fn smf_contents(file: midly::SmfBytemap<'_>) -> SongView {
    SongView { ticks_per_beat: ticks_per_beat_of(smf_resolution(file)), tracks: smf_tracks(file) }
}

/// Why a file could not be decoded.
#[derive(Clone, Debug)]
pub struct DecodeError {
    /// The decoder's own description of the fault.
    pub message: String,
}

/// Calls `midly::SmfBytemap::parse`. The result depends on the bytes alone:
/// it is an error exactly where the decoding of the bytes is `None`, and
/// otherwise a file whose contents are that decoding.
#[verifier::external_body]
fn parse_smf<'a>(data: &'a [u8]) -> (parsed: Result<midly::SmfBytemap<'a>, midly::Error>)
    ensures
        match parsed {
            Ok(file) => smf_decoding(data@) == Some(smf_contents(file)),
            Err(_) => smf_decoding(data@) is None,
        },
{
    midly::SmfBytemap::parse(data)
}

/// Formats a `midly::Error` through its `Display` impl. Nothing is claimed of
/// the text.
#[verifier::external_body]
fn error_text(error: &midly::Error) -> (text: String) {
    format!("{}", error)
}

/// Reads `header.timing` of the file: the ticks per beat of
/// `Timing::Metrical`, `None` for `Timing::Timecode`.
#[verifier::external_body]
fn resolution(file: &midly::SmfBytemap<'_>) -> (ticks: Option<u16>)
    ensures
        ticks == smf_resolution(*file),
{
    match file.header.timing {
        midly::Timing::Metrical(ticks) => Some(ticks.as_int()),
        midly::Timing::Timecode(_, _) => None,
    }
}

/// The length of the file's `tracks` vector.
#[verifier::external_body]
fn track_count(file: &midly::SmfBytemap<'_>) -> (count: usize)
    ensures
        count == smf_tracks(*file).len(),
{
    file.tracks.len()
}

/// The length of one track of the file.
#[verifier::external_body]
fn track_len(file: &midly::SmfBytemap<'_>, track: usize) -> (count: usize)
    requires
        track < smf_tracks(*file).len(),
    ensures
        count == smf_tracks(*file)[track as int].len(),
{
    file.tracks[track].len()
}

/// Reads the `delta` field of one event, through `u28::as_int`.
#[verifier::external_body]
fn event_delta(file: &midly::SmfBytemap<'_>, track: usize, index: usize) -> (delta: u32)
    requires
        track < smf_tracks(*file).len(),
        index < smf_tracks(*file)[track as int].len(),
    ensures
        delta == smf_tracks(*file)[track as int][index as int].delta_ticks,
{
    file.tracks[track][index].1.delta.as_int()
}

/// Tells `TrackEventKind::Meta(MetaMessage::Tempo(..))` from every other
/// kind of event and reads its value through `u24::as_int`.
#[verifier::external_body]
fn event_tempo(file: &midly::SmfBytemap<'_>, track: usize, index: usize) -> (tempo: Option<u32>)
    requires
        track < smf_tracks(*file).len(),
        index < smf_tracks(*file)[track as int].len(),
    ensures
        tempo == smf_tracks(*file)[track as int][index as int].tempo,
{
    match file.tracks[track][index].1.kind {
        midly::TrackEventKind::Meta(midly::MetaMessage::Tempo(micros)) => Some(micros.as_int()),
        _ => None,
    }
}

/// Tells `TrackEventKind::Midi` from every other kind of event and reads its
/// channel through `u4::as_int`, which keeps it below 16. These are the
/// events whose live form is a channel voice message.
#[verifier::external_body]
fn event_channel(file: &midly::SmfBytemap<'_>, track: usize, index: usize) -> (channel: Option<u8>)
    requires
        track < smf_tracks(*file).len(),
        index < smf_tracks(*file)[track as int].len(),
    ensures
        channel == smf_tracks(*file)[track as int][index as int].channel,
        channel matches Some(c) ==> c <= 15,
{
    match file.tracks[track][index].1.kind {
        midly::TrackEventKind::Midi { channel, .. } => Some(channel.as_int()),
        _ => None,
    }
}

/// Calls `TrackEventKind::as_live_event` and, where that gives a live event,
/// `LiveEvent::write` into an empty vector. The bytes written are the event's
/// encoding; an event without a live form has none.
#[verifier::external_body]
fn event_encoding(file: &midly::SmfBytemap<'_>, track: usize, index: usize) -> (encoded: Option<Vec<u8>>)
    requires
        track < smf_tracks(*file).len(),
        index < smf_tracks(*file)[track as int].len(),
    ensures
        match encoded {
            Some(bytes) => smf_tracks(*file)[track as int][index as int].encoded == Some(bytes@),
            None => smf_tracks(*file)[track as int][index as int].encoded is None,
        },
{
    let mut bytes = Vec::new();
    match file.tracks[track][index].1.kind.as_live_event() {
        Some(live) => match live.write(&mut bytes) {
            Ok(()) => Some(bytes),
            Err(_) => None,
        },
        None => None,
    }
}

/// Converts one event of a parsed file.
fn read_event(file: &midly::SmfBytemap<'_>, track: usize, index: usize) -> (event: TimedEvent)
    requires
        track < smf_tracks(*file).len(),
        index < smf_tracks(*file)[track as int].len(),
    ensures
        event@ == smf_tracks(*file)[track as int][index as int],
        event.wf(),
{
    TimedEvent {
        delta_ticks: event_delta(file, track, index),
        tempo: event_tempo(file, track, index),
        channel: event_channel(file, track, index),
        encoded: event_encoding(file, track, index),
    }
}

/// Converts one track of a parsed file, keeping the order of its events.
fn read_track(file: &midly::SmfBytemap<'_>, track: usize) -> (events: Vec<TimedEvent>)
    requires
        track < smf_tracks(*file).len(),
    ensures
        track_view(events) == smf_tracks(*file)[track as int],
        forall|i: int| 0 <= i < events.len() ==> (#[trigger] events[i]).wf(),
{
    let count = track_len(file, track);
    let mut events: Vec<TimedEvent> = Vec::new();
    let mut index: usize = 0;
    while index < count
        invariant
            track < smf_tracks(*file).len(),
            count == smf_tracks(*file)[track as int].len(),
            index <= count,
            events.len() == index,
            forall|i: int| 0 <= i < index ==> (#[trigger] events[i])@ == smf_tracks(*file)[track as int][i],
            forall|i: int| 0 <= i < index ==> (#[trigger] events[i]).wf(),
        decreases count - index,
    {
        let event = read_event(file, track, index);
        events.push(event);
        index = index + 1;
    }
    assert(track_view(events) =~= smf_tracks(*file)[track as int]);
    events
}

/// Converts a parsed file into a [`Song`].
fn read_song(file: &midly::SmfBytemap<'_>) -> (song: Song)
    ensures
        song@ == smf_contents(*file),
        song.wf(),
{
    let ticks_per_beat: u32 = match resolution(file) {
        Some(ticks) => ticks as u32,
        None => 0,
    };
    let count = track_count(file);
    let mut tracks: Vec<Vec<TimedEvent>> = Vec::new();
    let mut track: usize = 0;
    while track < count
        invariant
            count == smf_tracks(*file).len(),
            track <= count,
            tracks.len() == track,
            forall|t: int| 0 <= t < track ==> track_view(#[trigger] tracks[t]) == smf_tracks(*file)[t],
            forall|t: int, i: int| 0 <= t < track && 0 <= i < tracks[t].len() ==> (#[trigger] tracks[t][i]).wf(),
        decreases count - track,
    {
        let events = read_track(file, track);
        tracks.push(events);
        track = track + 1;
    }
    let song = Song { ticks_per_beat, tracks };
    assert(song@.tracks =~= smf_tracks(*file));
    song
}

/// Decodes the bytes of a Standard MIDI File.
///
/// Succeeds exactly on the bytes that the decoder accepts, and then returns
/// the file's resolution and its tracks in file order.
pub fn load(data: &[u8]) -> (loaded: Result<Song, DecodeError>)
    ensures
        match loaded {
            Ok(song) => smf_decoding(data@) == Some(song@) && song.wf(),
            Err(_) => smf_decoding(data@) is None,
        },
{
    match parse_smf(data) {
        Ok(file) => Ok(read_song(&file)),
        Err(error) => Err(DecodeError { message: error_text(&error) }),
    }
}

} // verus!
