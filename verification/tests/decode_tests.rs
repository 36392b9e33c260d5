use midi_osc_replay::decode::load;
use midi_osc_replay::event::{ForwardableMessage, TimedEvent};
use midi_osc_replay::osc::encode_message;
use midi_osc_replay::replay::{schedule, Action, Wait};

fn header(format: u16, tracks: u16, division: u16) -> Vec<u8> {
    let mut bytes = b"MThd".to_vec();
    bytes.extend_from_slice(&[0, 0, 0, 6]);
    bytes.extend_from_slice(&format.to_be_bytes());
    bytes.extend_from_slice(&tracks.to_be_bytes());
    bytes.extend_from_slice(&division.to_be_bytes());
    bytes
}

fn track(body: &[u8]) -> Vec<u8> {
    let mut bytes = b"MTrk".to_vec();
    bytes.extend_from_slice(&u32::try_from(body.len()).unwrap().to_be_bytes());
    bytes.extend_from_slice(body);
    bytes
}

fn file(format: u16, division: u16, tracks: &[&[u8]]) -> Vec<u8> {
    let mut bytes = header(format, u16::try_from(tracks.len()).unwrap(), division);
    for body in tracks {
        bytes.extend(track(body));
    }
    bytes
}

fn plain(event: &TimedEvent) -> (u32, Option<u32>, Option<u8>, Option<Vec<u8>>) {
    (event.delta_ticks, event.tempo, event.channel, event.encoded.clone())
}

#[test]
fn load_rejects_bytes_that_are_no_midi_file() {
    let failure = load(b"definitely not a midi file").unwrap_err();
    assert!(!failure.message.is_empty());
    assert!(load(&[]).is_err());
}

#[test]
fn load_reads_resolution_and_events() {
    let bytes = file(
        0,
        480,
        &[&[
            0x00, 0xff, 0x51, 0x03, 0x07, 0xa1, 0x20, // tempo 500000
            0x81, 0x70, 0x90, 0x3c, 0x40, // delta 240, note on
            0x00, 0xff, 0x2f, 0x00, // end of track
        ]],
    );
    let song = load(&bytes).unwrap();
    assert_eq!(song.ticks_per_beat, 480);
    assert_eq!(song.tracks.len(), 1);
    let events: Vec<_> = song.tracks[0].iter().map(plain).collect();
    assert_eq!(
        events,
        vec![
            (0, Some(500_000), None, None),
            (240, None, Some(0), Some(vec![0x90, 0x3c, 0x40])),
            (0, None, None, None),
        ]
    );
}

#[test]
fn loaded_tempo_then_note_waits_249840_micros() {
    let bytes = file(
        0,
        480,
        &[&[
            0x00, 0xff, 0x51, 0x03, 0x07, 0xa1, 0x20,
            0x81, 0x70, 0x90, 0x3c, 0x40,
            0x00, 0xff, 0x2f, 0x00,
        ]],
    );
    let song = load(&bytes).unwrap();
    assert_eq!(
        schedule(&song),
        vec![
            Action { send: None, wait: Wait::Immediate },
            Action {
                send: Some(ForwardableMessage { channel: 0, status: 0x90, data1: 0x3c, data2: 0x40 }),
                wait: Wait::Micros(249_840),
            },
            Action { send: None, wait: Wait::Immediate },
        ]
    );
}

#[test]
fn loaded_program_change_is_not_forwarded_but_timed() {
    let bytes = file(
        0,
        480,
        &[&[
            0x00, 0xff, 0x51, 0x03, 0x07, 0x53, 0x00, // tempo 480000
            0x00, 0x93, 0x3c, 0x64, // note on, channel 3
            0x78, 0xc3, 0x05, // delta 120, program change
            0x81, 0x70, 0x83, 0x3c, 0x00, // delta 240, note off
            0x00, 0xff, 0x2f, 0x00,
        ]],
    );
    let song = load(&bytes).unwrap();
    let events: Vec<_> = song.tracks[0].iter().map(plain).collect();
    assert_eq!(events[2], (120, None, Some(3), Some(vec![0xc3, 0x05])));
    assert_eq!(
        schedule(&song),
        vec![
            Action { send: None, wait: Wait::Immediate },
            Action {
                send: Some(ForwardableMessage { channel: 3, status: 0x93, data1: 0x3c, data2: 0x64 }),
                wait: Wait::Immediate,
            },
            Action { send: None, wait: Wait::Micros(120_000) },
            Action {
                send: Some(ForwardableMessage { channel: 3, status: 0x83, data1: 0x3c, data2: 0x00 }),
                wait: Wait::Micros(240_000),
            },
            Action { send: None, wait: Wait::Immediate },
        ]
    );
}

#[test]
fn loaded_timecode_file_has_no_resolution() {
    // 0xe728: 25 frames per second, 40 subframes
    let bytes = file(0, 0xe728, &[&[0x00, 0x90, 0x3c, 0x40, 0x0a, 0x80, 0x3c, 0x00, 0x00, 0xff, 0x2f, 0x00]]);
    let song = load(&bytes).unwrap();
    assert_eq!(song.ticks_per_beat, 0);
    let waits: Vec<Wait> = schedule(&song).iter().map(|a| a.wait).collect();
    assert_eq!(waits, vec![Wait::Immediate, Wait::Unsupported, Wait::Immediate]);
}

#[test]
fn loaded_short_sysex_is_forwarded_on_channel_zero() {
    let bytes = file(
        0,
        96,
        &[&[
            0x00, 0xf0, 0x02, 0x01, 0xf7, // sysex with one data byte
            0x00, 0xf0, 0x03, 0x01, 0x02, 0xf7, // sysex with two data bytes
            0x00, 0xff, 0x2f, 0x00,
        ]],
    );
    let song = load(&bytes).unwrap();
    let events: Vec<_> = song.tracks[0].iter().map(plain).collect();
    assert_eq!(events[0], (0, None, None, Some(vec![0xf0, 0x01, 0xf7])));
    assert_eq!(events[1], (0, None, None, Some(vec![0xf0, 0x01, 0x02, 0xf7])));
    let sent: Vec<Option<ForwardableMessage>> = schedule(&song).iter().map(|a| a.send).collect();
    assert_eq!(
        sent,
        vec![Some(ForwardableMessage { channel: 0, status: 0xf0, data1: 0x01, data2: 0xf7 }), None, None]
    );
}

#[test]
fn loaded_tracks_keep_file_order() {
    let bytes = file(
        1,
        96,
        &[
            &[0x00, 0x91, 0x01, 0x01, 0x00, 0xff, 0x2f, 0x00],
            &[0x00, 0x92, 0x02, 0x02, 0x05, 0x82, 0x02, 0x00, 0x00, 0xff, 0x2f, 0x00],
        ],
    );
    let song = load(&bytes).unwrap();
    assert_eq!(song.tracks.len(), 2);
    let sent: Vec<ForwardableMessage> = schedule(&song).iter().filter_map(|a| a.send).collect();
    assert_eq!(
        sent,
        vec![
            ForwardableMessage { channel: 1, status: 0x91, data1: 1, data2: 1 },
            ForwardableMessage { channel: 2, status: 0x92, data1: 2, data2: 2 },
            ForwardableMessage { channel: 2, status: 0x82, data1: 2, data2: 0 },
        ]
    );
    let again = load(&bytes).unwrap();
    assert_eq!(schedule(&again), schedule(&song));
}

#[test]
fn encode_message_gives_the_osc_datagram() {
    let message = ForwardableMessage { channel: 5, status: 0x95, data1: 0x3c, data2: 0x40 };
    assert_eq!(
        encode_message(&message),
        vec![b'/', b'm', b'i', b'd', b'i', 0, 0, 0, b',', b'm', 0, 0, 5, 0x95, 0x3c, 0x40]
    );
}

#[test]
fn encode_message_decodes_back_with_rosc() {
    let message = ForwardableMessage { channel: 15, status: 0x8f, data1: 1, data2: 2 };
    let bytes = encode_message(&message);
    let (rest, packet) = rosc::decoder::decode_udp(&bytes).unwrap();
    assert!(rest.is_empty());
    let expected = rosc::OscPacket::Message(rosc::OscMessage {
        addr: "/midi".to_string(),
        args: vec![rosc::OscType::Midi(rosc::OscMidiMessage { port: 15, status: 0x8f, data1: 1, data2: 2 })],
    });
    assert_eq!(packet, expected);
}
