//! The OSC datagram that carries one forwarded message.

use vstd::prelude::*;
use vstd::string::StringSliceAdditionalSpecFns;
use vstd::string::is_ascii_spec_bytes;
use crate::event::ForwardableMessage;

verus! {

/// An OSC string: the bytes, then one to four NUL bytes, so that the whole is
/// a multiple of four bytes long.
pub open spec fn osc_string(bytes: Seq<u8>) -> Seq<u8> {
    bytes + Seq::new((4 - bytes.len() % 4) as nat, |i: int| 0u8)
}

/// An OSC message with the given address pattern and a single argument of
/// type MIDI: the address, the type tags `,m`, and the four bytes of the
/// argument.
pub open spec fn osc_midi_message(
    address: Seq<u8>,
    port: u8,
    status: u8,
    data1: u8,
    data2: u8,
) -> Seq<u8> {
    osc_string(address) + osc_string(seq![0x2cu8, 0x6du8]) + seq![port, status, data1, data2]
}

/// The datagram for `message`: address pattern `/midi`, type tags `,m`, and
/// the channel as the argument's port.
pub open spec fn midi_packet(message: ForwardableMessage) -> Seq<u8> {
    seq![
        0x2fu8, 0x6du8, 0x69u8, 0x64u8, 0x69u8, 0u8, 0u8, 0u8,
        0x2cu8, 0x6du8, 0u8, 0u8,
        message.channel, message.status, message.data1, message.data2,
    ]
}

/// Calls `rosc::encoder::encode` on a packet that is one `OscMessage` with the
/// given address and one `OscType::Midi` argument. Encoding into a vector
/// cannot fail. The encoder writes the address as an OSC string, then the
/// type tags `,m` padded the same way, then port, status and the two data
/// bytes.
#[verifier::external_body]
fn encode_midi(address: &str, port: u8, status: u8, data1: u8, data2: u8) -> (encoded: Option<Vec<u8>>)
    ensures
        encoded is Some,
        encoded matches Some(bytes) ==> bytes@ == osc_midi_message(address.spec_bytes(), port, status, data1, data2),
{
    let argument = rosc::OscType::Midi(rosc::OscMidiMessage { port, status, data1, data2 });
    let message = rosc::OscMessage { addr: address.to_string(), args: vec![argument] };
    rosc::encoder::encode(&rosc::OscPacket::Message(message)).ok()
}

/// Encodes `message` as the datagram to send.
pub fn encode_message(message: &ForwardableMessage) -> (packet: Vec<u8>)
    ensures
        packet@ == midi_packet(*message),
{
    let encoded = encode_midi(
        "/midi",
        message.channel,
        message.status,
        message.data1,
        message.data2,
    );
    proof {
        reveal_strlit("/midi");
        is_ascii_spec_bytes("/midi");
        let address = "/midi".spec_bytes();
        assert(address =~= seq![0x2fu8, 0x6du8, 0x69u8, 0x64u8, 0x69u8]);
        assert(osc_midi_message(
            address,
            message.channel,
            message.status,
            message.data1,
            message.data2,
        ) =~= midi_packet(*message));
    }
    encoded.unwrap()
}

} // verus!
