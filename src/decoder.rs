//! Decoding of one raw MIDI frame into an event, or into the reason it failed.
use crate::event::{ChannelMessage, DecodeFailure, DecodeOutcome, MidiEvent};
use nom_midi::MidiEventType::{
    ChannelPressure, Controller, NoteOff, NoteOn, PitchBend, PolyphonicPressure, ProgramChange,
};
use vstd::prelude::*;

verus! {

/// The status bytes of channel voice messages: `0x80` up to `0xEF`.
pub open spec fn is_channel_status(status: u8) -> bool {
    0x80 <= status < 0xF0
}

/// How many data bytes follow a channel voice status byte.
pub open spec fn data_count(status: u8) -> nat {
    let kind = status / 16;
    if kind == 0xC || kind == 0xD {
        1
    } else {
        2
    }
}

/// The frame holds every data byte that its status byte asks for, and each of them fits in
/// seven bits.
pub open spec fn data_complete(b: Seq<u8>) -> bool {
    &&& b.len() >= 1 + data_count(b[0])
    &&& forall|i: int| 1 <= i <= data_count(b[0]) ==> #[trigger] b[i] < 128
}

/// The message that the status byte `b[0]` and the data bytes after it spell.
pub open spec fn message_of(b: Seq<u8>) -> ChannelMessage {
    let kind = b[0] / 16;
    if kind == 0x8 {
        ChannelMessage::NoteOff { note: b[1], velocity: b[2] }
    } else if kind == 0x9 {
        ChannelMessage::NoteOn { note: b[1], velocity: b[2] }
    } else if kind == 0xA {
        ChannelMessage::PolyphonicPressure { note: b[1], pressure: b[2] }
    } else if kind == 0xB {
        ChannelMessage::ControlChange { controller: b[1], value: b[2] }
    } else if kind == 0xC {
        ChannelMessage::ProgramChange { program: b[1] }
    } else if kind == 0xD {
        ChannelMessage::ChannelPressure { pressure: b[1] }
    } else {
        ChannelMessage::PitchBend { lsb: b[1], msb: b[2] }
    }
}

/// The event that a well-formed frame starting with a channel voice status byte encodes.
pub open spec fn event_of(b: Seq<u8>) -> MidiEvent {
    MidiEvent { channel: b[0] % 16, message: message_of(b) }
}

/// What decoding the frame `b` gives.
pub open spec fn spec_decode(b: Seq<u8>) -> DecodeOutcome {
    if b.len() == 0 {
        DecodeOutcome::Failed(DecodeFailure::EmptyFrame)
    } else if b[0] < 0x80 {
        DecodeOutcome::Failed(DecodeFailure::UnexpectedDataByte)
    } else if b[0] >= 0xF0 {
        DecodeOutcome::Failed(DecodeFailure::UnsupportedStatus)
    } else if !data_complete(b) {
        DecodeOutcome::Failed(DecodeFailure::Truncated)
    } else {
        DecodeOutcome::Decoded(event_of(b), (1 + data_count(b[0])) as usize)
    }
}

/// Relies on `nom_midi::parser::parse_midi_event`: it reads a channel voice status byte
/// (high nibble `0x8` to `0xE`), then one data byte for `0xC` and `0xD` and two for the others,
/// each through `be_u7`, which fails on a missing byte or one above 127; the channel is the low
/// nibble. On success it gives the event and the number of bytes left after it.
#[verifier::external_body]
fn parse_midi_event(b: &[u8]) -> (r: Option<(MidiEvent, usize)>)
    ensures
        r == (if b@.len() > 0 && is_channel_status(b@[0]) && data_complete(b@) {
            Some((event_of(b@), (b@.len() - 1 - data_count(b@[0])) as usize))
        } else {
            None
        }),
{
    let (rest, e) = nom_midi::parser::parse_midi_event(b).ok()?;
    let message = match e.event {
        NoteOff(n, v) => ChannelMessage::NoteOff { note: n.into(), velocity: v },
        NoteOn(n, v) => ChannelMessage::NoteOn { note: n.into(), velocity: v },
        PolyphonicPressure(n, p) => ChannelMessage::PolyphonicPressure { note: n.into(), pressure: p },
        Controller(c, v) => ChannelMessage::ControlChange { controller: c, value: v },
        ProgramChange(p) => ChannelMessage::ProgramChange { program: p },
        ChannelPressure(p) => ChannelMessage::ChannelPressure { pressure: p },
        PitchBend(l, m) => ChannelMessage::PitchBend { lsb: l, msb: m },
    };
    Some((MidiEvent { channel: e.channel, message }, rest.len()))
}

/// Decodes one raw MIDI frame. It keeps no state between calls and reads no byte past the end
/// of `b`; a malformed frame gives the reason it could not be decoded.
pub fn decode(b: &[u8]) -> (r: DecodeOutcome)
    ensures
        r == spec_decode(b@),
{
    if b.len() == 0 {
        return DecodeOutcome::Failed(DecodeFailure::EmptyFrame);
    }
    let status = b[0];
    if status < 0x80 {
        return DecodeOutcome::Failed(DecodeFailure::UnexpectedDataByte);
    }
    if status >= 0xF0 {
        return DecodeOutcome::Failed(DecodeFailure::UnsupportedStatus);
    }
    match parse_midi_event(b) {
        Some((event, rest)) => DecodeOutcome::Decoded(event, b.len() - rest),
        None => DecodeOutcome::Failed(DecodeFailure::Truncated),
    }
}

/// A frame with no byte at all is never decoded: it fails as an empty frame.
pub proof fn empty_frame_fails(b: Seq<u8>)
    requires
        b.len() == 0,
    ensures
        spec_decode(b) == DecodeOutcome::Failed(DecodeFailure::EmptyFrame),
{
}

/// Every well-formed three-byte Note-On message `0x9n, note, velocity` decodes to a Note-On on
/// channel `n` with that note and velocity, using all three bytes.
pub proof fn note_on_decodes(channel: u8, note: u8, velocity: u8)
    requires
        channel < 16,
        note < 128,
        velocity < 128,
    ensures
        spec_decode(seq![(0x90 + channel) as u8, note, velocity]) == DecodeOutcome::Decoded(
            MidiEvent { channel, message: ChannelMessage::NoteOn { note, velocity } },
            3,
        ),
{
    let b = seq![(0x90 + channel) as u8, note, velocity];
    assert(b[0] / 16 == 9);
    assert(data_complete(b));
}

/// When a data byte that the status byte asks for has its high bit set, decoding fails: no
/// event is built from part of the frame.
pub proof fn high_data_byte_fails(b: Seq<u8>, i: int)
    requires
        1 <= i < b.len(),
        i <= data_count(b[0]),
        b[i] >= 128,
    ensures
        spec_decode(b) is Failed,
{
}

/// Decoding depends on the bytes alone: the same bytes, decoded twice, give the same outcome.
pub proof fn decode_is_deterministic(a: Seq<u8>, b: Seq<u8>)
    requires
        a == b,
    ensures
        spec_decode(a) == spec_decode(b),
{
}

/// A decoded frame never uses more bytes than it holds, and its event is in range.
pub proof fn decoded_event_is_in_frame(b: Seq<u8>)
    ensures
        spec_decode(b) matches DecodeOutcome::Decoded(e, n) ==> n <= b.len() && e.valid(),
{
    if spec_decode(b) is Decoded {
        assert(b[1] < 128);
        if data_count(b[0]) == 2 {
            assert(b[2] < 128);
        }
    }
}

} // verus!
