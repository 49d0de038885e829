//! The structured MIDI events and the outcome of decoding one frame.
use vstd::prelude::*;

verus! {

/// What a channel voice message asks for, without its channel.
#[derive(Debug, Clone, Copy, PartialEq, Eq, Structural)]
pub enum ChannelMessage {
    NoteOff { note: u8, velocity: u8 },
    NoteOn { note: u8, velocity: u8 },
    PolyphonicPressure { note: u8, pressure: u8 },
    ControlChange { controller: u8, value: u8 },
    ProgramChange { program: u8 },
    ChannelPressure { pressure: u8 },
    PitchBend { lsb: u8, msb: u8 },
}

/// A channel voice message and the channel it is sent on.
#[derive(Debug, Clone, Copy, PartialEq, Eq, Structural)]
pub struct MidiEvent {
    pub channel: u8,
    pub message: ChannelMessage,
}

/// Why a frame could not be decoded.
#[derive(Debug, Clone, Copy, PartialEq, Eq, Structural)]
pub enum DecodeFailure {
    /// The frame holds no byte at all.
    EmptyFrame,
    /// A data byte that the status byte asks for is missing, or has its high bit set.
    Truncated,
    /// The first byte has its high bit clear: a data byte with no status before it.
    UnexpectedDataByte,
    /// A system message, which this decoder does not handle.
    UnsupportedStatus,
}

/// The result of decoding one frame: an event and the number of bytes it used, or a failure.
#[derive(Debug, Clone, Copy, PartialEq, Eq, Structural)]
pub enum DecodeOutcome {
    Decoded(MidiEvent, usize),
    Failed(DecodeFailure),
}

/// Whether `v` fits in seven bits, as every MIDI data byte must.
pub open spec fn is_data_byte(v: u8) -> bool {
    v < 128
}

impl ChannelMessage {
    /// Every data field fits in seven bits.
    pub open spec fn valid(self) -> bool {
        match self {
            ChannelMessage::NoteOff { note, velocity } => is_data_byte(note) && is_data_byte(
                velocity,
            ),
            ChannelMessage::NoteOn { note, velocity } => is_data_byte(note) && is_data_byte(
                velocity,
            ),
            ChannelMessage::PolyphonicPressure { note, pressure } => is_data_byte(note)
                && is_data_byte(pressure),
            ChannelMessage::ControlChange { controller, value } => is_data_byte(controller)
                && is_data_byte(value),
            ChannelMessage::ProgramChange { program } => is_data_byte(program),
            ChannelMessage::ChannelPressure { pressure } => is_data_byte(pressure),
            ChannelMessage::PitchBend { lsb, msb } => is_data_byte(lsb) && is_data_byte(msb),
        }
    }
}

impl MidiEvent {
    /// The channel lies in `0..16` and every data field fits in seven bits.
    pub open spec fn valid(self) -> bool {
        self.channel < 16 && self.message.valid()
    }
}

impl DecodeFailure {
    /// The human-readable reason, as a sink would print it.
    pub open spec fn spec_reason(self) -> Seq<char> {
        match self {
            DecodeFailure::EmptyFrame => "empty frame"@,
            DecodeFailure::Truncated => "truncated"@,
            DecodeFailure::UnexpectedDataByte => "unexpected data byte"@,
            DecodeFailure::UnsupportedStatus => "unsupported status"@,
        }
    }

    /// The human-readable reason for this failure.
    pub fn reason(&self) -> (r: &'static str)
        ensures
            r@ == self.spec_reason(),
    {
        match self {
            DecodeFailure::EmptyFrame => "empty frame",
            DecodeFailure::Truncated => "truncated",
            DecodeFailure::UnexpectedDataByte => "unexpected data byte",
            DecodeFailure::UnsupportedStatus => "unsupported status",
        }
    }
}

} // verus!
