//! Decoding of raw MIDI channel messages into semantic input events.
//!
//! A message arrives as a status byte and up to two data bytes. The decoder
//! is pure and total: a status byte outside the recognized set yields no
//! event rather than an error, so a controller sending unrelated messages
//! never disturbs a performance.

use vstd::prelude::*;

verus! {

/// Status byte of a note-on message on channel 1.
pub const STATUS_NOTE_ON: u8 = 144;

/// Status byte of a note-off message on channel 1.
pub const STATUS_NOTE_OFF: u8 = 128;

/// Status byte of a control-change message on channel 1.
pub const STATUS_CONTROL_CHANGE: u8 = 176;

/// Status byte of a pitch-bend message on channel 1.
pub const STATUS_PITCH_BEND: u8 = 224;

/// A semantic input event, as the playback coordinator understands it.
#[derive(Clone, Copy, PartialEq, Eq, Structural, Debug)]
pub enum SemanticEvent {
    /// A pad was pressed; the payload is the cue id (MIDI note number).
    CueDown(u8),
    /// A pad was released; the payload is the cue id.
    CueUp(u8),
    /// The volume knob moved: direction (1 = increase, 2 = decrease) and the
    /// controller value; only value 127 marks a full detent click.
    KnobTurn(u8, u8),
    /// The bend-style control moved: its position, `0` being the centered
    /// rest detent that is treated as a button press.
    PadTouch(u16),
}

/// What one raw message means: note-on and note-off carry the cue id in the
/// first data byte; a control change carries direction and value; pitch bend
/// carries a 14-bit position with the first data byte as the high 7 bits.
pub open spec fn decode_spec(status: u8, data1: u8, data2: u8) -> Option<SemanticEvent> {
    if status == STATUS_NOTE_ON {
        Option::Some(SemanticEvent::CueDown(data1))
    } else if status == STATUS_NOTE_OFF {
        Option::Some(SemanticEvent::CueUp(data1))
    } else if status == STATUS_CONTROL_CHANGE {
        Option::Some(SemanticEvent::KnobTurn(data1, data2))
    } else if status == STATUS_PITCH_BEND {
        Option::Some(SemanticEvent::PadTouch(((data1 as u16) * 128 + (data2 as u16)) as u16))
    } else {
        Option::None
    }
}

/// Decodes one raw MIDI message; unrecognized status bytes yield no event.
pub fn decode_midi(status: u8, data1: u8, data2: u8) -> (r: Option<SemanticEvent>)
    ensures
        r == decode_spec(status, data1, data2),
{
    if status == STATUS_NOTE_ON {
        Some(SemanticEvent::CueDown(data1))
    } else if status == STATUS_NOTE_OFF {
        Some(SemanticEvent::CueUp(data1))
    } else if status == STATUS_CONTROL_CHANGE {
        Some(SemanticEvent::KnobTurn(data1, data2))
    } else if status == STATUS_PITCH_BEND {
        Some(SemanticEvent::PadTouch((data1 as u16) * 128 + (data2 as u16)))
    } else {
        None
    }
}

} // verus!
