//! Decoder for the device's 3-byte input frames.

use vstd::prelude::*;

use crate::devices::launch_control_xl_mk2::lcxl2_analog_raw;
use crate::devices::launch_control_xl_mk2::lcxl2_raw_valid;
use crate::devices::launch_control_xl_mk2::LCXL2Position;
use crate::MidiInputMessage;

verus! {

/// A typed input event of the device: a button press or release, or an
/// analog value from a knob or slider.
#[derive(Debug, Clone, Copy)]
pub enum LCXL2InputMessage {
    KeyPressed(LCXL2Position),
    KeyReleased(LCXL2Position),
    Analog(LCXL2Position, u8),
}

/// What a raw input frame decodes to: frames must be exactly three bytes
/// `[status, address, value]` with a note-on (144) or controller-change
/// (176) status and an address the device actually has; everything else is
/// hardware noise and decodes to nothing. An analog-capable address always
/// decodes to `Analog`; otherwise a non-zero value is a press.
pub open spec fn lcxl2_decode(raw: Seq<u8>) -> Option<LCXL2InputMessage> {
    if raw.len() == 3 && (raw[0] == 176 || raw[0] == 144) && lcxl2_raw_valid(raw[1]) {
        if lcxl2_analog_raw(raw[1]) {
            Some(LCXL2InputMessage::Analog(LCXL2Position::Raw(raw[1]), raw[2]))
        } else if raw[2] > 0 {
            Some(LCXL2InputMessage::KeyPressed(LCXL2Position::Raw(raw[1])))
        } else {
            Some(LCXL2InputMessage::KeyReleased(LCXL2Position::Raw(raw[1])))
        }
    } else {
        None
    }
}

impl LCXL2InputMessage {
    /// The position the event is about.
    pub open spec fn spec_pos(&self) -> LCXL2Position {
        match *self {
            LCXL2InputMessage::KeyPressed(p) => p,
            LCXL2InputMessage::KeyReleased(p) => p,
            LCXL2InputMessage::Analog(p, _) => p,
        }
    }

    /// The raw address the event is about, when its position is valid.
    pub open spec fn spec_raw(&self) -> Option<u8> {
        self.spec_pos().spec_raw()
    }
}

impl MidiInputMessage for LCXL2InputMessage {
    /// Decodes one raw frame, dropping anything malformed or out of range.
    fn from_raw(raw: &[u8]) -> (r: Option<Self>)
        ensures
            r == lcxl2_decode(raw@),
    {
        if raw.len() == 3 {
            let ty = raw[0];
            if ty == 176 || ty == 144 {
                let pos = raw[1];
                let value = raw[2];
                if pos > 55 {
                    return None;
                }
                if LCXL2Position::is_analog_raw(&pos) {
                    Some(LCXL2InputMessage::Analog(LCXL2Position::Raw(pos), value))
                } else if value > 0 {
                    Some(LCXL2InputMessage::KeyPressed(LCXL2Position::Raw(pos)))
                } else {
                    Some(LCXL2InputMessage::KeyReleased(LCXL2Position::Raw(pos)))
                }
            } else {
                None
            }
        } else {
            None
        }
    }
}

} // verus!
