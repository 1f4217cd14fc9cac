//! Decoder for the pad's 3-byte input frames.

use vstd::prelude::*;

use crate::devices::launchpad_mini_mk3::lpm3_raw_valid;
use crate::devices::launchpad_mini_mk3::LPM3Position;
use crate::MidiInputMessage;

verus! {

/// A typed input event of the pad. Every control is binary.
#[derive(Debug, Clone, Copy)]
pub enum LPM3InputMessage {
    KeyPressed(LPM3Position),
    KeyReleased(LPM3Position),
}

/// What a raw input frame decodes to: frames must be exactly three bytes
/// `[status, address, value]` with a note-on (144) or controller-change
/// (176) status and an address the device actually has; everything else is
/// hardware noise and decodes to nothing. A non-zero value is a press.
pub open spec fn lpm3_decode(raw: Seq<u8>) -> Option<LPM3InputMessage> {
    if raw.len() == 3 && (raw[0] == 176 || raw[0] == 144) && lpm3_raw_valid(raw[1]) {
        if raw[2] > 0 {
            Some(LPM3InputMessage::KeyPressed(LPM3Position::Raw(raw[1])))
        } else {
            Some(LPM3InputMessage::KeyReleased(LPM3Position::Raw(raw[1])))
        }
    } else {
        None
    }
}

impl LPM3InputMessage {
    /// The raw address the event is about, when its position is valid.
    pub open spec fn spec_raw(&self) -> Option<u8> {
        match *self {
            LPM3InputMessage::KeyPressed(p) => p.spec_raw(),
            LPM3InputMessage::KeyReleased(p) => p.spec_raw(),
        }
    }
}

impl MidiInputMessage for LPM3InputMessage {
    /// Decodes one raw frame, dropping anything malformed or out of range.
    fn from_raw(raw: &[u8]) -> (r: Option<Self>)
        ensures
            r == lpm3_decode(raw@),
    {
        if raw.len() == 3 {
            let ty = raw[0];
            if ty == 176 || ty == 144 {
                let pos = raw[1];
                let value = raw[2];
                if pos % 10 == 0 || pos > 99 || pos < 11 {
                    return None;
                }
                if value > 0 {
                    Some(LPM3InputMessage::KeyPressed(LPM3Position::Raw(pos)))
                } else {
                    Some(LPM3InputMessage::KeyReleased(LPM3Position::Raw(pos)))
                }
            } else {
                None
            }
        } else {
            None
        }
    }
}

} // verus!
