//! Encoder for the device's bulk colour-update frame.
//!
//! The frame is a fixed 8-byte sysex header, a 2-byte payload
//! `[addr, colour]` per visual, and a terminating `247`. The colour byte is
//! `12 + red + 16 * green`; each channel must lie in `0..=3` and is
//! rejected, never clamped, outside that range.

use vstd::prelude::*;

use crate::devices::launch_control_xl_mk2::lcxl2_invalid_position;
use crate::devices::launch_control_xl_mk2::spec_lcxl2_name;
use crate::devices::launch_control_xl_mk2::visual::LCXL2Visual;
use crate::text::u8_decimal;
use crate::MidiDriverError;
use crate::MidiErrorKind;
use crate::MidiOutputMessage;
use crate::MidiPhysicalPosition;

verus! {

/// The fixed header of the bulk colour-update frame.
pub open spec fn lcxl2_header() -> Seq<u8> {
    seq![240u8, 0u8, 32u8, 41u8, 2u8, 17u8, 120u8, 0u8]
}

/// The colour byte of a red/green pair, defined for channels in `0..=3`.
pub open spec fn lcxl2_colour(r: u8, g: u8) -> u8 {
    (12 + r + 16 * g) as u8
}

/// The payload bytes of one visual, or the fault that makes it
/// unencodable: an out-of-range colour channel is reported before an
/// invalid position.
pub open spec fn lcxl2_entry(v: LCXL2Visual) -> Result<Seq<u8>, MidiErrorKind> {
    match v {
        LCXL2Visual::Off(p) => if p.spec_raw() is None {
            Err(MidiErrorKind::InvalidPosition)
        } else {
            Ok(seq![p.spec_raw()->0, 12u8])
        },
        LCXL2Visual::Static(p, r, g) => if r > 3 || g > 3 {
            Err(MidiErrorKind::InvalidVisual)
        } else if p.spec_raw() is None {
            Err(MidiErrorKind::InvalidPosition)
        } else {
            Ok(seq![p.spec_raw()->0, lcxl2_colour(r, g)])
        },
    }
}

/// The concatenated payloads of a batch, or the fault of its first
/// unencodable visual.
pub open spec fn lcxl2_payloads(s: Seq<LCXL2Visual>) -> Result<Seq<u8>, MidiErrorKind>
    decreases s.len(),
{
    if s.len() == 0 {
        Ok(Seq::empty())
    } else {
        match lcxl2_payloads(s.drop_last()) {
            Err(k) => Err(k),
            Ok(p) => match lcxl2_entry(s.last()) {
                Err(k) => Err(k),
                Ok(q) => Ok(p + q),
            },
        }
    }
}

/// The complete frame for a batch whose payloads all encode.
pub open spec fn lcxl2_frame(s: Seq<LCXL2Visual>) -> Seq<u8>
    recommends
        lcxl2_payloads(s) is Ok,
{
    lcxl2_header() + (lcxl2_payloads(s)->Ok_0) + seq![247u8]
}

/// A fault in some prefix of a batch is the fault of the whole batch.
pub proof fn lemma_lcxl2_payloads_prefix_err(s: Seq<LCXL2Visual>, n: int)
    requires
        0 <= n <= s.len(),
        lcxl2_payloads(s.take(n)) is Err,
    ensures
        lcxl2_payloads(s) == lcxl2_payloads(s.take(n)),
    decreases s.len() - n,
{
    if n < s.len() {
        assert(s.take(n + 1).drop_last() =~= s.take(n));
        lemma_lcxl2_payloads_prefix_err(s, n + 1);
    } else {
        assert(s.take(n) =~= s);
    }
}

fn lcxl2_invalid_channel(name: &str, value: u8) -> (e: MidiDriverError)
    ensures
        e matches MidiDriverError::InvalidVisual(device, _) && device@ == spec_lcxl2_name(),
{
    proof {
        reveal_strlit("Launch Control XL MK2");
    }
    let mut d = String::from_str("Invalid ");
    d.append(name);
    d.append(" value: ");
    d.append(u8_decimal(value).as_str());
    MidiDriverError::InvalidVisual(String::from_str("Launch Control XL MK2"), d)
}

/// Encodes one batch into the device's bulk colour-update frame; fails on
/// the first unencodable visual, reporting an out-of-range channel before
/// an invalid position.
pub(crate) fn lcxl2_encode_colors(visuals: &Vec<LCXL2Visual>) -> (r: Result<
    Vec<u8>,
    MidiDriverError,
>)
    ensures
        lcxl2_payloads(visuals@) is Ok ==> (r matches Ok(b) && b@ == lcxl2_frame(visuals@)),
        lcxl2_payloads(visuals@) matches Err(k) ==> (r matches Err(e) && crate::error_has_kind(
            e,
            k,
        )),
{
    let mut out: Vec<u8> = Vec::new();
    out.push(240);
    out.push(0);
    out.push(32);
    out.push(41);
    out.push(2);
    out.push(17);
    out.push(120);
    out.push(0);
    assert(out@ =~= lcxl2_header());

    let n = visuals.len();
    let mut i: usize = 0;
    while i < n
        invariant
            n == visuals@.len(),
            i <= n,
            lcxl2_payloads(visuals@.take(i as int)) is Ok,
            out@ == lcxl2_header() + (lcxl2_payloads(visuals@.take(i as int))->Ok_0),
        decreases n - i,
    {
        let v = &visuals[i];
        proof {
            assert(visuals@.take(i + 1).drop_last() =~= visuals@.take(i as int));
            assert(visuals@.take(i + 1).last() == visuals@[i as int]);
        }
        match v {
            LCXL2Visual::Off(p) => {
                match p.to_raw() {
                    Ok(raw) => {
                        out.push(raw);
                        out.push(12);
                    },
                    Err(e) => {
                        proof {
                            lemma_lcxl2_payloads_prefix_err(visuals@, i + 1);
                        }
                        return Err(e);
                    },
                }
            },
            LCXL2Visual::Static(p, red, green) => {
                if *red > 3 {
                    proof {
                        lemma_lcxl2_payloads_prefix_err(visuals@, i + 1);
                    }
                    return Err(lcxl2_invalid_channel("red", *red));
                }
                if *green > 3 {
                    proof {
                        lemma_lcxl2_payloads_prefix_err(visuals@, i + 1);
                    }
                    return Err(lcxl2_invalid_channel("green", *green));
                }
                match p.to_raw() {
                    Ok(raw) => {
                        out.push(raw);
                        out.push(12 + *red + 16 * *green);
                    },
                    Err(e) => {
                        proof {
                            lemma_lcxl2_payloads_prefix_err(visuals@, i + 1);
                        }
                        return Err(e);
                    },
                }
            },
        }
        assert(out@ =~= lcxl2_header() + (lcxl2_payloads(visuals@.take(i + 1))->Ok_0));
        i = i + 1;
    }
    assert(visuals@.take(n as int) =~= visuals@);
    out.push(247);
    assert(out@ =~= lcxl2_frame(visuals@));
    Ok(out)
}

/// A frame for the device: raw bytes passed through unchanged, or a batch
/// of visuals for the bulk colour-update frame.
#[derive(Debug)]
pub enum LCXL2OutputMessage {
    Raw(Vec<u8>),
    SendColors(Vec<LCXL2Visual>),
}

impl MidiOutputMessage for LCXL2OutputMessage {
    /// The wire bytes of this message.
    fn to_raw(self) -> (r: Result<Vec<u8>, MidiDriverError>)
        ensures
            self matches LCXL2OutputMessage::Raw(v) ==> (r matches Ok(b) && b@ == v@),
            self matches LCXL2OutputMessage::SendColors(vs) ==> {
                &&& lcxl2_payloads(vs@) is Ok ==> (r matches Ok(b) && b@ == lcxl2_frame(vs@))
                &&& lcxl2_payloads(vs@) matches Err(k) ==> (r matches Err(e)
                    && crate::error_has_kind(e, k))
            },
    {
        match self {
            LCXL2OutputMessage::Raw(v) => Ok(v),
            LCXL2OutputMessage::SendColors(v) => lcxl2_encode_colors(&v),
        }
    }
}

} // verus!
