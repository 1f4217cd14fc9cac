//! Encoder for the pad's bulk colour-update frame.
//!
//! The frame is a fixed 7-byte sysex header, one payload per visual, and a
//! terminating `247`. Payload widths differ per visual variant, each led by
//! a type tag: `[0, addr, colour]` for off/static, `[1, addr, a, b]` for
//! flashing, `[2, addr, colour]` for pulsing, `[3, addr, r, g, b]` for RGB.

use vstd::prelude::*;

use crate::devices::launchpad_mini_mk3::visual::LPM3Visual;
use crate::devices::launchpad_mini_mk3::spec_lpm3_name;
use crate::MidiDriverError;
use crate::MidiErrorKind;
use crate::MidiOutputMessage;
use crate::MidiVisual;

verus! {

/// The fixed header of the bulk colour-update frame.
pub open spec fn lpm3_header() -> Seq<u8> {
    seq![240u8, 0u8, 32u8, 41u8, 2u8, 13u8, 3u8]
}

/// The payload bytes of one visual, or the fault that makes it unencodable:
/// a visual can only fail to encode here because its position names no
/// control of the device.
pub open spec fn lpm3_entry(v: LPM3Visual) -> Result<Seq<u8>, MidiErrorKind> {
    if v.spec_raw() is None {
        Err(MidiErrorKind::InvalidPosition)
    } else {
        let raw = v.spec_raw()->0;
        Ok(
            match v {
                LPM3Visual::Off(_) => seq![0u8, raw, 0u8],
                LPM3Visual::Static(_, c) => seq![0u8, raw, c],
                LPM3Visual::Flashing(_, a, b) => seq![1u8, raw, a, b],
                LPM3Visual::Pulsing(_, c) => seq![2u8, raw, c],
                LPM3Visual::RGB(_, r, g, b) => seq![3u8, raw, r, g, b],
            },
        )
    }
}

/// The concatenated payloads of a batch, or the fault of its first
/// unencodable visual.
pub open spec fn lpm3_payloads(s: Seq<LPM3Visual>) -> Result<Seq<u8>, MidiErrorKind>
    decreases s.len(),
{
    if s.len() == 0 {
        Ok(Seq::empty())
    } else {
        match lpm3_payloads(s.drop_last()) {
            Err(k) => Err(k),
            Ok(p) => match lpm3_entry(s.last()) {
                Err(k) => Err(k),
                Ok(q) => Ok(p + q),
            },
        }
    }
}

/// The complete frame for a batch whose payloads all encode.
pub open spec fn lpm3_frame(s: Seq<LPM3Visual>) -> Seq<u8>
    recommends
        lpm3_payloads(s) is Ok,
{
    lpm3_header() + (lpm3_payloads(s)->Ok_0) + seq![247u8]
}

/// A fault in some prefix of a batch is the fault of the whole batch.
pub proof fn lemma_lpm3_payloads_prefix_err(s: Seq<LPM3Visual>, n: int)
    requires
        0 <= n <= s.len(),
        lpm3_payloads(s.take(n)) is Err,
    ensures
        lpm3_payloads(s) == lpm3_payloads(s.take(n)),
    decreases s.len() - n,
{
    if n < s.len() {
        assert(s.take(n + 1).drop_last() =~= s.take(n));
        lemma_lpm3_payloads_prefix_err(s, n + 1);
    } else {
        assert(s.take(n) =~= s);
    }
}

/// Encodes one batch into the device's bulk colour-update frame; fails on
/// the first visual whose position names no control of the device.
pub(crate) fn lpm3_encode_colors(visuals: &Vec<LPM3Visual>) -> (r: Result<
    Vec<u8>,
    MidiDriverError,
>)
    ensures
        lpm3_payloads(visuals@) is Ok ==> (r matches Ok(b) && b@ == lpm3_frame(visuals@)),
        lpm3_payloads(visuals@) is Err ==> (r matches Err(e) && (e matches
            MidiDriverError::InvalidPosition(device, _) && device@ == spec_lpm3_name())),
{
    let mut out: Vec<u8> = Vec::new();
    out.push(240);
    out.push(0);
    out.push(32);
    out.push(41);
    out.push(2);
    out.push(13);
    out.push(3);
    assert(out@ =~= lpm3_header());

    let n = visuals.len();
    let mut i: usize = 0;
    while i < n
        invariant
            n == visuals@.len(),
            i <= n,
            lpm3_payloads(visuals@.take(i as int)) is Ok,
            out@ == lpm3_header() + (lpm3_payloads(visuals@.take(i as int))->Ok_0),
        decreases n - i,
    {
        let v = &visuals[i];
        proof {
            assert(visuals@.take(i + 1).drop_last() =~= visuals@.take(i as int));
            assert(visuals@.take(i + 1).last() == visuals@[i as int]);
        }
        let raw = match v.get_raw_pos() {
            Ok(raw) => raw,
            Err(e) => {
                proof {
                    lemma_lpm3_payloads_prefix_err(visuals@, i + 1);
                }
                return Err(e);
            },
        };
        match v {
            LPM3Visual::Off(_) => {
                out.push(0);
                out.push(raw);
                out.push(0);
            },
            LPM3Visual::Static(_, c) => {
                out.push(0);
                out.push(raw);
                out.push(*c);
            },
            LPM3Visual::Flashing(_, a, b) => {
                out.push(1);
                out.push(raw);
                out.push(*a);
                out.push(*b);
            },
            LPM3Visual::Pulsing(_, c) => {
                out.push(2);
                out.push(raw);
                out.push(*c);
            },
            LPM3Visual::RGB(_, r, g, b) => {
                out.push(3);
                out.push(raw);
                out.push(*r);
                out.push(*g);
                out.push(*b);
            },
        }
        assert(out@ =~= lpm3_header() + (lpm3_payloads(visuals@.take(i + 1))->Ok_0));
        i = i + 1;
    }
    assert(visuals@.take(n as int) =~= visuals@);
    out.push(247);
    assert(out@ =~= lpm3_frame(visuals@));
    Ok(out)
}

/// A frame for the device: raw bytes passed through unchanged, or a batch
/// of visuals for the bulk colour-update frame.
#[derive(Debug)]
pub enum LPM3OutputMessage {
    Raw(Vec<u8>),
    SendColors(Vec<LPM3Visual>),
}

impl MidiOutputMessage for LPM3OutputMessage {
    /// The wire bytes of this message.
    fn to_raw(self) -> (r: Result<Vec<u8>, MidiDriverError>)
        ensures
            self matches LPM3OutputMessage::Raw(v) ==> (r matches Ok(b) && b@ == v@),
            self matches LPM3OutputMessage::SendColors(vs) ==> {
                &&& lpm3_payloads(vs@) is Ok ==> (r matches Ok(b) && b@ == lpm3_frame(vs@))
                &&& lpm3_payloads(vs@) is Err ==> (r matches Err(e) && e is InvalidPosition)
            },
    {
        match self {
            LPM3OutputMessage::Raw(v) => Ok(v),
            LPM3OutputMessage::SendColors(v) => lpm3_encode_colors(&v),
        }
    }
}

} // verus!
