//! The device's driver: effective, queued and physical state per raw
//! address, and the diffing engine that computes each minimal
//! colour-update frame.
//!
//! The three maps are dense, indexed by raw address (`0..56`). Only the
//! LED-carrying controls (`0..48`) can hold a visual; the sliders
//! (`48..56`) report input but display nothing. The driver never touches a
//! transport: `connect` and `push` return the frames to transmit and
//! `read` takes the events that the hardware callback decoded.

use vstd::prelude::*;

use crate::devices::launch_control_xl_mk2::input::LCXL2InputMessage;
use crate::devices::launch_control_xl_mk2::lcxl2_analog_raw;
use crate::devices::launch_control_xl_mk2::lcxl2_raw_valid;
use crate::devices::launch_control_xl_mk2::output::lcxl2_encode_colors;
use crate::devices::launch_control_xl_mk2::output::lcxl2_entry;
use crate::devices::launch_control_xl_mk2::output::lcxl2_frame;
use crate::devices::launch_control_xl_mk2::output::lcxl2_payloads;
use crate::devices::launch_control_xl_mk2::output::LCXL2OutputMessage;
use crate::devices::launch_control_xl_mk2::visual::lcxl2_visual_eq;
use crate::devices::launch_control_xl_mk2::visual::LCXL2Visual;
use crate::devices::launch_control_xl_mk2::LCXL2Position;
use crate::MidiDriver;
use crate::MidiDriverError;
use crate::MidiErrorKind;
use crate::MidiPhysicalState;
use crate::MidiPhysicalPosition;
use crate::MidiVisual;

verus! {

/// One dense visual map of the device: a slot per raw address, `None`
/// where no visual is recorded. A well-formed board only records visuals
/// at addresses the device has, each carrying the position it is stored
/// under.
pub open spec fn lcxl2_board_wf(s: Seq<Option<LCXL2Visual>>) -> bool {
    &&& s.len() == 56
    &&& forall|a: int|
        0 <= a < 56 ==> ((#[trigger] s[a]) matches Some(v) ==> lcxl2_raw_valid(a as u8)
            && v.spec_raw() == Some(a as u8))
}

/// The board with nothing recorded.
pub open spec fn lcxl2_empty_board() -> Seq<Option<LCXL2Visual>> {
    Seq::new(56, |a: int| None)
}

/// What `clear` queues at address `a`: the off visual on every control
/// that carries an LED (`0..48`); the sliders display nothing and are
/// never queued.
pub open spec fn lcxl2_clear_entry(a: int) -> Option<LCXL2Visual> {
    if 0 <= a < 48 {
        Some(LCXL2Visual::Off(LCXL2Position::Raw(a as u8)))
    } else {
        None
    }
}

/// The queue after a `clear`: off on every LED.
pub open spec fn lcxl2_clear_board() -> Seq<Option<LCXL2Visual>> {
    Seq::new(56, |a: int| lcxl2_clear_entry(a))
}

/// The physical state every control starts in: zero for the analog ones,
/// released for the buttons.
pub open spec fn lcxl2_default_state(a: int) -> MidiPhysicalState {
    if lcxl2_analog_raw(a as u8) {
        MidiPhysicalState::Analog8(0)
    } else {
        MidiPhysicalState::Binary(false)
    }
}

/// Absorption against the effective map: a queued visual is redundant
/// exactly when an equal visual is already effective at its address.
pub open spec fn lcxl2_absorbed(v: LCXL2Visual, current: Option<LCXL2Visual>) -> bool {
    current matches Some(e) && lcxl2_visual_eq(v, e)
}

/// The batch `push` transmits, restricted to addresses below `n`: the
/// queued visuals that are not absorbed, in ascending address order.
pub open spec fn lcxl2_push_batch_upto(
    eff: Seq<Option<LCXL2Visual>>,
    que: Seq<Option<LCXL2Visual>>,
    n: int,
) -> Seq<LCXL2Visual>
    decreases n,
{
    if n <= 0 {
        Seq::empty()
    } else {
        lcxl2_push_batch_upto(eff, que, n - 1) + (match que[n - 1] {
            Some(v) => if !lcxl2_absorbed(v, eff[n - 1]) {
                seq![v]
            } else {
                Seq::empty()
            },
            None => Seq::empty(),
        })
    }
}

/// The batch `push` transmits.
pub open spec fn lcxl2_push_batch(
    eff: Seq<Option<LCXL2Visual>>,
    que: Seq<Option<LCXL2Visual>>,
) -> Seq<LCXL2Visual> {
    lcxl2_push_batch_upto(eff, que, 56)
}

/// The effective visual at `a` after a successful `push`.
pub open spec fn lcxl2_push_effective(
    eff: Seq<Option<LCXL2Visual>>,
    que: Seq<Option<LCXL2Visual>>,
    a: int,
) -> Option<LCXL2Visual> {
    match que[a] {
        Some(v) => if !lcxl2_absorbed(v, eff[a]) {
            Some(v)
        } else {
            eff[a]
        },
        None => eff[a],
    }
}

/// Whether an input event is a button press or release.
pub open spec fn lcxl2_is_binary(m: LCXL2InputMessage) -> bool {
    m is KeyPressed || m is KeyReleased
}

/// The physical state an input event leaves behind.
pub open spec fn lcxl2_msg_state(m: LCXL2InputMessage) -> MidiPhysicalState {
    match m {
        LCXL2InputMessage::KeyPressed(_) => MidiPhysicalState::Binary(true),
        LCXL2InputMessage::KeyReleased(_) => MidiPhysicalState::Binary(false),
        LCXL2InputMessage::Analog(_, v) => MidiPhysicalState::Analog8(v),
    }
}

/// The press/release events of one `read`, in arrival order, with events
/// whose position names no control of the device dropped as noise.
pub open spec fn lcxl2_filter_binary(msgs: Seq<LCXL2InputMessage>) -> Seq<LCXL2InputMessage>
    decreases msgs.len(),
{
    if msgs.len() == 0 {
        Seq::empty()
    } else {
        lcxl2_filter_binary(msgs.drop_last()) + (if lcxl2_is_binary(msgs.last())
            && msgs.last().spec_raw() is Some {
            seq![msgs.last()]
        } else {
            Seq::empty()
        })
    }
}

/// The most recent analog event for address `a` within one `read`, if any.
pub open spec fn lcxl2_last_analog(msgs: Seq<LCXL2InputMessage>, a: u8) -> Option<
    LCXL2InputMessage,
>
    decreases msgs.len(),
{
    if msgs.len() == 0 {
        None
    } else if msgs.last() matches LCXL2InputMessage::Analog(p, _) && p.spec_raw() == Some(a) {
        Some(msgs.last())
    } else {
        lcxl2_last_analog(msgs.drop_last(), a)
    }
}

/// The coalesced analog events appended after the binary ones: one event
/// per address below `n` that saw analog input, carrying only the most
/// recent value, in ascending address order.
pub open spec fn lcxl2_analog_tail(msgs: Seq<LCXL2InputMessage>, n: int) -> Seq<
    LCXL2InputMessage,
>
    decreases n,
{
    if n <= 0 {
        Seq::empty()
    } else {
        lcxl2_analog_tail(msgs, n - 1) + (match lcxl2_last_analog(msgs, (n - 1) as u8) {
            Some(m) => seq![m],
            None => Seq::empty(),
        })
    }
}

/// The physical-state map after only the binary events of one `read` have
/// been folded over it, in arrival order.
pub open spec fn lcxl2_binary_phys(
    phys: Seq<MidiPhysicalState>,
    msgs: Seq<LCXL2InputMessage>,
) -> Seq<MidiPhysicalState>
    decreases msgs.len(),
{
    if msgs.len() == 0 {
        phys
    } else {
        let prev = lcxl2_binary_phys(phys, msgs.drop_last());
        if lcxl2_is_binary(msgs.last()) && msgs.last().spec_raw() is Some {
            prev.update(msgs.last().spec_raw()->0 as int, lcxl2_msg_state(msgs.last()))
        } else {
            prev
        }
    }
}

/// The physical state of address `a` after one `read`: the most recent
/// analog value where there was one, else what the binary events left.
pub open spec fn lcxl2_read_phys_at(
    phys: Seq<MidiPhysicalState>,
    msgs: Seq<LCXL2InputMessage>,
    a: int,
) -> MidiPhysicalState {
    match lcxl2_last_analog(msgs, a as u8) {
        Some(m) => lcxl2_msg_state(m),
        None => lcxl2_binary_phys(phys, msgs)[a],
    }
}

/// A coalesced analog event really is an analog event for its address.
pub proof fn lemma_lcxl2_last_analog(msgs: Seq<LCXL2InputMessage>, a: u8)
    ensures
        lcxl2_last_analog(msgs, a) matches Some(m) ==> (m matches LCXL2InputMessage::Analog(
            p,
            _,
        ) && p.spec_raw() == Some(a)),
    decreases msgs.len(),
{
    if msgs.len() > 0 {
        lemma_lcxl2_last_analog(msgs.drop_last(), a);
    }
}

/// Every visual in a push batch built from a well-formed queue has a valid
/// position.
pub proof fn lemma_lcxl2_push_batch_valid(
    eff: Seq<Option<LCXL2Visual>>,
    que: Seq<Option<LCXL2Visual>>,
    n: int,
)
    requires
        lcxl2_board_wf(que),
        n <= 56,
    ensures
        forall|i: int|
            0 <= i < lcxl2_push_batch_upto(eff, que, n).len() ==> (#[trigger] lcxl2_push_batch_upto(
                eff,
                que,
                n,
            )[i]).spec_raw() is Some,
    decreases n,
{
    if n > 0 {
        lemma_lcxl2_push_batch_valid(eff, que, n - 1);
    }
}

/// A batch whose visuals all encode has encodable payloads.
pub proof fn lemma_lcxl2_payloads_ok(s: Seq<LCXL2Visual>)
    requires
        forall|i: int| 0 <= i < s.len() ==> (#[trigger] lcxl2_entry(s[i])) is Ok,
    ensures
        lcxl2_payloads(s) is Ok,
    decreases s.len(),
{
    if s.len() > 0 {
        lemma_lcxl2_payloads_ok(s.drop_last());
    }
}

/// A batch of visuals with valid positions can only fail to encode on an
/// out-of-range colour channel.
pub proof fn lemma_lcxl2_payloads_err_kind(s: Seq<LCXL2Visual>)
    requires
        forall|i: int| 0 <= i < s.len() ==> (#[trigger] s[i]).spec_raw() is Some,
    ensures
        lcxl2_payloads(s) matches Err(k) ==> k == MidiErrorKind::InvalidVisual,
    decreases s.len(),
{
    if s.len() > 0 {
        lemma_lcxl2_payloads_err_kind(s.drop_last());
    }
}

/// Every visual a `clear` queues encodes: it is the off visual of an LED.
pub proof fn lemma_lcxl2_clear_batch_ok(eff: Seq<Option<LCXL2Visual>>, n: int)
    requires
        n <= 56,
    ensures
        forall|i: int|
            0 <= i < lcxl2_push_batch_upto(eff, lcxl2_clear_board(), n).len() ==> (
            #[trigger] lcxl2_entry(lcxl2_push_batch_upto(eff, lcxl2_clear_board(), n)[i])) is Ok,
    decreases n,
{
    if n > 0 {
        lemma_lcxl2_clear_batch_ok(eff, n - 1);
    }
}

/// On a board with no effective visuals the clear batch misses no LED: its
/// length only grows with the address bound.
pub proof fn lemma_lcxl2_connect_batch_len(n: int)
    requires
        1 <= n <= 56,
    ensures
        lcxl2_push_batch_upto(lcxl2_empty_board(), lcxl2_clear_board(), n).len() >= 1,
    decreases n,
{
    if n > 1 {
        lemma_lcxl2_connect_batch_len(n - 1);
    }
}

/// A `read` with no incoming events returns nothing and leaves the
/// physical-state cache as it was.
pub proof fn lemma_lcxl2_read_idle(n: int)
    ensures
        lcxl2_filter_binary(Seq::empty()) == Seq::<LCXL2InputMessage>::empty(),
        lcxl2_analog_tail(Seq::empty(), n) == Seq::<LCXL2InputMessage>::empty(),
    decreases n,
{
    if n > 0 {
        lemma_lcxl2_read_idle(n - 1);
        assert(lcxl2_analog_tail(Seq::empty(), n) =~= Seq::<LCXL2InputMessage>::empty());
    } else {
        assert(lcxl2_analog_tail(Seq::empty(), n) =~= Seq::<LCXL2InputMessage>::empty());
    }
}

/// How many visuals of a batch apply to address `a`.
pub open spec fn lcxl2_addr_count(s: Seq<LCXL2Visual>, a: u8) -> nat
    decreases s.len(),
{
    if s.len() == 0 {
        0
    } else {
        lcxl2_addr_count(s.drop_last(), a) + (if s.last().spec_raw() == Some(a) {
            1nat
        } else {
            0nat
        })
    }
}

proof fn lemma_lcxl2_batch_at_addr(
    eff: Seq<Option<LCXL2Visual>>,
    que: Seq<Option<LCXL2Visual>>,
    n: int,
    a: int,
    v: LCXL2Visual,
)
    requires
        lcxl2_board_wf(que),
        n <= 56,
        0 <= a < 56,
        que[a] == Some(v),
    ensures
        lcxl2_addr_count(lcxl2_push_batch_upto(eff, que, n), a as u8) == (if a < n
            && !lcxl2_absorbed(v, eff[a]) {
            1int
        } else {
            0int
        }),
        a < n && !lcxl2_absorbed(v, eff[a]) ==> lcxl2_push_batch_upto(eff, que, n).contains(v),
    decreases n,
{
    if n > 0 {
        lemma_lcxl2_batch_at_addr(eff, que, n - 1, a, v);
        let prefix = lcxl2_push_batch_upto(eff, que, n - 1);
        let whole = lcxl2_push_batch_upto(eff, que, n);
        match que[n - 1] {
            Some(w) => {
                if !lcxl2_absorbed(w, eff[n - 1]) {
                    assert(whole =~= prefix.push(w));
                    assert(whole.drop_last() =~= prefix);
                    if a < n - 1 && !lcxl2_absorbed(v, eff[a]) {
                        let i = choose|i: int| 0 <= i < prefix.len() && prefix[i] == v;
                        assert(whole[i] == v);
                    }
                    if a == n - 1 {
                        assert(whole.last() == v);
                    }
                } else {
                    assert(whole =~= prefix);
                }
            },
            None => {
                assert(whole =~= prefix);
            },
        }
    }
}

/// A queued visual equal to the one already effective at its address is
/// absorbed: the push batch carries nothing for that address, and the
/// effective visual there stays what it was.
pub proof fn lemma_lcxl2_push_absorbed_silent(
    eff: Seq<Option<LCXL2Visual>>,
    que: Seq<Option<LCXL2Visual>>,
    a: int,
    v: LCXL2Visual,
)
    requires
        lcxl2_board_wf(eff),
        lcxl2_board_wf(que),
        0 <= a < 56,
        que[a] == Some(v),
        lcxl2_absorbed(v, eff[a]),
    ensures
        lcxl2_addr_count(lcxl2_push_batch(eff, que), a as u8) == 0,
        lcxl2_push_effective(eff, que, a) == eff[a],
{
    lemma_lcxl2_batch_at_addr(eff, que, 56, a, v);
}

/// A queued visual that differs from the effective one is transmitted
/// exactly once, and becomes the effective visual of its address.
pub proof fn lemma_lcxl2_push_transmits_once(
    eff: Seq<Option<LCXL2Visual>>,
    que: Seq<Option<LCXL2Visual>>,
    a: int,
    v: LCXL2Visual,
)
    requires
        lcxl2_board_wf(eff),
        lcxl2_board_wf(que),
        0 <= a < 56,
        que[a] == Some(v),
        !lcxl2_absorbed(v, eff[a]),
    ensures
        lcxl2_addr_count(lcxl2_push_batch(eff, que), a as u8) == 1,
        lcxl2_push_batch(eff, que).contains(v),
        lcxl2_push_effective(eff, que, a) == Some(v),
{
    lemma_lcxl2_batch_at_addr(eff, que, 56, a, v);
}

proof fn lemma_lcxl2_clear_upto(eff: Seq<Option<LCXL2Visual>>, n: int)
    requires
        n <= 56,
        forall|j: int|
            0 <= j < 48 ==> !lcxl2_absorbed(
                LCXL2Visual::Off(LCXL2Position::Raw(j as u8)),
                #[trigger] eff[j],
            ),
    ensures
        forall|i: int|
            0 <= i < lcxl2_push_batch_upto(eff, lcxl2_clear_board(), n).len() ==> ((
            #[trigger] lcxl2_push_batch_upto(eff, lcxl2_clear_board(), n)[i]) matches
            LCXL2Visual::Off(p) && (p matches LCXL2Position::Raw(r) && r < 48)),
        forall|r: u8|
            r < 48 && r < n ==> lcxl2_push_batch_upto(eff, lcxl2_clear_board(), n).contains(
                LCXL2Visual::Off(LCXL2Position::Raw(r)),
            ),
    decreases n,
{
    if n > 0 {
        lemma_lcxl2_clear_upto(eff, n - 1);
        let prefix = lcxl2_push_batch_upto(eff, lcxl2_clear_board(), n - 1);
        let whole = lcxl2_push_batch_upto(eff, lcxl2_clear_board(), n);
        if n - 1 < 48 {
            let w = LCXL2Visual::Off(LCXL2Position::Raw((n - 1) as u8));
            assert(whole =~= prefix.push(w));
            assert forall|r: u8| r < 48 && r < n implies whole.contains(
                LCXL2Visual::Off(LCXL2Position::Raw(r)),
            ) by {
                if r < n - 1 {
                    assert(prefix.contains(LCXL2Visual::Off(LCXL2Position::Raw(r))));
                    let i = choose|i: int|
                        0 <= i < prefix.len() && prefix[i] == LCXL2Visual::Off(
                            LCXL2Position::Raw(r),
                        );
                    assert(whole[i] == LCXL2Visual::Off(LCXL2Position::Raw(r)));
                } else {
                    assert(whole.last() == w);
                }
            }
        } else {
            assert(whole =~= prefix);
        }
    }
}

/// After a `clear`, a push against an effective map that absorbs none of
/// it transmits the off visual for exactly the device's full
/// LED-addressable set: every batched visual is an off at an LED address,
/// and every LED address is in the batch.
pub proof fn lemma_lcxl2_clear_push_full(eff: Seq<Option<LCXL2Visual>>)
    requires
        forall|j: int|
            0 <= j < 48 ==> !lcxl2_absorbed(
                LCXL2Visual::Off(LCXL2Position::Raw(j as u8)),
                #[trigger] eff[j],
            ),
    ensures
        forall|i: int|
            0 <= i < lcxl2_push_batch(eff, lcxl2_clear_board()).len() ==> ((
            #[trigger] lcxl2_push_batch(eff, lcxl2_clear_board())[i]) matches LCXL2Visual::Off(p)
                && (p matches LCXL2Position::Raw(r) && r < 48)),
        forall|r: u8|
            r < 48 ==> lcxl2_push_batch(eff, lcxl2_clear_board()).contains(
                LCXL2Visual::Off(LCXL2Position::Raw(r)),
            ),
{
    lemma_lcxl2_clear_upto(eff, 56);
}

/// Driver state of one connected device.
pub struct LCXL2Driver {
    effective: Vec<Option<LCXL2Visual>>,
    queued: Vec<Option<LCXL2Visual>>,
    physical: Vec<MidiPhysicalState>,
}

impl LCXL2Driver {
    /// The effective map: the last visual actually transmitted per address.
    pub closed spec fn eff(&self) -> Seq<Option<LCXL2Visual>> {
        self.effective@
    }

    /// The queued map: the desired visuals not yet transmitted.
    pub closed spec fn que(&self) -> Seq<Option<LCXL2Visual>> {
        self.queued@
    }

    /// The physical-state cache: the last known input value per address.
    pub closed spec fn phys(&self) -> Seq<MidiPhysicalState> {
        self.physical@
    }
}

impl MidiDriver<
    LCXL2InputMessage,
    LCXL2OutputMessage,
    LCXL2Visual,
    LCXL2Position,
> for LCXL2Driver {
    open spec fn wf(&self) -> bool {
        &&& lcxl2_board_wf(self.eff())
        &&& lcxl2_board_wf(self.que())
        &&& self.phys().len() == 56
    }

    /// A fresh driver whose maps start empty and whose physical cache holds
    /// every control's default state, together with the full clear frame
    /// that forces the device off.
    fn connect() -> (r: (Self, Vec<Vec<u8>>))
        ensures
            forall|a: int| 0 <= a < 56 ==> (#[trigger] r.0.que()[a]) is None,
            forall|a: int| 0 <= a < 56 ==> (#[trigger] r.0.eff()[a]) == lcxl2_clear_entry(a),
            forall|a: int| 0 <= a < 56 ==> (#[trigger] r.0.phys()[a]) == lcxl2_default_state(a),
            r.1@.len() == 1,
            r.1@[0]@ == lcxl2_frame(lcxl2_push_batch(lcxl2_empty_board(), lcxl2_clear_board())),
    {
        let mut effective: Vec<Option<LCXL2Visual>> = Vec::new();
        let mut queued: Vec<Option<LCXL2Visual>> = Vec::new();
        let mut physical: Vec<MidiPhysicalState> = Vec::new();
        let mut a: usize = 0;
        while a < 56
            invariant
                a <= 56,
                effective@.len() == a as int,
                queued@.len() == a as int,
                physical@.len() == a as int,
                forall|j: int| 0 <= j < a ==> (#[trigger] effective@[j]) is None,
                forall|j: int| 0 <= j < a ==> (#[trigger] queued@[j]) is None,
                forall|j: int| 0 <= j < a ==> (#[trigger] physical@[j]) == lcxl2_default_state(j),
            decreases 56 - a,
        {
            effective.push(None);
            queued.push(None);
            let r = a as u8;
            if LCXL2Position::is_analog_raw(&r) {
                physical.push(MidiPhysicalState::Analog8(0));
            } else {
                physical.push(MidiPhysicalState::Binary(false));
            }
            a = a + 1;
        }
        let mut s = LCXL2Driver { effective, queued, physical };
        proof {
            assert(s.eff() =~= lcxl2_empty_board());
        }
        s.clear();
        proof {
            assert(s.que() =~= lcxl2_clear_board());
            lemma_lcxl2_clear_batch_ok(lcxl2_empty_board(), 56);
            lemma_lcxl2_payloads_ok(lcxl2_push_batch(lcxl2_empty_board(), lcxl2_clear_board()));
            lemma_lcxl2_connect_batch_len(56);
        }
        let frame = match s.push() {
            Ok(Some(b)) => b,
            _ => unreached(),
        };
        let mut frames: Vec<Vec<u8>> = Vec::new();
        frames.push(frame);
        (s, frames)
    }

    /// Queues a full clear and pushes it, so the device is left fully off;
    /// when everything was already off, nothing needs transmitting.
    fn close(&mut self) -> (r: Result<Option<Vec<u8>>, MidiDriverError>)
        ensures
            forall|a: int| 0 <= a < 56 ==> (#[trigger] final(self).que()[a]) is None,
            forall|a: int|
                0 <= a < 56 ==> (#[trigger] final(self).eff()[a]) == lcxl2_push_effective(
                    old(self).eff(),
                    lcxl2_clear_board(),
                    a,
                ),
            final(self).phys() == old(self).phys(),
            r matches Ok(f) && {
                let batch = lcxl2_push_batch(old(self).eff(), lcxl2_clear_board());
                &&& batch.len() > 0 ==> (f matches Some(b) && b@ == lcxl2_frame(batch))
                &&& batch.len() == 0 ==> f is None
            },
    {
        self.clear();
        proof {
            assert(self.que() =~= lcxl2_clear_board());
            lemma_lcxl2_clear_batch_ok(self.eff(), 56);
            lemma_lcxl2_payloads_ok(lcxl2_push_batch(self.eff(), lcxl2_clear_board()));
        }
        self.push()
    }

    /// Returns the binary events in arrival order followed by the coalesced
    /// analog events (one per address, most recent value, ascending
    /// address), dropping frames for controls the device does not have, and
    /// records every returned event in the physical-state cache.
    fn read(&mut self, incoming: Vec<LCXL2InputMessage>) -> (out: Vec<LCXL2InputMessage>)
        ensures
            final(self).eff() == old(self).eff(),
            final(self).que() == old(self).que(),
            final(self).phys().len() == 56,
            forall|a: int|
                0 <= a < 56 ==> (#[trigger] final(self).phys()[a]) == lcxl2_read_phys_at(
                    old(self).phys(),
                    incoming@,
                    a,
                ),
            out@ == lcxl2_filter_binary(incoming@) + lcxl2_analog_tail(incoming@, 56),
    {
        let ghost phys0 = self.phys();
        let mut out: Vec<LCXL2InputMessage> = Vec::new();
        let mut analog: Vec<Option<LCXL2InputMessage>> = Vec::new();
        let mut k: usize = 0;
        while k < 56
            invariant
                k <= 56,
                analog@.len() == k as int,
                forall|j: int| 0 <= j < k ==> (#[trigger] analog@[j]) is None,
            decreases 56 - k,
        {
            analog.push(None);
            k = k + 1;
        }

        let n = incoming.len();
        let mut i: usize = 0;
        while i < n
            invariant
                i <= n,
                n == incoming@.len(),
                analog@.len() == 56,
                lcxl2_board_wf(self.eff()),
                lcxl2_board_wf(self.que()),
                self.eff() == old(self).eff(),
                self.que() == old(self).que(),
                phys0.len() == 56,
                self.phys() == lcxl2_binary_phys(phys0, incoming@.take(i as int)),
                self.phys().len() == 56,
                forall|j: int|
                    0 <= j < 56 ==> (#[trigger] analog@[j]) == lcxl2_last_analog(
                        incoming@.take(i as int),
                        j as u8,
                    ),
                out@ == lcxl2_filter_binary(incoming@.take(i as int)),
            decreases n - i,
        {
            let msg = incoming[i];
            proof {
                assert(incoming@.take(i + 1).drop_last() =~= incoming@.take(i as int));
                assert(incoming@.take(i + 1).last() == incoming@[i as int]);
            }
            match &msg {
                LCXL2InputMessage::Analog(p, _) => {
                    match p.to_raw() {
                        Ok(r) => {
                            analog.set(r as usize, Some(msg));
                        },
                        Err(_) => {},
                    }
                },
                LCXL2InputMessage::KeyPressed(p) => {
                    match p.to_raw() {
                        Ok(r) => {
                            self.physical.set(r as usize, MidiPhysicalState::Binary(true));
                            out.push(msg);
                        },
                        Err(_) => {},
                    }
                },
                LCXL2InputMessage::KeyReleased(p) => {
                    match p.to_raw() {
                        Ok(r) => {
                            self.physical.set(r as usize, MidiPhysicalState::Binary(false));
                            out.push(msg);
                        },
                        Err(_) => {},
                    }
                },
            }
            i = i + 1;
        }
        proof {
            assert(incoming@.take(n as int) =~= incoming@);
        }

        let mut a: usize = 0;
        while a < 56
            invariant
                a <= 56,
                analog@.len() == 56,
                lcxl2_board_wf(self.eff()),
                lcxl2_board_wf(self.que()),
                self.eff() == old(self).eff(),
                self.que() == old(self).que(),
                phys0.len() == 56,
                self.phys().len() == 56,
                forall|j: int|
                    0 <= j < 56 ==> (#[trigger] analog@[j]) == lcxl2_last_analog(
                        incoming@,
                        j as u8,
                    ),
                forall|j: int|
                    0 <= j < a ==> (#[trigger] self.phys()[j]) == lcxl2_read_phys_at(
                        phys0,
                        incoming@,
                        j,
                    ),
                forall|j: int|
                    a <= j < 56 ==> (#[trigger] self.phys()[j]) == lcxl2_binary_phys(
                        phys0,
                        incoming@,
                    )[j],
                out@ == lcxl2_filter_binary(incoming@) + lcxl2_analog_tail(incoming@, a as int),
            decreases 56 - a,
        {
            match analog[a] {
                Some(m) => {
                    proof {
                        lemma_lcxl2_last_analog(incoming@, a as u8);
                    }
                    match &m {
                        LCXL2InputMessage::Analog(_, v) => {
                            self.physical.set(a, MidiPhysicalState::Analog8(*v));
                            out.push(m);
                        },
                        _ => {
                            proof {
                                assert(false);
                            }
                        },
                    }
                },
                None => {},
            }
            a = a + 1;
        }
        out
    }

    /// The cached physical state of the control at `pos`: a byte for the
    /// analog-capable controls, pressed/released for the buttons.
    fn get_position_state(&self, pos: LCXL2Position) -> (r: Result<
        MidiPhysicalState,
        MidiDriverError,
    >)
        ensures
            pos.spec_raw() matches Some(a) ==> r == Ok::<MidiPhysicalState, MidiDriverError>(
                self.phys()[a as int],
            ),
            pos.spec_raw() is None ==> (r matches Err(e) && e is InvalidPosition),
    {
        match pos.to_raw() {
            Ok(raw) => Ok(self.physical[raw as usize]),
            Err(e) => Err(e),
        }
    }

    /// Discards every queued visual without transmitting anything.
    fn pop(&mut self)
        ensures
            forall|a: int| 0 <= a < 56 ==> (#[trigger] final(self).que()[a]) is None,
            final(self).eff() == old(self).eff(),
            final(self).phys() == old(self).phys(),
    {
        let mut a: usize = 0;
        while a < 56
            invariant
                a <= 56,
                lcxl2_board_wf(self.eff()),
                self.que().len() == 56,
                self.phys().len() == 56,
                self.eff() == old(self).eff(),
                self.phys() == old(self).phys(),
                forall|j: int| 0 <= j < a ==> (#[trigger] self.que()[j]) is None,
            decreases 56 - a,
        {
            self.queued.set(a, None);
            a = a + 1;
        }
    }

    /// Diffs the queued map against the effective one. When every batched
    /// visual encodes, the effective map is updated to what is transmitted,
    /// the queue is emptied, and the frame is returned — `None` when the
    /// batch was empty, since this device skips empty transmissions. A
    /// batched visual with an out-of-range colour channel fails the whole
    /// push and changes nothing.
    fn push(&mut self) -> (r: Result<Option<Vec<u8>>, MidiDriverError>)
        ensures
            lcxl2_payloads(lcxl2_push_batch(old(self).eff(), old(self).que())) is Ok ==> {
                let batch = lcxl2_push_batch(old(self).eff(), old(self).que());
                &&& forall|a: int| 0 <= a < 56 ==> (#[trigger] final(self).que()[a]) is None
                &&& forall|a: int|
                    0 <= a < 56 ==> (#[trigger] final(self).eff()[a]) == lcxl2_push_effective(
                        old(self).eff(),
                        old(self).que(),
                        a,
                    )
                &&& final(self).phys() == old(self).phys()
                &&& r matches Ok(f) && {
                    &&& batch.len() > 0 ==> (f matches Some(b) && b@ == lcxl2_frame(batch))
                    &&& batch.len() == 0 ==> f is None
                }
            },
            lcxl2_payloads(lcxl2_push_batch(old(self).eff(), old(self).que())) is Err ==> {
                &&& final(self).eff() == old(self).eff()
                &&& final(self).que() == old(self).que()
                &&& final(self).phys() == old(self).phys()
                &&& r matches Err(e) && e is InvalidVisual
            },
    {
        let ghost eff0 = self.eff();
        let ghost que0 = self.que();
        let mut batch: Vec<LCXL2Visual> = Vec::new();
        let mut a: usize = 0;
        while a < 56
            invariant
                a <= 56,
                lcxl2_board_wf(eff0),
                lcxl2_board_wf(que0),
                self.eff() == eff0,
                self.que() == que0,
                self.phys() == old(self).phys(),
                self.phys().len() == 56,
                batch@ == lcxl2_push_batch_upto(eff0, que0, a as int),
            decreases 56 - a,
        {
            match self.queued[a] {
                Some(v) => {
                    let absorbed = match &self.effective[a] {
                        Some(e) => v.is_absorbed(e),
                        None => false,
                    };
                    if !absorbed {
                        batch.push(v);
                    }
                },
                None => {},
            }
            proof {
                assert(batch@ =~= lcxl2_push_batch_upto(eff0, que0, a + 1));
            }
            a = a + 1;
        }
        match lcxl2_encode_colors(&batch) {
            Err(e) => {
                proof {
                    lemma_lcxl2_push_batch_valid(eff0, que0, 56);
                    lemma_lcxl2_payloads_err_kind(batch@);
                }
                Err(e)
            },
            Ok(frame) => {
                let mut b: usize = 0;
                while b < 56
                    invariant
                        b <= 56,
                        lcxl2_board_wf(eff0),
                        lcxl2_board_wf(que0),
                        lcxl2_board_wf(self.eff()),
                        self.que() == que0,
                        self.phys() == old(self).phys(),
                        self.phys().len() == 56,
                        forall|j: int| b <= j < 56 ==> (#[trigger] self.eff()[j]) == eff0[j],
                        forall|j: int|
                            0 <= j < b ==> (#[trigger] self.eff()[j]) == lcxl2_push_effective(
                                eff0,
                                que0,
                                j,
                            ),
                    decreases 56 - b,
                {
                    match self.queued[b] {
                        Some(v) => {
                            let absorbed = match &self.effective[b] {
                                Some(e) => v.is_absorbed(e),
                                None => false,
                            };
                            if !absorbed {
                                self.effective.set(b, Some(v));
                            }
                        },
                        None => {},
                    }
                    b = b + 1;
                }
                self.pop();
                if batch.len() == 0 {
                    Ok(None)
                } else {
                    Ok(Some(frame))
                }
            },
        }
    }

    /// Queues the off visual for every LED of the device; nothing is
    /// transmitted until the next `push`.
    fn clear(&mut self)
        ensures
            forall|a: int| 0 <= a < 56 ==> (#[trigger] final(self).que()[a]) == lcxl2_clear_entry(
                a,
            ),
            final(self).eff() == old(self).eff(),
            final(self).phys() == old(self).phys(),
    {
        self.pop();
        let mut a: usize = 0;
        while a < 48
            invariant
                a <= 48,
                lcxl2_board_wf(self.eff()),
                self.que().len() == 56,
                self.phys().len() == 56,
                self.eff() == old(self).eff(),
                self.phys() == old(self).phys(),
                forall|j: int| 0 <= j < a ==> (#[trigger] self.que()[j]) == lcxl2_clear_entry(j),
                forall|j: int| a <= j < 56 ==> (#[trigger] self.que()[j]) is None,
            decreases 48 - a,
        {
            self.queued.set(a, Some(LCXL2Visual::Off(LCXL2Position::Raw(a as u8))));
            a = a + 1;
        }
    }

    /// Queues one visual under its raw address, overwriting whatever was
    /// queued there this cycle; visuals whose position names no control of
    /// the device are rejected and change nothing.
    fn add(&mut self, visual: LCXL2Visual) -> (r: Result<(), MidiDriverError>)
        ensures
            final(self).eff() == old(self).eff(),
            final(self).phys() == old(self).phys(),
            visual.spec_raw() matches Some(a) ==> r is Ok && final(self).que() == old(self)
                .que().update(a as int, Some(visual)),
            visual.spec_raw() is None ==> (r matches Err(e) && e is InvalidPosition
                && final(self).que() == old(self).que()),
    {
        match visual.get_raw_pos() {
            Ok(raw) => {
                self.queued.set(raw as usize, Some(visual));
                Ok(())
            },
            Err(e) => Err(e),
        }
    }
}

} // verus!
