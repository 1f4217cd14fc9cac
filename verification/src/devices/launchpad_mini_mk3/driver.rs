//! The pad's driver: effective, queued and physical state per raw address,
//! and the diffing engine that computes each minimal colour-update frame.
//!
//! The three maps are dense, indexed by raw address (`0..100`); addresses
//! the device does not have stay `None`. The driver never touches a
//! transport: `connect` and `push` return the frames to transmit and `read`
//! takes the events that the hardware callback decoded.

use vstd::prelude::*;

use crate::devices::launchpad_mini_mk3::input::LPM3InputMessage;
use crate::devices::launchpad_mini_mk3::lpm3_raw_valid;
use crate::devices::launchpad_mini_mk3::output::lpm3_encode_colors;
use crate::devices::launchpad_mini_mk3::output::lpm3_frame;
use crate::devices::launchpad_mini_mk3::output::lpm3_payloads;
use crate::devices::launchpad_mini_mk3::output::LPM3OutputMessage;
use crate::devices::launchpad_mini_mk3::visual::lpm3_visual_eq;
use crate::devices::launchpad_mini_mk3::visual::LPM3Visual;
use crate::devices::launchpad_mini_mk3::LPM3Position;
use crate::MidiDriver;
use crate::MidiDriverError;
use crate::MidiPhysicalState;
use crate::MidiPhysicalPosition;
use crate::MidiVisual;

verus! {

/// One dense visual map of the pad: a slot per raw address, `None` where no
/// visual is recorded. A well-formed board only records visuals at the
/// addresses the device has, each carrying the position it is stored under.
pub open spec fn lpm3_board_wf(s: Seq<Option<LPM3Visual>>) -> bool {
    &&& s.len() == 100
    &&& forall|a: int|
        0 <= a < 100 ==> ((#[trigger] s[a]) matches Some(v) ==> lpm3_raw_valid(a as u8)
            && v.spec_raw() == Some(a as u8))
}

/// The board with nothing recorded.
pub open spec fn lpm3_empty_board() -> Seq<Option<LPM3Visual>> {
    Seq::new(100, |a: int| None)
}

/// What `clear` queues at address `a`: the off visual on every control the
/// device has.
pub open spec fn lpm3_clear_entry(a: int) -> Option<LPM3Visual> {
    if 0 <= a < 100 && lpm3_raw_valid(a as u8) {
        Some(LPM3Visual::Off(LPM3Position::Raw(a as u8)))
    } else {
        None
    }
}

/// The queue after a `clear`: off everywhere.
pub open spec fn lpm3_clear_board() -> Seq<Option<LPM3Visual>> {
    Seq::new(100, |a: int| lpm3_clear_entry(a))
}

/// Absorption against the effective map: a queued visual is redundant
/// exactly when an equal visual is already effective at its address.
pub open spec fn lpm3_absorbed(v: LPM3Visual, current: Option<LPM3Visual>) -> bool {
    current matches Some(e) && lpm3_visual_eq(v, e)
}

/// The batch `push` transmits, restricted to addresses below `n`: the
/// queued visuals that are not absorbed, in ascending address order.
pub open spec fn lpm3_push_batch_upto(
    eff: Seq<Option<LPM3Visual>>,
    que: Seq<Option<LPM3Visual>>,
    n: int,
) -> Seq<LPM3Visual>
    decreases n,
{
    if n <= 0 {
        Seq::empty()
    } else {
        lpm3_push_batch_upto(eff, que, n - 1) + (match que[n - 1] {
            Some(v) => if !lpm3_absorbed(v, eff[n - 1]) {
                seq![v]
            } else {
                Seq::empty()
            },
            None => Seq::empty(),
        })
    }
}

/// The batch `push` transmits.
pub open spec fn lpm3_push_batch(
    eff: Seq<Option<LPM3Visual>>,
    que: Seq<Option<LPM3Visual>>,
) -> Seq<LPM3Visual> {
    lpm3_push_batch_upto(eff, que, 100)
}

/// The effective visual at `a` after a `push`: the queued visual where one
/// was transmitted, the previous one everywhere else.
pub open spec fn lpm3_push_effective(
    eff: Seq<Option<LPM3Visual>>,
    que: Seq<Option<LPM3Visual>>,
    a: int,
) -> Option<LPM3Visual> {
    match que[a] {
        Some(v) => if !lpm3_absorbed(v, eff[a]) {
            Some(v)
        } else {
            eff[a]
        },
        None => eff[a],
    }
}

/// The frame that disables the pad's DAW mode, sent once at connect time.
pub open spec fn lpm3_daw_off_frame() -> Seq<u8> {
    seq![240u8, 0u8, 32u8, 41u8, 2u8, 13u8, 16u8, 0u8, 247u8]
}

/// The physical state a binary input event leaves behind.
pub open spec fn lpm3_msg_state(m: LPM3InputMessage) -> MidiPhysicalState {
    match m {
        LPM3InputMessage::KeyPressed(_) => MidiPhysicalState::Binary(true),
        LPM3InputMessage::KeyReleased(_) => MidiPhysicalState::Binary(false),
    }
}

/// The events `read` returns: the incoming events in arrival order, with
/// those whose position names no control of the device dropped as noise.
pub open spec fn lpm3_read_events(msgs: Seq<LPM3InputMessage>) -> Seq<LPM3InputMessage>
    decreases msgs.len(),
{
    if msgs.len() == 0 {
        Seq::empty()
    } else {
        lpm3_read_events(msgs.drop_last()) + (if msgs.last().spec_raw() is Some {
            seq![msgs.last()]
        } else {
            Seq::empty()
        })
    }
}

/// The physical-state map after `read` has folded the incoming events over
/// it, in arrival order.
pub open spec fn lpm3_read_phys(
    phys: Seq<MidiPhysicalState>,
    msgs: Seq<LPM3InputMessage>,
) -> Seq<MidiPhysicalState>
    decreases msgs.len(),
{
    if msgs.len() == 0 {
        phys
    } else {
        let prev = lpm3_read_phys(phys, msgs.drop_last());
        match msgs.last().spec_raw() {
            Some(a) => prev.update(a as int, lpm3_msg_state(msgs.last())),
            None => prev,
        }
    }
}

/// Every visual in a push batch built from a well-formed queue has a valid
/// position.
pub proof fn lemma_lpm3_push_batch_valid(
    eff: Seq<Option<LPM3Visual>>,
    que: Seq<Option<LPM3Visual>>,
    n: int,
)
    requires
        lpm3_board_wf(que),
        n <= 100,
    ensures
        forall|i: int|
            0 <= i < lpm3_push_batch_upto(eff, que, n).len() ==> (#[trigger] lpm3_push_batch_upto(
                eff,
                que,
                n,
            )[i]).spec_raw() is Some,
    decreases n,
{
    if n > 0 {
        lemma_lpm3_push_batch_valid(eff, que, n - 1);
    }
}

/// A batch of visuals with valid positions always encodes.
pub proof fn lemma_lpm3_payloads_ok(s: Seq<LPM3Visual>)
    requires
        forall|i: int| 0 <= i < s.len() ==> (#[trigger] s[i]).spec_raw() is Some,
    ensures
        lpm3_payloads(s) is Ok,
    decreases s.len(),
{
    if s.len() > 0 {
        lemma_lpm3_payloads_ok(s.drop_last());
    }
}

/// How many visuals of a batch apply to address `a`.
pub open spec fn lpm3_addr_count(s: Seq<LPM3Visual>, a: u8) -> nat
    decreases s.len(),
{
    if s.len() == 0 {
        0
    } else {
        lpm3_addr_count(s.drop_last(), a) + (if s.last().spec_raw() == Some(a) {
            1nat
        } else {
            0nat
        })
    }
}

proof fn lemma_lpm3_batch_at_addr(
    eff: Seq<Option<LPM3Visual>>,
    que: Seq<Option<LPM3Visual>>,
    n: int,
    a: int,
    v: LPM3Visual,
)
    requires
        lpm3_board_wf(que),
        n <= 100,
        0 <= a < 100,
        que[a] == Some(v),
    ensures
        lpm3_addr_count(lpm3_push_batch_upto(eff, que, n), a as u8) == (if a < n
            && !lpm3_absorbed(v, eff[a]) {
            1int
        } else {
            0int
        }),
        a < n && !lpm3_absorbed(v, eff[a]) ==> lpm3_push_batch_upto(eff, que, n).contains(v),
    decreases n,
{
    if n > 0 {
        lemma_lpm3_batch_at_addr(eff, que, n - 1, a, v);
        let prefix = lpm3_push_batch_upto(eff, que, n - 1);
        let whole = lpm3_push_batch_upto(eff, que, n);
        match que[n - 1] {
            Some(w) => {
                if !lpm3_absorbed(w, eff[n - 1]) {
                    assert(whole =~= prefix.push(w));
                    assert(whole.drop_last() =~= prefix);
                    if a < n - 1 && !lpm3_absorbed(v, eff[a]) {
                        let i = choose|i: int| 0 <= i < prefix.len() && prefix[i] == v;
                        assert(whole[i] == v);
                    }
                    if a == n - 1 {
                        assert(whole.last() == v);
                    }
                } else {
                    assert(whole =~= prefix);
                }
            },
            None => {
                assert(whole =~= prefix);
            },
        }
    }
}

/// A queued visual equal to the one already effective at its address is
/// absorbed: the push batch carries nothing for that address, and the
/// effective visual there stays what it was.
pub proof fn lemma_lpm3_push_absorbed_silent(
    eff: Seq<Option<LPM3Visual>>,
    que: Seq<Option<LPM3Visual>>,
    a: int,
    v: LPM3Visual,
)
    requires
        lpm3_board_wf(eff),
        lpm3_board_wf(que),
        0 <= a < 100,
        que[a] == Some(v),
        lpm3_absorbed(v, eff[a]),
    ensures
        lpm3_addr_count(lpm3_push_batch(eff, que), a as u8) == 0,
        lpm3_push_effective(eff, que, a) == eff[a],
{
    lemma_lpm3_batch_at_addr(eff, que, 100, a, v);
}

/// A queued visual that differs from the effective one is transmitted
/// exactly once, and becomes the effective visual of its address.
pub proof fn lemma_lpm3_push_transmits_once(
    eff: Seq<Option<LPM3Visual>>,
    que: Seq<Option<LPM3Visual>>,
    a: int,
    v: LPM3Visual,
)
    requires
        lpm3_board_wf(eff),
        lpm3_board_wf(que),
        0 <= a < 100,
        que[a] == Some(v),
        !lpm3_absorbed(v, eff[a]),
    ensures
        lpm3_addr_count(lpm3_push_batch(eff, que), a as u8) == 1,
        lpm3_push_batch(eff, que).contains(v),
        lpm3_push_effective(eff, que, a) == Some(v),
{
    lemma_lpm3_batch_at_addr(eff, que, 100, a, v);
}

proof fn lemma_lpm3_clear_upto(eff: Seq<Option<LPM3Visual>>, n: int)
    requires
        n <= 100,
        forall|j: int|
            0 <= j < 100 && lpm3_raw_valid(j as u8) ==> !lpm3_absorbed(
                LPM3Visual::Off(LPM3Position::Raw(j as u8)),
                #[trigger] eff[j],
            ),
    ensures
        forall|i: int|
            0 <= i < lpm3_push_batch_upto(eff, lpm3_clear_board(), n).len() ==> ((
            #[trigger] lpm3_push_batch_upto(eff, lpm3_clear_board(), n)[i]) matches
            LPM3Visual::Off(p) && (p matches LPM3Position::Raw(r) && lpm3_raw_valid(r))),
        forall|r: u8|
            lpm3_raw_valid(r) && r < n ==> lpm3_push_batch_upto(
                eff,
                lpm3_clear_board(),
                n,
            ).contains(LPM3Visual::Off(LPM3Position::Raw(r))),
    decreases n,
{
    if n > 0 {
        lemma_lpm3_clear_upto(eff, n - 1);
        let prefix = lpm3_push_batch_upto(eff, lpm3_clear_board(), n - 1);
        let whole = lpm3_push_batch_upto(eff, lpm3_clear_board(), n);
        if lpm3_raw_valid((n - 1) as u8) {
            let w = LPM3Visual::Off(LPM3Position::Raw((n - 1) as u8));
            assert(whole =~= prefix.push(w));
            assert forall|r: u8| lpm3_raw_valid(r) && r < n implies whole.contains(
                LPM3Visual::Off(LPM3Position::Raw(r)),
            ) by {
                if r < n - 1 {
                    let i = choose|i: int|
                        0 <= i < prefix.len() && prefix[i] == LPM3Visual::Off(
                            LPM3Position::Raw(r),
                        );
                    assert(whole[i] == LPM3Visual::Off(LPM3Position::Raw(r)));
                } else {
                    assert(whole.last() == w);
                }
            }
        } else {
            assert(whole =~= prefix);
        }
    }
}

/// After a `clear`, a push against an effective map that absorbs none of
/// it transmits the off visual for exactly the device's full valid address
/// set: every batched visual is an off at a valid address, and every valid
/// address is in the batch.
pub proof fn lemma_lpm3_clear_push_full(eff: Seq<Option<LPM3Visual>>)
    requires
        forall|j: int|
            0 <= j < 100 && lpm3_raw_valid(j as u8) ==> !lpm3_absorbed(
                LPM3Visual::Off(LPM3Position::Raw(j as u8)),
                #[trigger] eff[j],
            ),
    ensures
        forall|i: int|
            0 <= i < lpm3_push_batch(eff, lpm3_clear_board()).len() ==> ((
            #[trigger] lpm3_push_batch(eff, lpm3_clear_board())[i]) matches LPM3Visual::Off(p)
                && (p matches LPM3Position::Raw(r) && lpm3_raw_valid(r))),
        forall|r: u8|
            lpm3_raw_valid(r) ==> lpm3_push_batch(eff, lpm3_clear_board()).contains(
                LPM3Visual::Off(LPM3Position::Raw(r)),
            ),
{
    lemma_lpm3_clear_upto(eff, 100);
}

/// Driver state of one connected pad.
pub struct LPM3Driver {
    effective: Vec<Option<LPM3Visual>>,
    queued: Vec<Option<LPM3Visual>>,
    physical: Vec<MidiPhysicalState>,
}

impl LPM3Driver {
    /// The effective map: the last visual actually transmitted per address.
    pub closed spec fn eff(&self) -> Seq<Option<LPM3Visual>> {
        self.effective@
    }

    /// The queued map: the desired visuals not yet transmitted.
    pub closed spec fn que(&self) -> Seq<Option<LPM3Visual>> {
        self.queued@
    }

    /// The physical-state cache: the last known input value per address.
    pub closed spec fn phys(&self) -> Seq<MidiPhysicalState> {
        self.physical@
    }
}

impl MidiDriver<LPM3InputMessage, LPM3OutputMessage, LPM3Visual, LPM3Position> for LPM3Driver {
    open spec fn wf(&self) -> bool {
        &&& lpm3_board_wf(self.eff())
        &&& lpm3_board_wf(self.que())
        &&& self.phys().len() == 100
    }

    /// A fresh driver whose maps start empty, together with the DAW-mode-off
    /// frame and the full clear frame that force the device fully off.
    fn connect() -> (r: (Self, Vec<Vec<u8>>))
        ensures
            forall|a: int| 0 <= a < 100 ==> (#[trigger] r.0.que()[a]) is None,
            forall|a: int| 0 <= a < 100 ==> (#[trigger] r.0.eff()[a]) == lpm3_clear_entry(a),
            forall|a: int|
                0 <= a < 100 ==> (#[trigger] r.0.phys()[a]) == MidiPhysicalState::Binary(false),
            r.1@.len() == 2,
            r.1@[0]@ == lpm3_daw_off_frame(),
            r.1@[1]@ == lpm3_frame(lpm3_push_batch(lpm3_empty_board(), lpm3_clear_board())),
    {
        let mut effective: Vec<Option<LPM3Visual>> = Vec::new();
        let mut queued: Vec<Option<LPM3Visual>> = Vec::new();
        let mut physical: Vec<MidiPhysicalState> = Vec::new();
        let mut a: usize = 0;
        while a < 100
            invariant
                a <= 100,
                effective@.len() == a as int,
                queued@.len() == a as int,
                physical@.len() == a as int,
                forall|j: int| 0 <= j < a ==> (#[trigger] effective@[j]) is None,
                forall|j: int| 0 <= j < a ==> (#[trigger] queued@[j]) is None,
                forall|j: int|
                    0 <= j < a ==> (#[trigger] physical@[j]) == MidiPhysicalState::Binary(false),
            decreases 100 - a,
        {
            effective.push(None);
            queued.push(None);
            physical.push(MidiPhysicalState::Binary(false));
            a = a + 1;
        }
        let mut s = LPM3Driver { effective, queued, physical };
        let ghost eff0 = s.eff();
        proof {
            assert(eff0 =~= lpm3_empty_board());
        }
        s.clear();
        proof {
            assert(s.que() =~= lpm3_clear_board());
        }
        let frame = match s.push() {
            Ok(Some(b)) => b,
            _ => unreached(),
        };
        let mut daw: Vec<u8> = Vec::new();
        daw.push(240);
        daw.push(0);
        daw.push(32);
        daw.push(41);
        daw.push(2);
        daw.push(13);
        daw.push(16);
        daw.push(0);
        daw.push(247);
        proof {
            assert(daw@ =~= lpm3_daw_off_frame());
        }
        let mut frames: Vec<Vec<u8>> = Vec::new();
        frames.push(daw);
        frames.push(frame);
        (s, frames)
    }

    /// Queues a full clear and pushes it, so the device is left fully off.
    fn close(&mut self) -> (r: Result<Option<Vec<u8>>, MidiDriverError>)
        ensures
            forall|a: int| 0 <= a < 100 ==> (#[trigger] final(self).que()[a]) is None,
            forall|a: int|
                0 <= a < 100 ==> (#[trigger] final(self).eff()[a]) == lpm3_push_effective(
                    old(self).eff(),
                    lpm3_clear_board(),
                    a,
                ),
            final(self).phys() == old(self).phys(),
            r matches Ok(f) && (f matches Some(b) && b@ == lpm3_frame(
                lpm3_push_batch(old(self).eff(), lpm3_clear_board()),
            )),
    {
        self.clear();
        proof {
            assert(self.que() =~= lpm3_clear_board());
        }
        self.push()
    }

    /// Returns the incoming binary events in arrival order, dropping frames
    /// for controls the device does not have, and records each press or
    /// release in the physical-state cache before it is returned.
    fn read(&mut self, incoming: Vec<LPM3InputMessage>) -> (out: Vec<LPM3InputMessage>)
        ensures
            final(self).eff() == old(self).eff(),
            final(self).que() == old(self).que(),
            final(self).phys() == lpm3_read_phys(old(self).phys(), incoming@),
            out@ == lpm3_read_events(incoming@),
    {
        let ghost phys0 = self.phys();
        let mut out: Vec<LPM3InputMessage> = Vec::new();
        let n = incoming.len();
        let mut i: usize = 0;
        while i < n
            invariant
                i <= n,
                n == incoming@.len(),
                lpm3_board_wf(self.eff()),
                lpm3_board_wf(self.que()),
                self.eff() == old(self).eff(),
                self.que() == old(self).que(),
                self.phys() == lpm3_read_phys(phys0, incoming@.take(i as int)),
                phys0.len() == 100,
                self.phys().len() == 100,
                out@ == lpm3_read_events(incoming@.take(i as int)),
            decreases n - i,
        {
            let msg = incoming[i];
            proof {
                assert(incoming@.take(i + 1).drop_last() =~= incoming@.take(i as int));
                assert(incoming@.take(i + 1).last() == incoming@[i as int]);
            }
            let raw = match &msg {
                LPM3InputMessage::KeyPressed(p) => p.to_raw(),
                LPM3InputMessage::KeyReleased(p) => p.to_raw(),
            };
            match raw {
                Ok(r) => {
                    let state = match &msg {
                        LPM3InputMessage::KeyPressed(_) => MidiPhysicalState::Binary(true),
                        LPM3InputMessage::KeyReleased(_) => MidiPhysicalState::Binary(false),
                    };
                    self.physical.set(r as usize, state);
                    out.push(msg);
                },
                Err(_) => {},
            }
            i = i + 1;
        }
        proof {
            assert(incoming@.take(n as int) =~= incoming@);
        }
        out
    }

    /// The cached physical state of the control at `pos`; every control of
    /// this device is binary.
    fn get_position_state(&self, pos: LPM3Position) -> (r: Result<
        MidiPhysicalState,
        MidiDriverError,
    >)
        ensures
            pos.spec_raw() matches Some(a) ==> r == Ok::<MidiPhysicalState, MidiDriverError>(
                self.phys()[a as int],
            ),
            pos.spec_raw() is None ==> (r matches Err(e) && e is InvalidPosition),
    {
        match pos.to_raw() {
            Ok(raw) => Ok(self.physical[raw as usize]),
            Err(e) => Err(e),
        }
    }

    /// Discards every queued visual without transmitting anything.
    fn pop(&mut self)
        ensures
            forall|a: int| 0 <= a < 100 ==> (#[trigger] final(self).que()[a]) is None,
            final(self).eff() == old(self).eff(),
            final(self).phys() == old(self).phys(),
    {
        let mut a: usize = 0;
        while a < 100
            invariant
                a <= 100,
                lpm3_board_wf(self.eff()),
                self.que().len() == 100,
                self.phys().len() == 100,
                self.eff() == old(self).eff(),
                self.phys() == old(self).phys(),
                forall|j: int| 0 <= j < a ==> (#[trigger] self.que()[j]) is None,
            decreases 100 - a,
        {
            self.queued.set(a, None);
            a = a + 1;
        }
    }

    /// Diffs the queued map against the effective one, returns the frame of
    /// the resulting batch (always transmitted, even when empty), updates
    /// the effective map to what was transmitted and empties the queue.
    fn push(&mut self) -> (r: Result<Option<Vec<u8>>, MidiDriverError>)
        ensures
            forall|a: int| 0 <= a < 100 ==> (#[trigger] final(self).que()[a]) is None,
            forall|a: int|
                0 <= a < 100 ==> (#[trigger] final(self).eff()[a]) == lpm3_push_effective(
                    old(self).eff(),
                    old(self).que(),
                    a,
                ),
            final(self).phys() == old(self).phys(),
            r matches Ok(f) && (f matches Some(b) && b@ == lpm3_frame(
                lpm3_push_batch(old(self).eff(), old(self).que()),
            )),
    {
        let ghost eff0 = self.eff();
        let ghost que0 = self.que();
        let mut batch: Vec<LPM3Visual> = Vec::new();
        let mut a: usize = 0;
        while a < 100
            invariant
                a <= 100,
                lpm3_board_wf(eff0),
                lpm3_board_wf(que0),
                lpm3_board_wf(self.eff()),
                self.que() == que0,
                self.phys() == old(self).phys(),
                self.phys().len() == 100,
                forall|j: int| a <= j < 100 ==> (#[trigger] self.eff()[j]) == eff0[j],
                forall|j: int|
                    0 <= j < a ==> (#[trigger] self.eff()[j]) == lpm3_push_effective(
                        eff0,
                        que0,
                        j,
                    ),
                batch@ == lpm3_push_batch_upto(eff0, que0, a as int),
            decreases 100 - a,
        {
            match self.queued[a] {
                Some(v) => {
                    let absorbed = match &self.effective[a] {
                        Some(e) => v.is_absorbed(e),
                        None => false,
                    };
                    if !absorbed {
                        batch.push(v);
                        self.effective.set(a, Some(v));
                    }
                },
                None => {},
            }
            proof {
                assert(batch@ =~= lpm3_push_batch_upto(eff0, que0, a + 1));
            }
            a = a + 1;
        }
        self.pop();
        proof {
            lemma_lpm3_push_batch_valid(eff0, que0, 100);
            lemma_lpm3_payloads_ok(batch@);
        }
        match lpm3_encode_colors(&batch) {
            Ok(frame) => Ok(Some(frame)),
            Err(_) => unreached(),
        }
    }

    /// Queues the off visual for every control the device has; nothing is
    /// transmitted until the next `push`.
    fn clear(&mut self)
        ensures
            forall|a: int| 0 <= a < 100 ==> (#[trigger] final(self).que()[a]) == lpm3_clear_entry(
                a,
            ),
            final(self).eff() == old(self).eff(),
            final(self).phys() == old(self).phys(),
    {
        self.pop();
        let mut a: usize = 0;
        while a < 100
            invariant
                a <= 100,
                lpm3_board_wf(self.eff()),
                self.que().len() == 100,
                self.phys().len() == 100,
                self.eff() == old(self).eff(),
                self.phys() == old(self).phys(),
                forall|j: int| 0 <= j < a ==> (#[trigger] self.que()[j]) == lpm3_clear_entry(j),
                forall|j: int| a <= j < 100 ==> (#[trigger] self.que()[j]) is None,
            decreases 100 - a,
        {
            let r = a as u8;
            if !(r % 10 == 0 || r > 99 || r < 11) {
                self.queued.set(a, Some(LPM3Visual::Off(LPM3Position::Raw(r))));
            }
            a = a + 1;
        }
    }

    /// Queues one visual under its raw address, overwriting whatever was
    /// queued there this cycle; visuals whose position names no control of
    /// the device are rejected and change nothing.
    fn add(&mut self, visual: LPM3Visual) -> (r: Result<(), MidiDriverError>)
        ensures
            final(self).eff() == old(self).eff(),
            final(self).phys() == old(self).phys(),
            visual.spec_raw() matches Some(a) ==> r is Ok && final(self).que() == old(self)
                .que().update(a as int, Some(visual)),
            visual.spec_raw() is None ==> (r matches Err(e) && e is InvalidPosition
                && final(self).que() == old(self).que()),
    {
        match visual.get_raw_pos() {
            Ok(raw) => {
                self.queued.set(raw as usize, Some(visual));
                Ok(())
            },
            Err(e) => Err(e),
        }
    }
}

} // verus!
