//! The device set: every slot the driver exposes, with wait-for-any.
//!
//! The set owns the fixed slot table — all keyboards, then all mice — and
//! the matching wait signals. Slots may be individually absent: all slots
//! are attempted at construction, slot 0 failing to open is fatal, and
//! any other slot that fails to open is recorded as absent and skipped
//! from then on. `wait` returns one ready device per call; a device reads
//! as ready exactly while unread events remain queued, so a caller must
//! drain a device before relying on its signal clearing.

use vstd::prelude::*;

use crate::device::{Device, MAX_DEVICES, MAX_KEYBOARD};
use crate::error::{InterceptionError, WaitError};
use crate::stroke::Precedence;

verus! {

/// What the device set does with one slot once its open attempt has
/// resolved.
#[derive(Debug, Clone, Copy, PartialEq, Eq, Structural)]
pub enum SlotPolicy {
    /// The slot opened: keep its device in the table.
    Present,
    /// The slot failed to open and is optional: record it as absent.
    Absent,
    /// The mandatory slot failed to open: the driver is not installed,
    /// and construction of the whole set fails.
    Fatal,
}

/// The per-slot construction policy: a slot that opened is kept, slot 0
/// failing to open is fatal, and any other slot that fails to open is
/// tolerated and recorded as absent.
pub fn slot_open_policy(index: usize, opened: bool) -> (r: SlotPolicy)
    ensures
        opened ==> r == SlotPolicy::Present,
        !opened && index == 0 ==> r == SlotPolicy::Fatal,
        !opened && index > 0 ==> r == SlotPolicy::Absent,
{
    if opened {
        SlotPolicy::Present
    } else if index == 0 {
        SlotPolicy::Fatal
    } else {
        SlotPolicy::Absent
    }
}

/// Resolve the slot index a wait selection reported: a present slot's
/// index passes through, and an index whose slot is absent is rejected
/// with `InvalidDevice` rather than dereferenced.
pub fn resolve_selected_slot(present: bool, index: usize) -> (r: Result<usize, InterceptionError>)
    ensures
        present ==> r == Ok::<usize, InterceptionError>(index),
        !present ==> r == Err::<usize, InterceptionError>(InterceptionError::InvalidDevice),
{
    if present {
        Ok(index)
    } else {
        Err(InterceptionError::InvalidDevice)
    }
}

/// The full table of device slots and their wait signals.
#[derive(Debug)]
pub struct Interception {
    /// The slot table: keyboards in slots 0..10, mice in slots 10..20,
    /// with `None` for a slot recorded as absent.
    pub devices: Vec<Option<Device>>,
}

impl Interception {
    /// Whether slot `i` holds a device.
    pub open spec fn spec_present(&self, i: int) -> bool {
        self.devices@[i] is Some
    }

    /// The slot table is complete and correctly laid out: every slot
    /// exists, the mandatory slot 0 is present, keyboards come first,
    /// then mice, and each present device keeps a whole-record queue.
    pub open spec fn wf(&self) -> bool {
        &&& self.devices@.len() == MAX_DEVICES
        &&& self.devices@[0] is Some
        &&& forall|i: int|
            0 <= i < MAX_KEYBOARD ==> ((#[trigger] self.devices@[i]) matches Some(d) ==> d
                is Keyboard)
        &&& forall|i: int|
            MAX_KEYBOARD <= i < MAX_DEVICES ==> ((#[trigger] self.devices@[i]) matches Some(d)
                ==> d is Mouse)
        &&& forall|i: int|
            0 <= i < MAX_DEVICES ==> ((#[trigger] self.devices@[i]) matches Some(d) ==> d.wf())
    }

    /// Whether slot `i`'s wait signal reads as set: the slot is present
    /// and unread events remain. An absent slot's signal is never bound,
    /// so it never reads as set.
    pub open spec fn spec_ready(&self, i: int) -> bool {
        self.devices@[i] matches Some(d) && d.spec_pending().len() > 0
    }

    /// The first ready slot at or after `i`, if any.
    pub open spec fn first_ready_from(&self, i: int) -> Option<int>
        decreases self.devices@.len() - i,
    {
        if i < 0 || i >= self.devices@.len() {
            None
        } else if self.spec_ready(i) {
            Some(i)
        } else {
            self.first_ready_from(i + 1)
        }
    }

    /// The slot a wait call selects: the lowest ready slot, if any is
    /// ready. Which of several simultaneously ready devices a live OS
    /// wait primitive returns is implementation-defined, not
    /// precedence-ordered; this model fixes the lowest index.
    pub open spec fn spec_first_ready(&self) -> Option<int> {
        self.first_ready_from(0)
    }

    /// Open every slot of the table: keyboards in slots 0..10, mice in
    /// slots 10..20, each with a fresh channel. In-memory channels always
    /// open, so every slot comes up present; a live binding records a
    /// slot as absent where `slot_open_policy` says so.
    pub fn new() -> (r: Result<Self, InterceptionError>)
        ensures
            r matches Ok(s) && s.wf() && s.devices@.len() == MAX_DEVICES && forall|i: int|
                0 <= i < MAX_DEVICES ==> ((#[trigger] s.devices@[i]) matches Some(d)
                    && d.spec_filter() == 0 && d.spec_precedence() == 0 && d.spec_pending()
                    == Seq::<u8>::empty()),
    {
        let mut devices: Vec<Option<Device>> = Vec::new();
        let mut i: usize = 0;
        while i < MAX_DEVICES
            invariant
                i <= MAX_DEVICES,
                devices@.len() == i,
                forall|j: int|
                    0 <= j < i && j < MAX_KEYBOARD ==> ((#[trigger] devices@[j]) matches Some(d)
                        ==> d is Keyboard),
                forall|j: int|
                    MAX_KEYBOARD <= j < i ==> ((#[trigger] devices@[j]) matches Some(d) ==> d
                        is Mouse),
                forall|j: int|
                    0 <= j < i ==> ((#[trigger] devices@[j]) matches Some(d) && d.wf()
                        && d.spec_filter() == 0 && d.spec_precedence() == 0 && d.spec_pending()
                        == Seq::<u8>::empty()),
            decreases MAX_DEVICES - i,
        {
            match Device::new(i) {
                Ok(d) => devices.push(Some(d)),
                Err(e) => {
                    return Err(e);
                },
            }
            i = i + 1;
        }
        Ok(Interception { devices })
    }

    /// Apply one precedence to every present device; absent slots are
    /// skipped, not errored, and stay absent. Nothing else of any device
    /// changes.
    pub fn set_precedence(&mut self, precedence: Precedence) -> (r: Result<
        (),
        InterceptionError,
    >)
        ensures
            r is Ok,
            final(self).devices@.len() == old(self).devices@.len(),
            forall|i: int|
                0 <= i < old(self).devices@.len() ==> {
                    &&& ((#[trigger] old(self).devices@[i]) is None ==> final(self).devices@[i]
                        is None)
                    &&& (old(self).devices@[i] matches Some(d) ==> (final(self).devices@[i]
                        matches Some(nd) && nd.spec_precedence() == precedence && nd.spec_filter()
                        == d.spec_filter() && nd.spec_pending() == d.spec_pending() && (nd
                        is Keyboard <==> d is Keyboard) && (d.wf() ==> nd.wf())))
                },
            old(self).wf() ==> final(self).wf(),
    {
        let n = self.devices.len();
        let mut i: usize = 0;
        while i < n
            invariant
                n == self.devices@.len(),
                i <= n,
                self.devices@.len() == old(self).devices@.len(),
                forall|j: int|
                    0 <= j < i ==> {
                        &&& ((#[trigger] old(self).devices@[j]) is None ==> self.devices@[j]
                            is None)
                        &&& (old(self).devices@[j] matches Some(d) ==> (self.devices@[j]
                            matches Some(nd) && nd.spec_precedence() == precedence
                            && nd.spec_filter() == d.spec_filter() && nd.spec_pending()
                            == d.spec_pending() && (nd is Keyboard <==> d is Keyboard) && (d.wf()
                            ==> nd.wf())))
                    },
                forall|j: int|
                    i <= j < n ==> (#[trigger] self.devices@[j]) == old(self).devices@[j],
            decreases n - i,
        {
            match &mut self.devices[i] {
                Some(d) => {
                    match d.set_precedence(precedence) {
                        Ok(()) => (),
                        Err(e) => {
                            return Err(e);
                        },
                    }
                },
                None => (),
            }
            i = i + 1;
        }
        proof {
            if old(self).wf() {
                assert(old(self).devices@[0] is Some);
                assert forall|j: int|
                    0 <= j < MAX_DEVICES implies ((#[trigger] self.devices@[j]) matches Some(nd)
                    ==> {
                        &&& (j < MAX_KEYBOARD ==> nd is Keyboard)
                        &&& (MAX_KEYBOARD <= j ==> nd is Mouse)
                        &&& nd.wf()
                    }) by {
                    assert(old(self).devices@[j] is Some || old(self).devices@[j] is None);
                }
            }
        }
        Ok(())
    }

    /// Block until one device is ready, or until the timeout elapses.
    ///
    /// Returns the slot index of exactly one ready device — the lowest,
    /// in this model — or `WaitTimeout` when none is ready. A returned
    /// slot is always present: an absent slot's signal never reads as
    /// set. In this in-memory model no event can arrive while the call
    /// runs, so an unbounded wait with nothing queued reports the timeout
    /// outcome rather than blocking forever.
    pub fn wait(&self, timeout: Option<u32>) -> (r: Result<usize, WaitError>)
        ensures
            self.spec_first_ready() matches Some(i) ==> r == Ok::<usize, WaitError>(i as usize)
                && self.spec_present(i),
            self.spec_first_ready() is None ==> r == Err::<usize, WaitError>(
                WaitError::WaitTimeout,
            ),
    {
        let _ = timeout;
        let n = self.devices.len();
        let mut i: usize = 0;
        while i < n
            invariant
                n == self.devices@.len(),
                i <= n,
                forall|j: int| 0 <= j < i ==> !self.spec_ready(j),
            decreases n - i,
        {
            let ready = match &self.devices[i] {
                Some(d) => d.signaled(),
                None => false,
            };
            if ready {
                proof {
                    self.lemma_first_ready_from_advance(0, i as int);
                }
                return Ok(i);
            }
            i = i + 1;
        }
        proof {
            self.lemma_first_ready_from_advance(0, n as int);
        }
        Err(WaitError::WaitTimeout)
    }

    /// Scanning past slots that are not ready does not change which slot
    /// is selected.
    proof fn lemma_first_ready_from_advance(&self, k: int, i: int)
        requires
            0 <= k <= i <= self.devices@.len(),
            forall|j: int| k <= j < i ==> !self.spec_ready(j),
        ensures
            self.first_ready_from(k) == self.first_ready_from(i),
        decreases i - k,
    {
        if k < i {
            self.lemma_first_ready_from_advance(k + 1, i);
        }
    }

    /// What a wait selection means: when a slot is selected it is present
    /// and ready and every lower slot is not ready, and when none is
    /// selected no slot of the table is ready.
    pub proof fn lemma_first_ready_characterization(&self)
        ensures
            self.spec_first_ready() matches Some(i) ==> 0 <= i < self.devices@.len()
                && self.spec_ready(i) && self.spec_present(i) && forall|j: int|
                0 <= j < i ==> !self.spec_ready(j),
            self.spec_first_ready() is None ==> forall|j: int|
                0 <= j < self.devices@.len() ==> !self.spec_ready(j),
    {
        self.lemma_first_ready_from_characterization(0);
    }

    /// As above, for the scan starting at slot `k`.
    proof fn lemma_first_ready_from_characterization(&self, k: int)
        requires
            0 <= k <= self.devices@.len(),
        ensures
            self.first_ready_from(k) matches Some(i) ==> k <= i < self.devices@.len()
                && self.spec_ready(i) && forall|j: int| k <= j < i ==> !self.spec_ready(j),
            self.first_ready_from(k) is None ==> forall|j: int|
                k <= j < self.devices@.len() ==> !self.spec_ready(j),
        decreases self.devices@.len() - k,
    {
        if k < self.devices@.len() && !self.spec_ready(k) {
            self.lemma_first_ready_from_characterization(k + 1);
        }
    }

    /// Two devices ready at once are returned by two consecutive wait
    /// calls exactly once each: the first call selects one of the two,
    /// and — once that device has been drained — the second call selects
    /// the other, so no device is returned twice before the other has
    /// been returned once.
    ///
    /// `pre` is the state with exactly slots `a` and `b` ready; `drained`
    /// is the state after the first selected device (slot `a`, the lower)
    /// has been read empty, with every other slot untouched.
    pub proof fn lemma_wait_two_ready_each_once(pre: &Interception, drained: &Interception, a: int, b: int)
        requires
            pre.devices@.len() == drained.devices@.len(),
            0 <= a < b < pre.devices@.len(),
            pre.spec_ready(a),
            pre.spec_ready(b),
            forall|j: int|
                0 <= j < pre.devices@.len() && j != a && j != b ==> !(#[trigger] pre.spec_ready(
                    j,
                )),
            !drained.spec_ready(a),
            forall|j: int|
                0 <= j < drained.devices@.len() && j != a ==> (#[trigger] drained.spec_ready(j))
                    == pre.spec_ready(j),
        ensures
            pre.spec_first_ready() == Some(a),
            drained.spec_first_ready() == Some(b),
    {
        pre.lemma_first_ready_from_advance(0, a);
        drained.lemma_first_ready_from_advance(0, b);
    }
}

} // verus!
