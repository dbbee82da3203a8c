use vstd::prelude::*;

use crate::flags::{Flags, ALL_BITS};

verus! {

/// The per-instance slot that holds the continuation of the one task waiting
/// on the peripheral. A new registration replaces the previous one; a wake
/// takes the registration out, so a second wake finds the slot empty.
pub struct WakerSlot<W> {
    waiter: Option<W>,
}

impl<W> View for WakerSlot<W> {
    type V = Option<W>;

    closed spec fn view(&self) -> Option<W> {
        self.waiter
    }
}

impl<W> WakerSlot<W> {
    pub fn new() -> (r: WakerSlot<W>)
        ensures
            r@ == None::<W>,
    {
        WakerSlot { waiter: None }
    }

    /// Stores `waker`, dropping whatever registration was there before.
    pub fn register(&mut self, waker: W)
        ensures
            final(self)@ == Some(waker),
    {
        self.waiter = Some(waker);
    }

    /// Takes the registered continuation out of the slot, if any.
    pub fn take(&mut self) -> (r: Option<W>)
        ensures
            r == old(self)@,
            final(self)@ == None::<W>,
    {
        let mut out: Option<W> = None;
        std::mem::swap(&mut out, &mut self.waiter);
        out
    }

    pub fn is_registered(&self) -> (r: bool)
        ensures
            r == self@ is Some,
    {
        self.waiter.is_some()
    }
}

/// The flags that an interrupt for raw status `status` masks: the pending
/// recognized ones.
pub open spec fn isr_mask(status: Flags) -> Flags {
    Flags { bits: status.bits & ALL_BITS }
}

/// The interrupt-enable bits left after the handler masked its flags.
pub open spec fn isr_enabled(enabled: Flags, status: Flags) -> Flags {
    enabled.spec_difference(isr_mask(status))
}

/// The waker slot after the handler ran: emptied when it woke, else untouched.
pub open spec fn isr_slot<W>(status: Flags, slot: Option<W>) -> Option<W> {
    if isr_mask(status).spec_is_empty() {
        slot
    } else {
        None
    }
}

/// The continuation that the handler wakes, if any.
pub open spec fn isr_woken<W>(status: Flags, slot: Option<W>) -> Option<W> {
    if isr_mask(status).spec_is_empty() {
        None
    } else {
        slot
    }
}

/// What one run of the interrupt handler does: the interrupt sources it masks
/// (their status bits stay set) and the continuation it wakes.
pub struct IsrOutcome<W> {
    pub mask: Flags,
    pub woken: Option<W>,
}

/// The interrupt handler of an I2C master instance.
pub struct InterruptHandler {
    _private: (),
}

impl InterruptHandler {
    /// Reacts to an interrupt whose raw status register reads `status`.
    /// When a recognized flag is pending, the handler masks exactly the
    /// pending recognized flags and wakes the registered continuation; else
    /// it does nothing (a spurious or shared-line interrupt).
    pub fn on_interrupt<W>(status: Flags, slot: &mut WakerSlot<W>) -> (r: IsrOutcome<W>)
        ensures
            r.mask == isr_mask(status),
            r.woken == isr_woken(status, old(slot)@),
            final(slot)@ == isr_slot(status, old(slot)@),
    {
        let pending = status.intersection(Flags::all());
        if pending.is_empty() {
            IsrOutcome { mask: pending, woken: None }
        } else {
            let woken = slot.take();
            IsrOutcome { mask: pending, woken }
        }
    }
}

/// How the waiting task re-arms the interrupt before it suspends: it masks
/// `disable`, registers its continuation, then unmasks `enable`.
#[derive(Clone, Copy, Debug, PartialEq, Eq, Structural)]
pub struct ArmPlan {
    pub disable: Flags,
    pub enable: Flags,
}

/// The first decision of a wait for flags.
#[derive(Clone, Copy, Debug, PartialEq, Eq, Structural)]
pub enum WaitStep {
    /// A flag of interest is already pending: no suspension.
    Ready,
    /// Re-arm the interrupt as the plan says, then check again.
    Arm(ArmPlan),
}

/// The interrupt-enable bits after arming `plan` over `enabled`.
pub open spec fn armed_enabled(enabled: Flags, plan: ArmPlan) -> Flags {
    Flags { bits: (enabled.bits & !plan.disable.bits) | plan.enable.bits }
}

/// Starts a wait for any flag of `interest`, given the status just read.
pub fn wait_flags_begin(interest: Flags, status: Flags) -> (r: WaitStep)
    ensures
        r == WaitStep::Ready <==> status.spec_intersects(interest),
        r is Arm ==> r->0 == (ArmPlan { disable: Flags { bits: ALL_BITS }, enable: interest }),
{
    if interest.intersects(status) {
        proof {
            let (a, b) = (interest.bits, status.bits);
            assert(a & b == b & a) by (bit_vector);
        }
        WaitStep::Ready
    } else {
        proof {
            let (a, b) = (interest.bits, status.bits);
            assert(a & b == b & a) by (bit_vector);
        }
        WaitStep::Arm(ArmPlan { disable: Flags::all(), enable: interest })
    }
}

/// After arming, decides from the status read again whether the wait is over
/// (`true`: a flag of interest arrived meanwhile) or the task suspends.
pub fn wait_flags_recheck(interest: Flags, status: Flags) -> (r: bool)
    ensures
        r == status.spec_intersects(interest),
{
    proof {
        let (a, b) = (interest.bits, status.bits);
        assert(a & b == b & a) by (bit_vector);
    }
    interest.intersects(status)
}

} // verus!
