//! The exclusive-access primitive that guards the stack head.
//!
//! Both backends expose the same contract: swap the head if it still equals
//! the value that was observed. The generic backend models a plain atomic
//! word updated by compare-and-exchange. The hardware-assisted backend models
//! load-link/store-conditional instructions: a load takes out a reservation,
//! a conditional store succeeds only while the reservation is intact, and any
//! exception taken in between clears it. On a single core that last property
//! is what defeats the ABA hazard, so the model makes it explicit.
//!
//! A head value of `None` means the stack is empty; `Some(i)` names the arena
//! index of the top node.

use vstd::prelude::*;

verus! {

/// The generic backend: an atomic word holding the head value, updated with
/// compare-and-exchange. Safe on any single-core target.
pub struct CasCell {
    value: Option<usize>,
}

impl CasCell {
    /// The head value currently stored.
    pub closed spec fn spec_value(&self) -> Option<usize> {
        self.value
    }

    /// A cell holding `v`.
    pub fn new(v: Option<usize>) -> (r: CasCell)
        ensures
            r.spec_value() == v,
    {
        CasCell { value: v }
    }

    /// An atomic read of the head.
    pub fn load(&self) -> (r: Option<usize>)
        ensures
            r == self.spec_value(),
    {
        self.value
    }

    /// Atomically replaces the head with `new` if it still equals `current`;
    /// otherwise leaves it unchanged and reports the value seen. A real
    /// implementation may use the weak compare-exchange, which is allowed to
    /// fail spuriously on a matching value; the surrounding retry loops
    /// tolerate that, and this model resolves the licence by never failing
    /// spuriously.
    pub fn compare_exchange(&mut self, current: Option<usize>, new: Option<usize>) -> (r: Result<
        (),
        Option<usize>,
    >)
        ensures
            old(self).spec_value() == current ==> r == Result::<(), Option<usize>>::Ok(())
                && final (self).spec_value() == new,
            old(self).spec_value() != current ==> r == Result::<(), Option<usize>>::Err(
                old(self).spec_value(),
            ) && final (self).spec_value() == old(self).spec_value(),
    {
        if self.value == current {
            self.value = new;
            Ok(())
        } else {
            Err(self.value)
        }
    }
}

/// The hardware-assisted backend: a word read by load-link and written by
/// store-conditional. `reserved` is the exclusivity monitor; `observed`
/// records, in ghost state, the value the reservation was taken on.
pub struct LlScCell {
    value: Option<usize>,
    reserved: bool,
    observed: Ghost<Option<usize>>,
}

impl LlScCell {
    /// The head value currently stored.
    pub closed spec fn spec_value(&self) -> Option<usize> {
        self.value
    }

    /// Whether a load-link reservation is currently held.
    pub closed spec fn spec_reserved(&self) -> bool {
        self.reserved
    }

    /// The value the current reservation was taken on.
    pub closed spec fn spec_observed(&self) -> Option<usize> {
        self.observed@
    }

    /// While a reservation is held, the stored value is still the value the
    /// reservation was taken on: every write goes through a conditional store,
    /// which consumes the reservation.
    pub open spec fn wf(&self) -> bool {
        self.spec_reserved() ==> self.spec_observed() == self.spec_value()
    }

    /// A cell holding `v`, with no reservation outstanding.
    pub fn new(v: Option<usize>) -> (r: LlScCell)
        ensures
            r.spec_value() == v,
            !r.spec_reserved(),
            r.wf(),
    {
        LlScCell { value: v, reserved: false, observed: Ghost(v) }
    }

    /// A plain read of the head, leaving any reservation as it is.
    pub fn load(&self) -> (r: Option<usize>)
        ensures
            r == self.spec_value(),
    {
        self.value
    }

    /// The load-link instruction: reads the head and takes out a reservation
    /// on it.
    pub fn ldrex(&mut self) -> (r: Option<usize>)
        ensures
            r == old(self).spec_value(),
            final (self).spec_value() == old(self).spec_value(),
            final (self).spec_reserved(),
            final (self).spec_observed() == r,
            final (self).wf(),
    {
        self.reserved = true;
        self.observed = Ghost(self.value);
        self.value
    }

    /// The store-conditional instruction: writes `new` and reports success only
    /// if the reservation taken by the matching load-link is still intact; the
    /// write consumes the reservation. A failed store changes nothing.
    pub fn strex(&mut self, new: Option<usize>) -> (r: bool)
        requires
            old(self).wf(),
        ensures
            final (self).wf(),
            !final (self).spec_reserved(),
            old(self).spec_reserved() ==> r && final (self).spec_value() == new && old(
                self,
            ).spec_value() == old(self).spec_observed(),
            !old(self).spec_reserved() ==> !r && final (self).spec_value() == old(
                self,
            ).spec_value(),
    {
        if self.reserved {
            self.reserved = false;
            self.value = new;
            true
        } else {
            false
        }
    }

    /// The clear-exclusive instruction: drops any outstanding reservation
    /// without writing. The empty-stack path of a pop must call this so no
    /// dangling exclusivity monitor is left behind.
    pub fn clrex(&mut self)
        ensures
            final (self).spec_value() == old(self).spec_value(),
            !final (self).spec_reserved(),
            final (self).wf(),
    {
        self.reserved = false;
    }

    /// Models an exception or interrupt being taken: on the modelled targets
    /// every exception clears the exclusivity monitor, so a store-conditional
    /// issued afterwards fails. This is the architectural property that
    /// defeats the ABA hazard.
    pub fn preempt(&mut self)
        ensures
            final (self).spec_value() == old(self).spec_value(),
            !final (self).spec_reserved(),
            final (self).wf(),
    {
        self.reserved = false;
    }
}

/// The stack head together with its synchronization backend, chosen when the
/// pool is built. Both variants meet one contract: `attempt_swap` replaces the
/// head only if it still equals the value that `observe` returned.
pub enum Head {
    /// The portable compare-and-swap backend.
    Cas(CasCell),
    /// The load-link/store-conditional backend.
    LlSc(LlScCell),
}

impl Head {
    /// The head value currently stored.
    pub open spec fn spec_value(&self) -> Option<usize> {
        match self {
            Head::Cas(c) => c.spec_value(),
            Head::LlSc(c) => c.spec_value(),
        }
    }

    /// Backend-internal consistency.
    pub open spec fn wf(&self) -> bool {
        match self {
            Head::Cas(_) => true,
            Head::LlSc(c) => c.wf(),
        }
    }

    /// No reservation is outstanding. Every pool operation leaves the head
    /// quiescent, which is exactly the demand that the empty-stack path clear
    /// its reservation explicitly.
    pub open spec fn quiescent(&self) -> bool {
        match self {
            Head::Cas(_) => true,
            Head::LlSc(c) => !c.spec_reserved(),
        }
    }

    /// An `attempt_swap` that hands back what `observe` returned is sure to
    /// succeed as long as nothing ran in between.
    pub open spec fn will_accept(&self, observed: Option<usize>) -> bool {
        match self {
            Head::Cas(c) => c.spec_value() == observed,
            Head::LlSc(c) => c.spec_reserved() && c.spec_observed() == observed,
        }
    }

    /// Any reservation that is outstanding was taken on `observed`. This is
    /// what a caller knows right after `observe` returned `observed`, and it is
    /// what makes a successful swap a swap away from `observed` and not from
    /// some other value.
    pub open spec fn tracks(&self, observed: Option<usize>) -> bool {
        match self {
            Head::Cas(_) => true,
            Head::LlSc(c) => c.spec_reserved() ==> c.spec_observed() == observed,
        }
    }

    /// An empty head on the compare-and-swap backend.
    pub fn new_cas() -> (r: Head)
        ensures
            r.spec_value() == None::<usize>,
            r.wf(),
            r.quiescent(),
    {
        Head::Cas(CasCell::new(None))
    }

    /// An empty head on the load-link/store-conditional backend.
    pub fn new_llsc() -> (r: Head)
        ensures
            r.spec_value() == None::<usize>,
            r.wf(),
            r.quiescent(),
    {
        Head::LlSc(LlScCell::new(None))
    }

    /// Reads the head, taking out a reservation on the hardware-assisted
    /// backend.
    pub fn observe(&mut self) -> (r: Option<usize>)
        requires
            old(self).wf(),
        ensures
            r == old(self).spec_value(),
            final (self).spec_value() == old(self).spec_value(),
            final (self).wf(),
            final (self).will_accept(r),
            final (self).tracks(r),
    {
        match self {
            Head::Cas(c) => c.load(),
            Head::LlSc(c) => c.ldrex(),
        }
    }

    /// Swaps the head from `observed` to `new` as one hardware-atomic step: on
    /// success the head held `observed` and now holds `new`; on failure nothing
    /// changed and the value seen is reported. Success is certain when the
    /// observation is still current and nothing preempted the caller.
    pub fn attempt_swap(&mut self, observed: Option<usize>, new: Option<usize>) -> (r: Result<
        (),
        Option<usize>,
    >)
        requires
            old(self).wf(),
            old(self).tracks(observed),
        ensures
            final (self).wf(),
            r is Ok ==> old(self).spec_value() == observed && final (self).spec_value() == new
                && final (self).quiescent(),
            r is Err ==> final (self).spec_value() == old(self).spec_value(),
            old(self).will_accept(observed) ==> r is Ok,
    {
        match self {
            Head::Cas(c) => c.compare_exchange(observed, new),
            Head::LlSc(c) => {
                if c.strex(new) {
                    Ok(())
                } else {
                    Err(c.load())
                }
            },
        }
    }

    /// Gives up on the current observation without writing: on the
    /// hardware-assisted backend this is the explicit clear-exclusive that the
    /// empty-stack path owes.
    pub fn abandon(&mut self)
        requires
            old(self).wf(),
        ensures
            final (self).spec_value() == old(self).spec_value(),
            final (self).wf(),
            final (self).quiescent(),
    {
        match self {
            Head::Cas(_) => {},
            Head::LlSc(c) => c.clrex(),
        }
    }
}

} // verus!
