//! Which requests the services take on, and how many of them are running.

use crate::status::{refusal, unavailable, Code, Status, StatusView};
use vstd::prelude::*;

verus! {

/// Whether requests are still taken on, and how many of them are running. The inference and the
/// control service share one admission state, and lock it for each of its operations: a drain
/// arrives on the one, and stops the other from taking on work.
#[derive(Clone, Copy, Debug, PartialEq, Eq, Structural)]
pub struct AdmissionState {
    pub draining: bool,
    pub in_flight: u64,
}

impl Default for AdmissionState {
    fn default() -> (state: AdmissionState)
        ensures
            state == initial(),
    {
        AdmissionState { draining: false, in_flight: 0 }
    }
}

/// The place of a running request, which `release` gives back. Only an admission makes one.
#[derive(Debug, PartialEq, Eq)]
pub struct AdmissionGuard {
    place: (),
}

/// No request was taken on yet.
pub open spec fn initial() -> AdmissionState {
    AdmissionState { draining: false, in_flight: 0 }
}

/// The state once one more request runs.
pub open spec fn entered(state: AdmissionState) -> AdmissionState {
    AdmissionState {
        in_flight: if state.in_flight == u64::MAX {
            0
        } else {
            (state.in_flight + 1) as u64
        },
        ..state
    }
}

/// The state once one request less runs.
pub open spec fn left(state: AdmissionState) -> AdmissionState {
    AdmissionState {
        in_flight: if state.in_flight == 0 {
            u64::MAX
        } else {
            (state.in_flight - 1) as u64
        },
        ..state
    }
}

/// The answer to a request that comes while the services drain.
pub open spec fn place_refusal(state: AdmissionState) -> Option<StatusView> {
    if state.draining {
        Some(unavailable("gRPC service is draining"@))
    } else {
        None
    }
}

/// The state once a drain has begun.
pub open spec fn drained(state: AdmissionState) -> AdmissionState {
    AdmissionState { draining: true, ..state }
}

impl AdmissionState {
    pub fn is_draining(&self) -> (draining: bool)
        ensures
            draining == self.draining,
    {
        self.draining
    }

    /// Stops taking on requests.
    pub fn begin_drain(&mut self)
        ensures
            *final(self) == drained(*old(self)),
    {
        self.draining = true;
    }

    pub fn in_flight(&self) -> (count: u64)
        ensures
            count == self.in_flight,
    {
        self.in_flight
    }

    /// Takes a place for a request, unless the services drain.
    pub fn try_admit(&mut self) -> (guard: Option<AdmissionGuard>)
        ensures
            guard is Some == !old(self).draining,
            *final(self) == if old(self).draining {
                *old(self)
            } else {
                entered(*old(self))
            },
    {
        if self.is_draining() {
            return None;
        }
        self.in_flight = self.in_flight.wrapping_add(1);
        Some(AdmissionGuard { place: () })
    }

    /// Takes a place for a request, or answers it.
    pub fn take_place(&mut self) -> (result: Result<AdmissionGuard, Status>)
        ensures
            refusal(result) == place_refusal(*old(self)),
            *final(self) == if old(self).draining {
                *old(self)
            } else {
                entered(*old(self))
            },
    {
        match self.try_admit() {
            Some(guard) => Ok(guard),
            None => Err(Status::unavailable("gRPC service is draining")),
        }
    }

    /// Gives a place back.
    pub fn release(&mut self, guard: AdmissionGuard)
        ensures
            *final(self) == left(*old(self)),
    {
        self.in_flight = self.in_flight.wrapping_sub(1);
    }
}

/// What can happen to an admission state.
pub enum Step {
    BeginDrain,
    TryAdmit,
    Release,
}

/// The state after a step.
pub open spec fn after(state: AdmissionState, step: Step) -> AdmissionState {
    match step {
        Step::BeginDrain => drained(state),
        Step::TryAdmit => if state.draining {
            state
        } else {
            entered(state)
        },
        Step::Release => left(state),
    }
}

pub open spec fn after_all(state: AdmissionState, steps: Seq<Step>) -> AdmissionState
    decreases steps.len(),
{
    if steps.len() == 0 {
        state
    } else {
        after(after_all(state, steps.drop_last()), steps.last())
    }
}

/// How many places are taken after some steps, of `taken` before.
pub open spec fn places_taken(state: AdmissionState, taken: int, steps: Seq<Step>) -> int
    decreases steps.len(),
{
    if steps.len() == 0 {
        taken
    } else {
        let before = places_taken(state, taken, steps.drop_last());
        match steps.last() {
            Step::BeginDrain => before,
            Step::TryAdmit => if after_all(state, steps.drop_last()).draining {
                before
            } else {
                before + 1
            },
            Step::Release => before - 1,
        }
    }
}

/// Whether only places that are taken are given back, and there are never more than can be
/// counted.
pub open spec fn balanced(state: AdmissionState, taken: int, steps: Seq<Step>) -> bool {
    forall|n: int|
        0 <= n <= steps.len() ==> 0 <= #[trigger] places_taken(state, taken, steps.take(n))
            <= u64::MAX
}

/// The count is that of the places that are taken.
pub proof fn count_is_exact(state: AdmissionState, steps: Seq<Step>)
    requires
        balanced(state, state.in_flight as int, steps),
    ensures
        after_all(state, steps).in_flight == places_taken(state, state.in_flight as int, steps),
    decreases steps.len(),
{
    assert(steps.take(steps.len() as int) =~= steps);
    if steps.len() > 0 {
        let shorter = steps.drop_last();
        assert forall|n: int| 0 <= n <= shorter.len() implies 0 <= #[trigger] places_taken(
            state,
            state.in_flight as int,
            shorter.take(n),
        ) <= u64::MAX by {
            assert(shorter.take(n) =~= steps.take(n));
        }
        count_is_exact(state, shorter);
    }
}

/// Once a drain has begun, every request is refused, whatever happened since, and the number of
/// running requests never grows.
pub proof fn draining_admits_nothing(state: AdmissionState, steps: Seq<Step>)
    requires
        state.draining,
        balanced(state, state.in_flight as int, steps),
    ensures
        after_all(state, steps).draining,
        place_refusal(after_all(state, steps)) == Some(unavailable("gRPC service is draining"@)),
        after_all(state, steps).in_flight <= state.in_flight,
    decreases steps.len(),
{
    count_is_exact(state, steps);
    if steps.len() > 0 {
        let shorter = steps.drop_last();
        assert forall|n: int| 0 <= n <= shorter.len() implies 0 <= #[trigger] places_taken(
            state,
            state.in_flight as int,
            shorter.take(n),
        ) <= u64::MAX by {
            assert(shorter.take(n) =~= steps.take(n));
        }
        draining_admits_nothing(state, shorter);
        count_is_exact(state, shorter);
    }
}

/// A drain that is complete stays complete.
pub proof fn complete_drain_is_final(state: AdmissionState, steps: Seq<Step>)
    requires
        state.draining,
        state.in_flight == 0,
        balanced(state, 0, steps),
    ensures
        after_all(state, steps) == state,
{
    draining_admits_nothing(state, steps);
}

/// At first nothing runs and requests are taken on. A request that is taken on and ends leaves
/// the state as it was, and a drain changes no count.
pub proof fn places_are_given_back(state: AdmissionState)
    ensures
        !initial().draining && initial().in_flight == 0,
        state.in_flight < 18446744073709551615 ==> entered(state).in_flight == state.in_flight + 1,
        state.in_flight > 0 ==> left(state).in_flight == state.in_flight - 1,
        left(entered(state)) == state,
        entered(state).draining == state.draining,
        drained(state).draining && drained(state).in_flight == state.in_flight,
        place_refusal(state) is Some <==> state.draining,
        place_refusal(state) matches Some(status) ==> status.code == Code::Unavailable,
{
}

} // verus!
