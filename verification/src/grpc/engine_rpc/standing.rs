//! What decides whether the engine service may be sent requests.

use crate::grpc::admission::{drained, initial, AdmissionState};
use crate::status::{failed_precondition, refusal, Code, Status, StatusView};
use vstd::prelude::*;

verus! {

/// Admission of requests, and whether the weights of the engine are in doubt.
#[derive(Clone, Copy, Debug, PartialEq, Eq, Structural)]
pub struct ServiceStanding {
    pub admission: AdmissionState,
    pub rl_indeterminate: bool,
}

impl Default for ServiceStanding {
    fn default() -> (standing: ServiceStanding)
        ensures
            standing == (ServiceStanding { admission: initial(), rl_indeterminate: false }),
    {
        ServiceStanding { admission: AdmissionState::default(), rl_indeterminate: false }
    }
}

/// The standing of a service whose weights are in doubt, which takes on no requests.
pub open spec fn in_doubt(standing: ServiceStanding) -> ServiceStanding {
    ServiceStanding { admission: drained(standing.admission), rl_indeterminate: true }
}

pub open spec fn flag_refusal(standing: ServiceStanding) -> Option<StatusView> {
    if standing.rl_indeterminate {
        Some(failed_precondition("engine weight state is indeterminate and requires restart"@))
    } else {
        None
    }
}

impl ServiceStanding {
    pub fn is_rl_indeterminate(&self) -> (indeterminate: bool)
        ensures
            indeterminate == self.rl_indeterminate,
    {
        self.rl_indeterminate
    }

    /// Puts the weights in doubt, for good, and stops taking on requests.
    pub fn mark_rl_indeterminate(&mut self)
        ensures
            *final(self) == in_doubt(*old(self)),
    {
        self.rl_indeterminate = true;
        self.admission.begin_drain();
    }

    pub fn is_draining(&self) -> (draining: bool)
        ensures
            draining == self.admission.draining,
    {
        self.admission.is_draining()
    }

    pub fn begin_drain(&mut self)
        ensures
            *final(self) == (ServiceStanding {
                admission: drained(old(self).admission),
                ..*old(self)
            }),
    {
        self.admission.begin_drain();
    }

    pub fn in_flight(&self) -> (count: u64)
        ensures
            count == self.admission.in_flight,
    {
        self.admission.in_flight()
    }

    pub fn ensure_determinate_flag(&self) -> (result: Result<(), Status>)
        ensures
            refusal(result) == flag_refusal(*self),
    {
        if self.rl_indeterminate {
            Err(
                Status::failed_precondition(
                    "engine weight state is indeterminate and requires restart",
                ),
            )
        } else {
            Ok(())
        }
    }
}

/// Watches over a call whose success must be seen. Dropped while armed, it puts the weights in
/// doubt.
#[derive(Debug, PartialEq, Eq)]
pub struct UncertaintyGuard {
    pub armed: bool,
}

impl UncertaintyGuard {
    pub fn new() -> (guard: UncertaintyGuard)
        ensures
            guard.armed,
    {
        UncertaintyGuard { armed: true }
    }

    pub fn disarm(&mut self)
        ensures
            !final(self).armed,
    {
        self.armed = false;
    }

    /// What the end of a guard does to the standing.
    pub fn settle(&self, standing: &mut ServiceStanding)
        ensures
            *final(standing) == if self.armed {
                in_doubt(*old(standing))
            } else {
                *old(standing)
            },
    {
        if self.armed {
            standing.mark_rl_indeterminate();
        }
    }
}

/// Weights in doubt stop all requests, but change nothing about those that run.
pub proof fn doubt_stops_requests(standing: ServiceStanding)
    ensures
        in_doubt(standing).rl_indeterminate,
        in_doubt(standing).admission.draining,
        in_doubt(standing).admission.in_flight == standing.admission.in_flight,
        flag_refusal(standing) is Some <==> standing.rl_indeterminate,
        flag_refusal(standing) matches Some(status) ==> status.code == Code::FailedPrecondition
            && status.message == "engine weight state is indeterminate and requires restart"@,
{
}

} // verus!
