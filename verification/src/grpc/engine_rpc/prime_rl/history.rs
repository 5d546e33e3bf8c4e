//! What holds of weight administration over any number of operations.

use super::admin::{
    destroy_refusal, determinate_refusal, grouped_admin, init_refusal, initial_admin, latched,
    pause_refusal, paused_admin, resumed_admin, ungrouped_admin, well_formed, AdminView,
};
use super::calls::{wanted_mode, CallFailure, PauseMode};
use super::pb;
use super::updates::{
    advanced, committed_admin, replay_key, replay_refusal, standing_after, underway,
    update_refusal, Progress, RunningView, UpdateView,
};
use crate::grpc::engine_rpc::standing::{in_doubt, ServiceStanding};
use crate::status::{Code, StatusView};
use vstd::prelude::*;

verus! {

/// What the end of an operation does to the state.
pub enum Step {
    /// The scheduler paused.
    Paused(PauseMode),
    /// The scheduler resumed, or was found running.
    Resumed,
    /// A group was initialized.
    Grouped(u64),
    /// The group was destroyed.
    Ungrouped,
    /// An update was committed.
    Committed(UpdateView),
    /// An operation was not seen to succeed.
    Failed(StatusView),
}

/// The service and its weight administration.
pub struct Administered {
    pub standing: ServiceStanding,
    pub admin: AdminView,
}

/// Whether an operation that ends in that way is not refused.
pub open spec fn permitted(state: Administered, step: Step) -> bool {
    &&& determinate_refusal(state.standing, state.admin) is None
    &&& match step {
        Step::Grouped(_) => state.admin.update_group is None && state.admin.group_epoch < u64::MAX,
        Step::Ungrouped => state.admin.update_group is Some,
        Step::Committed(update) => {
            &&& update_refusal(state.standing, state.admin, update) is None
            &&& replay_refusal(state.admin, update) is None
        },
        _ => true,
    }
}

/// The state after a step.
pub open spec fn taken(state: Administered, step: Step) -> Administered {
    match step {
        Step::Paused(mode) => Administered { admin: paused_admin(state.admin, mode), ..state },
        Step::Resumed => Administered { admin: resumed_admin(state.admin), ..state },
        Step::Grouped(timeout_secs) => Administered {
            admin: grouped_admin(state.admin, timeout_secs),
            ..state
        },
        Step::Ungrouped => Administered { admin: ungrouped_admin(state.admin), ..state },
        Step::Committed(update) => Administered {
            admin: committed_admin(state.admin, update),
            ..state
        },
        Step::Failed(status) => Administered {
            standing: in_doubt(state.standing),
            admin: latched(state.admin, status),
        },
    }
}

/// The state after some steps.
pub open spec fn after(state: Administered, steps: Seq<Step>) -> Administered
    decreases steps.len(),
{
    if steps.len() == 0 {
        state
    } else {
        taken(after(state, steps.drop_last()), steps.last())
    }
}

/// Whether each of some steps is permitted where it is taken.
pub open spec fn possible(state: Administered, steps: Seq<Step>) -> bool
    decreases steps.len(),
{
    steps.len() > 0 ==> possible(state, steps.drop_last()) && permitted(
        after(state, steps.drop_last()),
        steps.last(),
    )
}

/// Whether the version that is reported is that of a committed update, or none was committed.
pub open spec fn version_is_committed(admin: AdminView) -> bool {
    admin.weight_version == initial_admin().weight_version || exists|key: (u64, Seq<char>)|
        #[trigger] admin.committed.contains_key(key) && key.1 == admin.weight_version
}

/// The step that the outcome of a call of an update amounts to, if it is one: a call that is
/// followed by another one leaves the state as it is, and so does a version that is refused.
pub open spec fn update_step(
    admin: AdminView,
    running: RunningView,
    outcome: Result<bool, CallFailure>,
) -> Option<Step> {
    let next = advanced(admin, running, outcome);
    match next.progress {
        Progress::Committed => Some(Step::Committed(running.update)),
        Progress::Calls(_) => None,
        Progress::Refused(status) => if next.doubt {
            Some(Step::Failed(status))
        } else if outcome == Ok::<bool, CallFailure>(false) {
            Some(Step::Resumed)
        } else {
            None
        },
    }
}

/// What a running update does to the state is a step that is permitted there.
pub proof fn updates_take_permitted_steps(
    state: Administered,
    running: RunningView,
    outcome: Result<bool, CallFailure>,
)
    requires
        underway(state.admin, running),
        !state.standing.rl_indeterminate,
    ensures
        match update_step(state.admin, running, outcome) {
            Some(step) => permitted(state, step) && taken(state, step).admin == advanced(
                state.admin,
                running,
                outcome,
            ).admin && taken(state, step).standing == standing_after(
                state.standing,
                advanced(state.admin, running, outcome).doubt,
            ),
            None => advanced(state.admin, running, outcome).admin == state.admin && !advanced(
                state.admin,
                running,
                outcome,
            ).doubt,
        },
{
}

/// An operation that is not refused may end in the step that it is for, and in a failure.
pub proof fn begun_operations_are_permitted(
    state: Administered,
    mode: Seq<char>,
    read: Result<PauseMode, String>,
    init: pb::InitWeightsUpdateGroupRequest,
    timeout_secs: u64,
    engine_rpc: Seq<char>,
    status: StatusView,
)
    ensures
        pause_refusal(state.standing, state.admin, mode, read) is None ==> permitted(
            state,
            Step::Paused(wanted_mode(mode, read)),
        ) && permitted(state, Step::Failed(status)),
        determinate_refusal(state.standing, state.admin) is None ==> permitted(
            state,
            Step::Resumed,
        ) && permitted(state, Step::Failed(status)),
        init_refusal(state.standing, state.admin, init) is None ==> permitted(
            state,
            Step::Grouped(timeout_secs),
        ) && permitted(state, Step::Failed(status)),
        destroy_refusal(state.standing, state.admin, engine_rpc) is None
            && state.admin.update_group is Some ==> permitted(state, Step::Ungrouped)
            && permitted(state, Step::Failed(status)),
{
}

/// Once the weights are in doubt, every operation that could use or change them is refused.
pub proof fn doubt_refuses_every_operation(
    standing: ServiceStanding,
    admin: AdminView,
    mode: Seq<char>,
    read: Result<PauseMode, String>,
    init: pb::InitWeightsUpdateGroupRequest,
    engine_rpc: Seq<char>,
    update: UpdateView,
)
    requires
        standing.rl_indeterminate || admin.indeterminate is Some,
    ensures
        determinate_refusal(standing, admin) matches Some(status) && status.code
            == Code::FailedPrecondition,
        pause_refusal(standing, admin, mode, read) is Some,
        init_refusal(standing, admin, init) is Some,
        destroy_refusal(standing, admin, engine_rpc) is Some,
        update_refusal(standing, admin, update) is Some,
{
}

/// An operation that fails is the last one: the service takes on no more requests, and no step
/// is possible from then on.
pub proof fn failure_is_final(state: Administered, status: StatusView, steps: Seq<Step>)
    requires
        possible(taken(state, Step::Failed(status)), steps),
    ensures
        steps.len() == 0,
        taken(state, Step::Failed(status)).standing.admission.draining,
        taken(state, Step::Failed(status)).admin.weight_version == state.admin.weight_version,
        taken(state, Step::Failed(status)).admin.committed == state.admin.committed,
    decreases steps.len(),
{
    if steps.len() > 0 {
        failure_is_final(state, status, steps.drop_last());
    }
}

proof fn lemma_step_keeps_well_formed(state: Administered, step: Step)
    requires
        well_formed(state.admin),
        permitted(state, step),
    ensures
        well_formed(taken(state, step).admin),
{
    let admin = state.admin;
    let next = taken(state, step).admin;
    assert forall|key: (u64, Seq<char>)| #[trigger]
        next.committed.contains_key(key) implies key.0 <= next.group_epoch
        && next.committed[key].controller_epoch == key.0 && next.committed[key].version
        == key.1 by {
        if step matches Step::Committed(update) && key == replay_key(admin, update) {
        } else {
            assert(admin.committed.contains_key(key));
        }
    }
}

/// What every operation keeps: updates stand under the epochs that they were committed in, and
/// a group under an epoch of its own.
pub proof fn operations_keep_well_formed(state: Administered, steps: Seq<Step>)
    requires
        well_formed(state.admin),
        possible(state, steps),
    ensures
        well_formed(after(state, steps).admin),
    decreases steps.len(),
{
    if steps.len() > 0 {
        operations_keep_well_formed(state, steps.drop_last());
        lemma_step_keeps_well_formed(after(state, steps.drop_last()), steps.last());
    }
}

/// A committed update stays on record, whatever is done later.
pub proof fn committed_updates_stay(
    state: Administered,
    steps: Seq<Step>,
    key: (u64, Seq<char>),
)
    requires
        possible(state, steps),
        state.admin.committed.contains_key(key),
    ensures
        after(state, steps).admin.committed.contains_key(key),
        after(state, steps).admin.committed[key] == state.admin.committed[key],
    decreases steps.len(),
{
    if steps.len() > 0 {
        committed_updates_stay(state, steps.drop_last(), key);
    }
}

/// Epochs never come back: the epoch of a group only grows, and each new group has its own.
pub proof fn epochs_only_grow(state: Administered, steps: Seq<Step>)
    requires
        possible(state, steps),
    ensures
        state.admin.group_epoch <= after(state, steps).admin.group_epoch,
        steps.len() > 0 && steps.last() is Grouped ==> state.admin.group_epoch < after(
            state,
            steps,
        ).admin.group_epoch,
    decreases steps.len(),
{
    if steps.len() > 0 {
        epochs_only_grow(state, steps.drop_last());
    }
}

/// The version that is reported is that of an update that was committed.
pub proof fn reported_version_was_committed(state: Administered, steps: Seq<Step>)
    requires
        version_is_committed(state.admin),
        possible(state, steps),
    ensures
        version_is_committed(after(state, steps).admin),
    decreases steps.len(),
{
    if steps.len() > 0 {
        let before = after(state, steps.drop_last());
        let next = after(state, steps);
        reported_version_was_committed(state, steps.drop_last());
        if let Step::Committed(update) = steps.last() {
            assert(next.admin.committed.contains_key(replay_key(before.admin, update)));
        } else if before.admin.weight_version != initial_admin().weight_version {
            let key = choose|key: (u64, Seq<char>)| #[trigger]
                before.admin.committed.contains_key(key) && key.1 == before.admin.weight_version;
            assert(next.admin.committed.contains_key(key));
        }
    }
}

/// Only a committed update changes the version that is reported.
pub proof fn only_a_commit_changes_the_version(state: Administered, step: Step)
    ensures
        taken(state, step).admin.weight_version == match step {
            Step::Committed(update) => update.version,
            _ => state.admin.weight_version,
        },
{
}

} // verus!
