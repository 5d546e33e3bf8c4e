//! Weight updates.
//!
//! An update is checked, the scheduler is asked whether it is still paused, the weights are
//! loaded, the caches that the old weights filled are reset, and the update is committed.

use super::admin::{
    committed_map, determinate_refusal, ensure_determinate, grouped_admin, latch_indeterminate,
    latched, resumed_admin, well_formed, AdminView, IdentityView, RlAdminState,
    WeightUpdateIdentity,
};
use super::calls::{
    allowed_method, argument_view, arguments_view, call_status, chosen_method, copy_arguments,
    failure_status, same_arguments, unsupported_method, Argument, ArgumentView, Arguments,
    CallFailure, CallView, EngineCall, Operation, OperationView, CACHE_RESET_TIMEOUT_SECS,
    PAUSE_CONSENSUS_TIMEOUT_SECS, WEIGHT_OPERATION_TIMEOUT_SECS,
};
use super::pb;
use crate::grpc::engine_rpc::standing::{in_doubt, ServiceStanding};
use crate::status::{failed_precondition, invalid_argument, refusal, Code, Status, StatusView};
use crate::text::{blank, decimal, decimal_text, is_blank, same_text};
use vstd::prelude::*;

verus! {

/// An update that was asked for.
#[derive(Debug, PartialEq, Eq)]
pub struct WeightUpdate {
    pub method: String,
    pub kwargs: Arguments,
    pub version: String,
    pub distributed: bool,
}

pub struct UpdateView {
    pub method: Seq<char>,
    pub kwargs: Seq<(Seq<char>, ArgumentView)>,
    pub version: Seq<char>,
    pub distributed: bool,
}

impl View for WeightUpdate {
    type V = UpdateView;

    open spec fn view(&self) -> UpdateView {
        UpdateView {
            method: self.method@,
            kwargs: arguments_view(self.kwargs@),
            version: self.version@,
            distributed: self.distributed,
        }
    }
}

// What an update is asked for.

pub open spec fn disk_refusal(request: pb::UpdateWeightsFromDiskRequest) -> Option<StatusView> {
    let method = chosen_method(request.engine_rpc@, "reload_weights"@);
    if blank(request.model_path@) {
        Some(invalid_argument("model_path is required"@))
    } else if method != "reload_weights"@ && method != "update_weights_from_path"@ {
        Some(unsupported_method(method))
    } else {
        None
    }
}

pub open spec fn disk_update(request: pb::UpdateWeightsFromDiskRequest) -> UpdateView {
    let method = chosen_method(request.engine_rpc@, "reload_weights"@);
    let key = if method == "reload_weights"@ {
        "weights_path"@
    } else {
        "weight_path"@
    };
    UpdateView {
        method,
        kwargs: seq![(key, ArgumentView::Text(request.model_path@))],
        version: request.weight_version@,
        distributed: false,
    }
}

/// The update that a request to load weights from disk asks for.
pub fn update_from_disk(request: pb::UpdateWeightsFromDiskRequest) -> (result: Result<
    WeightUpdate,
    Status,
>)
    ensures
        refusal(result) == disk_refusal(request),
        result matches Ok(update) ==> update@ == disk_update(request),
{
    if is_blank(request.model_path.as_str()) {
        return Err(Status::invalid_argument("model_path is required"));
    }
    let allowed: Vec<&str> = vec!["reload_weights", "update_weights_from_path"];
    assert(allowed@[0]@ == "reload_weights"@);
    assert(allowed@[1]@ == "update_weights_from_path"@);
    let method = match allowed_method(
        request.engine_rpc.as_str(),
        "reload_weights",
        allowed.as_slice(),
    ) {
        Ok(method) => method.to_string(),
        Err(status) => {
            return Err(status);
        },
    };
    let key = if same_text(method.as_str(), "reload_weights") {
        "weights_path"
    } else {
        "weight_path"
    };
    let kwargs: Arguments = vec![(key.to_string(), Argument::Text(request.model_path))];
    assert(arguments_view(kwargs@) =~= seq![(key@, ArgumentView::Text(request.model_path@))]);
    Ok(WeightUpdate { method, kwargs, version: request.weight_version, distributed: false })
}

pub open spec fn distributed_refusal(
    request: pb::UpdateWeightsFromDistributedRequest,
) -> Option<StatusView> {
    let method = chosen_method(request.engine_rpc@, "update_weights_from_path"@);
    if request.allow_unpaused {
        Some(invalid_argument("unpaused weight updates are unsafe and are not supported"@))
    } else if !request.reset_prefix_cache {
        Some(invalid_argument("weight updates require prefix/KV/connector cache reset"@))
    } else if method != "update_weights_from_path"@ {
        Some(unsupported_method(method))
    } else {
        None
    }
}

pub open spec fn distributed_update(
    request: pb::UpdateWeightsFromDistributedRequest,
) -> UpdateView {
    UpdateView {
        method: "update_weights_from_path"@,
        kwargs: if request.weight_dir@.len() == 0 {
            Seq::empty()
        } else {
            seq![("weight_dir"@, ArgumentView::Text(request.weight_dir@))]
        },
        version: request.weight_version@,
        distributed: true,
    }
}

/// The update that a request to receive weights from the group asks for.
pub fn update_from_distributed(request: pb::UpdateWeightsFromDistributedRequest) -> (result:
    Result<WeightUpdate, Status>)
    ensures
        refusal(result) == distributed_refusal(request),
        result matches Ok(update) ==> update@ == distributed_update(request),
{
    if request.allow_unpaused {
        return Err(
            Status::invalid_argument("unpaused weight updates are unsafe and are not supported"),
        );
    }
    if !request.reset_prefix_cache {
        return Err(
            Status::invalid_argument("weight updates require prefix/KV/connector cache reset"),
        );
    }
    let allowed: Vec<&str> = vec!["update_weights_from_path"];
    assert(allowed@[0]@ == "update_weights_from_path"@);
    let method = match allowed_method(
        request.engine_rpc.as_str(),
        "update_weights_from_path",
        allowed.as_slice(),
    ) {
        Ok(method) => method.to_string(),
        Err(status) => {
            return Err(status);
        },
    };
    let mut kwargs: Arguments = Vec::new();
    if !request.weight_dir.as_str().is_empty() {
        kwargs.push(("weight_dir".to_string(), Argument::Text(request.weight_dir)));
    }
    assert(arguments_view(kwargs@) =~= distributed_update(request).kwargs);
    Ok(WeightUpdate { method, kwargs, version: request.weight_version, distributed: true })
}

// The steps of an update.

/// The call that an update waits for.
#[derive(Clone, Copy, Debug, PartialEq, Eq, Structural)]
pub enum UpdateStage {
    /// Whether the scheduler is paused.
    VerifyingPause,
    /// Loading the weights.
    LoadingWeights,
    /// Resetting the caches.
    ResettingCaches,
}

/// An update that was not refused, and the call that it waits for. Only `begin_update` starts
/// one, and only `advance_update` takes it further.
#[derive(Debug, PartialEq, Eq)]
pub struct RunningUpdate {
    update: WeightUpdate,
    stage: UpdateStage,
}

pub struct RunningView {
    pub update: UpdateView,
    pub stage: UpdateStage,
}

impl View for RunningUpdate {
    type V = RunningView;

    closed spec fn view(&self) -> RunningView {
        RunningView { update: self.update@, stage: self.stage }
    }
}

/// The call of a stage.
pub open spec fn stage_operation(running: RunningView) -> OperationView {
    match running.stage {
        UpdateStage::VerifyingPause => OperationView {
            name: "verify_scheduler_paused"@,
            call: CallView::IsSchedulerPaused,
            timeout_secs: PAUSE_CONSENSUS_TIMEOUT_SECS,
            guarded: false,
        },
        UpdateStage::LoadingWeights => OperationView {
            name: running.update.method,
            call: CallView::Collective {
                method: running.update.method,
                kwargs: running.update.kwargs,
            },
            timeout_secs: WEIGHT_OPERATION_TIMEOUT_SECS,
            guarded: true,
        },
        UpdateStage::ResettingCaches => OperationView {
            name: "reset_prefix_cache_after_weight_update"@,
            call: CallView::ResetPrefixCache {
                reset_running_requests: false,
                reset_connector: true,
            },
            timeout_secs: CACHE_RESET_TIMEOUT_SECS,
            guarded: true,
        },
    }
}

impl RunningUpdate {
    /// The call to make next.
    pub fn operation(&self) -> (operation: Operation)
        ensures
            operation@ == stage_operation(self@),
    {
        match self.stage {
            UpdateStage::VerifyingPause => Operation {
                name: "verify_scheduler_paused".to_string(),
                call: EngineCall::IsSchedulerPaused,
                timeout_secs: PAUSE_CONSENSUS_TIMEOUT_SECS,
                guarded: false,
            },
            UpdateStage::LoadingWeights => Operation {
                name: self.update.method.clone(),
                call: EngineCall::Collective {
                    method: self.update.method.clone(),
                    kwargs: copy_arguments(&self.update.kwargs),
                },
                timeout_secs: WEIGHT_OPERATION_TIMEOUT_SECS,
                guarded: true,
            },
            UpdateStage::ResettingCaches => Operation {
                name: "reset_prefix_cache_after_weight_update".to_string(),
                call: EngineCall::ResetPrefixCache {
                    reset_running_requests: false,
                    reset_connector: true,
                },
                timeout_secs: CACHE_RESET_TIMEOUT_SECS,
                guarded: true,
            },
        }
    }

    /// Whether the state still is one in which the update may run.
    pub fn is_underway(&self, state: &RlAdminState) -> (underway: bool)
        ensures
            underway == self::underway(state@, self@),
    {
        let update = &self.update;
        let begun = usable_version(update.version.as_str()) && state.indeterminate.is_none()
            && state.paused && state.drained && (!update.distributed
            || state.update_group.is_some());
        let unused = match self.stage {
            UpdateStage::VerifyingPause => true,
            _ => check_replay(state, update).is_ok(),
        };
        begun && unused
    }
}

/// Whether a version can name an update.
pub open spec fn usable(version: Seq<char>) -> bool {
    !blank(version) && version != "unknown"@
}

fn usable_version(version: &str) -> (usable: bool)
    ensures
        usable == self::usable(version@),
{
    !is_blank(version) && !same_text(version, "unknown")
}

/// Whether the state is one in which the update may run: it was not refused, and once the
/// scheduler was found paused its version is not one that its epoch has seen.
pub open spec fn underway(admin: AdminView, running: RunningView) -> bool {
    &&& usable(running.update.version)
    &&& admin.indeterminate is None
    &&& admin.paused
    &&& admin.drained
    &&& running.update.distributed ==> admin.update_group is Some
    &&& running.stage != UpdateStage::VerifyingPause ==> replay_refusal(admin, running.update)
        is None
}

pub open spec fn update_refusal(
    standing: ServiceStanding,
    admin: AdminView,
    update: UpdateView,
) -> Option<StatusView> {
    if !usable(update.version) {
        Some(invalid_argument("weight_version must be a stable, non-empty identifier"@))
    } else if determinate_refusal(standing, admin) is Some {
        determinate_refusal(standing, admin)
    } else if !admin.paused {
        Some(failed_precondition("pause_generation must succeed before updating weights"@))
    } else if !admin.drained {
        Some(failed_precondition("weight updates require pause mode `wait` or `abort`"@))
    } else if update.distributed && admin.update_group is None {
        Some(
            failed_precondition(
                "init_weights_update_group must succeed before a distributed weight update"@,
            ),
        )
    } else {
        None
    }
}

/// Checks an update and starts it, with the question whether the scheduler is paused.
pub fn begin_update(
    standing: &ServiceStanding,
    state: &RlAdminState,
    update: WeightUpdate,
) -> (result: Result<RunningUpdate, Status>)
    ensures
        refusal(result) == update_refusal(*standing, state@, update@),
        result matches Ok(running) ==> running@ == (RunningView {
            update: update@,
            stage: UpdateStage::VerifyingPause,
        }) && underway(state@, running@),
{
    if !usable_version(update.version.as_str()) {
        return Err(
            Status::invalid_argument("weight_version must be a stable, non-empty identifier"),
        );
    }
    match ensure_determinate(standing, state) {
        Ok(()) => {},
        Err(status) => {
            return Err(status);
        },
    }
    if !state.paused {
        return Err(
            Status::failed_precondition("pause_generation must succeed before updating weights"),
        );
    }
    if !state.drained {
        return Err(
            Status::failed_precondition("weight updates require pause mode `wait` or `abort`"),
        );
    }
    if update.distributed && state.update_group.is_none() {
        return Err(
            Status::failed_precondition(
                "init_weights_update_group must succeed before a distributed weight update",
            ),
        );
    }
    Ok(RunningUpdate { update, stage: UpdateStage::VerifyingPause })
}

/// The epoch that an update belongs to: that of its group, or none.
pub open spec fn update_epoch(admin: AdminView, update: UpdateView) -> u64 {
    if update.distributed {
        admin.group_epoch
    } else {
        0
    }
}

pub open spec fn update_identity(admin: AdminView, update: UpdateView) -> IdentityView {
    IdentityView {
        method: update.method,
        kwargs: update.kwargs,
        version: update.version,
        distributed: update.distributed,
        controller_epoch: update_epoch(admin, update),
    }
}

pub open spec fn replay_key(admin: AdminView, update: UpdateView) -> (u64, Seq<char>) {
    (update_epoch(admin, update), update.version)
}

/// The refusal of an update whose version its epoch has seen.
pub open spec fn replay_refusal(admin: AdminView, update: UpdateView) -> Option<StatusView> {
    let key = replay_key(admin, update);
    if !admin.committed.contains_key(key) {
        None
    } else if admin.committed[key] == update_identity(admin, update) {
        Some(
            failed_precondition(
                "weight_version `"@ + update.version
                    + "` was already committed in controller epoch "@ + decimal(key.0 as nat),
            ),
        )
    } else {
        Some(
            failed_precondition(
                "weight_version `"@ + update.version
                    + "` was already used for a different update in controller epoch "@ + decimal(
                    key.0 as nat,
                ),
            ),
        )
    }
}

fn same_identity(a: &WeightUpdateIdentity, b: &WeightUpdateIdentity) -> (same: bool)
    ensures
        same == (a@ == b@),
{
    same_text(a.method.as_str(), b.method.as_str()) && same_arguments(&a.kwargs, &b.kwargs)
        && same_text(a.version.as_str(), b.version.as_str()) && a.distributed == b.distributed
        && a.controller_epoch == b.controller_epoch
}

/// The update that was committed under that epoch and version, if there is one.
pub fn find_committed<'a>(state: &'a RlAdminState, epoch: u64, version: &str) -> (found: Option<
    &'a WeightUpdateIdentity,
>)
    ensures
        match found {
            Some(identity) => state@.committed.contains_key((epoch, version@))
                && state@.committed[(epoch, version@)] == identity@,
            None => !state@.committed.contains_key((epoch, version@)),
        },
{
    let updates = &state.committed_updates;
    let ghost key = (epoch, version@);
    let mut end: usize = updates.len();
    assert(updates@.take(end as int) =~= updates@);
    while end > 0
        invariant
            end <= updates@.len(),
            *updates == state.committed_updates,
            key == (epoch, version@),
            state@.committed == committed_map(updates@),
            committed_map(updates@.take(end as int)).contains_key(key) == committed_map(
                updates@,
            ).contains_key(key),
            committed_map(updates@.take(end as int)).contains_key(key) ==> committed_map(
                updates@.take(end as int),
            )[key] == committed_map(updates@)[key],
        decreases end,
    {
        let last = &updates[end - 1];
        assert(updates@.take(end as int).last() == *last);
        assert(updates@.take(end as int).drop_last() =~= updates@.take(end - 1));
        if last.controller_epoch == epoch && same_text(last.version.as_str(), version) {
            return Some(last);
        }
        end -= 1;
    }
    None
}

/// Whether an update was committed under that epoch and version.
pub fn is_committed(state: &RlAdminState, epoch: u64, version: &str) -> (committed: bool)
    ensures
        committed == state@.committed.contains_key((epoch, version@)),
{
    find_committed(state, epoch, version).is_some()
}

/// Notes an update as committed.
pub fn commit(state: &mut RlAdminState, identity: WeightUpdateIdentity)
    ensures
        final(state)@ == (AdminView {
            committed: old(state)@.committed.insert(
                (identity.controller_epoch, identity.version@),
                identity@,
            ),
            ..old(state)@
        }),
{
    let ghost before = state.committed_updates@;
    state.committed_updates.push(identity);
    assert(state.committed_updates@.drop_last() =~= before);
}

fn identify(state: &RlAdminState, update: &WeightUpdate) -> (identity: WeightUpdateIdentity)
    ensures
        identity@ == update_identity(state@, update@),
{
    WeightUpdateIdentity {
        method: update.method.clone(),
        kwargs: copy_arguments(&update.kwargs),
        version: update.version.clone(),
        distributed: update.distributed,
        controller_epoch: if update.distributed {
            state.group_epoch
        } else {
            0
        },
    }
}

fn check_replay(state: &RlAdminState, update: &WeightUpdate) -> (result: Result<(), Status>)
    ensures
        refusal(result) == replay_refusal(state@, update@),
{
    let identity = identify(state, update);
    match find_committed(state, identity.controller_epoch, update.version.as_str()) {
        None => Ok(()),
        Some(previous) => {
            let epoch = decimal_text(identity.controller_epoch);
            let message = if same_identity(previous, &identity) {
                "weight_version `".to_string().concat(update.version.as_str()).concat(
                    "` was already committed in controller epoch ",
                ).concat(epoch.as_str())
            } else {
                "weight_version `".to_string().concat(update.version.as_str()).concat(
                    "` was already used for a different update in controller epoch ",
                ).concat(epoch.as_str())
            };
            Err(Status::failed_precondition(message.as_str()))
        },
    }
}

/// The state once an update is committed.
pub open spec fn committed_admin(admin: AdminView, update: UpdateView) -> AdminView {
    AdminView {
        weight_version: update.version,
        committed: admin.committed.insert(
            replay_key(admin, update),
            update_identity(admin, update),
        ),
        ..admin
    }
}

/// What the outcome of a call brings an update to.
pub enum Progress {
    /// It is over.
    Refused(StatusView),
    /// It goes on with the call of that stage.
    Calls(UpdateStage),
    /// It is committed.
    Committed,
}

/// Where an update stands once a call came back: the state, whether the weights are in doubt,
/// and how it goes on.
pub struct Advanced {
    pub admin: AdminView,
    pub doubt: bool,
    pub progress: Progress,
}

/// What a failure of an update leaves: weights in doubt, under the status that it is answered
/// with.
pub open spec fn failed(admin: AdminView, status: StatusView) -> Advanced {
    Advanced { admin: latched(admin, status), doubt: true, progress: Progress::Refused(status) }
}

/// What becomes of a running update once its call came back.
pub open spec fn advanced(
    admin: AdminView,
    running: RunningView,
    outcome: Result<bool, CallFailure>,
) -> Advanced {
    let operation = stage_operation(running);
    match (outcome, running.stage) {
        (Err(failure), _) => failed(
            admin,
            failure_status(operation.name, operation.timeout_secs, failure),
        ),
        (Ok(paused), UpdateStage::VerifyingPause) => if !paused {
            Advanced {
                admin: resumed_admin(admin),
                doubt: false,
                progress: Progress::Refused(
                    failed_precondition("scheduler is no longer paused on every engine rank"@),
                ),
            }
        } else {
            Advanced {
                admin,
                doubt: false,
                progress: match replay_refusal(admin, running.update) {
                    Some(status) => Progress::Refused(status),
                    None => Progress::Calls(UpdateStage::LoadingWeights),
                },
            }
        },
        (Ok(_), UpdateStage::LoadingWeights) => Advanced {
            admin,
            doubt: false,
            progress: Progress::Calls(UpdateStage::ResettingCaches),
        },
        (Ok(reset), UpdateStage::ResettingCaches) => if !reset {
            failed(
                admin,
                failed_precondition(
                    "prefix/KV/connector cache reset failed after weight update"@,
                ),
            )
        } else {
            Advanced {
                admin: committed_admin(admin, running.update),
                doubt: false,
                progress: Progress::Committed,
            }
        },
    }
}

/// The standing once a call of an update came back.
pub open spec fn standing_after(standing: ServiceStanding, doubt: bool) -> ServiceStanding {
    if doubt {
        in_doubt(standing)
    } else {
        standing
    }
}

/// How an update goes on.
#[derive(Debug, PartialEq, Eq)]
pub enum UpdateStep {
    Call(RunningUpdate),
    Done(pb::WeightUpdateResponse),
}

/// Takes the outcome of the call that an update waits for, and takes the update further: to its
/// next call, to its commit, or to its end. Of loading the weights, only whether it failed
/// counts.
pub fn advance_update(
    standing: &mut ServiceStanding,
    state: &mut RlAdminState,
    running: RunningUpdate,
    outcome: Result<bool, CallFailure>,
) -> (result: Result<UpdateStep, Status>)
    requires
        underway(old(state)@, running@),
    ensures
        final(state)@ == advanced(old(state)@, running@, outcome).admin,
        *final(standing) == standing_after(
            *old(standing),
            advanced(old(state)@, running@, outcome).doubt,
        ),
        match advanced(old(state)@, running@, outcome).progress {
            Progress::Refused(status) => refusal(result) == Some(status),
            Progress::Calls(stage) => result matches Ok(UpdateStep::Call(next)) && next@ == (
            RunningView { stage, ..running@ }) && underway(final(state)@, next@),
            Progress::Committed => result matches Ok(UpdateStep::Done(response))
                && response.status@ == "ok"@ && response.message@ == "weights updated"@
                && response.weight_version@ == running@.update.version,
        },
{
    let answer = match outcome {
        Ok(answer) => answer,
        Err(failure) => {
            let operation = running.operation();
            let status = call_status(
                operation.name.as_str(),
                operation.timeout_secs,
                &failure,
            );
            latch_indeterminate(standing, state, &status);
            return Err(status);
        },
    };
    match running.stage {
        UpdateStage::VerifyingPause => {
            if !answer {
                state.paused = false;
                state.drained = false;
                return Err(
                    Status::failed_precondition(
                        "scheduler is no longer paused on every engine rank",
                    ),
                );
            }
            match check_replay(state, &running.update) {
                Ok(()) => {},
                Err(status) => {
                    return Err(status);
                },
            }
            Ok(
                UpdateStep::Call(
                    RunningUpdate { stage: UpdateStage::LoadingWeights, update: running.update },
                ),
            )
        },
        UpdateStage::LoadingWeights => Ok(
            UpdateStep::Call(
                RunningUpdate { stage: UpdateStage::ResettingCaches, update: running.update },
            ),
        ),
        UpdateStage::ResettingCaches => {
            if !answer {
                let status = Status::failed_precondition(
                    "prefix/KV/connector cache reset failed after weight update",
                );
                latch_indeterminate(standing, state, &status);
                return Err(status);
            }
            let identity = identify(state, &running.update);
            let version = running.update.version;
            state.weight_version = version.clone();
            commit(state, identity);
            Ok(
                UpdateStep::Done(
                    pb::WeightUpdateResponse {
                        status: "ok".to_string(),
                        message: "weights updated".to_string(),
                        weight_version: version,
                    },
                ),
            )
        },
    }
}

// Laws.

/// How an update ended: its refusal, if it was refused, what it left of the standing and the
/// state, whether it put the weights in doubt, and the calls that it made.
pub struct Ended {
    pub refusal: Option<StatusView>,
    pub standing: ServiceStanding,
    pub admin: AdminView,
    pub doubt: bool,
    pub calls: Seq<UpdateStage>,
}

/// An update from its start to its end. `outcomes` gives what the call of each stage comes to,
/// if it is made.
pub open spec fn whole_update(
    standing: ServiceStanding,
    admin: AdminView,
    update: UpdateView,
    outcomes: spec_fn(UpdateStage) -> Result<bool, CallFailure>,
) -> Ended {
    match update_refusal(standing, admin, update) {
        Some(status) => Ended {
            refusal: Some(status),
            standing,
            admin,
            doubt: false,
            calls: Seq::empty(),
        },
        None => from_stage(
            standing,
            admin,
            RunningView { update, stage: UpdateStage::VerifyingPause },
            outcomes,
        ),
    }
}

/// An update from one of its stages to its end.
pub open spec fn from_stage(
    standing: ServiceStanding,
    admin: AdminView,
    running: RunningView,
    outcomes: spec_fn(UpdateStage) -> Result<bool, CallFailure>,
) -> Ended
    decreases stages_left(running.stage),
{
    let next = advanced(admin, running, outcomes(running.stage));
    match next.progress {
        Progress::Refused(status) => Ended {
            refusal: Some(status),
            standing: standing_after(standing, next.doubt),
            admin: next.admin,
            doubt: next.doubt,
            calls: seq![running.stage],
        },
        Progress::Committed => Ended {
            refusal: None,
            standing: standing_after(standing, next.doubt),
            admin: next.admin,
            doubt: next.doubt,
            calls: seq![running.stage],
        },
        Progress::Calls(stage) => {
            let rest = from_stage(
                standing_after(standing, next.doubt),
                next.admin,
                RunningView { stage, ..running },
                outcomes,
            );
            Ended { calls: seq![running.stage] + rest.calls, ..rest }
        },
    }
}

pub open spec fn stages_left(stage: UpdateStage) -> nat {
    match stage {
        UpdateStage::VerifyingPause => 2,
        UpdateStage::LoadingWeights => 1,
        UpdateStage::ResettingCaches => 0,
    }
}

/// A whole update succeeds exactly where it is not refused, the scheduler is paused, its epoch
/// has not seen its version, the weights were loaded and the caches were reset. Then its version
/// is reported and committed, and nothing else changed. Where it does not succeed, the version
/// that is reported and the committed updates stay. A call that fails, or a reset that does not
/// complete, puts the weights in doubt, and nothing else does. The calls come in order, and none
/// after one that ended the update: the weights are loaded only under a version that is new.
pub proof fn update_succeeds_or_changes_nothing(
    standing: ServiceStanding,
    admin: AdminView,
    update: UpdateView,
    outcomes: spec_fn(UpdateStage) -> Result<bool, CallFailure>,
)
    ensures
        ({
            let ended = whole_update(standing, admin, update, outcomes);
            let paused = outcomes(UpdateStage::VerifyingPause);
            let loaded = outcomes(UpdateStage::LoadingWeights);
            let reset = outcomes(UpdateStage::ResettingCaches);
            let begun = update_refusal(standing, admin, update) is None;
            let unused = !admin.committed.contains_key(replay_key(admin, update));
            let loads = begun && paused == Ok::<bool, CallFailure>(true) && unused;
            let resets = loads && loaded is Ok;
            &&& ended.refusal is None <==> resets && reset == Ok::<bool, CallFailure>(true)
            &&& ended.refusal is None ==> ended.admin == committed_admin(admin, update)
            &&& ended.refusal is None ==> ended.admin.weight_version == update.version
                && ended.admin.committed.contains_key(replay_key(admin, update))
            &&& ended.refusal is Some ==> ended.admin.weight_version == admin.weight_version
                && ended.admin.committed == admin.committed
            &&& ended.doubt <==> (begun && paused is Err) || (loads && loaded is Err) || (resets
                && reset != Ok::<bool, CallFailure>(true))
            &&& ended.standing == standing_after(standing, ended.doubt)
            &&& ended.doubt ==> ended.standing.rl_indeterminate && ended.admin.indeterminate
                == Some(ended.refusal->Some_0.message)
            &&& !ended.doubt ==> ended.admin.indeterminate == admin.indeterminate
            &&& ended.calls == if !begun {
                Seq::empty()
            } else if !loads {
                seq![UpdateStage::VerifyingPause]
            } else if !resets {
                seq![UpdateStage::VerifyingPause, UpdateStage::LoadingWeights]
            } else {
                seq![
                    UpdateStage::VerifyingPause,
                    UpdateStage::LoadingWeights,
                    UpdateStage::ResettingCaches,
                ]
            }
        }),
{
    reveal_with_fuel(from_stage, 4);
    let ended = whole_update(standing, admin, update, outcomes);
    let none = Seq::<UpdateStage>::empty();
    assert(ended.calls =~= if update_refusal(standing, admin, update) is Some {
        none
    } else if outcomes(UpdateStage::VerifyingPause) != Ok::<bool, CallFailure>(true)
        || replay_refusal(admin, update) is Some {
        seq![UpdateStage::VerifyingPause]
    } else if outcomes(UpdateStage::LoadingWeights) is Err {
        seq![UpdateStage::VerifyingPause, UpdateStage::LoadingWeights]
    } else {
        seq![
            UpdateStage::VerifyingPause,
            UpdateStage::LoadingWeights,
            UpdateStage::ResettingCaches,
        ]
    });
}

/// An update that succeeded and is sent again, with the scheduler still paused, is refused
/// before any weights are loaded, and changes nothing.
pub proof fn update_is_not_repeated(
    standing: ServiceStanding,
    admin: AdminView,
    update: UpdateView,
    outcomes: spec_fn(UpdateStage) -> Result<bool, CallFailure>,
    later: spec_fn(UpdateStage) -> Result<bool, CallFailure>,
)
    requires
        whole_update(standing, admin, update, outcomes).refusal is None,
        later(UpdateStage::VerifyingPause) == Ok::<bool, CallFailure>(true),
    ensures
        ({
            let after = whole_update(standing, admin, update, outcomes).admin;
            let again = whole_update(standing, after, update, later);
            &&& again.refusal == Some(
                failed_precondition(
                    "weight_version `"@ + update.version
                        + "` was already committed in controller epoch "@ + decimal(
                        update_epoch(admin, update) as nat,
                    ),
                ),
            )
            &&& again.calls == seq![UpdateStage::VerifyingPause]
            &&& again.admin == after
            &&& again.standing == standing
            &&& !again.doubt
        }),
{
    update_succeeds_or_changes_nothing(standing, admin, update, outcomes);
    let after = whole_update(standing, admin, update, outcomes).admin;
    assert(update_refusal(standing, after, update) is None);
    committed_version_is_not_reused(admin, update, update);
    update_succeeds_or_changes_nothing(standing, after, update, later);
    reveal_with_fuel(from_stage, 2);
}

/// A version that was committed is not committed again in its epoch, neither by the same update
/// nor by another one.
pub proof fn committed_version_is_not_reused(
    admin: AdminView,
    update: UpdateView,
    again: UpdateView,
)
    requires
        again.version == update.version,
        again.distributed == update.distributed,
    ensures
        replay_refusal(committed_admin(admin, update), again) == Some(
            failed_precondition(
                "weight_version `"@ + update.version + if again == update {
                    "` was already committed in controller epoch "@
                } else {
                    "` was already used for a different update in controller epoch "@
                } + decimal(update_epoch(admin, update) as nat),
            ),
        ),
{
    let after = committed_admin(admin, update);
    assert(replay_key(after, again) == replay_key(admin, update));
    if again != update {
        assert(again.method != update.method || again.kwargs != update.kwargs);
    }
}

/// A new group starts without committed versions: what an earlier group committed can be sent
/// again.
pub proof fn new_group_starts_afresh(admin: AdminView, timeout_secs: u64, update: UpdateView)
    requires
        well_formed(admin),
        admin.group_epoch < u64::MAX,
        update.distributed,
    ensures
        replay_refusal(grouped_admin(admin, timeout_secs), update) is None,
{
    let grouped = grouped_admin(admin, timeout_secs);
    let key = replay_key(grouped, update);
    if grouped.committed.contains_key(key) {
        assert(admin.committed.contains_key(key));
    }
}

/// Weights are loaded only where the scheduler is paused with no request left running.
pub proof fn updates_need_a_drained_pause(
    standing: ServiceStanding,
    admin: AdminView,
    update: UpdateView,
)
    requires
        update_refusal(standing, admin, update) is None,
    ensures
        admin.paused,
        admin.drained,
        update.distributed ==> admin.update_group is Some,
        !standing.rl_indeterminate,
        admin.indeterminate is None,
{
}

/// The weights of an accepted distributed update are loaded by `update_weights_from_path`, with
/// the directory of the request as its one argument `weight_dir`, and with no argument where the
/// request names no directory. The call has 640 seconds and is guarded.
pub proof fn distributed_updates_carry_their_directory(
    request: pb::UpdateWeightsFromDistributedRequest,
    update: WeightUpdate,
    running: RunningView,
    operation: Operation,
)
    requires
        distributed_refusal(request) is None,
        update@ == distributed_update(request),
        running.update == update@,
        running.stage == UpdateStage::LoadingWeights,
        operation@ == stage_operation(running),
    ensures
        update.distributed,
        update.version@ == request.weight_version@,
        operation.name@ == "update_weights_from_path"@,
        operation.timeout_secs == 640,
        operation.guarded,
        operation.call matches EngineCall::Collective { method, kwargs } && method@
            == "update_weights_from_path"@ && {
            &&& request.weight_dir@.len() == 0 ==> kwargs@.len() == 0
            &&& request.weight_dir@.len() > 0 ==> kwargs@.len() == 1 && kwargs@[0].0@
                == "weight_dir"@ && (kwargs@[0].1 matches Argument::Text(dir) && dir@
                == request.weight_dir@)
        },
{
    let kwargs = operation.call->kwargs;
    assert(arguments_view(kwargs@).len() == kwargs@.len());
    if request.weight_dir@.len() > 0 {
        assert(arguments_view(kwargs@)[0] == (kwargs@[0].0@, argument_view(kwargs@[0].1)));
    }
}

/// The weights of an accepted update from disk are loaded by the method that the request names,
/// or by `reload_weights` where it names none, with the path of the request as its one argument:
/// `weights_path` for a reload, else `weight_path`.
pub proof fn disk_updates_carry_their_path(
    request: pb::UpdateWeightsFromDiskRequest,
    update: WeightUpdate,
    running: RunningView,
    operation: Operation,
)
    requires
        disk_refusal(request) is None,
        update@ == disk_update(request),
        running.update == update@,
        running.stage == UpdateStage::LoadingWeights,
        operation@ == stage_operation(running),
    ensures
        !update.distributed,
        update.version@ == request.weight_version@,
        operation.timeout_secs == 640,
        operation.guarded,
        operation.call matches EngineCall::Collective { method, kwargs } && method@
            == operation.name@ && kwargs@.len() == 1 && (kwargs@[0].1 matches Argument::Text(path)
            && path@ == request.model_path@) && {
            let reloads = blank(request.engine_rpc@) || request.engine_rpc@ == "reload_weights"@;
            &&& reloads ==> method@ == "reload_weights"@ && kwargs@[0].0@ == "weights_path"@
            &&& !reloads ==> method@ == "update_weights_from_path"@ && method@
                == request.engine_rpc@ && kwargs@[0].0@ == "weight_path"@
        },
{
    let kwargs = operation.call->kwargs;
    assert(arguments_view(kwargs@).len() == kwargs@.len());
    assert(arguments_view(kwargs@)[0] == (kwargs@[0].0@, argument_view(kwargs@[0].1)));
}

/// The other two calls of an update: whether the scheduler is paused, within 10 seconds and
/// without a guard, and a reset of all caches but those of running requests, within 60 seconds
/// and with one.
pub proof fn updates_ask_and_reset(running: RunningView, operation: Operation)
    requires
        operation@ == stage_operation(running),
    ensures
        running.stage == UpdateStage::VerifyingPause ==> operation.call is IsSchedulerPaused
            && operation.timeout_secs == 10 && !operation.guarded && operation.name@
            == "verify_scheduler_paused"@,
        running.stage == UpdateStage::ResettingCaches ==> operation.call
            == (EngineCall::ResetPrefixCache {
            reset_running_requests: false,
            reset_connector: true,
        }) && operation.timeout_secs == 60 && operation.guarded && operation.name@
            == "reset_prefix_cache_after_weight_update"@,
{
}

/// Requests for updates are refused exactly where they give no path, name another method, want
/// to run unpaused or want to keep the caches.
pub proof fn update_requests_are_refused_for_these_reasons(
    disk: pb::UpdateWeightsFromDiskRequest,
    distributed: pb::UpdateWeightsFromDistributedRequest,
)
    ensures
        disk_refusal(disk) is Some <==> blank(disk.model_path@) || (!blank(disk.engine_rpc@)
            && disk.engine_rpc@ != "reload_weights"@ && disk.engine_rpc@
            != "update_weights_from_path"@),
        disk_refusal(disk) matches Some(status) ==> status.code == Code::InvalidArgument,
        distributed_refusal(distributed) is Some <==> distributed.allow_unpaused
            || !distributed.reset_prefix_cache || (!blank(distributed.engine_rpc@)
            && distributed.engine_rpc@ != "update_weights_from_path"@),
        distributed_refusal(distributed) matches Some(status) ==> status.code
            == Code::InvalidArgument,
{
}

/// An update is refused before any call exactly where its version names nothing, the weights are
/// in doubt, the scheduler was not paused or may still run requests, or a distributed one has no
/// group.
pub proof fn updates_are_refused_for_these_reasons(
    standing: ServiceStanding,
    admin: AdminView,
    update: UpdateView,
)
    ensures
        update_refusal(standing, admin, update) is Some <==> blank(update.version)
            || update.version == "unknown"@ || standing.rl_indeterminate || admin.indeterminate
            is Some || !admin.paused || !admin.drained || (update.distributed && admin.update_group
            is None),
        update_refusal(standing, admin, update) matches Some(status) ==> status.code == if blank(
            update.version,
        ) || update.version == "unknown"@ {
            Code::InvalidArgument
        } else {
            Code::FailedPrecondition
        },
{
}

/// A distributed update is known by the epoch of its group and its version, and one from disk by
/// its version alone. What is committed under such a key is the update itself, and nothing else
/// of the state changes but the version that is reported.
pub proof fn updates_are_committed_under_their_epoch(admin: AdminView, update: UpdateView)
    ensures
        ({
            let after = committed_admin(admin, update);
            let epoch = if update.distributed {
                admin.group_epoch
            } else {
                0
            };
            let key = (epoch, update.version);
            &&& replay_refusal(admin, update) is Some <==> admin.committed.contains_key(key)
            &&& after.weight_version == update.version
            &&& after.committed.dom() == admin.committed.dom().insert(key)
            &&& forall|other: (u64, Seq<char>)|
                other != key && #[trigger] admin.committed.contains_key(other)
                    ==> after.committed[other] == admin.committed[other]
            &&& after.committed[key].method == update.method
            &&& after.committed[key].kwargs == update.kwargs
            &&& after.committed[key].version == update.version
            &&& after.committed[key].distributed == update.distributed
            &&& after.committed[key].controller_epoch == epoch
            &&& after.paused == admin.paused && after.drained == admin.drained
            &&& after.indeterminate == admin.indeterminate
            &&& after.update_group == admin.update_group
            &&& after.group_epoch == admin.group_epoch
        }),
{
}

/// While an update runs, the scheduler is paused and drained and nothing is in doubt. An update
/// that is distributed has its group, and each a version of its own.
pub proof fn running_updates_stand_on_a_pause(admin: AdminView, running: RunningView)
    requires
        underway(admin, running),
    ensures
        admin.paused && admin.drained && admin.indeterminate is None,
        running.update.distributed ==> admin.update_group is Some,
        !blank(running.update.version) && running.update.version != "unknown"@,
        running.stage != UpdateStage::VerifyingPause ==> replay_refusal(
            admin,
            running.update,
        ) is None,
{
}

} // verus!
