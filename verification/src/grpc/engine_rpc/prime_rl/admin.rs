//! The state of weight administration and the decisions between the calls to the engine.
//!
//! Each operation starts with a `begin_` function, which refuses it or gives the call to make,
//! and goes on with the function that takes the outcome of that call.

use super::calls::{
    allowed_method, argument_view, arguments_view, call_status, chosen_method, chosen_mode,
    failure_status, group_operation_timeout, group_timeout, group_timeout_refusal, mode_refusal,
    unsupported_method, wanted_mode, Argument, ArgumentView, Arguments, CallFailure, CallView,
    EngineCall, Operation, OperationView, PauseMode, PAUSE_CONSENSUS_TIMEOUT_SECS,
    SCHEDULER_OPERATION_TIMEOUT_SECS,
};
use super::pb;
use crate::grpc::engine_rpc::standing::{flag_refusal, in_doubt, ServiceStanding};
use crate::status::{
    failed_precondition, invalid_argument, refusal, unavailable, Code, Status, StatusView,
};
use crate::text::{blank, is_blank, text_view};
use vstd::prelude::*;

verus! {

/// The group that receives weight updates from a trainer.
#[derive(Clone, Copy, Debug, PartialEq, Eq, Structural)]
pub struct UpdateGroupConfig {
    pub operation_timeout_secs: u64,
}

/// What an update loaded, and where from.
#[derive(Debug, PartialEq, Eq)]
pub struct WeightUpdateIdentity {
    pub method: String,
    pub kwargs: Arguments,
    pub version: String,
    pub distributed: bool,
    pub controller_epoch: u64,
}

#[derive(Debug, PartialEq, Eq)]
pub struct RlAdminState {
    pub paused: bool,
    pub drained: bool,
    pub indeterminate: Option<String>,
    pub update_group: Option<UpdateGroupConfig>,
    pub group_epoch: u64,
    /// The updates that were committed. A later one stands in for an earlier one of the same
    /// epoch and version.
    pub committed_updates: Vec<WeightUpdateIdentity>,
    pub weight_version: String,
}

pub struct IdentityView {
    pub method: Seq<char>,
    pub kwargs: Seq<(Seq<char>, ArgumentView)>,
    pub version: Seq<char>,
    pub distributed: bool,
    pub controller_epoch: u64,
}

/// What the state of weight administration says. Committed updates are found by the epoch of
/// their controller and their version.
pub struct AdminView {
    pub paused: bool,
    pub drained: bool,
    pub indeterminate: Option<Seq<char>>,
    pub update_group: Option<UpdateGroupConfig>,
    pub group_epoch: u64,
    pub committed: Map<(u64, Seq<char>), IdentityView>,
    pub weight_version: Seq<char>,
}

impl View for WeightUpdateIdentity {
    type V = IdentityView;

    open spec fn view(&self) -> IdentityView {
        IdentityView {
            method: self.method@,
            kwargs: arguments_view(self.kwargs@),
            version: self.version@,
            distributed: self.distributed,
            controller_epoch: self.controller_epoch,
        }
    }
}

pub open spec fn committed_map(updates: Seq<WeightUpdateIdentity>) -> Map<
    (u64, Seq<char>),
    IdentityView,
>
    decreases updates.len(),
{
    if updates.len() == 0 {
        Map::empty()
    } else {
        let last = updates.last()@;
        committed_map(updates.drop_last()).insert((last.controller_epoch, last.version), last)
    }
}

impl View for RlAdminState {
    type V = AdminView;

    open spec fn view(&self) -> AdminView {
        AdminView {
            paused: self.paused,
            drained: self.drained,
            indeterminate: match self.indeterminate {
                Some(reason) => Some(reason@),
                None => None,
            },
            update_group: self.update_group,
            group_epoch: self.group_epoch,
            committed: committed_map(self.committed_updates@),
            weight_version: self.weight_version@,
        }
    }
}

pub open spec fn initial_admin() -> AdminView {
    AdminView {
        paused: false,
        drained: false,
        indeterminate: None,
        update_group: None,
        group_epoch: 0,
        committed: Map::empty(),
        weight_version: "initial"@,
    }
}

/// Whether updates were committed under epochs up to the current one, each where it belongs,
/// and a group stands only once its epoch began.
pub open spec fn well_formed(admin: AdminView) -> bool {
    &&& forall|key: (u64, Seq<char>)| #[trigger]
        admin.committed.contains_key(key) ==> key.0 <= admin.group_epoch
            && admin.committed[key].controller_epoch == key.0 && admin.committed[key].version
            == key.1
    &&& admin.update_group is Some ==> admin.group_epoch > 0
}

impl Default for RlAdminState {
    fn default() -> (state: RlAdminState)
        ensures
            state@ == initial_admin(),
            well_formed(state@),
    {
        RlAdminState {
            paused: false,
            drained: false,
            indeterminate: None,
            update_group: None,
            group_epoch: 0,
            committed_updates: Vec::new(),
            weight_version: "initial".to_string(),
        }
    }
}

pub open spec fn determinate_refusal(
    standing: ServiceStanding,
    admin: AdminView,
) -> Option<StatusView> {
    if flag_refusal(standing) is Some {
        flag_refusal(standing)
    } else {
        match admin.indeterminate {
            Some(reason) => Some(
                failed_precondition(
                    "engine weight state is indeterminate and requires restart: "@ + reason,
                ),
            ),
            None => None,
        }
    }
}

/// The state once an operation failed with `status`: the weights are in doubt from then on.
pub open spec fn latched(admin: AdminView, status: StatusView) -> AdminView {
    AdminView { indeterminate: Some(status.message), ..admin }
}

pub open spec fn admin_response(response: pb::AdminResponse, message: Seq<char>) -> bool {
    response.status@ == "ok"@ && response.message@ == message
}

fn admin_ok(message: &str) -> (response: pb::AdminResponse)
    ensures
        admin_response(response, message@),
{
    pb::AdminResponse { status: "ok".to_string(), message: message.to_string() }
}

pub fn latch_indeterminate(
    standing: &mut ServiceStanding,
    state: &mut RlAdminState,
    error: &Status,
)
    ensures
        *final(standing) == in_doubt(*old(standing)),
        final(state)@ == latched(old(state)@, error@),
{
    state.indeterminate = Some(error.message.clone());
    standing.mark_rl_indeterminate();
}

pub fn ensure_determinate(standing: &ServiceStanding, state: &RlAdminState) -> (result: Result<
    (),
    Status,
>)
    ensures
        refusal(result) == determinate_refusal(*standing, state@),
{
    match standing.ensure_determinate_flag() {
        Ok(()) => {},
        Err(status) => {
            return Err(status);
        },
    }
    match &state.indeterminate {
        Some(reason) => {
            let message =
                "engine weight state is indeterminate and requires restart: ".to_string().concat(
                reason.as_str(),
            );
            Err(Status::failed_precondition(message.as_str()))
        },
        None => Ok(()),
    }
}

/// What the outcome of a call comes to: its value, or a failure, which puts the weights in
/// doubt.
fn settle_call<T>(
    standing: &mut ServiceStanding,
    state: &mut RlAdminState,
    operation: &Operation,
    outcome: Result<T, CallFailure>,
) -> (result: Result<T, Status>)
    ensures
        match outcome {
            Ok(value) => {
                &&& result == Ok::<T, Status>(value)
                &&& *final(standing) == *old(standing)
                &&& *final(state) == *old(state)
            },
            Err(failure) => {
                let status = failure_status(operation.name@, operation.timeout_secs, failure);
                &&& refusal(result) == Some(status)
                &&& *final(standing) == in_doubt(*old(standing))
                &&& final(state)@ == latched(old(state)@, status)
            },
        },
{
    match outcome {
        Ok(value) => Ok(value),
        Err(failure) => {
            let status = call_status(
                operation.name.as_str(),
                operation.timeout_secs,
                &failure,
            );
            latch_indeterminate(standing, state, &status);
            Err(status)
        },
    }
}

/// What an administrative call that failed leaves, or succeeded with `done` and `message`.
pub open spec fn admin_outcome(
    before: (ServiceStanding, AdminView),
    after: (ServiceStanding, AdminView),
    operation: Operation,
    failure: Option<CallFailure>,
    result: Result<pb::AdminResponse, Status>,
    done: AdminView,
    message: Seq<char>,
) -> bool {
    match failure {
        None => {
            &&& result matches Ok(response) && admin_response(response, message)
            &&& after.0 == before.0
            &&& after.1 == done
        },
        Some(failure) => {
            let status = failure_status(operation.name@, operation.timeout_secs, failure);
            &&& refusal(result) == Some(status)
            &&& after.0 == in_doubt(before.0)
            &&& after.1 == latched(before.1, status)
        },
    }
}

pub open spec fn failure_of<T>(outcome: Result<T, CallFailure>) -> Option<CallFailure> {
    match outcome {
        Ok(_) => None,
        Err(failure) => Some(failure),
    }
}

// Liveness.

/// The refusal of a probe of a service whose weights are in doubt or whose engine is known to
/// be unhealthy.
pub open spec fn liveness_refusal(
    standing: ServiceStanding,
    healthy: bool,
    health_error: Option<Seq<char>>,
) -> Option<StatusView> {
    if flag_refusal(standing) is Some {
        flag_refusal(standing)
    } else if !healthy {
        Some(
            unavailable(
                match health_error {
                    Some(error) => error,
                    None => "engine is not healthy"@,
                },
            ),
        )
    } else {
        None
    }
}

pub fn begin_liveness_probe(
    standing: &ServiceStanding,
    healthy: bool,
    health_error: Option<String>,
) -> (result: Result<Operation, Status>)
    ensures
        refusal(result) == liveness_refusal(*standing, healthy, text_view(health_error)),
        result matches Ok(operation) ==> operation@ == (OperationView {
            name: "liveness_probe"@,
            call: CallView::Collective { method: "liveness_probe"@, kwargs: Seq::empty() },
            timeout_secs: PAUSE_CONSENSUS_TIMEOUT_SECS,
            guarded: false,
        }),
{
    match standing.ensure_determinate_flag() {
        Ok(()) => {},
        Err(status) => {
            return Err(status);
        },
    }
    if !healthy {
        return Err(
            match health_error {
                Some(error) => Status::unavailable(error.as_str()),
                None => Status::unavailable("engine is not healthy"),
            },
        );
    }
    let kwargs: Arguments = Vec::new();
    assert(arguments_view(kwargs@) =~= Seq::empty());
    Ok(
        Operation {
            name: "liveness_probe".to_string(),
            call: EngineCall::Collective { method: "liveness_probe".to_string(), kwargs },
            timeout_secs: PAUSE_CONSENSUS_TIMEOUT_SECS,
            guarded: false,
        },
    )
}

pub fn finish_liveness_probe(operation: &Operation, outcome: Result<(), CallFailure>) -> (result:
    Result<pb::AdminResponse, Status>)
    ensures
        match outcome {
            Ok(_) => result matches Ok(response) && admin_response(response, "alive"@),
            Err(failure) => refusal(result) == Some(
                failure_status(operation.name@, operation.timeout_secs, failure),
            ),
        },
{
    match outcome {
        Ok(()) => Ok(admin_ok("alive")),
        Err(failure) => Err(
            call_status(operation.name.as_str(), operation.timeout_secs, &failure),
        ),
    }
}

// Pausing and resuming.

pub open spec fn pause_refusal(
    standing: ServiceStanding,
    admin: AdminView,
    mode: Seq<char>,
    read: Result<PauseMode, String>,
) -> Option<StatusView> {
    if mode_refusal(mode, read) is Some {
        mode_refusal(mode, read)
    } else {
        determinate_refusal(standing, admin)
    }
}

/// The state once the scheduler paused. Only where running requests were kept are there any
/// left.
pub open spec fn paused_admin(admin: AdminView, mode: PauseMode) -> AdminView {
    AdminView { paused: true, drained: mode != PauseMode::Keep, ..admin }
}

/// Checks a request to pause. `read` is what the engine's client reads its mode as.
pub fn begin_pause(
    standing: &ServiceStanding,
    state: &RlAdminState,
    request: &pb::PauseGenerationRequest,
    read: Result<PauseMode, String>,
) -> (result: Result<Operation, Status>)
    ensures
        refusal(result) == pause_refusal(*standing, state@, request.mode@, read),
        result matches Ok(operation) ==> operation@ == (OperationView {
            name: "pause_generation"@,
            call: CallView::PauseScheduler {
                mode: wanted_mode(request.mode@, read),
                clear_cache: request.clear_cache,
            },
            timeout_secs: SCHEDULER_OPERATION_TIMEOUT_SECS,
            guarded: true,
        }),
{
    let mode = match chosen_mode(request.mode.as_str(), read) {
        Ok(mode) => mode,
        Err(status) => {
            return Err(status);
        },
    };
    match ensure_determinate(standing, state) {
        Ok(()) => {},
        Err(status) => {
            return Err(status);
        },
    }
    Ok(
        Operation {
            name: "pause_generation".to_string(),
            call: EngineCall::PauseScheduler { mode, clear_cache: request.clear_cache },
            timeout_secs: SCHEDULER_OPERATION_TIMEOUT_SECS,
            guarded: true,
        },
    )
}

pub fn finish_pause(
    standing: &mut ServiceStanding,
    state: &mut RlAdminState,
    operation: &Operation,
    outcome: Result<(), CallFailure>,
) -> (result: Result<pb::AdminResponse, Status>)
    requires
        operation.call is PauseScheduler,
    ensures
        admin_outcome(
            (*old(standing), old(state)@),
            (*final(standing), final(state)@),
            *operation,
            failure_of(outcome),
            result,
            paused_admin(old(state)@, operation.call->mode),
            "paused"@,
        ),
{
    match settle_call(standing, state, operation, outcome) {
        Ok(()) => {},
        Err(status) => {
            return Err(status);
        },
    }
    state.paused = true;
    state.drained = match &operation.call {
        EngineCall::PauseScheduler { mode, .. } => *mode != PauseMode::Keep,
        _ => false,
    };
    Ok(admin_ok("paused"))
}

pub open spec fn resumed_admin(admin: AdminView) -> AdminView {
    AdminView { paused: false, drained: false, ..admin }
}

pub fn begin_resume(standing: &ServiceStanding, state: &RlAdminState) -> (result: Result<
    Operation,
    Status,
>)
    ensures
        refusal(result) == determinate_refusal(*standing, state@),
        result matches Ok(operation) ==> operation@ == (OperationView {
            name: "resume_generation"@,
            call: CallView::ResumeScheduler,
            timeout_secs: SCHEDULER_OPERATION_TIMEOUT_SECS,
            guarded: true,
        }),
{
    match ensure_determinate(standing, state) {
        Ok(()) => {},
        Err(status) => {
            return Err(status);
        },
    }
    Ok(
        Operation {
            name: "resume_generation".to_string(),
            call: EngineCall::ResumeScheduler,
            timeout_secs: SCHEDULER_OPERATION_TIMEOUT_SECS,
            guarded: true,
        },
    )
}

pub fn finish_resume(
    standing: &mut ServiceStanding,
    state: &mut RlAdminState,
    operation: &Operation,
    outcome: Result<(), CallFailure>,
) -> (result: Result<pb::AdminResponse, Status>)
    ensures
        admin_outcome(
            (*old(standing), old(state)@),
            (*final(standing), final(state)@),
            *operation,
            failure_of(outcome),
            result,
            resumed_admin(old(state)@),
            "resumed"@,
        ),
{
    match settle_call(standing, state, operation, outcome) {
        Ok(()) => {},
        Err(status) => {
            return Err(status);
        },
    }
    state.paused = false;
    state.drained = false;
    Ok(admin_ok("resumed"))
}

// Flushing the cache.

pub fn begin_flush(
    standing: &ServiceStanding,
    state: &RlAdminState,
    request: &pb::FlushCacheRequest,
) -> (result: Result<Operation, Status>)
    ensures
        refusal(result) == determinate_refusal(*standing, state@),
        result matches Ok(operation) ==> operation@ == (OperationView {
            name: "flush_cache"@,
            call: CallView::ResetPrefixCache {
                reset_running_requests: request.reset_running_requests,
                reset_connector: request.reset_connector,
            },
            timeout_secs: SCHEDULER_OPERATION_TIMEOUT_SECS,
            guarded: true,
        }),
{
    match ensure_determinate(standing, state) {
        Ok(()) => {},
        Err(status) => {
            return Err(status);
        },
    }
    Ok(
        Operation {
            name: "flush_cache".to_string(),
            call: EngineCall::ResetPrefixCache {
                reset_running_requests: request.reset_running_requests,
                reset_connector: request.reset_connector,
            },
            timeout_secs: SCHEDULER_OPERATION_TIMEOUT_SECS,
            guarded: true,
        },
    )
}

pub fn finish_flush(
    standing: &mut ServiceStanding,
    state: &mut RlAdminState,
    operation: &Operation,
    outcome: Result<bool, CallFailure>,
) -> (result: Result<pb::AdminResponse, Status>)
    ensures
        outcome != Ok::<bool, CallFailure>(false) ==> admin_outcome(
            (*old(standing), old(state)@),
            (*final(standing), final(state)@),
            *operation,
            failure_of(outcome),
            result,
            old(state)@,
            "cache flushed"@,
        ),
        outcome == Ok::<bool, CallFailure>(false) ==> refusal(result) == Some(
            failed_precondition("prefix/KV/connector cache reset did not complete"@),
        ) && *final(standing) == *old(standing) && final(state)@ == old(state)@,
{
    match settle_call(standing, state, operation, outcome) {
        Ok(reset) => {
            if !reset {
                return Err(
                    Status::failed_precondition(
                        "prefix/KV/connector cache reset did not complete",
                    ),
                );
            }
            Ok(admin_ok("cache flushed"))
        },
        Err(status) => Err(status),
    }
}

// Aborting one request.

pub open spec fn abort_refusal(request_id: Seq<char>) -> Option<StatusView> {
    if blank(request_id) {
        Some(invalid_argument("request_id is required"@))
    } else {
        None
    }
}

pub fn begin_abort(request_id: &str) -> (result: Result<(), Status>)
    ensures
        refusal(result) == abort_refusal(request_id@),
{
    if is_blank(request_id) {
        return Err(Status::invalid_argument("request_id is required"));
    }
    Ok(())
}

/// Takes what the abort came to: nothing, or the report of its error.
pub fn finish_abort(outcome: Result<(), String>) -> (result: Result<pb::AdminResponse, Status>)
    ensures
        match outcome {
            Ok(_) => result matches Ok(response) && admin_response(response, "aborted"@),
            Err(report) => refusal(result) == Some(
                failure_status("abort_request"@, 0, CallFailure::Failed(report)),
            ),
        },
{
    match outcome {
        Ok(()) => Ok(admin_ok("aborted")),
        Err(report) => Err(call_status("abort_request", 0, &CallFailure::Failed(report))),
    }
}

// The group that receives weight updates.

pub open spec fn init_refusal(
    standing: ServiceStanding,
    admin: AdminView,
    request: pb::InitWeightsUpdateGroupRequest,
) -> Option<StatusView> {
    let method = chosen_method(request.engine_rpc@, "init_broadcaster"@);
    if blank(request.host@) {
        Some(invalid_argument("host is required"@))
    } else if request.port == 0 || request.inference_world_size == 0 {
        Some(invalid_argument("port and inference_world_size must be positive"@))
    } else if method != "init_broadcaster"@ {
        Some(unsupported_method(method))
    } else if group_timeout_refusal(request.timeout) is Some {
        group_timeout_refusal(request.timeout)
    } else if determinate_refusal(standing, admin) is Some {
        determinate_refusal(standing, admin)
    } else if admin.update_group is Some {
        Some(
            failed_precondition(
                "a weight update group is already initialized; destroy it before creating a new controller epoch"@,
            ),
        )
    } else if admin.group_epoch == u64::MAX {
        Some(failed_precondition("weight update group epoch exhausted"@))
    } else {
        None
    }
}

pub open spec fn init_arguments(request: pb::InitWeightsUpdateGroupRequest) -> Seq<(
    Seq<char>,
    ArgumentView,
)> {
    seq![
        ("host"@, ArgumentView::Text(request.host@)),
        ("inference_world_size"@, ArgumentView::Number(request.inference_world_size as u64)),
        ("port"@, ArgumentView::Number(request.port as u64)),
        ("quantize_in_weight_transfer"@, ArgumentView::Flag(request.quantize_in_weight_transfer)),
        ("rank_offset"@, ArgumentView::Number(request.rank_offset as u64)),
        ("timeout"@, ArgumentView::Number(request.timeout)),
    ]
}

/// The state once a group stands, in an epoch of its own.
pub open spec fn grouped_admin(admin: AdminView, timeout_secs: u64) -> AdminView {
    AdminView {
        group_epoch: (admin.group_epoch + 1) as u64,
        update_group: Some(UpdateGroupConfig { operation_timeout_secs: timeout_secs }),
        ..admin
    }
}

pub fn begin_init_group(
    standing: &ServiceStanding,
    state: &RlAdminState,
    request: &pb::InitWeightsUpdateGroupRequest,
) -> (result: Result<Operation, Status>)
    ensures
        refusal(result) == init_refusal(*standing, state@, *request),
        result matches Ok(operation) ==> operation@ == (OperationView {
            name: "init_broadcaster"@,
            call: CallView::Collective {
                method: "init_broadcaster"@,
                kwargs: init_arguments(*request),
            },
            timeout_secs: group_timeout(request.timeout),
            guarded: true,
        }),
{
    if is_blank(request.host.as_str()) {
        return Err(Status::invalid_argument("host is required"));
    }
    if request.port == 0 || request.inference_world_size == 0 {
        return Err(Status::invalid_argument("port and inference_world_size must be positive"));
    }
    let allowed: Vec<&str> = vec!["init_broadcaster"];
    assert(allowed@[0]@ == "init_broadcaster"@);
    let method = match allowed_method(
        request.engine_rpc.as_str(),
        "init_broadcaster",
        allowed.as_slice(),
    ) {
        Ok(method) => method,
        Err(status) => {
            return Err(status);
        },
    };
    let timeout_secs: u64 = match group_operation_timeout(request.timeout) {
        Ok(secs) => secs,
        Err(status) => {
            return Err(status);
        },
    };
    match ensure_determinate(standing, state) {
        Ok(()) => {},
        Err(status) => {
            return Err(status);
        },
    }
    if state.update_group.is_some() {
        return Err(
            Status::failed_precondition(
                "a weight update group is already initialized; destroy it before creating a new controller epoch",
            ),
        );
    }
    if state.group_epoch == u64::MAX {
        return Err(Status::failed_precondition("weight update group epoch exhausted"));
    }
    let kwargs: Arguments = vec![
        ("host".to_string(), Argument::Text(request.host.clone())),
        (
            "inference_world_size".to_string(),
            Argument::Number(request.inference_world_size as u64),
        ),
        ("port".to_string(), Argument::Number(request.port as u64)),
        (
            "quantize_in_weight_transfer".to_string(),
            Argument::Flag(request.quantize_in_weight_transfer),
        ),
        ("rank_offset".to_string(), Argument::Number(request.rank_offset as u64)),
        ("timeout".to_string(), Argument::Number(request.timeout)),
    ];
    assert(arguments_view(kwargs@) =~= init_arguments(*request));
    Ok(
        Operation {
            name: method.to_string(),
            call: EngineCall::Collective { method: method.to_string(), kwargs },
            timeout_secs,
            guarded: true,
        },
    )
}

pub fn finish_init_group(
    standing: &mut ServiceStanding,
    state: &mut RlAdminState,
    operation: &Operation,
    outcome: Result<(), CallFailure>,
) -> (result: Result<pb::AdminResponse, Status>)
    requires
        old(state).group_epoch < u64::MAX,
    ensures
        admin_outcome(
            (*old(standing), old(state)@),
            (*final(standing), final(state)@),
            *operation,
            failure_of(outcome),
            result,
            grouped_admin(old(state)@, operation.timeout_secs),
            "weight update group initialized"@,
        ),
{
    match settle_call(standing, state, operation, outcome) {
        Ok(()) => {},
        Err(status) => {
            return Err(status);
        },
    }
    state.group_epoch = state.group_epoch + 1;
    state.update_group = Some(
        UpdateGroupConfig { operation_timeout_secs: operation.timeout_secs },
    );
    Ok(admin_ok("weight update group initialized"))
}

pub open spec fn destroy_refusal(
    standing: ServiceStanding,
    admin: AdminView,
    engine_rpc: Seq<char>,
) -> Option<StatusView> {
    let method = chosen_method(engine_rpc, "destroy_broadcaster"@);
    if method != "destroy_broadcaster"@ {
        Some(unsupported_method(method))
    } else {
        determinate_refusal(standing, admin)
    }
}

pub open spec fn ungrouped_admin(admin: AdminView) -> AdminView {
    AdminView { update_group: None, ..admin }
}

/// What is to be done to destroy the group: the answer, where there is none, or a call.
#[derive(Debug, PartialEq, Eq)]
pub enum DestroyStep {
    Answer(pb::AdminResponse),
    Call(Operation),
}

pub fn begin_destroy_group(
    standing: &ServiceStanding,
    state: &RlAdminState,
    request: &pb::DestroyWeightsUpdateGroupRequest,
) -> (result: Result<DestroyStep, Status>)
    ensures
        refusal(result) == destroy_refusal(*standing, state@, request.engine_rpc@),
        result matches Ok(DestroyStep::Answer(response)) ==> state.update_group is None
            && admin_response(response, "weight update group already destroyed"@),
        result matches Ok(DestroyStep::Call(operation)) ==> state.update_group matches Some(group)
            && operation@ == (OperationView {
            name: "destroy_broadcaster"@,
            call: CallView::Collective { method: "destroy_broadcaster"@, kwargs: Seq::empty() },
            timeout_secs: group.operation_timeout_secs,
            guarded: true,
        }),
{
    let allowed: Vec<&str> = vec!["destroy_broadcaster"];
    assert(allowed@[0]@ == "destroy_broadcaster"@);
    let method = match allowed_method(
        request.engine_rpc.as_str(),
        "destroy_broadcaster",
        allowed.as_slice(),
    ) {
        Ok(method) => method,
        Err(status) => {
            return Err(status);
        },
    };
    match ensure_determinate(standing, state) {
        Ok(()) => {},
        Err(status) => {
            return Err(status);
        },
    }
    let group = match &state.update_group {
        Some(group) => group,
        None => {
            return Ok(DestroyStep::Answer(admin_ok("weight update group already destroyed")));
        },
    };
    let kwargs: Arguments = Vec::new();
    assert(arguments_view(kwargs@) =~= Seq::empty());
    Ok(
        DestroyStep::Call(
            Operation {
                name: method.to_string(),
                call: EngineCall::Collective { method: method.to_string(), kwargs },
                timeout_secs: group.operation_timeout_secs,
                guarded: true,
            },
        ),
    )
}

pub fn finish_destroy_group(
    standing: &mut ServiceStanding,
    state: &mut RlAdminState,
    operation: &Operation,
    outcome: Result<(), CallFailure>,
) -> (result: Result<pb::AdminResponse, Status>)
    ensures
        admin_outcome(
            (*old(standing), old(state)@),
            (*final(standing), final(state)@),
            *operation,
            failure_of(outcome),
            result,
            ungrouped_admin(old(state)@),
            "weight update group destroyed"@,
        ),
{
    match settle_call(standing, state, operation, outcome) {
        Ok(()) => {},
        Err(status) => {
            return Err(status);
        },
    }
    state.update_group = None;
    Ok(admin_ok("weight update group destroyed"))
}

// The version of the weights.

pub fn get_weight_version(standing: &ServiceStanding, state: &RlAdminState) -> (result: Result<
    pb::GetWeightVersionResponse,
    Status,
>)
    ensures
        refusal(result) == determinate_refusal(*standing, state@),
        result matches Ok(response) ==> response.status@ == "ok"@ && response.weight_version
            == state.weight_version,
{
    match ensure_determinate(standing, state) {
        Ok(()) => {},
        Err(status) => {
            return Err(status);
        },
    }
    Ok(
        pb::GetWeightVersionResponse {
            status: "ok".to_string(),
            weight_version: state.weight_version.clone(),
        },
    )
}

// Laws.

/// A pause leaves no request running unless they were to be kept, and a resumed scheduler is
/// neither paused nor drained. Nothing else of the state changes.
pub proof fn pauses_and_resumes_change_no_more(admin: AdminView, mode: PauseMode)
    ensures
        ({
            let paused = paused_admin(admin, mode);
            let resumed = resumed_admin(admin);
            &&& paused.paused
            &&& paused.drained <==> mode == PauseMode::Abort || mode == PauseMode::Wait
            &&& !resumed.paused && !resumed.drained
            &&& paused.indeterminate == admin.indeterminate && resumed.indeterminate
                == admin.indeterminate
            &&& paused.update_group == admin.update_group && resumed.update_group
                == admin.update_group
            &&& paused.group_epoch == admin.group_epoch && resumed.group_epoch
                == admin.group_epoch
            &&& paused.committed == admin.committed && resumed.committed == admin.committed
            &&& paused.weight_version == admin.weight_version && resumed.weight_version
                == admin.weight_version
        }),
{
}

/// A group begins an epoch of its own, one after the last, with the deadline that it was made
/// with, and goes without ending the epoch. Nothing else of the state changes.
pub proof fn groups_change_no_more(admin: AdminView, timeout_secs: u64)
    requires
        admin.group_epoch < u64::MAX,
    ensures
        ({
            let grouped = grouped_admin(admin, timeout_secs);
            let ungrouped = ungrouped_admin(admin);
            &&& grouped.group_epoch == admin.group_epoch + 1
            &&& grouped.update_group matches Some(group) && group.operation_timeout_secs
                == timeout_secs
            &&& ungrouped.group_epoch == admin.group_epoch
            &&& ungrouped.update_group is None
            &&& grouped.paused == admin.paused && ungrouped.paused == admin.paused
            &&& grouped.drained == admin.drained && ungrouped.drained == admin.drained
            &&& grouped.indeterminate == admin.indeterminate && ungrouped.indeterminate
                == admin.indeterminate
            &&& grouped.committed == admin.committed && ungrouped.committed == admin.committed
            &&& grouped.weight_version == admin.weight_version && ungrouped.weight_version
                == admin.weight_version
        }),
{
}

/// A failure is remembered by its message and changes nothing else. From then on an operation is
/// refused, and it is refused for no other reason of this kind.
pub proof fn failures_are_remembered(
    standing: ServiceStanding,
    admin: AdminView,
    status: StatusView,
)
    ensures
        ({
            let after = latched(admin, status);
            &&& after.indeterminate == Some(status.message)
            &&& after.paused == admin.paused && after.drained == admin.drained
            &&& after.update_group == admin.update_group
            &&& after.group_epoch == admin.group_epoch
            &&& after.committed == admin.committed
            &&& after.weight_version == admin.weight_version
            &&& determinate_refusal(standing, after) is Some
        }),
        determinate_refusal(standing, admin) is Some <==> standing.rl_indeterminate
            || admin.indeterminate is Some,
        determinate_refusal(standing, admin) matches Some(refused) ==> refused.code
            == Code::FailedPrecondition,
        in_doubt(standing).rl_indeterminate,
        in_doubt(standing).admission.draining,
        in_doubt(standing).admission.in_flight == standing.admission.in_flight,
{
}

/// The calls of weight administration come to this: a success is answered with its message and
/// leaves the standing as it was, and a failure is answered with the name of the call, puts the
/// service in doubt and is remembered.
pub proof fn calls_succeed_or_put_in_doubt(
    before: (ServiceStanding, AdminView),
    after: (ServiceStanding, AdminView),
    operation: Operation,
    failure: Option<CallFailure>,
    result: Result<pb::AdminResponse, Status>,
    done: AdminView,
    message: Seq<char>,
)
    requires
        admin_outcome(before, after, operation, failure, result, done, message),
    ensures
        failure is None <==> result is Ok,
        result matches Ok(response) ==> response.status@ == "ok"@ && response.message@ == message
            && after.0 == before.0 && after.1 == done,
        result matches Err(status) ==> {
            &&& after.0.rl_indeterminate
            &&& after.0.admission.draining
            &&& after.0.admission.in_flight == before.0.admission.in_flight
            &&& after.1.indeterminate == Some(status.message@)
            &&& after.1.committed == before.1.committed
            &&& after.1.weight_version == before.1.weight_version
            &&& failure matches Some(CallFailure::Failed(report)) ==> status.code == Code::Internal
                && status.message@ == operation.name@ + ": "@ + report@
            &&& failure == Some(CallFailure::TimedOut) ==> status.code == Code::DeadlineExceeded
        },
{
}

/// A group is made with the host, the ports, the ranks, the deadline and the encoding of the
/// request, each under its own name, by a guarded call that outlasts the engine's deadline by ten
/// seconds, or has 290 seconds where the engine has none.
pub proof fn groups_are_made_as_requested(
    request: pb::InitWeightsUpdateGroupRequest,
    operation: Operation,
)
    requires
        group_timeout_refusal(request.timeout) is None,
        operation@ == (OperationView {
            name: "init_broadcaster"@,
            call: CallView::Collective {
                method: "init_broadcaster"@,
                kwargs: init_arguments(request),
            },
            timeout_secs: group_timeout(request.timeout),
            guarded: true,
        }),
    ensures
        request.timeout == 0 ==> operation.timeout_secs == 290,
        request.timeout > 0 ==> operation.timeout_secs == request.timeout + 10,
        operation.call matches EngineCall::Collective { method, kwargs } && method@
            == "init_broadcaster"@ && kwargs@.len() == 6 && {
            &&& kwargs@[0].0@ == "host"@ && (kwargs@[0].1 matches Argument::Text(host) && host@
                == request.host@)
            &&& kwargs@[1].0@ == "inference_world_size"@ && kwargs@[1].1 == Argument::Number(
                request.inference_world_size as u64,
            )
            &&& kwargs@[2].0@ == "port"@ && kwargs@[2].1 == Argument::Number(request.port as u64)
            &&& kwargs@[3].0@ == "quantize_in_weight_transfer"@ && kwargs@[3].1 == Argument::Flag(
                request.quantize_in_weight_transfer,
            )
            &&& kwargs@[4].0@ == "rank_offset"@ && kwargs@[4].1 == Argument::Number(
                request.rank_offset as u64,
            )
            &&& kwargs@[5].0@ == "timeout"@ && kwargs@[5].1 == Argument::Number(request.timeout)
        },
{
    let kwargs = operation.call->kwargs;
    let told = arguments_view(kwargs@);
    assert(told.len() == kwargs@.len());
    assert forall|i: int| 0 <= i < kwargs@.len() implies told[i] == (
        (#[trigger] kwargs@[i]).0@,
        argument_view(kwargs@[i].1),
    ) by {}
    assert(told[0] == init_arguments(request)[0]);
    assert(told[1] == init_arguments(request)[1]);
    assert(told[2] == init_arguments(request)[2]);
    assert(told[3] == init_arguments(request)[3]);
    assert(told[4] == init_arguments(request)[4]);
    assert(told[5] == init_arguments(request)[5]);
    assert(kwargs@[0].0@ == told[0].0 && kwargs@[1].0@ == told[1].0 && kwargs@[2].0@
        == told[2].0 && kwargs@[3].0@ == told[3].0 && kwargs@[4].0@ == told[4].0 && kwargs@[5].0@
        == told[5].0);
}

/// A group is refused exactly where its host is blank, its port or its size is zero, it names
/// another method, its deadline is longer than a day, the weights are in doubt, there is a group
/// already, or no epoch is left. One is destroyed by its own method alone, and not in doubt.
pub proof fn groups_are_refused_for_these_reasons(
    standing: ServiceStanding,
    admin: AdminView,
    request: pb::InitWeightsUpdateGroupRequest,
    engine_rpc: Seq<char>,
)
    ensures
        init_refusal(standing, admin, request) is Some <==> blank(request.host@) || request.port
            == 0 || request.inference_world_size == 0 || (!blank(request.engine_rpc@)
            && request.engine_rpc@ != "init_broadcaster"@) || request.timeout > 86400
            || standing.rl_indeterminate || admin.indeterminate is Some || admin.update_group
            is Some || admin.group_epoch == 18446744073709551615,
        destroy_refusal(standing, admin, engine_rpc) is Some <==> (!blank(engine_rpc)
            && engine_rpc != "destroy_broadcaster"@) || standing.rl_indeterminate
            || admin.indeterminate is Some,
{
}

/// A pause is refused for a name that is no mode, or in doubt, and asks for the mode that was
/// read, which is to wait where none is named. A probe is refused in doubt, or where the engine
/// is known to be unhealthy, with the engine's own error if it has one.
pub proof fn pauses_and_probes_are_refused_for_these_reasons(
    standing: ServiceStanding,
    admin: AdminView,
    mode: Seq<char>,
    read: Result<PauseMode, String>,
    healthy: bool,
    health_error: Option<Seq<char>>,
)
    ensures
        pause_refusal(standing, admin, mode, read) is Some <==> (mode.len() > 0 && read is Err)
            || standing.rl_indeterminate || admin.indeterminate is Some,
        mode.len() > 0 && read is Err ==> pause_refusal(standing, admin, mode, read) == Some(
            StatusView { code: Code::InvalidArgument, message: read->Err_0@ },
        ),
        mode.len() == 0 ==> wanted_mode(mode, read) == PauseMode::Wait,
        mode.len() > 0 && read is Ok ==> wanted_mode(mode, read) == read->Ok_0,
        liveness_refusal(standing, healthy, health_error) is Some <==> standing.rl_indeterminate
            || !healthy,
        !standing.rl_indeterminate && !healthy && health_error is Some ==> liveness_refusal(
            standing,
            healthy,
            health_error,
        ) == Some(StatusView { code: Code::Unavailable, message: health_error->Some_0 }),
{
}

/// Administration begins with a scheduler that runs, without a group, a doubt or an update, and
/// at the initial version.
pub proof fn administration_begins_anew()
    ensures
        !initial_admin().paused,
        !initial_admin().drained,
        initial_admin().indeterminate is None,
        initial_admin().update_group is None,
        initial_admin().group_epoch == 0,
        forall|key: (u64, Seq<char>)| !(#[trigger] initial_admin().committed.contains_key(key)),
        initial_admin().weight_version == "initial"@,
{
}

/// A request that is to be aborted needs an id.
pub proof fn aborts_need_an_id(request_id: Seq<char>)
    ensures
        abort_refusal(request_id) is Some <==> blank(request_id),
        abort_refusal(request_id) matches Some(status) ==> status.code == Code::InvalidArgument,
{
}

/// The state is seen as it is, and an update stands on record under its epoch and its version,
/// where a later one takes the place of an earlier one.
pub proof fn states_are_seen_as_they_are(
    state: RlAdminState,
    updates: Seq<WeightUpdateIdentity>,
    update: WeightUpdateIdentity,
)
    ensures
        state@.paused == state.paused,
        state@.drained == state.drained,
        state.indeterminate is None <==> state@.indeterminate is None,
        state.indeterminate matches Some(reason) ==> state@.indeterminate == Some(reason@),
        state@.update_group == state.update_group,
        state@.group_epoch == state.group_epoch,
        state@.weight_version == state.weight_version@,
        state@.committed == committed_map(state.committed_updates@),
        committed_map(Seq::empty()) == Map::<(u64, Seq<char>), IdentityView>::empty(),
        committed_map(updates.push(update)) == committed_map(updates).insert(
            (update.controller_epoch, update.version@),
            update@,
        ),
        update@.method == update.method@,
        update@.version == update.version@,
        update@.distributed == update.distributed,
        update@.controller_epoch == update.controller_epoch,
        update@.kwargs.len() == update.kwargs@.len(),
{
    assert(updates.push(update).drop_last() =~= updates);
}

/// A call failed where its outcome is a failure, and with that failure.
pub proof fn failures_are_those_of_the_call<T>(outcome: Result<T, CallFailure>)
    ensures
        outcome is Ok <==> failure_of(outcome) is None,
        outcome matches Err(failure) ==> failure_of(outcome) == Some(failure),
{
}

} // verus!
