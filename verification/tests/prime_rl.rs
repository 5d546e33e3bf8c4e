use std::time::Duration;

use engine_gateway::grpc::engine_rpc::openengine::pb as openengine_pb;
use engine_gateway::grpc::engine_rpc::openengine::service::health_in_doubt;
use engine_gateway::grpc::engine_rpc::prime_rl::admin::{
    begin_abort, begin_destroy_group, begin_flush, begin_init_group, begin_liveness_probe,
    begin_pause, begin_resume, finish_abort, finish_destroy_group, finish_flush,
    finish_init_group, finish_liveness_probe, finish_pause, finish_resume, get_weight_version,
    DestroyStep, RlAdminState, WeightUpdateIdentity,
};
use engine_gateway::grpc::engine_rpc::prime_rl::calls::{
    allowed_method, group_operation_timeout, Argument, CallFailure, EngineCall, PauseMode,
    DEFAULT_GROUP_OPERATION_TIMEOUT_SECS, MAX_GROUP_TIMEOUT_SECS,
};
use engine_gateway::grpc::engine_rpc::prime_rl::pb;
use engine_gateway::grpc::engine_rpc::prime_rl::updates::{
    advance_update, begin_update, commit, is_committed, update_from_disk,
    update_from_distributed, RunningUpdate, UpdateStep, WeightUpdate,
};
use engine_gateway::grpc::engine_rpc::standing::{ServiceStanding, UncertaintyGuard};
use engine_gateway::status::{Code, Status};

fn pause_request(mode: &str) -> pb::PauseGenerationRequest {
    pb::PauseGenerationRequest { mode: mode.to_string(), clear_cache: false }
}

fn read_mode(name: &str) -> Result<PauseMode, String> {
    match name {
        "abort" => Ok(PauseMode::Abort),
        "wait" => Ok(PauseMode::Wait),
        "keep" => Ok(PauseMode::Keep),
        _ => Err(format!("invalid mode: {name}")),
    }
}

fn pause(standing: &mut ServiceStanding, state: &mut RlAdminState, mode: &str) {
    let read = read_mode(mode);
    let operation = begin_pause(standing, state, &pause_request(mode), read).unwrap();
    assert_eq!(finish_pause(standing, state, &operation, Ok(())).unwrap().message, "paused");
}

fn init_request() -> pb::InitWeightsUpdateGroupRequest {
    pb::InitWeightsUpdateGroupRequest {
        host: "trainer".to_string(),
        port: 29_500,
        rank_offset: 1,
        inference_world_size: 8,
        timeout: 1_200,
        quantize_in_weight_transfer: true,
        engine_rpc: String::new(),
    }
}

fn init_group(standing: &mut ServiceStanding, state: &mut RlAdminState) {
    let operation = begin_init_group(standing, state, &init_request()).unwrap();
    finish_init_group(standing, state, &operation, Ok(())).unwrap();
}

fn destroy_group(standing: &mut ServiceStanding, state: &mut RlAdminState) {
    let request = pb::DestroyWeightsUpdateGroupRequest::default();
    let DestroyStep::Call(operation) = begin_destroy_group(standing, state, &request).unwrap()
    else {
        panic!("expected a call");
    };
    assert_eq!(operation.timeout_secs, 1_210);
    finish_destroy_group(standing, state, &operation, Ok(())).unwrap();
}

fn distributed(dir: &str, version: &str) -> WeightUpdate {
    update_from_distributed(pb::UpdateWeightsFromDistributedRequest {
        weight_dir: dir.to_string(),
        weight_version: version.to_string(),
        engine_rpc: String::new(),
        allow_unpaused: false,
        reset_prefix_cache: true,
    })
    .unwrap()
}

fn run_update(
    standing: &mut ServiceStanding,
    state: &mut RlAdminState,
    update: WeightUpdate,
) -> Result<pb::WeightUpdateResponse, Status> {
    run_update_with(standing, state, update, [Ok(true), Ok(true), Ok(true)])
}

fn run_update_with(
    standing: &mut ServiceStanding,
    state: &mut RlAdminState,
    update: WeightUpdate,
    outcomes: [Result<bool, CallFailure>; 3],
) -> Result<pb::WeightUpdateResponse, Status> {
    let mut running = begin_update(standing, state, update)?;
    for outcome in outcomes {
        assert!(running.is_underway(state));
        match advance_update(standing, state, running, outcome)? {
            UpdateStep::Call(next) => running = next,
            UpdateStep::Done(response) => return Ok(response),
        }
    }
    unreachable!("an update makes three calls")
}

fn next_call(step: UpdateStep) -> RunningUpdate {
    match step {
        UpdateStep::Call(running) => running,
        UpdateStep::Done(_) => panic!("expected a call"),
    }
}

#[test]
fn collective_rpc_method_is_restricted_per_operation() {
    assert_eq!(
        allowed_method("", "reload_weights", &["reload_weights"]).unwrap(),
        "reload_weights"
    );
    assert!(
        allowed_method("run_arbitrary_collective", "reload_weights", &["reload_weights"]).is_err()
    );
    assert_eq!(
        allowed_method(" \u{2003}\t", "reload_weights", &["reload_weights"]).unwrap(),
        "reload_weights"
    );
}

#[test]
fn group_timeout_wraps_engine_deadline_with_margin() {
    let timeout = |secs: u64| group_operation_timeout(secs).map(Duration::from_secs);
    assert_eq!(timeout(1_200).unwrap(), Duration::from_secs(1_210));
    assert_eq!(
        timeout(0).unwrap(),
        Duration::from_secs(DEFAULT_GROUP_OPERATION_TIMEOUT_SECS)
    );
    assert!(timeout(MAX_GROUP_TIMEOUT_SECS + 1).is_err());
    assert_eq!(
        timeout(MAX_GROUP_TIMEOUT_SECS + 1).unwrap_err().message,
        "timeout exceeds the maximum of 86400 seconds"
    );
}

#[test]
fn distributed_replay_identity_is_scoped_to_group_epoch() {
    let mut state = RlAdminState::default();
    let identity = WeightUpdateIdentity {
        method: "update_weights_from_path".to_string(),
        kwargs: Vec::new(),
        version: "1".to_string(),
        distributed: true,
        controller_epoch: 1,
    };
    commit(&mut state, identity);

    assert!(is_committed(&state, 1, "1"));
    assert!(!is_committed(&state, 2, "1"));
}

#[test]
fn prime_rl_pause_update_version_and_resume_are_serialized() {
    let mut standing = ServiceStanding::default();
    let mut state = RlAdminState::default();

    let probe = begin_liveness_probe(&standing, true, None).unwrap();
    assert_eq!(
        probe.call,
        EngineCall::Collective { method: "liveness_probe".to_string(), kwargs: Vec::new() }
    );
    assert_eq!(finish_liveness_probe(&probe, Ok(())).unwrap().status, "ok");

    let read = read_mode("wait");
    let operation = begin_pause(&standing, &state, &pause_request("wait"), read).unwrap();
    assert_eq!(
        operation.call,
        EngineCall::PauseScheduler { mode: PauseMode::Wait, clear_cache: false }
    );
    finish_pause(&mut standing, &mut state, &operation, Ok(())).unwrap();

    let update = update_from_disk(pb::UpdateWeightsFromDiskRequest {
        model_path: "/models/checkpoint-7".to_string(),
        weight_version: "7".to_string(),
        engine_rpc: "reload_weights".to_string(),
    })
    .unwrap();
    let verify = begin_update(&standing, &state, update).unwrap();
    assert_eq!(verify.operation().call, EngineCall::IsSchedulerPaused);
    let load = next_call(advance_update(&mut standing, &mut state, verify, Ok(true)).unwrap());
    assert_eq!(
        load.operation().call,
        EngineCall::Collective {
            method: "reload_weights".to_string(),
            kwargs: vec![(
                "weights_path".to_string(),
                Argument::Text("/models/checkpoint-7".to_string())
            )],
        }
    );
    let reset = next_call(advance_update(&mut standing, &mut state, load, Ok(true)).unwrap());
    assert_eq!(
        reset.operation().call,
        EngineCall::ResetPrefixCache { reset_running_requests: false, reset_connector: true }
    );
    let UpdateStep::Done(updated) =
        advance_update(&mut standing, &mut state, reset, Ok(true)).unwrap()
    else {
        panic!("expected the end of the update");
    };
    assert_eq!(updated.status, "ok");
    assert_eq!(updated.weight_version, "7");

    let version = get_weight_version(&standing, &state).unwrap();
    assert_eq!(version.weight_version, "7");

    let resume = begin_resume(&standing, &state).unwrap();
    assert_eq!(resume.call, EngineCall::ResumeScheduler);
    finish_resume(&mut standing, &mut state, &resume, Ok(())).unwrap();
    assert!(!state.paused);
}

#[test]
fn indeterminate_weight_state_is_not_ready_and_not_routable() {
    let mut standing = ServiceStanding::default();
    standing.mark_rl_indeterminate();

    let response = health_in_doubt(&standing).unwrap();
    assert_eq!(response.state, openengine_pb::HealthState::NotReady);
    assert!(response.checks[0].message.contains("indeterminate"));
    assert!(standing.is_draining());
}

#[test]
fn a_failed_call_puts_the_weights_in_doubt_for_good() {
    let mut standing = ServiceStanding::default();
    let mut state = RlAdminState::default();
    let operation = begin_pause(&standing, &state, &pause_request(""), read_mode("")).unwrap();
    let error = finish_pause(
        &mut standing,
        &mut state,
        &operation,
        Err(CallFailure::Failed("lost".to_string())),
    )
    .unwrap_err();
    assert_eq!(error.code, Code::Internal);
    assert_eq!(error.message, "pause_generation: lost");
    assert!(!state.paused);
    assert!(standing.is_rl_indeterminate());
    assert!(standing.is_draining());
    assert_eq!(
        begin_resume(&standing, &state).unwrap_err().message,
        "engine weight state is indeterminate and requires restart"
    );
    standing.rl_indeterminate = false;
    assert_eq!(
        begin_resume(&standing, &state).unwrap_err().message,
        "engine weight state is indeterminate and requires restart: pause_generation: lost"
    );
    assert!(get_weight_version(&standing, &state).is_err());
    assert!(begin_flush(&standing, &state, &pb::FlushCacheRequest::default()).is_err());
    assert!(begin_init_group(&standing, &state, &init_request()).is_err());
}

#[test]
fn deadlines_are_told_in_seconds() {
    let mut standing = ServiceStanding::default();
    let mut state = RlAdminState::default();
    let operation = begin_resume(&standing, &state).unwrap();
    let error =
        finish_resume(&mut standing, &mut state, &operation, Err(CallFailure::TimedOut))
            .unwrap_err();
    assert_eq!(error.code, Code::DeadlineExceeded);
    assert_eq!(
        error.message,
        "resume_generation exceeded the server-side timeout of 290s"
    );
}

#[test]
fn a_guard_that_is_not_disarmed_puts_the_weights_in_doubt() {
    let mut standing = ServiceStanding::default();
    let mut guard = UncertaintyGuard::new();
    guard.disarm();
    guard.settle(&mut standing);
    assert!(!standing.is_rl_indeterminate());
    UncertaintyGuard::new().settle(&mut standing);
    assert!(standing.is_rl_indeterminate());
}

#[test]
fn liveness_is_refused_while_unhealthy_or_in_doubt() {
    let mut standing = ServiceStanding::default();
    let error = begin_liveness_probe(&standing, false, Some("dead".to_string())).unwrap_err();
    assert_eq!((error.code, error.message.as_str()), (Code::Unavailable, "dead"));
    let error = begin_liveness_probe(&standing, false, None).unwrap_err();
    assert_eq!(error.message, "engine is not healthy");
    let probe = begin_liveness_probe(&standing, true, None).unwrap();
    assert!(finish_liveness_probe(&probe, Err(CallFailure::TimedOut)).is_err());
    standing.mark_rl_indeterminate();
    assert_eq!(
        begin_liveness_probe(&standing, true, None).unwrap_err().code,
        Code::FailedPrecondition
    );
}

#[test]
fn pause_modes_are_named() {
    let standing = ServiceStanding::default();
    let state = RlAdminState::default();
    let mode = |name: &str| begin_pause(&standing, &state, &pause_request(name), read_mode(name));
    for (name, expected) in
        [("", PauseMode::Wait), ("abort", PauseMode::Abort), ("keep", PauseMode::Keep)]
    {
        assert_eq!(
            mode(name).unwrap().call,
            EngineCall::PauseScheduler { mode: expected, clear_cache: false }
        );
    }
    let error = mode("stop").unwrap_err();
    assert_eq!((error.code, error.message.as_str()), (Code::InvalidArgument, "invalid mode: stop"));
}

#[test]
fn updates_need_a_pause_without_running_requests() {
    let mut standing = ServiceStanding::default();
    let mut state = RlAdminState::default();
    let update = || distributed("/w", "1");
    let message = |standing: &ServiceStanding, state: &RlAdminState, update: WeightUpdate| {
        begin_update(standing, state, update).unwrap_err().message
    };
    assert_eq!(
        message(&standing, &state, update()),
        "pause_generation must succeed before updating weights"
    );
    pause(&mut standing, &mut state, "keep");
    assert_eq!(
        message(&standing, &state, update()),
        "weight updates require pause mode `wait` or `abort`"
    );
    pause(&mut standing, &mut state, "abort");
    assert_eq!(
        message(&standing, &state, update()),
        "init_weights_update_group must succeed before a distributed weight update"
    );
    assert_eq!(
        message(&standing, &state, distributed("", "unknown")),
        "weight_version must be a stable, non-empty identifier"
    );
    init_group(&mut standing, &mut state);
    let running = begin_update(&standing, &state, update()).unwrap();
    let error = advance_update(&mut standing, &mut state, running, Ok(false)).unwrap_err();
    assert_eq!(error.message, "scheduler is no longer paused on every engine rank");
    assert!(!state.paused && !state.drained);
    assert!(!standing.is_rl_indeterminate());
}

#[test]
fn committed_versions_are_not_reused_within_a_group() {
    let mut standing = ServiceStanding::default();
    let mut state = RlAdminState::default();
    pause(&mut standing, &mut state, "wait");
    init_group(&mut standing, &mut state);
    run_update(&mut standing, &mut state, distributed("/w", "1")).unwrap();
    assert_eq!(
        run_update(&mut standing, &mut state, distributed("/w", "1")).unwrap_err().message,
        "weight_version `1` was already committed in controller epoch 1"
    );
    assert_eq!(
        run_update(&mut standing, &mut state, distributed("/x", "1")).unwrap_err().message,
        "weight_version `1` was already used for a different update in controller epoch 1"
    );
    destroy_group(&mut standing, &mut state);
    init_group(&mut standing, &mut state);
    let updated = run_update(&mut standing, &mut state, distributed("/w", "1")).unwrap();
    assert_eq!(updated.message, "weights updated");
    assert_eq!(state.group_epoch, 2);
}

#[test]
fn a_cache_reset_that_fails_after_loading_puts_the_weights_in_doubt() {
    let mut standing = ServiceStanding::default();
    let mut state = RlAdminState::default();
    pause(&mut standing, &mut state, "wait");
    init_group(&mut standing, &mut state);
    let update = distributed("", "1");
    let verify = begin_update(&standing, &state, update).unwrap();
    let load = next_call(advance_update(&mut standing, &mut state, verify, Ok(true)).unwrap());
    assert_eq!(
        load.operation().call,
        EngineCall::Collective {
            method: "update_weights_from_path".to_string(),
            kwargs: Vec::new(),
        }
    );
    assert_eq!(load.operation().timeout_secs, 640);
    let reset = next_call(advance_update(&mut standing, &mut state, load, Ok(true)).unwrap());
    let error = advance_update(&mut standing, &mut state, reset, Ok(false)).unwrap_err();
    assert_eq!(error.code, Code::FailedPrecondition);
    assert!(standing.is_rl_indeterminate());
    assert_eq!(state.weight_version, "initial");
}

#[test]
fn an_update_that_does_not_succeed_leaves_the_version() {
    let lost = || Err(CallFailure::Failed("lost".to_string()));
    for (outcomes, doubt) in [
        ([lost(), Ok(true), Ok(true)], true),
        ([Ok(false), Ok(true), Ok(true)], false),
        ([Ok(true), Err(CallFailure::TimedOut), Ok(true)], true),
        ([Ok(true), Ok(true), lost()], true),
        ([Ok(true), Ok(true), Ok(false)], true),
    ] {
        let mut standing = ServiceStanding::default();
        let mut state = RlAdminState::default();
        pause(&mut standing, &mut state, "wait");
        init_group(&mut standing, &mut state);
        let update = distributed("/w", "1");
        assert!(run_update_with(&mut standing, &mut state, update, outcomes).is_err());
        assert_eq!(state.weight_version, "initial");
        assert!(!is_committed(&state, 1, "1"));
        assert_eq!(standing.is_rl_indeterminate(), doubt);
        assert_eq!(state.indeterminate.is_some(), doubt);
    }
}

#[test]
fn a_running_update_stands_and_falls_with_the_pause() {
    let mut standing = ServiceStanding::default();
    let mut state = RlAdminState::default();
    pause(&mut standing, &mut state, "wait");
    init_group(&mut standing, &mut state);
    let verify = begin_update(&standing, &state, distributed("/w", "1")).unwrap();
    let load = next_call(advance_update(&mut standing, &mut state, verify, Ok(true)).unwrap());
    assert!(load.is_underway(&state));
    assert!(!load.is_underway(&RlAdminState::default()));
    run_update(&mut standing, &mut state, distributed("/x", "1")).unwrap();
    assert!(!load.is_underway(&state));
}

#[test]
fn update_requests_are_checked() {
    let disk = |path: &str, method: &str| {
        update_from_disk(pb::UpdateWeightsFromDiskRequest {
            model_path: path.to_string(),
            weight_version: "1".to_string(),
            engine_rpc: method.to_string(),
        })
    };
    assert_eq!(disk(" ", "").unwrap_err().message, "model_path is required");
    assert_eq!(
        disk("/m", "exec").unwrap_err().message,
        "unsupported engine_rpc `exec` for this operation"
    );
    assert_eq!(
        disk("/m", "update_weights_from_path").unwrap().kwargs,
        vec![("weight_path".to_string(), Argument::Text("/m".to_string()))]
    );
    let request = pb::UpdateWeightsFromDistributedRequest {
        reset_prefix_cache: true,
        ..Default::default()
    };
    let unpaused =
        pb::UpdateWeightsFromDistributedRequest { allow_unpaused: true, ..request.clone() };
    assert_eq!(
        update_from_distributed(unpaused).unwrap_err().message,
        "unpaused weight updates are unsafe and are not supported"
    );
    let kept =
        pb::UpdateWeightsFromDistributedRequest { reset_prefix_cache: false, ..request };
    assert_eq!(
        update_from_distributed(kept).unwrap_err().message,
        "weight updates require prefix/KV/connector cache reset"
    );
}

#[test]
fn groups_are_checked_and_called_with_their_arguments() {
    let mut standing = ServiceStanding::default();
    let mut state = RlAdminState::default();
    let message = |request: pb::InitWeightsUpdateGroupRequest,
                   standing: &ServiceStanding,
                   state: &RlAdminState| {
        begin_init_group(standing, state, &request).unwrap_err().message
    };
    let mut request = init_request();
    request.host = " ".to_string();
    assert_eq!(message(request, &standing, &state), "host is required");
    let mut request = init_request();
    request.port = 0;
    assert_eq!(
        message(request, &standing, &state),
        "port and inference_world_size must be positive"
    );
    let operation = begin_init_group(&standing, &state, &init_request()).unwrap();
    assert_eq!(operation.timeout_secs, 1_210);
    assert_eq!(
        operation.call,
        EngineCall::Collective {
            method: "init_broadcaster".to_string(),
            kwargs: vec![
                ("host".to_string(), Argument::Text("trainer".to_string())),
                ("inference_world_size".to_string(), Argument::Number(8)),
                ("port".to_string(), Argument::Number(29_500)),
                ("quantize_in_weight_transfer".to_string(), Argument::Flag(true)),
                ("rank_offset".to_string(), Argument::Number(1)),
                ("timeout".to_string(), Argument::Number(1_200)),
            ],
        }
    );
    finish_init_group(&mut standing, &mut state, &operation, Ok(())).unwrap();
    assert!(message(init_request(), &standing, &state)
        .starts_with("a weight update group is already initialized"));
    destroy_group(&mut standing, &mut state);
    let request = pb::DestroyWeightsUpdateGroupRequest::default();
    let DestroyStep::Answer(answer) =
        begin_destroy_group(&standing, &state, &request).unwrap()
    else {
        panic!("expected an answer");
    };
    assert_eq!(answer.message, "weight update group already destroyed");
    state.group_epoch = u64::MAX;
    assert_eq!(
        message(init_request(), &standing, &state),
        "weight update group epoch exhausted"
    );
}

#[test]
fn flushes_and_aborts_are_answered() {
    let mut standing = ServiceStanding::default();
    let mut state = RlAdminState::default();
    let request =
        pb::FlushCacheRequest { reset_running_requests: true, reset_connector: false };
    let operation = begin_flush(&standing, &state, &request).unwrap();
    assert_eq!(
        operation.call,
        EngineCall::ResetPrefixCache { reset_running_requests: true, reset_connector: false }
    );
    assert_eq!(
        finish_flush(&mut standing, &mut state, &operation, Ok(true)).unwrap().message,
        "cache flushed"
    );
    assert_eq!(
        finish_flush(&mut standing, &mut state, &operation, Ok(false)).unwrap_err().message,
        "prefix/KV/connector cache reset did not complete"
    );
    assert!(!standing.is_rl_indeterminate());
    assert_eq!(begin_abort(" \n").unwrap_err().message, "request_id is required");
    assert!(begin_abort("r").is_ok());
    assert_eq!(finish_abort(Ok(())).unwrap().message, "aborted");
    assert_eq!(
        finish_abort(Err("gone".to_string())).unwrap_err().message,
        "abort_request: gone"
    );
}
