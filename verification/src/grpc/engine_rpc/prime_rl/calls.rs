//! The calls that weight administration makes to the engine, and what can become of them.

use crate::status::{
    deadline_exceeded, internal, invalid_argument, refusal, Code, Status, StatusView,
};
use crate::text::{blank, decimal, decimal_text, is_blank, same_text};
use vstd::prelude::*;

verus! {

pub const SCHEDULER_OPERATION_TIMEOUT_SECS: u64 = 290;

pub const DEFAULT_GROUP_OPERATION_TIMEOUT_SECS: u64 = 290;

pub const GROUP_TIMEOUT_MARGIN_SECS: u64 = 10;

pub const MAX_GROUP_TIMEOUT_SECS: u64 = 86_400;

pub const PAUSE_CONSENSUS_TIMEOUT_SECS: u64 = 10;

pub const WEIGHT_OPERATION_TIMEOUT_SECS: u64 = 640;

pub const CACHE_RESET_TIMEOUT_SECS: u64 = 60;

/// What becomes of running requests when the scheduler pauses.
#[derive(Clone, Copy, Debug, PartialEq, Eq, Structural)]
pub enum PauseMode {
    Abort,
    Wait,
    Keep,
}

/// The refusal of a mode that was read to be none. The empty name is not read.
pub open spec fn mode_refusal(name: Seq<char>, read: Result<PauseMode, String>) -> Option<
    StatusView,
> {
    match read {
        Err(error) => if name.len() == 0 {
            None
        } else {
            Some(invalid_argument(error@))
        },
        Ok(_) => None,
    }
}

/// The mode that a request asks for: to wait, where it names none.
pub open spec fn wanted_mode(name: Seq<char>, read: Result<PauseMode, String>) -> PauseMode {
    if name.len() == 0 {
        PauseMode::Wait
    } else {
        read->Ok_0
    }
}

/// Takes the name of a mode, and what the engine's client reads it as.
pub fn chosen_mode(name: &str, read: Result<PauseMode, String>) -> (result: Result<
    PauseMode,
    Status,
>)
    ensures
        refusal(result) == mode_refusal(name@, read),
        result matches Ok(mode) ==> mode == wanted_mode(name@, read),
{
    if name.is_empty() {
        return Ok(PauseMode::Wait);
    }
    match read {
        Ok(mode) => Ok(mode),
        Err(error) => Err(Status::invalid_argument(error.as_str())),
    }
}

/// An argument of a collective call.
#[derive(Clone, Debug, PartialEq, Eq)]
pub enum Argument {
    Text(String),
    Number(u64),
    Flag(bool),
}

/// What an argument says.
pub enum ArgumentView {
    Text(Seq<char>),
    Number(u64),
    Flag(bool),
}

pub open spec fn argument_view(argument: Argument) -> ArgumentView {
    match argument {
        Argument::Text(text) => ArgumentView::Text(text@),
        Argument::Number(number) => ArgumentView::Number(number),
        Argument::Flag(flag) => ArgumentView::Flag(flag),
    }
}

/// Arguments by name, in the order of their names.
pub type Arguments = Vec<(String, Argument)>;

pub open spec fn arguments_view(arguments: Seq<(String, Argument)>) -> Seq<(
    Seq<char>,
    ArgumentView,
)> {
    Seq::new(arguments.len(), |i: int| (arguments[i].0@, argument_view(arguments[i].1)))
}

fn same_argument(a: &Argument, b: &Argument) -> (same: bool)
    ensures
        same == (argument_view(*a) == argument_view(*b)),
{
    match (a, b) {
        (Argument::Text(a), Argument::Text(b)) => same_text(a.as_str(), b.as_str()),
        (Argument::Number(a), Argument::Number(b)) => *a == *b,
        (Argument::Flag(a), Argument::Flag(b)) => *a == *b,
        _ => false,
    }
}

pub fn same_arguments(a: &Arguments, b: &Arguments) -> (same: bool)
    ensures
        same == (arguments_view(a@) == arguments_view(b@)),
{
    let ghost left = arguments_view(a@);
    let ghost right = arguments_view(b@);
    assert(left.len() == a@.len() && right.len() == b@.len());
    if a.len() != b.len() {
        return false;
    }
    for i in 0..a.len()
        invariant
            a@.len() == b@.len(),
            left == arguments_view(a@),
            right == arguments_view(b@),
            forall|j: int| 0 <= j < i ==> left[j] == right[j],
    {
        if !same_text(a[i].0.as_str(), b[i].0.as_str()) || !same_argument(&a[i].1, &b[i].1) {
            assert(left[i as int] != right[i as int]);
            return false;
        }
    }
    assert(left =~= right);
    true
}

pub fn copy_arguments(arguments: &Arguments) -> (copy: Arguments)
    ensures
        copy@ == arguments@,
{
    let mut copy: Arguments = Vec::new();
    for i in 0..arguments.len()
        invariant
            copy@ == arguments@.take(i as int),
    {
        let value = match &arguments[i].1 {
            Argument::Text(text) => Argument::Text(text.clone()),
            Argument::Number(number) => Argument::Number(*number),
            Argument::Flag(flag) => Argument::Flag(*flag),
        };
        copy.push((arguments[i].0.clone(), value));
        assert(copy@ =~= arguments@.take(i + 1));
    }
    assert(arguments@.take(arguments@.len() as int) =~= arguments@);
    copy
}

/// A call to the engine.
#[derive(Debug, PartialEq, Eq)]
pub enum EngineCall {
    PauseScheduler { mode: PauseMode, clear_cache: bool },
    ResumeScheduler,
    IsSchedulerPaused,
    ResetPrefixCache { reset_running_requests: bool, reset_connector: bool },
    Collective { method: String, kwargs: Arguments },
}

/// What a call asks of the engine.
pub enum CallView {
    PauseScheduler { mode: PauseMode, clear_cache: bool },
    ResumeScheduler,
    IsSchedulerPaused,
    ResetPrefixCache { reset_running_requests: bool, reset_connector: bool },
    Collective { method: Seq<char>, kwargs: Seq<(Seq<char>, ArgumentView)> },
}

pub open spec fn call_view(call: EngineCall) -> CallView {
    match call {
        EngineCall::PauseScheduler { mode, clear_cache } => CallView::PauseScheduler {
            mode,
            clear_cache,
        },
        EngineCall::ResumeScheduler => CallView::ResumeScheduler,
        EngineCall::IsSchedulerPaused => CallView::IsSchedulerPaused,
        EngineCall::ResetPrefixCache {
            reset_running_requests,
            reset_connector,
        } => CallView::ResetPrefixCache { reset_running_requests, reset_connector },
        EngineCall::Collective { method, kwargs } => CallView::Collective {
            method: method@,
            kwargs: arguments_view(kwargs@),
        },
    }
}

/// A call under its name and with its deadline. If a guarded call is not seen to succeed, the
/// engine may or may not have acted on it.
#[derive(Debug, PartialEq, Eq)]
pub struct Operation {
    pub name: String,
    pub call: EngineCall,
    pub timeout_secs: u64,
    pub guarded: bool,
}

pub struct OperationView {
    pub name: Seq<char>,
    pub call: CallView,
    pub timeout_secs: u64,
    pub guarded: bool,
}

impl View for Operation {
    type V = OperationView;

    open spec fn view(&self) -> OperationView {
        OperationView {
            name: self.name@,
            call: call_view(self.call),
            timeout_secs: self.timeout_secs,
            guarded: self.guarded,
        }
    }
}

/// How a call can fail: with an error of the engine, given by its report, or by its deadline.
#[derive(Clone, Debug, PartialEq, Eq)]
pub enum CallFailure {
    Failed(String),
    TimedOut,
}

/// The status that a failed call is answered with.
pub open spec fn failure_status(
    name: Seq<char>,
    timeout_secs: u64,
    failure: CallFailure,
) -> StatusView {
    match failure {
        CallFailure::Failed(report) => internal(name + ": "@ + report@),
        CallFailure::TimedOut => deadline_exceeded(
            name + " exceeded the server-side timeout of "@ + decimal(timeout_secs as nat) + "s"@,
        ),
    }
}

pub fn call_status(name: &str, timeout_secs: u64, failure: &CallFailure) -> (status: Status)
    ensures
        status@ == failure_status(name@, timeout_secs, *failure),
{
    match failure {
        CallFailure::Failed(report) => {
            let message = name.to_string().concat(": ").concat(report.as_str());
            Status::internal(message.as_str())
        },
        CallFailure::TimedOut => {
            let message = name.to_string().concat(
                " exceeded the server-side timeout of ",
            ).concat(decimal_text(timeout_secs).as_str()).concat("s");
            Status::deadline_exceeded(message.as_str())
        },
    }
}

/// The method that is asked for, where a blank text asks for the default one.
pub open spec fn chosen_method(value: Seq<char>, default: Seq<char>) -> Seq<char> {
    if blank(value) {
        default
    } else {
        value
    }
}

pub fn default_method<'a>(value: &'a str, default: &'a str) -> (method: &'a str)
    ensures
        method@ == chosen_method(value@, default@),
{
    if is_blank(value) {
        default
    } else {
        value
    }
}

pub open spec fn is_allowed(method: Seq<char>, allowed: Seq<&str>) -> bool {
    exists|i: int| 0 <= i < allowed.len() && (#[trigger] allowed[i])@ == method
}

pub open spec fn unsupported_method(method: Seq<char>) -> StatusView {
    invalid_argument("unsupported engine_rpc `"@ + method + "` for this operation"@)
}

/// The method that is asked for, if the operation may call it.
pub fn allowed_method<'a>(value: &'a str, default: &'a str, allowed: &[&str]) -> (result: Result<
    &'a str,
    Status,
>)
    ensures
        refusal(result) == if is_allowed(chosen_method(value@, default@), allowed@) {
            None
        } else {
            Some(unsupported_method(chosen_method(value@, default@)))
        },
        result matches Ok(method) ==> method@ == chosen_method(value@, default@),
{
    let method = default_method(value, default);
    for i in 0..allowed.len()
        invariant
            method@ == chosen_method(value@, default@),
            forall|j: int| 0 <= j < i ==> (#[trigger] allowed@[j])@ != method@,
    {
        if same_text(allowed[i], method) {
            assert(allowed@[i as int]@ == method@);
            return Ok(method);
        }
    }
    let message = "unsupported engine_rpc `".to_string().concat(method).concat(
        "` for this operation",
    );
    Err(Status::invalid_argument(message.as_str()))
}

pub open spec fn group_timeout_refusal(engine_timeout_secs: u64) -> Option<StatusView> {
    if engine_timeout_secs > MAX_GROUP_TIMEOUT_SECS {
        Some(
            invalid_argument(
                "timeout exceeds the maximum of "@ + decimal(MAX_GROUP_TIMEOUT_SECS as nat)
                    + " seconds"@,
            ),
        )
    } else {
        None
    }
}

/// How long the operations of a group may take: the engine's own deadline and a margin.
pub open spec fn group_timeout(engine_timeout_secs: u64) -> u64 {
    if engine_timeout_secs == 0 {
        DEFAULT_GROUP_OPERATION_TIMEOUT_SECS
    } else {
        (engine_timeout_secs + GROUP_TIMEOUT_MARGIN_SECS) as u64
    }
}

/// The deadline of the operations of a group, in seconds.
pub fn group_operation_timeout(engine_timeout_secs: u64) -> (result: Result<u64, Status>)
    ensures
        refusal(result) == group_timeout_refusal(engine_timeout_secs),
        result matches Ok(secs) ==> secs == group_timeout(engine_timeout_secs),
{
    if engine_timeout_secs > MAX_GROUP_TIMEOUT_SECS {
        let message = "timeout exceeds the maximum of ".to_string().concat(
            decimal_text(MAX_GROUP_TIMEOUT_SECS).as_str(),
        ).concat(" seconds");
        return Err(Status::invalid_argument(message.as_str()));
    }
    if engine_timeout_secs == 0 {
        return Ok(DEFAULT_GROUP_OPERATION_TIMEOUT_SECS);
    }
    Ok(engine_timeout_secs + GROUP_TIMEOUT_MARGIN_SECS)
}

/// The server gives a group operation more time than the engine gives itself.
pub proof fn group_timeout_outlasts_the_engine(engine_timeout_secs: u64)
    requires
        group_timeout_refusal(engine_timeout_secs) is None,
    ensures
        group_timeout(engine_timeout_secs) > engine_timeout_secs,
        group_timeout(engine_timeout_secs) <= MAX_GROUP_TIMEOUT_SECS + GROUP_TIMEOUT_MARGIN_SECS,
{
}

/// A mode is what its name is read as. Without a name, requests are waited for, whatever was
/// read; a name that is none is refused with the reason.
pub proof fn modes_are_those_named(name: Seq<char>, read: Result<PauseMode, String>)
    ensures
        name.len() == 0 ==> mode_refusal(name, read) is None && wanted_mode(name, read)
            == PauseMode::Wait,
        name.len() > 0 ==> (read matches Ok(mode) ==> mode_refusal(name, read) is None
            && wanted_mode(name, read) == mode),
        name.len() > 0 ==> (read matches Err(error) ==> (mode_refusal(name, read) matches Some(
            status,
        ) && status.code == Code::InvalidArgument && status.message == error@)),
{
}

/// Arguments and calls are seen as they are: two look the same only where all that they hold is
/// the same.
pub proof fn calls_are_seen_as_they_are(argument: Argument, other: Argument, operation: Operation)
    ensures
        argument matches Argument::Text(text) ==> argument_view(argument) == ArgumentView::Text(
            text@,
        ),
        argument matches Argument::Number(number) ==> argument_view(argument)
            == ArgumentView::Number(number),
        argument matches Argument::Flag(flag) ==> argument_view(argument) == ArgumentView::Flag(
            flag,
        ),
        operation@.name == operation.name@,
        operation@.timeout_secs == operation.timeout_secs,
        operation@.guarded == operation.guarded,
        operation.call is ResumeScheduler <==> operation@.call is ResumeScheduler,
        operation.call is IsSchedulerPaused <==> operation@.call is IsSchedulerPaused,
        operation.call matches EngineCall::PauseScheduler { mode, clear_cache } ==> (
        operation@.call matches CallView::PauseScheduler { mode: m, clear_cache: c } && m == mode
            && c == clear_cache),
        operation.call matches EngineCall::ResetPrefixCache {
            reset_running_requests,
            reset_connector,
        } ==> (operation@.call matches CallView::ResetPrefixCache {
            reset_running_requests: r,
            reset_connector: c,
        } && r == reset_running_requests && c == reset_connector),
        operation.call matches EngineCall::Collective { method, kwargs } ==> (
        operation@.call matches CallView::Collective { method: m, kwargs: k } && m == method@
            && k.len() == kwargs@.len() && forall|i: int|
            0 <= i < k.len() ==> (#[trigger] k[i]).0 == kwargs@[i].0@ && k[i].1 == argument_view(
                kwargs@[i].1,
            )),
{
}

/// A call that fails is answered with its name and the report, or with the time that it had.
pub proof fn failures_name_their_call(name: Seq<char>, timeout_secs: u64, failure: CallFailure)
    ensures
        failure matches CallFailure::Failed(report) ==> failure_status(
            name,
            timeout_secs,
            failure,
        ).code == Code::Internal && failure_status(name, timeout_secs, failure).message == name
            + ": "@ + report@,
        failure is TimedOut ==> failure_status(name, timeout_secs, failure).code
            == Code::DeadlineExceeded && failure_status(name, timeout_secs, failure).message
            == name + " exceeded the server-side timeout of "@ + decimal(timeout_secs as nat)
            + "s"@,
{
}

/// A blank method stands for the default one, any other for itself, and the methods that may be
/// called are those of the list.
pub proof fn methods_are_those_named(
    value: Seq<char>,
    default: Seq<char>,
    allowed: Seq<&str>,
    i: int,
)
    ensures
        blank(value) ==> chosen_method(value, default) == default,
        !blank(value) ==> chosen_method(value, default) == value,
        0 <= i < allowed.len() ==> is_allowed(allowed[i]@, allowed),
        is_allowed(value, allowed) ==> exists|j: int|
            0 <= j < allowed.len() && (#[trigger] allowed[j])@ == value,
        unsupported_method(value).code == Code::InvalidArgument,
        unsupported_method(value).message == "unsupported engine_rpc `"@ + value
            + "` for this operation"@,
{
}

/// A group may take ten seconds longer than its engine, which may take a day; without a time of
/// its own it has 290 seconds.
pub proof fn groups_have_their_time(engine_timeout_secs: u64)
    ensures
        group_timeout_refusal(engine_timeout_secs) is Some <==> engine_timeout_secs > 86400,
        group_timeout_refusal(engine_timeout_secs) matches Some(status) ==> status.code
            == Code::InvalidArgument,
        engine_timeout_secs == 0 ==> group_timeout(engine_timeout_secs) == 290,
        0 < engine_timeout_secs <= 86400 ==> group_timeout(engine_timeout_secs)
            == engine_timeout_secs + 10,
{
}

/// The operations of the scheduler have 290 seconds, and so has a group without a time of its
/// own; weights have 640, a reset of the cache 60, and a look at the scheduler ten.
pub proof fn operations_have_their_time()
    ensures
        SCHEDULER_OPERATION_TIMEOUT_SECS == 290,
        DEFAULT_GROUP_OPERATION_TIMEOUT_SECS == 290,
        WEIGHT_OPERATION_TIMEOUT_SECS == 640,
        CACHE_RESET_TIMEOUT_SECS == 60,
        PAUSE_CONSENSUS_TIMEOUT_SECS == 10,
        GROUP_TIMEOUT_MARGIN_SECS == 10,
        MAX_GROUP_TIMEOUT_SECS == 86400,
{
}

} // verus!
