//! Collective calls to the engine over HTTP.

use crate::json::JsonValue;
use crate::numbers::Float64;
use crate::text::text_view;
use vstd::prelude::*;

verus! {

/// Why a request is refused.
#[derive(Clone, Debug, PartialEq, Eq)]
pub enum ApiError {
    /// The body is no JSON, or not what the route takes.
    JsonParse { message: String },
    InvalidRequest { message: String, param: Option<String> },
}

#[derive(Debug, PartialEq, Eq)]
pub struct CollectiveRpcRequest {
    pub method: Option<String>,
    pub timeout: Option<Float64>,
    pub args: Vec<JsonValue>,
    pub kwargs: Vec<(String, JsonValue)>,
}

#[derive(Clone, Debug, PartialEq, Eq)]
pub struct UpdateWeightsRequest {
    pub weight_dir: Option<String>,
}

/// A call to make on every rank of the engine.
#[derive(Debug, PartialEq, Eq)]
pub struct CollectiveCall {
    pub method: String,
    pub timeout: Option<Float64>,
    pub args: Vec<JsonValue>,
    pub kwargs: Vec<(String, JsonValue)>,
}

/// Whether a body that cannot be read is refused as such.
pub open spec fn unreadable<T>(result: Result<T, ApiError>, reason: String) -> bool {
    result == Err::<T, ApiError>(ApiError::JsonParse { message: reason })
}

/// The call that a request asks for, given its body or why that cannot be read.
pub fn collective_rpc(body: Result<CollectiveRpcRequest, String>) -> (result: Result<
    CollectiveCall,
    ApiError,
>)
    ensures
        match body {
            Err(reason) => unreadable(result, reason),
            Ok(body) => match body.method {
                None => result matches Err(ApiError::InvalidRequest { message, param })
                    && message@ == "Missing 'method' in request body"@ && text_view(param) == Some(
                    "method"@,
                ),
                Some(method) => result == Ok::<CollectiveCall, ApiError>(
                    CollectiveCall {
                        method,
                        timeout: body.timeout,
                        args: body.args,
                        kwargs: body.kwargs,
                    },
                ),
            },
        },
{
    match body {
        Err(reason) => Err(ApiError::JsonParse { message: reason }),
        Ok(body) => match body.method {
            None => Err(
                ApiError::InvalidRequest {
                    message: "Missing 'method' in request body".to_string(),
                    param: Some("method".to_string()),
                },
            ),
            Some(method) => Ok(
                CollectiveCall {
                    method,
                    timeout: body.timeout,
                    args: body.args,
                    kwargs: body.kwargs,
                },
            ),
        },
    }
}

/// The argument that names a directory, or none.
pub open spec fn directory_argument(weight_dir: Option<String>) -> JsonValue {
    match weight_dir {
        Some(weight_dir) => JsonValue::String(weight_dir),
        None => JsonValue::Null,
    }
}

/// The call that loads weights from a directory, given the body of the request or why that
/// cannot be read.
pub fn update_weights(body: Result<UpdateWeightsRequest, String>) -> (result: Result<
    CollectiveCall,
    ApiError,
>)
    ensures
        match body {
            Err(reason) => unreadable(result, reason),
            Ok(body) => result matches Ok(call) && call.method@ == "update_weights_from_path"@
                && call.timeout is None && call.args@ == seq![directory_argument(body.weight_dir)]
                && call.kwargs@.len() == 0,
        },
{
    match body {
        Err(reason) => Err(ApiError::JsonParse { message: reason }),
        Ok(body) => {
            let argument = match body.weight_dir {
                Some(weight_dir) => JsonValue::String(weight_dir),
                None => JsonValue::Null,
            };
            let mut args: Vec<JsonValue> = Vec::new();
            args.push(argument);
            assert(args@ =~= seq![directory_argument(body.weight_dir)]);
            Ok(
                CollectiveCall {
                    method: "update_weights_from_path".to_string(),
                    timeout: None,
                    args,
                    kwargs: Vec::new(),
                },
            )
        },
    }
}

/// A directory is handed to the engine as a text, and its absence as nothing.
pub proof fn directories_are_handed_on(weight_dir: Option<String>)
    ensures
        weight_dir is None ==> directory_argument(weight_dir) is Null,
        weight_dir matches Some(dir) ==> (directory_argument(weight_dir) matches JsonValue::String(
            same,
        ) && same@ == dir@),
{
}

/// A body that cannot be read is refused with the reason.
pub proof fn unreadable_bodies_are_refused<T>(result: Result<T, ApiError>, reason: String)
    ensures
        unreadable(result, reason) <==> (result matches Err(error) && error
            == (ApiError::JsonParse { message: reason })),
{
}

} // verus!
