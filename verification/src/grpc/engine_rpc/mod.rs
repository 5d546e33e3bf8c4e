//! The engine service.

use crate::status::{refusal, unimplemented, Code, Status, StatusView};
use vstd::prelude::*;

pub mod convert;
pub mod openengine;
pub mod pb;
pub mod prime_rl;
pub mod standing;

verus! {

/// The engine service, whose methods are not implemented yet.
#[derive(Clone, Copy, Debug, PartialEq, Eq, Structural)]
pub struct EngineServiceImpl {}

impl Default for EngineServiceImpl {
    fn default() -> (service: EngineServiceImpl)
        ensures
            service == (EngineServiceImpl {  }),
    {
        EngineServiceImpl {  }
    }
}

/// What a method of that name answers.
pub open spec fn not_implemented(method: Seq<char>) -> StatusView {
    unimplemented("engine RPC method `"@ + method + "` is not implemented"@)
}

/// Refuses a call of a method that is not implemented.
pub fn refuse_method<T>(method: &str) -> (result: Result<T, Status>)
    ensures
        refusal(result) == Some(not_implemented(method@)),
{
    let message = "engine RPC method `".to_string().concat(method).concat(
        "` is not implemented",
    );
    Err(Status::unimplemented(message.as_str()))
}

impl EngineServiceImpl {
    pub fn new() -> (service: EngineServiceImpl)
        ensures
            service == (EngineServiceImpl {  }),
    {
        EngineServiceImpl {  }
    }

    pub fn generate<T>(&self) -> (result: Result<T, Status>)
        ensures
            refusal(result) == Some(not_implemented("Generate"@)),
    {
        refuse_method("Generate")
    }

    pub fn get_engine_info<T>(&self) -> (result: Result<T, Status>)
        ensures
            refusal(result) == Some(not_implemented("GetEngineInfo"@)),
    {
        refuse_method("GetEngineInfo")
    }

    pub fn get_model_info<T>(&self) -> (result: Result<T, Status>)
        ensures
            refusal(result) == Some(not_implemented("GetModelInfo"@)),
    {
        refuse_method("GetModelInfo")
    }

    pub fn health<T>(&self) -> (result: Result<T, Status>)
        ensures
            refusal(result) == Some(not_implemented("Health"@)),
    {
        refuse_method("Health")
    }

    pub fn abort<T>(&self) -> (result: Result<T, Status>)
        ensures
            refusal(result) == Some(not_implemented("Abort"@)),
    {
        refuse_method("Abort")
    }

    pub fn drain<T>(&self) -> (result: Result<T, Status>)
        ensures
            refusal(result) == Some(not_implemented("Drain"@)),
    {
        refuse_method("Drain")
    }

    pub fn load_lora<T>(&self) -> (result: Result<T, Status>)
        ensures
            refusal(result) == Some(not_implemented("LoadLora"@)),
    {
        refuse_method("LoadLora")
    }

    pub fn unload_lora<T>(&self) -> (result: Result<T, Status>)
        ensures
            refusal(result) == Some(not_implemented("UnloadLora"@)),
    {
        refuse_method("UnloadLora")
    }

    pub fn list_loras<T>(&self) -> (result: Result<T, Status>)
        ensures
            refusal(result) == Some(not_implemented("ListLoras"@)),
    {
        refuse_method("ListLoras")
    }

    pub fn get_kv_connector_info<T>(&self) -> (result: Result<T, Status>)
        ensures
            refusal(result) == Some(not_implemented("GetKvConnectorInfo"@)),
    {
        refuse_method("GetKvConnectorInfo")
    }

    pub fn get_kv_event_sources<T>(&self) -> (result: Result<T, Status>)
        ensures
            refusal(result) == Some(not_implemented("GetKvEventSources"@)),
    {
        refuse_method("GetKvEventSources")
    }
}

/// A method that is not implemented says so, by its name.
pub proof fn missing_methods_are_named(method: Seq<char>)
    ensures
        not_implemented(method).code == Code::Unimplemented,
        not_implemented(method).message == "engine RPC method `"@ + method
            + "` is not implemented"@,
{
}

} // verus!
