//! The messages of the `prime_rl.engine.v1` package.

use vstd::prelude::*;

verus! {

#[derive(Clone, Debug, Default, PartialEq, Eq)]
pub struct PauseGenerationRequest {
    pub mode: String,
    pub clear_cache: bool,
}

#[derive(Clone, Copy, Debug, Default, PartialEq, Eq)]
pub struct FlushCacheRequest {
    pub reset_running_requests: bool,
    pub reset_connector: bool,
}

#[derive(Clone, Debug, Default, PartialEq, Eq)]
pub struct InitWeightsUpdateGroupRequest {
    pub host: String,
    pub port: u32,
    pub rank_offset: u32,
    pub inference_world_size: u32,
    pub timeout: u64,
    pub quantize_in_weight_transfer: bool,
    pub engine_rpc: String,
}

#[derive(Clone, Debug, Default, PartialEq, Eq)]
pub struct DestroyWeightsUpdateGroupRequest {
    pub engine_rpc: String,
}

#[derive(Clone, Debug, Default, PartialEq, Eq)]
pub struct UpdateWeightsFromDiskRequest {
    pub model_path: String,
    pub weight_version: String,
    pub engine_rpc: String,
}

#[derive(Clone, Debug, Default, PartialEq, Eq)]
pub struct UpdateWeightsFromDistributedRequest {
    pub weight_dir: String,
    pub weight_version: String,
    pub engine_rpc: String,
    pub allow_unpaused: bool,
    pub reset_prefix_cache: bool,
}

#[derive(Clone, Debug, PartialEq, Eq)]
pub struct AdminResponse {
    pub status: String,
    pub message: String,
}

#[derive(Clone, Debug, PartialEq, Eq)]
pub struct WeightUpdateResponse {
    pub status: String,
    pub message: String,
    pub weight_version: String,
}

#[derive(Clone, Debug, PartialEq, Eq)]
pub struct GetWeightVersionResponse {
    pub status: String,
    pub weight_version: String,
}

} // verus!
