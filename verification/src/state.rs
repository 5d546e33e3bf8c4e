//! What the services know of the engine and of the models that they serve.

use crate::engine::EngineCoreReadyResponse;
use vstd::prelude::*;

verus! {

/// The engine that the services run on, and the model that it serves under one name or more.
#[derive(Clone, Debug, PartialEq, Eq)]
pub struct AppState {
    pub served_model_names: Vec<String>,
    pub model_id: String,
    pub ready: EngineCoreReadyResponse,
    pub ready_responses: Vec<EngineCoreReadyResponse>,
    pub data_parallel_start_rank: u32,
    pub managed_data_parallel_size: u32,
    pub max_model_len: u32,
    pub total_num_gpu_blocks: u64,
    pub max_logprobs: i32,
    pub supports_multimodal: bool,
    pub reasoning_parser: Option<String>,
    pub tool_call_parser: Option<String>,
}

impl AppState {
    /// Whether the model has a name.
    pub open spec fn well_formed(self) -> bool {
        self.served_model_names@.len() > 0
    }

    /// The name that the model is known by first.
    pub fn primary_model_name(&self) -> (name: &String)
        requires
            self.well_formed(),
        ensures
            *name == self.served_model_names@[0],
    {
        &self.served_model_names[0]
    }

    /// The other names of the model.
    pub fn model_aliases(&self) -> (aliases: Vec<String>)
        ensures
            aliases@ == if self.served_model_names@.len() > 0 {
                self.served_model_names@.skip(1)
            } else {
                Seq::empty()
            },
    {
        let mut aliases: Vec<String> = Vec::new();
        let names = &self.served_model_names;
        if names.len() == 0 {
            return aliases;
        }
        for i in 1..names.len()
            invariant
                1 <= names@.len(),
                *names == self.served_model_names,
                aliases@ == names@.subrange(1, i as int),
        {
            aliases.push(names[i].clone());
            assert(aliases@ =~= names@.subrange(1, i + 1));
        }
        assert(aliases@ =~= names@.skip(1));
        aliases
    }
}

} // verus!
