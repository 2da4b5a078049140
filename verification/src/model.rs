//! A model as the scheduler knows it.

use crate::config::config::ModelConfig;
use vstd::prelude::*;

verus! {

/// A configured model with the name of its container and the memory that
/// it is taken to need, in megabytes.
#[derive(Debug)]
pub struct Model {
    pub estimated_memory_usage: u64,
    pub model_name: String,
    pub container_name: String,
    pub config: ModelConfig,
}

} // verus!
