//! What a query runs under: the settings, and what is known of the cluster.

use crate::expression::FunctionContext;
use vstd::prelude::*;

verus! {

/// The settings that planning reads.
#[derive(Clone, Copy, Debug, PartialEq, Eq, Structural)]
pub struct Settings {
    /// Processors per pipe where nothing narrows the pipeline.
    pub max_threads: usize,
    /// Rows per block.
    pub max_block_size: usize,
    pub enable_dphyp: bool,
    pub disable_join_reorder: bool,
    pub runtime_filter: bool,
    pub enable_distributed_copy: bool,
    pub enable_distributed_merge_into: bool,
    pub efficiently_memory_group_by: bool,
    /// Memory per processor from which aggregation spills; 0 turns spilling
    /// off.
    pub spilling_bytes_threshold_per_proc: usize,
}

/// The context of one query.
#[derive(Debug)]
pub struct QueryContext {
    pub settings: Settings,
    /// Whether the query runs on this node alone.
    pub cluster_is_empty: bool,
    pub tenant: String,
    pub function_context: FunctionContext,
}

impl QueryContext {
    /// A context for a pipeline on the side of `ctx`'s: the same settings.
    pub fn create_from(ctx: &QueryContext) -> (side: QueryContext)
        ensures
            side.settings == ctx.settings,
            side.cluster_is_empty == ctx.cluster_is_empty,
            side.tenant@ == ctx.tenant@,
            side.function_context == ctx.function_context,
    {
        QueryContext {
            settings: ctx.settings,
            cluster_is_empty: ctx.cluster_is_empty,
            tenant: ctx.tenant.clone(),
            function_context: ctx.function_context,
        }
    }

    pub fn get_settings(&self) -> (s: Settings)
        ensures
            s == self.settings,
    {
        self.settings
    }
}

} // verus!
