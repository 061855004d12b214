//! Pipelines of processors, and the builder that lays a physical plan out as
//! pipelines.

pub mod builder_spec;
pub mod operators;
pub mod pipeline;
pub mod pipeline_builder;
pub mod plan_check;
