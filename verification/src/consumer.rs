//! The consumer side of the pipeline: what a worker does with one task.

pub mod apato_consumer;
