//! The producer side of the pipeline: pass planning and the yield policy.

pub mod apato_producer;
pub mod calculations;
pub mod pricing_producer;
