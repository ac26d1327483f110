//! End-to-end tile pipeline: the task, tier and bookkeeping logic of a
//! three-phase run (divide-and-compute, belief scoring, deployment tiers).

pub mod clock;
pub mod tile;
pub mod agents;
pub mod deploy;
pub mod dcs;
pub mod pipeline;
