//! A verified core for an agent-loop orchestrator: the task-list completion
//! model, the JSON document shape, the iteration loop controller, the
//! interview gate, project bootstrapping, and the brain-dump capture flow.
//! File reading and writing, terminal output and process spawning are left
//! to the caller, which feeds results back in as plain values.

pub mod bootstrap;
pub mod brain_dump;
pub mod clock;
pub mod controller;
pub mod json;
pub mod progress;
pub mod task_list;
pub mod text;
