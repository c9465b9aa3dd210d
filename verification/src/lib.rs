//! Verified core of the task runner: configuration defaults and sources, task log
//! records, the handling of a task step by step, the run of a container, the line
//! buffering of a component's output, the conversion of task parameters into
//! component-model values, and the reading of a component's result.

pub mod config;
pub mod decimal;
pub mod docker_exec;
pub mod log_stream;
pub mod orm;
pub mod queue;
pub mod task;
pub mod wasm_host;
