//! The worker: its configuration, and how it runs the tasks that the daemon
//! assigns.

pub mod config;
pub mod rpc_client;
pub mod task_runner;
