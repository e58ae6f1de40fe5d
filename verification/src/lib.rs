//! Grimoire: the verified core of an agent-orchestration daemon.

pub mod bytes;
pub mod calendar;
pub mod decimal;
pub mod globs;
pub mod grimw;
pub mod json;
pub mod order;
pub mod paths;
pub mod pieces;
pub mod scroll_keeper;
pub mod scroll_parser;
pub mod scroll_sections;
pub mod scroll_verdicts;
pub mod providers;
pub mod rpc;
pub mod sandbox;
pub mod scheduler;
pub mod server;
pub mod supervision;
pub mod supervisor;
pub mod text;
pub mod types;
pub mod versions;
pub mod wake_registry;
pub mod wake_sources;
pub mod webhook;
pub mod worker_registry;
pub mod worker_rpc_server;
pub mod workspace_db;
pub mod workspace_registry;
pub mod workspace_watcher;
