//! What can wake an agent. Each source decides whether its trigger fired; the
//! fire path itself lives in the registry.

pub mod cron;
pub mod cron_laws;
pub mod file_watch;
pub mod parent_completion;
pub mod remote_agent_completion;
pub mod remote_file_watch;
