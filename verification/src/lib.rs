//! A verified command execution framework: named commands are resolved
//! through a registry, run under a best-effort mutual-exclusion lock keyed
//! by the command name and a canonical serialization of its arguments, and
//! every invocation is recorded in an audit log that moves from RUNNING to
//! exactly one terminal status (SUCCESS, ERROR or SKIPPED).

pub mod api_user;
pub mod app_status;
pub mod args;
pub mod bootstrap;
pub mod cipher;
pub mod cli;
pub mod commands;
pub mod command_log;
pub mod lifecycle;
pub mod middleware;
pub mod origin_host;
pub mod registry;
pub mod strutil;
pub mod user;
