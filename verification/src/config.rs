//! The configuration of the front-end, as plain values. It is read once at
//! startup and never changed afterwards.

use vstd::prelude::*;
use crate::time::TimeSpan;

verus! {

/// Where the dynamic endpoints are mounted.
#[derive(Clone, Debug)]
pub struct ContextConfiguration {
    pub dynamic_route_context: String,
}

/// The kind of socket a listener accepts on.
#[derive(Clone, Copy, Debug, PartialEq, Eq, Structural)]
pub enum ServerSocketType {
    Tcp,
    Unix,
}

/// One listener: its socket kind and the address or path it binds.
#[derive(Clone, Debug)]
pub struct ServerListenerConfiguration {
    pub socket_type: ServerSocketType,
    pub bind_address: String,
}

/// Limits that hold for every connection.
#[derive(Clone, Copy, Debug)]
pub struct ServerConnectionConfiguration {
    pub limit: usize,
    pub max_lifetime: TimeSpan,
    pub graceful_shutdown_timeout: TimeSpan,
}

/// The listeners and the connection limits.
#[derive(Clone, Debug)]
pub struct ServerConfiguration {
    pub listeners: Vec<ServerListenerConfiguration>,
    pub connection: ServerConnectionConfiguration,
}

/// One shell command that may be run on request.
#[derive(Clone, Debug)]
pub struct CommandInfo {
    pub id: String,
    pub description: String,
    pub command: String,
    pub args: Vec<String>,
}

/// The configured commands and the bound on how many run at once.
#[derive(Clone, Debug)]
pub struct CommandConfiguration {
    pub max_concurrent_commands: usize,
    pub semaphore_acquire_timeout: TimeSpan,
    pub commands: Vec<CommandInfo>,
}

/// How a cache rule turns its duration into a `max-age`.
#[derive(Clone, Copy, Debug, PartialEq, Eq, Structural)]
pub enum StaticFileCacheRuleType {
    ModTimePlusDelta,
    FixedTime,
}

/// One cache rule as configured: what it matches and what it grants.
#[derive(Clone, Debug)]
pub struct StaticFileCacheRule {
    pub host_regex: Option<String>,
    pub path_regex: Option<String>,
    pub rule_type: StaticFileCacheRuleType,
    pub duration: TimeSpan,
}

/// Which precompressed variants of a file may be served.
#[derive(Clone, Copy, Debug, PartialEq, Eq, Structural)]
pub struct StaticFilePrecompressedConfiguration {
    pub br: bool,
    pub gz: bool,
}

/// The static-file root, the client-error page and the cache rules.
#[derive(Clone, Debug)]
pub struct StaticFileConfiguration {
    pub root: String,
    pub precompressed: StaticFilePrecompressedConfiguration,
    pub client_error_page_path: String,
    pub client_error_page_cache_duration: Option<TimeSpan>,
    pub cache_rules: Vec<StaticFileCacheRule>,
}

/// The whole configuration.
#[derive(Clone, Debug)]
pub struct Configuration {
    pub server_configuration: ServerConfiguration,
    pub static_file_configuration: StaticFileConfiguration,
    pub context_configuration: ContextConfiguration,
    pub command_configuration: CommandConfiguration,
}

} // verus!
