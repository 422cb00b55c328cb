//! What meka says of itself.

use vstd::prelude::*;

verus! {

/// Whether meka can serve a turn, and what stands in the way where it cannot.
#[derive(Debug)]
pub struct ReadyStatus {
    pub status: String,
    pub session_db: bool,
    pub provider_configured: bool,
    pub mcp_servers_healthy: bool,
}

/// What a meka is and offers. Nothing enabled means that it did not say.
#[derive(Debug)]
pub struct MekaInfo {
    pub version: String,
    pub vision: bool,
    pub enabled_permissions: Vec<String>,
}

/// A provider that sessions can run on.
#[derive(Debug)]
pub struct ProviderProfile {
    pub name: String,
    pub backend: String,
    pub model: Option<String>,
    pub active: bool,
}

/// A session of the agent.
#[derive(Debug)]
pub struct SessionInfo {
    pub title: String,
    pub permission: String,
    pub cwd: Option<String>,
    pub turn_in_flight: bool,
}

} // verus!
