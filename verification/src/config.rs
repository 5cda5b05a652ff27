//! Engine configuration defaults: privacy first, agents local-only.
use vstd::prelude::*;
use crate::text::to_owned_string;

verus! {

/// Privacy configuration.
#[derive(Debug, Clone)]
pub struct PrivacyConfig {
    /// Strip referer headers.
    pub strip_referer: bool,
    /// Send DNT header.
    pub send_dnt: bool,
    /// Send GPC header.
    pub send_gpc: bool,
    /// Block known trackers.
    pub block_trackers: bool,
    /// Minimum TLS version.
    pub min_tls_version: String,
    /// Enable fingerprinting resistance.
    pub fingerprint_resistance: bool,
}

/// Agent configuration.
#[derive(Debug, Clone)]
pub struct AgentConfig {
    /// Whether agents are enabled.
    pub enabled: bool,
    /// Whether to use local AI models only.
    pub local_models_only: bool,
    /// Maximum number of concurrent agents.
    pub max_concurrent_agents: u32,
}

impl Default for PrivacyConfig {
    /// Every protection on; TLS 1.3 minimum.
    fn default() -> (r: Self)
        ensures
            r.strip_referer,
            r.send_dnt,
            r.send_gpc,
            r.block_trackers,
            r.min_tls_version@ == "1.3"@,
            r.fingerprint_resistance,
    {
        PrivacyConfig {
            strip_referer: true,
            send_dnt: true,
            send_gpc: true,
            block_trackers: true,
            min_tls_version: to_owned_string("1.3"),
            fingerprint_resistance: true,
        }
    }
}

impl Default for AgentConfig {
    /// Agents on, local models only, at most three at once.
    fn default() -> (r: Self)
        ensures
            r.enabled,
            r.local_models_only,
            r.max_concurrent_agents == 3,
    {
        AgentConfig { enabled: true, local_models_only: true, max_concurrent_agents: 3 }
    }
}

} // verus!
