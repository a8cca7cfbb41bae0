//! Daemon health check shape.
use vstd::prelude::*;

verus! {

pub const METHOD_HEALTH: &'static str = "health";

#[derive(Debug, Clone, PartialEq, Eq)]
pub struct HealthResult {
    pub version: String,
    pub uptime_ms: u64,
    pub pid: u32,
}

} // verus!
