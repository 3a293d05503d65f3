//! The records the agent reports to its front end.

use vstd::prelude::*;

verus! {

/// The GPU the provider machine offers.
#[derive(Clone, Debug, PartialEq, Eq)]
pub struct GpuInfo {
    pub name: String,
    pub vram_mb: u64,
    pub driver_version: String,
    pub compute_capability: String,
    pub is_apple_silicon: bool,
}

/// Operating-system and CPU facts about the provider machine.
#[derive(Clone, Debug, PartialEq, Eq)]
pub struct SystemInfo {
    pub os: String,
    pub os_version: String,
    pub hostname: String,
    pub total_ram_mb: u64,
    pub cpu_cores: u32,
    pub cpu_name: String,
    pub arch: String,
}

/// The settings chosen in the setup wizard.
#[derive(Clone, Debug, PartialEq, Eq)]
pub struct DaemonConfig {
    /// "always" | "idle" | "scheduled"
    pub run_mode: String,
    /// 50-100
    pub gpu_usage_cap: u32,
    /// 70-90
    pub temp_limit: u32,
    pub start_on_boot: bool,
}

/// A hardware qualification summary.
#[derive(Clone, Debug, PartialEq, Eq)]
pub struct HardwareReport {
    pub gpu: GpuInfo,
    pub system: SystemInfo,
    pub performance_tier: String,
    pub estimated_toks: u32,
    pub qualified: bool,
}

/// What the dashboard shows about the provider daemon.
#[derive(Clone, Debug, PartialEq, Eq)]
pub struct DaemonStatus {
    pub status: String,
    pub pid: Option<u32>,
    pub uptime_seconds: u64,
    pub last_log_lines: Vec<String>,
}

/// One line of the health report.
#[derive(Clone, Debug, PartialEq, Eq)]
pub struct HealthCheck {
    pub name: String,
    /// "ok" | "warning" | "error"
    pub status: String,
    pub message: String,
    pub can_auto_fix: bool,
    pub fix_action: Option<String>,
}

/// The health report: every check and the overall verdict.
#[derive(Clone, Debug, PartialEq, Eq)]
pub struct HealthReport {
    /// "healthy" | "degraded" | "critical"
    pub overall: String,
    pub checks: Vec<HealthCheck>,
}

/// One recent job as the dashboard lists it.
#[derive(Clone, Debug, PartialEq, Eq)]
pub struct JobEntry {
    pub job_id: String,
    pub model: String,
    pub status: String,
    pub created_at: String,
    pub completed_at: String,
    pub provider_earned_halala: i64,
    pub prompt_tokens: i64,
    pub completion_tokens: i64,
    pub duration_seconds: i64,
}

/// The saved provider configuration, with defaults filled in.
#[derive(Clone, Debug, PartialEq, Eq)]
pub struct SavedConfig {
    pub api_key: String,
    pub run_mode: String,
    pub gpu_usage_cap: u32,
    pub temp_limit: u32,
    pub start_on_boot: bool,
    pub served_model: String,
}

} // verus!
