//! The containers of claws.
//!
//! Every container of the fleet is named `claw-<name>` and carries the label
//! [`MANAGED_LABEL`], by which the orchestrator finds it again.

use vstd::prelude::*;
use vstd::string::*;
use crate::keymap::KeyMap;
use crate::text;

pub mod docker;
pub mod env_file;

verus! {

/// Label of every container of the fleet.
pub const MANAGED_LABEL: &'static str = "com.zeroclaw-fleet.managed";

/// Label that holds the name of the claw.
pub const CLAW_LABEL: &'static str = "com.zeroclaw-fleet.claw";

/// Everything that is needed to create or check a claw's container.
#[derive(Debug)]
pub struct ClawSpec {
    /// Stable kebab-case identifier.
    pub name: String,
    /// Container image.
    pub image: String,
    /// Memory limit in bytes.
    pub mem_limit_bytes: Option<i64>,
    /// CPU limit in billionths of a core.
    pub cpu_limit: Option<i64>,
    /// Restart policy: `unless-stopped`, `always`, `on-failure` or `no`.
    pub restart: String,
    /// Environment of the container.
    pub env: KeyMap<String>,
    /// Directory on the host that holds the claw's `config.toml`.
    pub config_dir: String,
    /// File on the host with further environment, if there is one.
    pub env_file: Option<String>,
    /// The variables that this file sets. They reach the container too; where
    /// `env` holds a variable of the same name, that of `env` counts.
    pub file_env: KeyMap<String>,
    /// Named volume that keeps the claw's data.
    pub data_volume: String,
    /// Network that the container joins.
    pub network: String,
    /// How the container's log is kept.
    pub log: LogSettings,
    /// Ports that are published: the container's and the host's.
    pub published_ports: Vec<(u16, u16)>,
}

/// How the log of a container is kept.
#[derive(Debug)]
pub struct LogSettings {
    /// Maximal size of a log file.
    pub max_size: String,
    /// Number of rotated files to keep.
    pub max_file: u32,
}

impl Default for LogSettings {
    /// Three files of twenty megabytes.
    fn default() -> (r: Self)
        ensures
            r.max_size@ == "20m"@,
            r.max_file == 3,
    {
        LogSettings { max_size: "20m".to_owned(), max_file: 3 }
    }
}

/// The health of a claw.
#[derive(Debug, Clone, Copy, PartialEq, Eq, Structural)]
pub enum ClawHealth {
    /// Running, and its check reports `healthy` or there is none.
    Healthy,
    /// Running, and its check has not come to a result yet.
    Starting,
    /// Running, and its check reports `unhealthy`.
    Unhealthy,
    /// The container exists but does not run: it was never started, has ended or
    /// is paused.
    Stopped,
    /// There is no container.
    Missing,
}

/// A snapshot of a claw's container.
#[derive(Debug)]
pub struct ClawStatus {
    pub name: String,
    pub health: ClawHealth,
    /// The image as the daemon resolved it.
    pub image: Option<String>,
    /// Short form of the container's identifier.
    pub container_id: Option<String>,
    /// When the container was last started.
    pub started_at: Option<String>,
}

/// What a call that ensures a container did.
#[derive(Debug, Clone, Copy, PartialEq, Eq, Structural)]
pub enum EnsureOutcome {
    /// There was no container; one was created and started.
    Created,
    /// The container matched; it was left alone.
    Unchanged,
    /// The container had drifted; it was replaced.
    Recreated,
}

/// The container of a claw.
pub open spec fn container_of(claw: Seq<char>) -> Seq<char> {
    "claw-"@ + claw
}

/// The name of a claw's container.
pub fn container_name(claw: &str) -> (r: String)
    ensures
        r@ == container_of(claw@),
{
    text::labelled("claw-", claw)
}

} // verus!
