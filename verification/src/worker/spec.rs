//! Worker job specification, configuration and status types.

use crate::kv::{kv_get, kv_map};
use crate::text::{concat_strings, copy_opt_string, copy_string, integer_text, opt_view, owned, parse_i32};
use vstd::prelude::*;

verus! {

broadcast use vstd::string::group_string_axioms;

/// Errors from worker job lifecycle operations.
#[derive(Debug)]
pub enum WorkerError {
    /// Kubernetes or runtime failure.
    SpawnFailed(String),
    /// Status lookup failed.
    StatusFailed(String),
    /// Invalid configuration.
    Config(String),
}

impl WorkerError {
    /// The error's message.
    pub fn message(&self) -> (r: String)
        ensures
            r@ == match self {
                WorkerError::SpawnFailed(m) => "worker spawn failed: "@ + m@,
                WorkerError::StatusFailed(m) => "worker status failed: "@ + m@,
                WorkerError::Config(m) => "worker config invalid: "@ + m@,
            },
    {
        match self {
            WorkerError::SpawnFailed(m) => concat_strings("worker spawn failed: ", m.as_str()),
            WorkerError::StatusFailed(m) => concat_strings("worker status failed: ", m.as_str()),
            WorkerError::Config(m) => concat_strings("worker config invalid: ", m.as_str()),
        }
    }
}

/// Runtime configuration for worker spawning.
#[derive(Debug, Clone)]
pub struct WorkerSpawnerConfig {
    /// Spawner mode: `memory` or `k8s`.
    pub mode: String,
    /// Kubernetes namespace for worker jobs.
    pub namespace: String,
    /// Container image for worker jobs.
    pub worker_image: String,
    /// ServiceAccount name for worker pods.
    pub service_account: String,
    /// TTL after job completion, in seconds.
    pub ttl_seconds_after_finished: i32,
    /// Orchestrator callback base URL injected into worker env.
    pub orchestrator_url: String,
    /// Optional GitHub token secret name.
    pub github_token_secret: Option<String>,
}

/// What a spawner configuration holds.
pub struct ConfigView {
    pub mode: Seq<char>,
    pub namespace: Seq<char>,
    pub worker_image: Seq<char>,
    pub service_account: Seq<char>,
    pub ttl_seconds_after_finished: i32,
    pub orchestrator_url: Seq<char>,
    pub github_token_secret: Option<Seq<char>>,
}

impl View for WorkerSpawnerConfig {
    type V = ConfigView;

    open spec fn view(&self) -> ConfigView {
        ConfigView {
            mode: self.mode@,
            namespace: self.namespace@,
            worker_image: self.worker_image@,
            service_account: self.service_account@,
            ttl_seconds_after_finished: self.ttl_seconds_after_finished,
            orchestrator_url: self.orchestrator_url@,
            github_token_secret: opt_view(self.github_token_secret),
        }
    }
}

/// The default configuration: the in-memory spawner.
pub open spec fn default_config() -> ConfigView {
    ConfigView {
        mode: "memory"@,
        namespace: "oxidizedgraph"@,
        worker_image: "ghcr.io/stevedores-org/oxidizedgraph/server:0.2.0"@,
        service_account: "oxidizedgraph-worker"@,
        ttl_seconds_after_finished: 3600,
        orchestrator_url: "http://oxidizedgraph:8080"@,
        github_token_secret: Some("github-app-token"@),
    }
}

/// The value of an environment variable among `vars`, if set.
pub open spec fn env_value(vars: Seq<(String, String)>, name: Seq<char>) -> Option<Seq<char>> {
    if kv_map(vars).contains_key(name) {
        Some(kv_map(vars)[name])
    } else {
        None
    }
}

/// A setting taken from an environment variable when it is set.
pub open spec fn or_env(vars: Seq<(String, String)>, name: Seq<char>, fallback: Seq<char>) -> Seq<char> {
    match env_value(vars, name) {
        Some(v) => v,
        None => fallback,
    }
}

/// The TTL setting: the variable's value when it parses as an `i32`.
pub open spec fn env_ttl(vars: Seq<(String, String)>, fallback: i32) -> i32 {
    match env_value(vars, "WORKER_TTL_SECONDS"@) {
        Some(v) => match integer_text(v) {
            Some(n) => if i32::MIN <= n <= i32::MAX { n as i32 } else { fallback },
            None => fallback,
        },
        None => fallback,
    }
}

/// The token secret setting: the variable's value, with an empty value
/// meaning none.
pub open spec fn env_secret(vars: Seq<(String, String)>, fallback: Option<Seq<char>>) -> Option<Seq<char>> {
    match env_value(vars, "GITHUB_TOKEN_SECRET"@) {
        Some(v) => if v.len() == 0 { None } else { Some(v) },
        None => fallback,
    }
}

/// The configuration the environment `vars` gives over the defaults.
pub open spec fn config_from_env(vars: Seq<(String, String)>) -> ConfigView {
    let d = default_config();
    ConfigView {
        mode: or_env(vars, "WORKER_SPAWNER"@, d.mode),
        namespace: or_env(vars, "WORKER_NAMESPACE"@, d.namespace),
        worker_image: or_env(vars, "WORKER_IMAGE"@, d.worker_image),
        service_account: or_env(vars, "WORKER_SERVICE_ACCOUNT"@, d.service_account),
        ttl_seconds_after_finished: env_ttl(vars, d.ttl_seconds_after_finished),
        orchestrator_url: or_env(vars, "ORCHESTRATOR_URL"@, d.orchestrator_url),
        github_token_secret: env_secret(vars, d.github_token_secret),
    }
}

/// `from` with the value of the variable `name` when it is set.
fn env_or(vars: &Vec<(String, String)>, name: &str, from: String) -> (r: String)
    ensures
        r@ == or_env(vars@, name@, from@),
{
    match kv_get(vars, name) {
        Some(v) => copy_string(v),
        None => from,
    }
}

impl Default for WorkerSpawnerConfig {
    fn default() -> (r: Self)
        ensures
            r@ == default_config(),
    {
        WorkerSpawnerConfig {
            mode: owned("memory"),
            namespace: owned("oxidizedgraph"),
            worker_image: owned("ghcr.io/stevedores-org/oxidizedgraph/server:0.2.0"),
            service_account: owned("oxidizedgraph-worker"),
            ttl_seconds_after_finished: 3600,
            orchestrator_url: owned("http://oxidizedgraph:8080"),
            github_token_secret: Some(owned("github-app-token")),
        }
    }
}

impl WorkerSpawnerConfig {
    /// The configuration from environment variables (`WORKER_SPAWNER`,
    /// `WORKER_NAMESPACE`, `WORKER_IMAGE`, `WORKER_SERVICE_ACCOUNT`,
    /// `WORKER_TTL_SECONDS`, `ORCHESTRATOR_URL`, `GITHUB_TOKEN_SECRET`),
    /// given as (name, value) pairs, with defaults for those not set. A TTL
    /// that does not parse keeps its default; an empty token secret means
    /// none.
    pub fn from_env(vars: &Vec<(String, String)>) -> (r: Self)
        ensures
            r@ == config_from_env(vars@),
    {
        let cfg = WorkerSpawnerConfig::default();
        let ttl = match kv_get(vars, "WORKER_TTL_SECONDS") {
            Some(v) => match parse_i32(v.as_str()) {
                Some(n) => n,
                None => cfg.ttl_seconds_after_finished,
            },
            None => cfg.ttl_seconds_after_finished,
        };
        let secret = match kv_get(vars, "GITHUB_TOKEN_SECRET") {
            Some(v) => if v.as_str().is_empty() {
                None
            } else {
                Some(copy_string(v))
            },
            None => copy_opt_string(&cfg.github_token_secret),
        };
        WorkerSpawnerConfig {
            mode: env_or(vars, "WORKER_SPAWNER", cfg.mode),
            namespace: env_or(vars, "WORKER_NAMESPACE", cfg.namespace),
            worker_image: env_or(vars, "WORKER_IMAGE", cfg.worker_image),
            service_account: env_or(vars, "WORKER_SERVICE_ACCOUNT", cfg.service_account),
            ttl_seconds_after_finished: ttl,
            orchestrator_url: env_or(vars, "ORCHESTRATOR_URL", cfg.orchestrator_url),
            github_token_secret: secret,
        }
    }
}

/// Request to spawn an ephemeral worker job.
#[derive(Debug, Clone)]
pub struct WorkerJobSpec {
    /// Task id.
    pub task_id: String,
    /// Context id.
    pub context_id: String,
    /// Plain-text task input for the worker.
    pub input_text: String,
    /// Optional image override.
    pub image: Option<String>,
}

impl Default for WorkerJobSpec {
    fn default() -> (r: Self)
        ensures
            r.task_id@.len() == 0,
            r.context_id@.len() == 0,
            r.input_text@.len() == 0,
            r.image is None,
    {
        WorkerJobSpec { task_id: String::new(), context_id: String::new(), input_text: String::new(), image: None }
    }
}

/// Handle returned after a successful spawn.
#[derive(Debug, Clone)]
pub struct WorkerJobHandle {
    /// Job name.
    pub job_name: String,
    /// Namespace the job was created in.
    pub namespace: String,
}

/// Observed worker job status.
#[derive(Debug, Clone, Copy, PartialEq, Eq, Structural)]
pub enum WorkerJobStatus {
    /// Job created but no pod running yet.
    Pending,
    /// At least one pod is active.
    Running,
    /// Job completed successfully.
    Succeeded,
    /// Job failed.
    Failed,
    /// Job no longer exists.
    NotFound,
}

} // verus!
