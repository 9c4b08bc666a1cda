//! The batch job a cluster spawner submits for a worker, as plain values:
//! metadata, labels, pod settings and the worker container's environment.

use crate::text::{copy_string, opt_view, owned};
use crate::worker::spec::{ConfigView, WorkerJobSpec, WorkerSpawnerConfig};
use vstd::prelude::*;

verus! {

broadcast use vstd::string::group_string_axioms;

/// A reference to one key of a cluster secret.
#[derive(Clone, Debug, PartialEq, Eq)]
pub struct SecretKeyRef {
    /// The secret's name.
    pub name: String,
    /// The key within it.
    pub key: String,
    /// Whether the pod may start without it.
    pub optional: bool,
}

/// One environment variable of the worker container: a literal value or a
/// secret key.
#[derive(Clone, Debug, PartialEq, Eq)]
pub struct EnvEntry {
    /// Variable name.
    pub name: String,
    /// Literal value, if given.
    pub value: Option<String>,
    /// Secret the value is read from, if any.
    pub secret: Option<SecretKeyRef>,
}

/// What an environment variable holds.
pub struct EnvView {
    pub name: Seq<char>,
    pub value: Option<Seq<char>>,
    pub secret: Option<(Seq<char>, Seq<char>, bool)>,
}

/// The view of an environment variable.
pub open spec fn env_view(e: EnvEntry) -> EnvView {
    EnvView {
        name: e.name@,
        value: opt_view(e.value),
        secret: match e.secret {
            Some(s) => Some((s.name@, s.key@, s.optional)),
            None => None,
        },
    }
}

/// A batch job running one worker.
#[derive(Clone, Debug)]
pub struct WorkerJob {
    /// Prefix the cluster completes into the job name.
    pub generate_name: String,
    /// Namespace the job is created in.
    pub namespace: String,
    /// Labels, ordered by key.
    pub labels: Vec<(String, String)>,
    /// Seconds the finished job is kept.
    pub ttl_seconds_after_finished: i32,
    /// Retries of a failed pod.
    pub backoff_limit: i32,
    /// Pod restart policy.
    pub restart_policy: String,
    /// Service account the pod runs as.
    pub service_account_name: String,
    /// The worker container's name.
    pub container_name: String,
    /// The worker container's image.
    pub image: String,
    /// The worker container's environment, in order.
    pub env: Vec<EnvEntry>,
}

/// A literal environment variable.
pub open spec fn literal(name: Seq<char>, value: Seq<char>) -> EnvView {
    EnvView { name, value: Some(value), secret: None }
}

/// The worker's environment: the task, context and input, where to report,
/// the log level, and the GitHub token from the configured secret, if any.
pub open spec fn job_env(cfg: ConfigView, task_id: Seq<char>, context_id: Seq<char>, input: Seq<char>) -> Seq<
    EnvView,
> {
    let base = seq![
        literal("A2A_TASK_ID"@, task_id),
        literal("A2A_CONTEXT_ID"@, context_id),
        literal("A2A_INPUT"@, input),
        literal("ORCHESTRATOR_URL"@, cfg.orchestrator_url),
        literal("RUST_LOG"@, "info"@),
    ];
    match cfg.github_token_secret {
        Some(secret) => base.push(
            EnvView { name: "GITHUB_TOKEN"@, value: None, secret: Some((secret, "token"@, false)) },
        ),
        None => base,
    }
}

/// The job's labels, ordered by key.
pub open spec fn job_labels(task_id: Seq<char>) -> Seq<(Seq<char>, Seq<char>)> {
    seq![
        ("agent-build/managed-by"@, "oxidizedgraph"@),
        ("agent-build/task-id"@, task_id),
        ("app.kubernetes.io/name"@, "oxidizedgraph-worker"@),
        ("app.kubernetes.io/part-of"@, "stevedores"@),
    ]
}

fn literal_env(name: &str, value: String) -> (r: EnvEntry)
    ensures
        env_view(r) == literal(name@, value@),
{
    EnvEntry { name: owned(name), value: Some(value), secret: None }
}

/// The job that runs a worker for `spec` under `config`: named from
/// `oxg-worker-`, in the configured namespace, never retried or restarted,
/// kept for the configured time after it finishes, running the spec's image
/// (else the configured one) under the configured service account with the
/// worker environment.
pub fn build_job(config: &WorkerSpawnerConfig, spec: &WorkerJobSpec) -> (r: WorkerJob)
    ensures
        r.generate_name@ == "oxg-worker-"@,
        r.namespace@ == config@.namespace,
        r.labels@.map_values(|l: (String, String)| (l.0@, l.1@)) == job_labels(spec.task_id@),
        r.ttl_seconds_after_finished == config.ttl_seconds_after_finished,
        r.backoff_limit == 0,
        r.restart_policy@ == "Never"@,
        r.service_account_name@ == config@.service_account,
        r.container_name@ == "worker"@,
        r.image@ == match spec.image {
            Some(i) => i@,
            None => config@.worker_image,
        },
        r.env@.map_values(|e: EnvEntry| env_view(e)) == job_env(
            config@,
            spec.task_id@,
            spec.context_id@,
            spec.input_text@,
        ),
{
    let image = match &spec.image {
        Some(i) => copy_string(i),
        None => copy_string(&config.worker_image),
    };
    let mut env = vec![
        literal_env("A2A_TASK_ID", copy_string(&spec.task_id)),
        literal_env("A2A_CONTEXT_ID", copy_string(&spec.context_id)),
        literal_env("A2A_INPUT", copy_string(&spec.input_text)),
        literal_env("ORCHESTRATOR_URL", copy_string(&config.orchestrator_url)),
        literal_env("RUST_LOG", owned("info")),
    ];
    assert(env@.map_values(|e: EnvEntry| env_view(e)) =~= seq![
        literal("A2A_TASK_ID"@, spec.task_id@),
        literal("A2A_CONTEXT_ID"@, spec.context_id@),
        literal("A2A_INPUT"@, spec.input_text@),
        literal("ORCHESTRATOR_URL"@, config@.orchestrator_url),
        literal("RUST_LOG"@, "info"@),
    ]);
    match &config.github_token_secret {
        Some(secret) => {
            let ghost before = env@;
            let e = EnvEntry {
                name: owned("GITHUB_TOKEN"),
                value: None,
                secret: Some(SecretKeyRef { name: copy_string(secret), key: owned("token"), optional: false }),
            };
            env.push(e);
            assert(env@.map_values(|e: EnvEntry| env_view(e)) =~= before.map_values(
                |e: EnvEntry| env_view(e),
            ).push(env_view(e)));
        },
        None => {},
    }
    let labels = vec![
        (owned("agent-build/managed-by"), owned("oxidizedgraph")),
        (owned("agent-build/task-id"), copy_string(&spec.task_id)),
        (owned("app.kubernetes.io/name"), owned("oxidizedgraph-worker")),
        (owned("app.kubernetes.io/part-of"), owned("stevedores")),
    ];
    assert(labels@.map_values(|l: (String, String)| (l.0@, l.1@)) =~= job_labels(spec.task_id@));
    WorkerJob {
        generate_name: owned("oxg-worker-"),
        namespace: copy_string(&config.namespace),
        labels,
        ttl_seconds_after_finished: config.ttl_seconds_after_finished,
        backoff_limit: 0,
        restart_policy: owned("Never"),
        service_account_name: copy_string(&config.service_account),
        container_name: owned("worker"),
        image,
        env,
    }
}

} // verus!
