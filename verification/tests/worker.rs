use oxidizedgraph::worker::job::{build_job, SecretKeyRef};
use oxidizedgraph::worker::memory::MemoryWorkerSpawner;
use oxidizedgraph::worker::spec::{WorkerError, WorkerJobSpec, WorkerJobStatus, WorkerSpawnerConfig};

fn spec(task_id: &str) -> WorkerJobSpec {
    WorkerJobSpec { task_id: task_id.to_string(), ..WorkerJobSpec::default() }
}

#[test]
fn spawn_names_job_after_task_prefix() {
    let mut spawner = MemoryWorkerSpawner::default_spawner();
    let handle = spawner.spawn(&spec("abcdef0123456789")).unwrap();
    assert_eq!(handle.job_name, "oxg-worker-abcdef01");
    assert_eq!(handle.namespace, "oxidizedgraph");
    assert_eq!(spawner.status(&handle.job_name).unwrap(), WorkerJobStatus::Running);
    let short = spawner.spawn(&spec("xyz")).unwrap();
    assert_eq!(short.job_name, "oxg-worker-xyz");
}

#[test]
fn spawn_cuts_at_eight_bytes_of_multibyte_ids() {
    let mut spawner = MemoryWorkerSpawner::default_spawner();
    // "éé" is four bytes, so byte 8 ends the fourth "é".
    let handle = spawner.spawn(&spec("ééééxyz")).unwrap();
    assert_eq!(handle.job_name, "oxg-worker-éééé");
}

#[test]
fn status_of_unknown_job_is_not_found() {
    let spawner = MemoryWorkerSpawner::new(WorkerSpawnerConfig::default());
    assert_eq!(spawner.status("nope").unwrap(), WorkerJobStatus::NotFound);
}

#[test]
fn complete_job_marks_success() {
    let mut spawner = MemoryWorkerSpawner::default_spawner();
    let handle = spawner.spawn(&spec("task-0001-more")).unwrap();
    spawner.complete_job(&handle.job_name);
    assert_eq!(spawner.status(&handle.job_name).unwrap(), WorkerJobStatus::Succeeded);
    spawner.complete_job("other");
    assert_eq!(spawner.status("other").unwrap(), WorkerJobStatus::Succeeded);
}

#[test]
fn next_job_names_differ() {
    let spawner = MemoryWorkerSpawner::default_spawner();
    let a = spawner.next_job_name();
    let b = spawner.next_job_name();
    assert!(a.starts_with("oxg-worker-"));
    assert_eq!(a.len(), "oxg-worker-".len() + 36);
    assert_ne!(a, b);
}

#[test]
fn config_defaults() {
    let c = WorkerSpawnerConfig::default();
    assert_eq!(c.mode, "memory");
    assert_eq!(c.namespace, "oxidizedgraph");
    assert_eq!(c.worker_image, "ghcr.io/stevedores-org/oxidizedgraph/server:0.2.0");
    assert_eq!(c.service_account, "oxidizedgraph-worker");
    assert_eq!(c.ttl_seconds_after_finished, 3600);
    assert_eq!(c.orchestrator_url, "http://oxidizedgraph:8080");
    assert_eq!(c.github_token_secret, Some("github-app-token".to_string()));
}

#[test]
fn config_from_env_overrides() {
    let vars = vec![
        ("WORKER_SPAWNER".to_string(), "k8s".to_string()),
        ("WORKER_TTL_SECONDS".to_string(), "-120".to_string()),
        ("GITHUB_TOKEN_SECRET".to_string(), "".to_string()),
        ("WORKER_NAMESPACE".to_string(), "first".to_string()),
        ("WORKER_NAMESPACE".to_string(), "jobs".to_string()),
    ];
    let c = WorkerSpawnerConfig::from_env(&vars);
    assert_eq!(c.mode, "k8s");
    assert_eq!(c.namespace, "jobs");
    assert_eq!(c.ttl_seconds_after_finished, -120);
    assert_eq!(c.github_token_secret, None);
    assert_eq!(c.worker_image, "ghcr.io/stevedores-org/oxidizedgraph/server:0.2.0");
}

#[test]
fn config_from_env_keeps_ttl_that_does_not_parse() {
    for bad in ["", "12x", "+", "99999999999", " 5"] {
        let vars = vec![("WORKER_TTL_SECONDS".to_string(), bad.to_string())];
        assert_eq!(WorkerSpawnerConfig::from_env(&vars).ttl_seconds_after_finished, 3600, "{:?}", bad);
    }
    let vars = vec![("WORKER_TTL_SECONDS".to_string(), "+42".to_string())];
    assert_eq!(WorkerSpawnerConfig::from_env(&vars).ttl_seconds_after_finished, 42);
}

#[test]
fn worker_error_messages() {
    assert_eq!(WorkerError::SpawnFailed("x".into()).message(), "worker spawn failed: x");
    assert_eq!(WorkerError::StatusFailed("y".into()).message(), "worker status failed: y");
    assert_eq!(WorkerError::Config("z".into()).message(), "worker config invalid: z");
}

#[test]
fn worker_job_manifest_from_config_and_spec() {
    let config = WorkerSpawnerConfig::default();
    let job_spec = WorkerJobSpec {
        task_id: "task-42".to_string(),
        context_id: "ctx-7".to_string(),
        input_text: "fix the build".to_string(),
        image: None,
    };
    let job = build_job(&config, &job_spec);
    assert_eq!(job.generate_name, "oxg-worker-");
    assert_eq!(job.namespace, "oxidizedgraph");
    assert_eq!(job.image, "ghcr.io/stevedores-org/oxidizedgraph/server:0.2.0");
    assert_eq!(job.backoff_limit, 0);
    assert_eq!(job.restart_policy, "Never");
    assert_eq!(job.ttl_seconds_after_finished, 3600);
    assert_eq!(job.service_account_name, "oxidizedgraph-worker");
    assert_eq!(job.container_name, "worker");
    assert_eq!(job.labels[1], ("agent-build/task-id".to_string(), "task-42".to_string()));
    let names: Vec<&str> = job.env.iter().map(|e| e.name.as_str()).collect();
    assert_eq!(names, vec!["A2A_TASK_ID", "A2A_CONTEXT_ID", "A2A_INPUT", "ORCHESTRATOR_URL", "RUST_LOG", "GITHUB_TOKEN"]);
    assert_eq!(job.env[2].value.as_deref(), Some("fix the build"));
    assert_eq!(
        job.env[5].secret,
        Some(SecretKeyRef { name: "github-app-token".to_string(), key: "token".to_string(), optional: false })
    );

    let custom = WorkerJobSpec { image: Some("img:1".to_string()), ..job_spec };
    let mut no_secret = WorkerSpawnerConfig::default();
    no_secret.github_token_secret = None;
    let job = build_job(&no_secret, &custom);
    assert_eq!(job.image, "img:1");
    assert_eq!(job.env.len(), 5);
}
