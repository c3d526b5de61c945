use zeroclaw_fleet::driver::docker::{
    classify, env_lists_equal, Container, ContainerConfig, ContainerSettings, ContainerState,
    DockerDriver, HealthStatus, Mount, MountKind, Order, RestartPolicyName,
};
use zeroclaw_fleet::driver::{
    container_name, ClawHealth, ClawSpec, EnsureOutcome, LogSettings, CLAW_LABEL, MANAGED_LABEL,
};
use zeroclaw_fleet::keymap::KeyMap;

fn sample_spec() -> ClawSpec {
    let mut env: KeyMap<String> = KeyMap::new();
    env.insert("ZEROCLAW_CONFIG_DIR".into(), "/zeroclaw-data/config".into());
    env.insert("ZEROCLAW_ALLOW_PUBLIC_BIND".into(), "true".into());
    env.insert("OPENAI_API_KEY".into(), "sk-test".into());
    ClawSpec {
        name: "alpha".into(),
        image: "example/zeroclaw@sha256:abc".into(),
        mem_limit_bytes: Some(1024 * 1024 * 1024),
        cpu_limit: Some(1_000_000_000),
        restart: "unless-stopped".into(),
        env,
        config_dir: "/var/lib/zeroclaw-fleet/alpha/config".into(),
        env_file: None,
        file_env: KeyMap::new(),
        data_volume: "claw-data-alpha".into(),
        network: "claws-internal".into(),
        log: LogSettings::default(),
        published_ports: vec![],
    }
}

fn created(config: ContainerConfig, running: bool) -> Container {
    Container {
        id: Some("0123456789abcdef".into()),
        image: Some("sha256:feed".into()),
        settings: Some(ContainerSettings {
            image: Some(config.image),
            env: Some(config.env),
        }),
        mounts: config.mounts,
        restart_policy: Some(config.restart_policy),
        state: Some(ContainerState {
            running: Some(running),
            started_at: Some("2026-01-01T00:00:00Z".into()),
            ..ContainerState::default()
        }),
    }
}

#[test]
fn build_config_sets_image_env_and_labels() {
    let spec = sample_spec();
    let cfg = DockerDriver::build_config(&spec);
    assert_eq!(cfg.image, "example/zeroclaw@sha256:abc");
    assert!(cfg.env.contains(&"ZEROCLAW_CONFIG_DIR=/zeroclaw-data/config".to_string()));
    assert!(cfg.env.contains(&"OPENAI_API_KEY=sk-test".to_string()));
    assert_eq!(cfg.labels.get(MANAGED_LABEL).map(String::as_str), Some("true"));
    assert_eq!(cfg.labels.get(CLAW_LABEL).map(String::as_str), Some("alpha"));
}

#[test]
fn build_config_attaches_to_the_requested_network() {
    let spec = sample_spec();
    let cfg = DockerDriver::build_config(&spec);
    assert_eq!(cfg.network, "claws-internal");
}

#[test]
fn build_config_mounts_volume_then_bind_overlay() {
    let spec = sample_spec();
    let cfg = DockerDriver::build_config(&spec);
    let mounts = cfg.mounts;
    assert_eq!(mounts.len(), 2);
    assert_eq!(mounts[0].kind, MountKind::Volume);
    assert_eq!(mounts[0].source, "claw-data-alpha");
    assert_eq!(mounts[0].target, "/zeroclaw-data");
    assert_eq!(mounts[1].kind, MountKind::Bind);
    assert_eq!(mounts[1].target, "/zeroclaw-data/config");
    assert_eq!(mounts[1].source, "/var/lib/zeroclaw-fleet/alpha/config");
    assert!(!mounts[0].read_only);
    assert!(!mounts[1].read_only);
}

#[test]
fn build_config_translates_cpu_limit_to_nano_cpus() {
    let mut spec = sample_spec();
    spec.cpu_limit = Some(500_000_000);
    let cfg = DockerDriver::build_config(&spec);
    assert_eq!(cfg.nano_cpus, Some(500_000_000));
}

#[test]
fn build_config_passes_mem_limit_as_bytes() {
    let spec = sample_spec();
    let cfg = DockerDriver::build_config(&spec);
    assert_eq!(cfg.memory, Some(1_073_741_824));
}

#[test]
fn build_config_sets_json_file_log_rotation() {
    let mut spec = sample_spec();
    spec.log.max_size = "50m".into();
    spec.log.max_file = 5;
    let cfg = DockerDriver::build_config(&spec);
    assert_eq!(cfg.log_driver, "json-file");
    assert_eq!(cfg.log_options.get("max-size").map(String::as_str), Some("50m"));
    assert_eq!(cfg.log_options.get("max-file").map(String::as_str), Some("5"));
}

#[test]
fn build_config_uses_zeroclaw_doctor_healthcheck() {
    let spec = sample_spec();
    let cfg = DockerDriver::build_config(&spec);
    let hc = cfg.healthcheck;
    assert_eq!(hc.test, vec!["CMD", "zeroclaw", "doctor"]);
    assert_eq!(hc.interval, 30_000_000_000);
    assert_eq!(hc.timeout, 10_000_000_000);
    assert_eq!(hc.retries, 3);
    assert_eq!(hc.start_period, 30_000_000_000);
}

#[test]
fn build_config_honors_explicit_restart_policy() {
    for (input, want) in [
        ("always", RestartPolicyName::Always),
        ("on-failure", RestartPolicyName::OnFailure),
        ("unless-stopped", RestartPolicyName::UnlessStopped),
        ("no", RestartPolicyName::No),
    ] {
        let mut spec = sample_spec();
        spec.restart = input.into();
        let cfg = DockerDriver::build_config(&spec);
        assert_eq!(cfg.restart_policy, want, "input {input}");
    }
}

#[test]
fn build_config_unknown_restart_policy_falls_back_to_unless_stopped() {
    let mut spec = sample_spec();
    spec.restart = "gibberish".into();
    let cfg = DockerDriver::build_config(&spec);
    assert_eq!(cfg.restart_policy, RestartPolicyName::UnlessStopped);
    spec.restart = "".into();
    assert_eq!(DockerDriver::build_config(&spec).restart_policy, RestartPolicyName::No);
}

#[test]
fn build_config_publishes_the_requested_ports() {
    let mut spec = sample_spec();
    spec.published_ports = vec![(8080, 80), (9000, 9001)];
    assert_eq!(DockerDriver::build_config(&spec).ports, vec![(8080, 80), (9000, 9001)]);
}

#[test]
fn env_lists_equal_ignores_order() {
    let a = vec!["A=1".to_string(), "B=2".to_string()];
    let b = vec!["B=2".to_string(), "A=1".to_string()];
    assert!(env_lists_equal(&a, &b));
    let c = vec!["A=1".to_string(), "B=3".to_string()];
    assert!(!env_lists_equal(&a, &c));
}

#[test]
fn env_lists_equal_counts_repeated_entries() {
    let once = vec!["A=1".to_string(), "B=2".to_string(), "B=2".to_string()];
    let other = vec!["A=1".to_string(), "A=1".to_string(), "B=2".to_string()];
    assert!(!env_lists_equal(&once, &other));
    assert!(!env_lists_equal(&once, &once[..2]));
    assert!(!env_lists_equal(&once[..2], &once));
    assert!(env_lists_equal(&[], &[]));
}

#[test]
fn container_name_prefix_is_stable() {
    assert_eq!(container_name("grocery"), "claw-grocery");
    assert_eq!(container_name("alfred"), "claw-alfred");
}

#[test]
fn classify_missing_state_is_missing() {
    assert_eq!(classify(None), ClawHealth::Missing);
}

#[test]
fn classify_running_no_healthcheck_is_healthy() {
    let state = ContainerState { running: Some(true), ..Default::default() };
    assert_eq!(classify(Some(&state)), ClawHealth::Healthy);
}

#[test]
fn classify_stopped_is_stopped() {
    let state = ContainerState { running: Some(false), ..Default::default() };
    assert_eq!(classify(Some(&state)), ClawHealth::Stopped);
}

#[test]
fn classify_follows_the_health_check() {
    for (health, want) in [
        (HealthStatus::Healthy, ClawHealth::Healthy),
        (HealthStatus::Starting, ClawHealth::Starting),
        (HealthStatus::Unhealthy, ClawHealth::Unhealthy),
        (HealthStatus::Unchecked, ClawHealth::Healthy),
    ] {
        let state = ContainerState {
            running: Some(true),
            health: Some(health),
            ..Default::default()
        };
        assert_eq!(classify(Some(&state)), want);
    }
    assert_eq!(classify(Some(&ContainerState::default())), ClawHealth::Stopped);
}

#[test]
fn classify_paused_is_stopped() {
    let state = ContainerState {
        running: Some(true),
        paused: Some(true),
        health: Some(HealthStatus::Healthy),
        ..Default::default()
    };
    assert_eq!(classify(Some(&state)), ClawHealth::Stopped);
    let state = ContainerState { running: Some(true), paused: Some(false), ..Default::default() };
    assert_eq!(classify(Some(&state)), ClawHealth::Healthy);
}

#[test]
fn created_container_has_not_drifted() {
    let spec = sample_spec();
    let mut c = created(DockerDriver::build_config(&spec), true);
    assert!(!DockerDriver::spec_drifted(&c, &spec));
    if let Some(settings) = c.settings.as_mut() {
        if let Some(env) = settings.env.as_mut() {
            env.reverse();
        }
    }
    assert!(!DockerDriver::spec_drifted(&c, &spec));
}

#[test]
fn any_difference_of_image_env_mounts_or_restart_is_drift() {
    let spec = sample_spec();
    let fresh = || created(DockerDriver::build_config(&spec), true);
    let mut c = fresh();
    c.settings = None;
    assert!(DockerDriver::spec_drifted(&c, &spec));
    let mut c = fresh();
    c.settings.as_mut().unwrap().image = Some("other".into());
    assert!(DockerDriver::spec_drifted(&c, &spec));
    let mut c = fresh();
    c.settings.as_mut().unwrap().image = None;
    assert!(DockerDriver::spec_drifted(&c, &spec));
    let mut c = fresh();
    c.settings.as_mut().unwrap().env = None;
    assert!(DockerDriver::spec_drifted(&c, &spec));
    let mut c = fresh();
    c.mounts[1].source = "/elsewhere".into();
    assert!(DockerDriver::spec_drifted(&c, &spec));
    let mut c = fresh();
    c.mounts.push(Mount {
        target: "/x".into(),
        source: "/y".into(),
        kind: MountKind::Bind,
        read_only: false,
    });
    assert!(DockerDriver::spec_drifted(&c, &spec));
    let mut c = fresh();
    c.restart_policy = Some(RestartPolicyName::No);
    assert!(DockerDriver::spec_drifted(&c, &spec));
    let mut c = fresh();
    c.restart_policy = None;
    assert!(DockerDriver::spec_drifted(&c, &spec));
}

#[test]
fn variables_of_the_file_reach_the_container() {
    let mut spec = sample_spec();
    let without = DockerDriver::build_config(&spec).env;
    spec.file_env.insert("OPENAI_API_KEY".into(), "from file".into());
    spec.file_env.insert("EXTRA".into(), "1".into());
    let config = DockerDriver::build_config(&spec);
    let mut want = without;
    want.push("EXTRA=1".into());
    assert_eq!(config.env, want);
    assert!(config.env.contains(&"OPENAI_API_KEY=sk-test".to_string()));
    let c = created(config, true);
    assert!(!DockerDriver::spec_drifted(&c, &spec));
    spec.file_env.insert("EXTRA".into(), "2".into());
    assert!(DockerDriver::spec_drifted(&c, &spec));
}

fn kinds(existing: Option<&Container>, spec: &ClawSpec) -> (Vec<&'static str>, EnsureOutcome) {
    let (steps, outcome) = DockerDriver::ensure(existing, spec);
    let names = steps
        .iter()
        .map(|s| match &s.order {
            Order::Create { .. } => "create",
            Order::Start { .. } => "start",
            Order::Unpause { .. } => "unpause",
            Order::Stop { .. } => "stop",
            Order::Remove { .. } => "remove",
            Order::RemoveVolume { .. } => "remove volume",
        })
        .collect();
    (names, outcome)
}

#[test]
fn ensure_creates_replaces_starts_or_leaves_alone() {
    let spec = sample_spec();
    assert_eq!(kinds(None, &spec), (vec!["create", "start"], EnsureOutcome::Created));
    let running = created(DockerDriver::build_config(&spec), true);
    assert_eq!(kinds(Some(&running), &spec), (vec![], EnsureOutcome::Unchanged));
    let still = created(DockerDriver::build_config(&spec), false);
    assert_eq!(kinds(Some(&still), &spec), (vec!["start"], EnsureOutcome::Unchanged));
    let mut paused = created(DockerDriver::build_config(&spec), true);
    paused.state.as_mut().unwrap().paused = Some(true);
    assert_eq!(kinds(Some(&paused), &spec), (vec!["unpause"], EnsureOutcome::Unchanged));
    let mut old = created(DockerDriver::build_config(&spec), true);
    old.settings.as_mut().unwrap().image = Some("old".into());
    assert_eq!(
        kinds(Some(&old), &spec),
        (vec!["stop", "remove", "create", "start"], EnsureOutcome::Recreated)
    );
}

#[test]
fn ensure_passes_over_failures_to_clear_the_way_only() {
    let spec = sample_spec();
    let mut old = created(DockerDriver::build_config(&spec), true);
    old.settings = None;
    let (steps, _) = DockerDriver::ensure(Some(&old), &spec);
    let tasks: Vec<Option<&str>> = steps.iter().map(|s| s.task.as_deref()).collect();
    assert_eq!(
        tasks,
        vec![
            None,
            None,
            Some("recreate container claw-alpha"),
            Some("start recreated container claw-alpha"),
        ]
    );
}

#[test]
fn lifecycle_plans_name_the_container() {
    let c = created(DockerDriver::build_config(&sample_spec()), true);
    let start = DockerDriver::start(Some(&c), "a");
    assert!(matches!(&start[0].order, Order::Start { container } if container == "claw-a"));
    assert_eq!(start[0].task.as_deref(), Some("start claw-a"));
    let stop = DockerDriver::stop("a");
    assert!(matches!(&stop[0].order, Order::Stop { container, grace_secs: 30 } if container == "claw-a"));
    assert_eq!(DockerDriver::restart("a").len(), 2);
    let remove = DockerDriver::remove(Some(&c), "a");
    assert!(remove[0].task.is_none());
    assert_eq!(remove[1].task.as_deref(), Some("remove claw-a"));
    let purge = DockerDriver::purge(Some(&c), "a", "vol");
    assert_eq!(purge.len(), 3);
    assert_eq!(purge[2].task.as_deref(), Some("remove volume vol"));
    assert_eq!(DockerDriver::list_fleet_containers(), "com.zeroclaw-fleet.managed=true");
}

#[test]
fn paused_claw_is_let_go_on() {
    let mut c = created(DockerDriver::build_config(&sample_spec()), true);
    c.state.as_mut().unwrap().paused = Some(true);
    let start = DockerDriver::start(Some(&c), "a");
    assert!(matches!(&start[0].order, Order::Unpause { container } if container == "claw-a"));
    assert_eq!(start[0].task.as_deref(), Some("start claw-a"));
    assert_eq!(start.len(), 1);
}

#[test]
fn removal_of_what_is_gone_has_nothing_to_fail_at() {
    assert!(DockerDriver::remove(None, "a").is_empty());
    let purge = DockerDriver::purge(None, "a", "vol");
    assert_eq!(purge.len(), 1);
    assert!(matches!(&purge[0].order, Order::RemoveVolume { volume } if volume == "vol"));
    assert_eq!(purge[0].task.as_deref(), Some("remove volume vol"));
}

#[test]
fn status_shortens_the_identifier() {
    let spec = sample_spec();
    let c = created(DockerDriver::build_config(&spec), true);
    let s = DockerDriver::status("alpha", Some(&c));
    assert_eq!(s.name, "alpha");
    assert_eq!(s.health, ClawHealth::Healthy);
    assert_eq!(s.container_id.as_deref(), Some("0123456789ab"));
    assert_eq!(s.image.as_deref(), Some("sha256:feed"));
    assert_eq!(s.started_at.as_deref(), Some("2026-01-01T00:00:00Z"));
    let none = DockerDriver::status("alpha", None);
    assert_eq!(none.health, ClawHealth::Missing);
    assert!(none.container_id.is_none());
}
