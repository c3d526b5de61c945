use std::sync::Arc;
use zeroclaw_fleet::api;
use zeroclaw_fleet::api::apply::{
    apply_one, build_spec, not_applied, parse_mem_limit, parse_number, up_one, ApplyAction,
    ApplyEvent, Applying,
};
use zeroclaw_fleet::api::{claws, configs, cost, logs, tenants, AnswerBody};
use zeroclaw_fleet::bearer::Bearer;
use zeroclaw_fleet::config::OrchestratorConfig;
use zeroclaw_fleet::driver::docker::DockerDriver;
use zeroclaw_fleet::driver::env_file::{read_variables, EnvFile};
use zeroclaw_fleet::driver::{ClawHealth, ClawStatus, EnsureOutcome};
use zeroclaw_fleet::failure::Failure;
use zeroclaw_fleet::keymap::KeyMap;
use zeroclaw_fleet::manifest::{ClawDefaults, ClawOverlay};
use zeroclaw_fleet::proxy::{bearer_header, websocket_header, ProxyConfig};
use zeroclaw_fleet::web;
use zeroclaw_fleet::wire::Field;

fn overlay(src: &str) -> ClawOverlay {
    match ClawOverlay::from_str(src) {
        Ok(o) => o,
        Err(e) => panic!("{}", e.detail()),
    }
}

fn alpha() -> ClawOverlay {
    overlay("[_fleet]\nname = \"alpha\"\n[branding]\ndisplay_name = \"Alpha!\"\n")
}

fn config() -> OrchestratorConfig {
    OrchestratorConfig {
        bind: "0.0.0.0:8080".into(),
        fleet_dir: "/etc/fleet".into(),
        state_dir: "/var/lib/fleet".into(),
        proxy: ProxyConfig {
            fleet_host: "claws.example.com".into(),
            claw_suffix: "claw.example.com".into(),
            claw_port: 42617,
        },
        mcp_server_url: "https://hub/mcp".into(),
        mcp_server_name: "hub".into(),
        mcp_bearer_placeholder: "__P__".into(),
        cost_poll_interval_secs: 30,
        claws_network: "claws-internal".into(),
        repo_blob_base: None,
        default_image: None,
        default_mem_limit_bytes: Some(7),
        default_cpu_limit: Some(8),
        default_restart: None,
        default_log_max_size: None,
        default_log_max_file: None,
    }
}

fn failure() -> Failure {
    Failure::new("inner".into()).under("outer".into())
}

// ---- memory limits ----

#[test]
fn memory_limits_are_read_in_docker_notation() {
    assert_eq!(parse_mem_limit("1g"), Some(1_073_741_824));
    assert_eq!(parse_mem_limit(" 512M "), Some(536_870_912));
    assert_eq!(parse_mem_limit("2k"), Some(2048));
    assert_eq!(parse_mem_limit("2 K"), Some(2048));
    assert_eq!(parse_mem_limit("1024"), Some(1024));
    assert_eq!(parse_mem_limit("-1k"), Some(-1024));
    assert_eq!(parse_mem_limit("+3"), Some(3));
    assert_eq!(parse_mem_limit("9223372036854775807g"), Some(i64::MAX));
    assert_eq!(parse_mem_limit("-9223372036854775808g"), Some(i64::MIN));
    for bad in ["", "  ", "g", "1gb", "1.5g", "one", "9223372036854775808", "- 1", "+", "1_0"] {
        assert_eq!(parse_mem_limit(bad), None, "{bad}");
    }
    for s in ["0", "-0", "007", "-9223372036854775808", "9223372036854775807", "x", "--1", ""] {
        assert_eq!(parse_number(s), s.parse::<i64>().ok(), "{s}");
    }
}

// ---- applying ----

#[test]
fn spec_takes_overlay_then_manifest_then_own_defaults() {
    let mut cfg = config();
    let none = build_spec(&cfg, &alpha(), None, "/c", None);
    match none {
        Err(f) => assert_eq!(
            f.detail(),
            "no image — set fleet.defaults.image or overlay [_fleet] image"
        ),
        Ok(_) => panic!("an image from nowhere"),
    }
    cfg.default_image = Some("own".into());
    let spec = build_spec(&cfg, &alpha(), None, "/c", None).ok().unwrap();
    assert_eq!(spec.image, "own");
    assert_eq!(spec.mem_limit_bytes, Some(7));
    assert_eq!(spec.cpu_limit, Some(8));
    assert_eq!(spec.restart, "unless-stopped");
    assert_eq!(spec.log.max_size, "20m");
    assert_eq!(spec.log.max_file, 3);
    assert_eq!(spec.data_volume, "claw-data-alpha");
    assert_eq!(spec.network, "claws-internal");
    assert_eq!(spec.config_dir, "/c");
    assert!(spec.env_file.is_none());
    assert_eq!(spec.file_env.len(), 0);
    assert!(spec.published_ports.is_empty());
    assert_eq!(spec.env.len(), 3);
    assert_eq!(spec.env.get("ZEROCLAW_GATEWAY_PORT").map(String::as_str), Some("42617"));
    assert_eq!(spec.env.get("ZEROCLAW_ALLOW_PUBLIC_BIND").map(String::as_str), Some("true"));
    assert_eq!(
        spec.env.get("ZEROCLAW_CONFIG_DIR").map(String::as_str),
        Some("/zeroclaw-data/config")
    );
    let mut d = ClawDefaults::default();
    d.image = Some("manifest".into());
    d.mem_limit = Some("1g".into());
    d.cpu_limit = Some(5);
    d.restart = Some("always".into());
    d.log_max_size = Some("1m".into());
    d.log_max_file = Some(9);
    let file = EnvFile { path: "/e".into(), content: "OPENAI_API_KEY=sk-1\n".into() };
    let spec = build_spec(&cfg, &alpha(), Some(d), "/c", Some(file)).ok().unwrap();
    assert_eq!(spec.image, "manifest");
    assert_eq!(spec.mem_limit_bytes, Some(1_073_741_824));
    assert_eq!(spec.cpu_limit, Some(5));
    assert_eq!(spec.restart, "always");
    assert_eq!(spec.log.max_size, "1m");
    assert_eq!(spec.log.max_file, 9);
    assert_eq!(spec.env_file.as_deref(), Some("/e"));
    assert_eq!(spec.file_env.len(), 1);
    assert_eq!(spec.file_env.get("OPENAI_API_KEY").map(String::as_str), Some("sk-1"));
    assert!(DockerDriver::build_config(&spec).env.contains(&"OPENAI_API_KEY=sk-1".to_string()));
    let mut d = ClawDefaults::default();
    d.image = Some("manifest".into());
    d.mem_limit = Some("lots".into());
    let own = overlay("[_fleet]\nname = \"alpha\"\nimage = \"overlay\"\n");
    let spec = build_spec(&cfg, &own, Some(d), "/c", None).ok().unwrap();
    assert_eq!(spec.image, "overlay");
    assert_eq!(spec.mem_limit_bytes, Some(7));
}

fn begin(cfg: &OrchestratorConfig) -> Applying {
    match apply_one("alpha", Some(alpha()), cfg) {
        Ok((run, ApplyAction::ReadBase { path })) => {
            assert_eq!(path, "/etc/fleet/base.toml");
            run
        }
        _ => panic!("not begun"),
    }
}

#[test]
fn claw_is_applied_step_by_step() {
    let mut cfg = config();
    cfg.default_image = Some("own".into());
    let mut run = begin(&cfg);
    match run.step(&cfg, ApplyEvent::Base(Ok("x = 1\n".into()))) {
        ApplyAction::EnsureBearer { path } => assert_eq!(path, "/var/lib/fleet/alpha/bearer.txt"),
        _ => panic!("no bearer"),
    }
    let fresh = Bearer { value: "zc_1".into(), is_new: true };
    match run.step(&cfg, ApplyEvent::Bearer(fresh)) {
        ApplyAction::WriteBearer { bearer, .. } => assert_eq!(bearer, "zc_1"),
        _ => panic!("bearer not written"),
    }
    match run.step(&cfg, ApplyEvent::Done(Ok(()))) {
        ApplyAction::ReadConfig { path } => {
            assert_eq!(path, "/var/lib/fleet/alpha/config/config.toml")
        }
        _ => panic!("not rendered"),
    }
    let rendered = match run.step(&cfg, ApplyEvent::OnDisk(None)) {
        ApplyAction::WriteConfig { content, .. } => content,
        _ => panic!("not written"),
    };
    assert!(rendered.contains("Bearer __P__"));
    match run.step(&cfg, ApplyEvent::Done(Ok(()))) {
        ApplyAction::Survey { fleet_yaml, env_file } => {
            assert_eq!(fleet_yaml, "/etc/fleet/fleet.yaml");
            assert_eq!(env_file, "/etc/zeroclaw-fleet-secrets/alpha.env");
        }
        _ => panic!("no survey"),
    }
    let survey = ApplyEvent::Survey { defaults: None, env_file: None };
    match run.step(&cfg, survey) {
        ApplyAction::Ensure(spec) => {
            assert_eq!(spec.image, "own");
            assert_eq!(spec.config_dir, "/var/lib/fleet/alpha/config");
        }
        _ => panic!("no container"),
    }
    match run.step(&cfg, ApplyEvent::Ensured(Ok(EnsureOutcome::Created))) {
        ApplyAction::Finish(out) => {
            assert_eq!(out.container, "created+started");
            assert!(out.rendered);
            assert_eq!(
                out.steps,
                vec![
                    "bearer:generated",
                    "config:wrote:/var/lib/fleet/alpha/config/config.toml",
                    "container:created+started",
                ]
            );
            assert_eq!(
                out.warnings,
                vec!["no env_file at /etc/zeroclaw-fleet-secrets/alpha.env — claw will start without OPENAI_API_KEY; LiteLLM calls will fail"]
            );
        }
        _ => panic!("not finished"),
    }
}

#[test]
fn same_configuration_is_not_written_again() {
    let mut cfg = config();
    cfg.default_image = Some("own".into());
    let mut run = begin(&cfg);
    run.step(&cfg, ApplyEvent::Base(Ok("x = 1\n".into())));
    let kept = Bearer { value: "zc_1".into(), is_new: false };
    assert!(matches!(run.step(&cfg, ApplyEvent::Bearer(kept)), ApplyAction::ReadConfig { .. }));
    let same = run.rendered.clone();
    assert!(matches!(
        run.step(&cfg, ApplyEvent::OnDisk(Some(same))),
        ApplyAction::Survey { .. }
    ));
    let file = Some(Ok("OPENAI_API_KEY=sk-1".into()));
    match run.step(&cfg, ApplyEvent::Survey { defaults: None, env_file: file }) {
        ApplyAction::Ensure(spec) => {
            assert_eq!(spec.env_file.as_deref(), Some("/etc/zeroclaw-fleet-secrets/alpha.env"));
            assert_eq!(spec.file_env.get("OPENAI_API_KEY").map(String::as_str), Some("sk-1"));
        }
        _ => panic!("no container"),
    }
    match run.step(&cfg, ApplyEvent::Ensured(Ok(EnsureOutcome::Unchanged))) {
        ApplyAction::Finish(out) => {
            assert_eq!(
                out.steps,
                vec![
                    "bearer:existing",
                    "config:unchanged:/var/lib/fleet/alpha/config/config.toml",
                    "container:unchanged",
                ]
            );
            assert!(out.warnings.is_empty());
        }
        _ => panic!("not finished"),
    }
}

#[test]
fn application_gives_up_where_a_step_fails() {
    let cfg = config();
    match apply_one("ghost", None, &cfg) {
        Err(f) => assert_eq!(f.detail(), "no overlay for ghost"),
        Ok(_) => panic!("begun"),
    }
    let mut run = begin(&cfg);
    match run.step(&cfg, ApplyEvent::Base(Err("denied".into()))) {
        ApplyAction::GiveUp(f) => assert_eq!(f.detail(), "read /etc/fleet/base.toml: denied"),
        _ => panic!("went on"),
    }
    let kept = || Bearer { value: "zc_1".into(), is_new: false };
    let mut run = begin(&cfg);
    run.step(&cfg, ApplyEvent::Base(Ok("= x".into())));
    match run.step(&cfg, ApplyEvent::Bearer(kept())) {
        ApplyAction::GiveUp(f) => assert!(f.detail().starts_with("parse base.toml: ")),
        _ => panic!("went on"),
    }
    let mut run = begin(&cfg);
    run.step(&cfg, ApplyEvent::Base(Ok("gateway = 1".into())));
    assert!(matches!(
        run.step(&cfg, ApplyEvent::Bearer(kept())),
        ApplyAction::Unrenderable
    ));
    let mut run = begin(&cfg);
    run.step(&cfg, ApplyEvent::Base(Ok("".into())));
    run.step(&cfg, ApplyEvent::Bearer(kept()));
    match run.step(&cfg, ApplyEvent::OnDisk(None)) {
        ApplyAction::WriteConfig { .. } => {}
        _ => panic!("not written"),
    }
    run.step(&cfg, ApplyEvent::Done(Ok(())));
    let survey = ApplyEvent::Survey { defaults: None, env_file: Some(Err("denied".into())) };
    match run.step(&cfg, survey) {
        ApplyAction::GiveUp(f) => assert!(f.detail().starts_with("no image")),
        _ => panic!("went on"),
    }
    let mut cfg = config();
    cfg.default_image = Some("own".into());
    let mut run = begin(&cfg);
    run.step(&cfg, ApplyEvent::Base(Ok("".into())));
    run.step(&cfg, ApplyEvent::Bearer(kept()));
    run.step(&cfg, ApplyEvent::OnDisk(None));
    run.step(&cfg, ApplyEvent::Done(Ok(())));
    let survey = ApplyEvent::Survey { defaults: None, env_file: Some(Err("denied".into())) };
    match run.step(&cfg, survey) {
        ApplyAction::GiveUp(f) => {
            assert_eq!(f.detail(), "read /etc/zeroclaw-fleet-secrets/alpha.env: denied")
        }
        _ => panic!("went on"),
    }
}

#[test]
fn env_file_sets_one_variable_per_line() {
    let vars = read_variables(
        "# comment\nA=1\r\n\n  B = two=2 \nno sign\n=nameless\n#C=3\nD=\nA=4\nlast=x",
    );
    let got: Vec<(&str, &str)> = (0..vars.len())
        .map(|i| (vars.key_at(i), vars.value_at(i).as_str()))
        .collect();
    assert_eq!(got, vec![("A", "4"), ("B", " two=2 "), ("D", ""), ("last", "x")]);
    assert_eq!(read_variables("").len(), 0);
    assert_eq!(read_variables("A=1\r\n").get("A").map(String::as_str), Some("1"));
}

#[test]
fn failed_application_is_told_in_both_answers() {
    let r = not_applied("a", &failure());
    assert!(!r.rendered);
    assert_eq!(r.container, "error: outer: inner");
    assert_eq!(r.warnings, vec!["outer"]);
    assert!(r.steps.is_empty());
    let a = up_one(Err(failure()));
    assert_eq!(a.status, 500);
    assert!(matches!(a.body, AnswerBody::Text(s) if s == "outer: inner"));
    let a = up_one(Ok(not_applied("a", &failure())));
    assert_eq!(a.status, 200);
}

// ---- claws ----

fn status(name: &str) -> ClawStatus {
    ClawStatus {
        name: name.into(),
        health: ClawHealth::Healthy,
        image: None,
        container_id: None,
        started_at: None,
    }
}

#[test]
fn claws_are_listed_in_order_with_friendly_names() {
    let mut overlays: KeyMap<ClawOverlay> = KeyMap::new();
    overlays.insert("alpha".into(), alpha());
    let found = vec![
        ("zeta".to_string(), Err(failure())),
        ("alpha".to_string(), Ok(status("alpha"))),
        ("beta".to_string(), Ok(status("beta"))),
    ];
    let listed = claws::list(found, &overlays);
    let names: Vec<&str> = listed.iter().map(|e| e.name.as_str()).collect();
    assert_eq!(names, vec!["zeta", "alpha", "beta"]);
    assert_eq!(listed[0].display_name, "zeta");
    assert_eq!(listed[0].error.as_deref(), Some("outer"));
    assert!(listed[0].status.is_none());
    assert_eq!(listed[1].display_name, "Alpha!");
    assert!(listed[1].error.is_none());
    assert_eq!(listed[2].status.as_ref().unwrap().name, "beta");
}

#[test]
fn answers_report_values_and_failures() {
    let a = claws::detail(Ok(status("a")));
    assert_eq!(a.status, 200);
    assert!(matches!(a.body, AnswerBody::Value(s) if s.name == "a"));
    let a = claws::detail(Err(failure()));
    assert_eq!(a.status, 500);
    assert!(matches!(a.body, AnswerBody::Text(s) if s == "outer"));
    let a = claws::acknowledge(Ok(()));
    assert_eq!(a.status, 204);
    assert!(matches!(a.body, AnswerBody::Empty));
    assert_eq!(claws::acknowledge(Err(failure())).status, 500);
    let a = cost::per_claw::<u8>(Err("down".into()));
    assert_eq!(a.status, 502);
    assert_eq!(cost::per_claw(Ok(1u8)).status, 200);
    assert_eq!(api::healthz(), "ok");
}

// ---- configuration files ----

#[test]
fn files_are_listed_where_they_exist() {
    let files = vec![
        ("a".to_string(), Some(10)),
        ("b".to_string(), None),
        ("c".to_string(), Some(30)),
    ];
    let base = Some("https://git/blob/main//".to_string());
    let listed = configs::list(Some(1), Some(2), &files, &base);
    let keys: Vec<&str> = listed.iter().map(|e| e.key.as_str()).collect();
    assert_eq!(keys, vec!["base", "fleet", "claws/a", "claws/c"]);
    assert_eq!(listed[0].label, "base.toml (fleet-wide)");
    assert_eq!(listed[1].label, "fleet.yaml (manifest)");
    assert_eq!(listed[2].label, "claws/a.toml (overlay)");
    assert_eq!(listed[3].size_bytes, 30);
    assert_eq!(listed[3].git_url.as_deref(), Some("https://git/blob/main/claws/c.toml"));
    assert!(configs::list(None, None, &vec![], &None).is_empty());
    let only = configs::list(None, Some(2), &vec![], &None);
    assert_eq!(only[0].path, "fleet.yaml");
    assert!(only[0].git_url.is_none());
    assert_eq!(configs::git_url_for(Some("https://x"), "p").as_deref(), Some("https://x/p"));
    assert_eq!(configs::git_url_for(None, "p"), None);
}

#[test]
fn overlay_names_reach_no_other_file() {
    match configs::claw_overlay("alpha-2") {
        Ok(w) => {
            assert_eq!(w.key, "claws/alpha-2");
            assert_eq!(w.path, "claws/alpha-2.toml");
        }
        Err(_) => panic!("refused"),
    }
    for bad in ["../base", "Alpha", "a/b", "a.b", "a b", "\u{e9}"] {
        match configs::claw_overlay(bad) {
            Err(a) => {
                assert_eq!(a.status, 400);
                assert!(matches!(a.body, AnswerBody::Text(s) if s == "invalid claw name"));
            }
            Ok(_) => panic!("{} accepted", bad),
        }
    }
    assert_eq!(configs::base().path, "base.toml");
    assert_eq!(configs::fleet().key, "fleet");
}

#[test]
fn file_is_served_or_its_absence_told() {
    let a = configs::serve(configs::base(), Ok("x".into()), &Some("https://g/".into()));
    assert_eq!(a.status, 200);
    match a.body {
        AnswerBody::Value(c) => {
            assert_eq!(c.content, "x");
            assert_eq!(c.git_url.as_deref(), Some("https://g/base.toml"));
        }
        _ => panic!("no content"),
    }
    let a = configs::serve(configs::base(), Err(configs::ReadError::NotFound), &None);
    assert_eq!(a.status, 404);
    assert!(matches!(a.body, AnswerBody::Text(s) if s == "no config at base.toml"));
    let e = configs::ReadError::Other("denied".into());
    let a = configs::serve(configs::base(), Err(e), &None);
    assert_eq!(a.status, 500);
    assert!(matches!(a.body, AnswerBody::Text(s) if s == "read failed: denied"));
}

// ---- logs and tenants ----

#[test]
fn logs_are_capped() {
    assert_eq!(logs::default_lines(), 200);
    assert_eq!(logs::tail(&logs::LogsQuery { lines: 10 }), "10");
    assert_eq!(logs::tail(&logs::LogsQuery { lines: 5000 }), "5000");
    assert_eq!(logs::tail(&logs::LogsQuery { lines: 999_999 }), "5000");
    assert_eq!(logs::concatenate(&vec!["a\n".to_string(), "b".to_string()]), "a\nb");
    assert_eq!(logs::answer(Ok("x".into())).status, 200);
    assert_eq!(logs::answer(Err(failure())).status, 500);
}

#[test]
fn tenant_answers_explain_themselves() {
    let a = tenants::disabled();
    assert_eq!(a.status, 503);
    match a.body {
        AnswerBody::Fields(m) => assert!(m.contains_key("hint")),
        _ => panic!("no object"),
    }
    let a = tenants::create("alpha", Err(failure()));
    assert_eq!(a.status, 500);
    match a.body {
        AnswerBody::Fields(m) => {
            assert!(matches!(m.get("error"), Some(Field::Text(s)) if s == "outer: inner"));
            assert!(matches!(m.get("tenant"), Some(Field::Text(s)) if s == "alpha"));
            assert!(m.contains_key("note"));
        }
        _ => panic!("no object"),
    }
}

#[test]
fn imported_claw_is_not_provisioned() {
    let imported = overlay("[_fleet]\nname = \"alpha\"\nimport = true\n");
    assert!(tenants::is_imported(Some(&imported)));
    assert!(!tenants::is_imported(Some(&overlay("[_fleet]\nname = \"alpha\"\n"))));
    assert!(!tenants::is_imported(None));
    let a = tenants::skipped("alpha");
    assert_eq!(a.status, 200);
    match a.body {
        AnswerBody::Fields(m) => {
            assert!(matches!(m.get("tenant"), Some(Field::Text(s)) if s == "alpha"));
            assert!(m.contains_key("note"));
        }
        _ => panic!("no object"),
    }
}

// ---- hosts and pages ----

#[test]
fn hosts_of_claws_are_recognized() {
    let p = config().proxy;
    assert_eq!(p.claw_for_host("alpha.claw.example.com").as_deref(), Some("alpha"));
    assert_eq!(p.claw_for_host("claws.example.com"), None);
    assert_eq!(p.claw_for_host("claw.example.com"), None);
    assert_eq!(p.claw_for_host(".claw.example.com"), None);
    assert_eq!(p.claw_for_host("alphaclaw.example.com"), None);
    assert_eq!(p.upstream_base("alpha"), "http://claw-alpha:42617");
    assert_eq!(
        bearer_header("t"),
        ("Authorization".to_string(), "Bearer t".to_string())
    );
    assert_eq!(
        websocket_header("t"),
        ("Sec-WebSocket-Protocol".to_string(), "bearer.t".to_string())
    );
}

#[test]
fn pages_are_served_with_their_type() {
    assert_eq!(web::asset_path(&web::Page::Index), "index.html");
    assert_eq!(web::asset_path(&web::Page::Claw), "claw.html");
    assert_eq!(web::asset_path(&web::Page::Configs), "configs.html");
    assert_eq!(web::asset_path(&web::Page::Static("app.css".into())), "static/app.css");
    assert_eq!(web::content_type("index.html"), "text/html");
    assert_eq!(web::content_type("static/app.css"), "text/css");
    assert_eq!(web::content_type("static/app.js"), "text/javascript");
    assert_eq!(web::content_type("no_extension"), "application/octet-stream");
    assert_eq!(web::header_type("a\nb".into()), "application/octet-stream");
    assert_eq!(web::header_type("a\tb".into()), "a\tb");
    match web::serve("index.html", Some(vec![1, 2])) {
        web::Served::Found { content_type, data } => {
            assert_eq!(content_type, "text/html");
            assert_eq!(data, vec![1, 2]);
        }
        web::Served::NotFound => panic!("not found"),
    }
    assert!(matches!(web::serve("x", None), web::Served::NotFound));
    assert_eq!(web::not_found(), (404, "not found".to_string()));
    let public = web::public_config(&config().proxy);
    assert!(matches!(public.get("claw_suffix"), Some(Field::Text(s)) if s == "claw.example.com"));
    assert_eq!(public.len(), 2);
}

#[test]
fn shared_configuration_is_the_same() {
    let shared = config().into_shared();
    assert_eq!(Arc::strong_count(&shared), 1);
    assert_eq!(shared.fleet_dir, "/etc/fleet");
}
