use zeroclaw_fleet::config::BootstrapArgs;
use zeroclaw_fleet::failure::Failure;
use zeroclaw_fleet::keymap::KeyMap;
use zeroclaw_fleet::provision::authentik::{
    urlencoding, AuthentikClient, OAuthProvider, OAuthProviderCreated, ProviderTemplate,
};
use zeroclaw_fleet::provision::bao::BaoClient;
use zeroclaw_fleet::provision::hub_policy::build_block;
use zeroclaw_fleet::provision::litellm::LiteLlmClient;
use zeroclaw_fleet::provision::removal::{
    deprovision, role_event, RemovalAction, RemovalEvent, TenantDeprovisioned,
};
use zeroclaw_fleet::provision::{
    default_budget, default_secret_prefix, provision, Action, Event, Provisioning,
    TenantProvisioned, TenantRequest, TenantState,
};
use zeroclaw_fleet::wire::{Body, Exchange, Field, Method, Request};

fn answered<T>(status: u16, line: &str, text: &str, value: Result<T, String>) -> Exchange<T> {
    Exchange::Answered {
        status,
        status_line: line.to_string(),
        text: text.to_string(),
        value,
    }
}

fn ok<T>(value: T) -> Exchange<T> {
    answered(200, "200 OK", "", Ok(value))
}

fn json(q: &Request) -> &KeyMap<Field> {
    match &q.body {
        Body::Json(m) => m,
        _ => panic!("no JSON"),
    }
}

fn text_field<'a>(q: &'a Request, key: &str) -> &'a str {
    match json(q).get(key) {
        Some(Field::Text(s)) => s.as_str(),
        _ => panic!("{} is no text", key),
    }
}

fn texts_field<'a>(q: &'a Request, key: &str) -> &'a Vec<String> {
    match json(q).get(key) {
        Some(Field::Texts(v)) => v,
        _ => panic!("{} is no list", key),
    }
}

// ---- hub policy ----

#[test]
fn yaml_indentation_matches_two_space_convention() {
    let block = build_block(
        "alpha",
        1100,
        &["heb".to_string(), "kitchenowl".to_string()],
        "services",
    );
    let yaml = block.to_yaml();
    assert!(yaml.starts_with("  alpha:\n"));
    assert!(yaml.contains("    aud: mcp-alpha\n"));
    assert!(yaml.contains("    uid_base: 1100\n"));
    assert!(yaml.contains("      - \"heb_*\""));
    assert!(yaml.contains("      - \"kitchenowl_*\""));
    assert!(yaml.contains("      heb:\n        path: services/heb/alpha\n        field: api_token\n"));
}

#[test]
fn empty_scopes_omits_secrets_section() {
    let block = build_block("alpha", 1100, &[], "services");
    let yaml = block.to_yaml();
    assert!(!yaml.contains("secrets:"));
    assert!(yaml.contains("allowed_tools:\n"));
    assert_eq!(
        yaml,
        "  alpha:\n    aud: mcp-alpha\n    uid_base: 1100\n    allowed_tools:\n"
    );
}

#[test]
fn tools_are_quoted_and_escaped() {
    let block = build_block("a", 1, &["x\"y".to_string()], "s");
    assert!(block.to_yaml().contains("      - \"x\\\"y_*\"\n"));
    assert!(block
        .to_yaml_quoted(&vec!["Q".to_string()])
        .contains("    allowed_tools:\n      - Q\n    secrets:\n"));
}

// ---- clients ----

#[test]
fn urlencoding_round_trips_unreserved_chars() {
    assert_eq!(urlencoding("mcp-interactive"), "mcp-interactive");
    assert_eq!(urlencoding("foo bar"), "foo%20bar");
    assert_eq!(urlencoding("name+slash/"), "name%2Bslash%2F");
}

#[test]
fn urlencoding_tells_every_text_apart() {
    assert_eq!(urlencoding("\u{e9}"), "%C3%A9");
    assert_eq!(urlencoding("A-Z_a.z~09"), "A-Z_a.z~09");
    assert_eq!(urlencoding("%2F"), "%252F");
    assert_ne!(urlencoding("%2F"), urlencoding("/"));
    assert_eq!(urlencoding(""), "");
}

#[test]
fn kv_url_strips_leading_slash_and_uses_mount() {
    let c = BaoClient::new("https://b/", "tok");
    assert_eq!(
        c.kv_url("services/litellm/master"),
        "https://b/v1/secret/data/services/litellm/master"
    );
    assert_eq!(c.kv_url("/services/foo"), "https://b/v1/secret/data/services/foo");
    let c2 = BaoClient::new("https://b", "tok").with_mount("kv");
    assert_eq!(c2.kv_url("services/x"), "https://b/v1/kv/data/services/x");
}

#[test]
fn base_url_trailing_slash_normalized() {
    let c = LiteLlmClient::new("https://chat/", "sk-master");
    assert_eq!(c.base_url, "https://chat");
}

#[test]
fn secret_store_requests_carry_the_token() {
    let c = BaoClient::new("https://b", "tok");
    let get = c.kv_get("p");
    assert!(get.method == Method::Get);
    assert_eq!(get.header, Some(("X-Vault-Token".to_string(), "tok".to_string())));
    let mut fields: KeyMap<String> = KeyMap::new();
    fields.insert("api_key".into(), "k".into());
    let put = c.kv_put("p", fields);
    assert!(put.method == Method::Post);
    match json(&put).get("data") {
        Some(Field::Fields(m)) => assert_eq!(m.get("api_key").map(String::as_str), Some("k")),
        _ => panic!("no data"),
    }
    let delete = c.kv_delete("/p");
    assert!(delete.method == Method::Delete);
    assert_eq!(delete.url, "https://b/v1/secret/metadata/p");
    assert_eq!(c.jwt_role_delete("r").url, "https://b/v1/auth/jwt/role/r");
    let role = c.jwt_role_upsert("r", vec!["aud".into()], vec!["pol".into()], "sub", 3600);
    assert_eq!(text_field(&role, "role_type"), "jwt");
    assert_eq!(text_field(&role, "ttl"), "3600s");
    assert_eq!(text_field(&role, "user_claim"), "sub");
    assert_eq!(texts_field(&role, "bound_audiences"), &vec!["aud".to_string()]);
    assert_eq!(texts_field(&role, "policies"), &vec!["pol".to_string()]);
}

#[test]
fn secret_store_replies_are_told_apart() {
    let c = BaoClient::new("https://b", "tok");
    let mut fields: KeyMap<String> = KeyMap::new();
    fields.insert("api_key".into(), "k".into());
    assert_eq!(c.kv_get_field("p", "api_key", ok(fields)).unwrap(), "k");
    let missing = c.kv_get_field("p", "api_key", ok(KeyMap::new()));
    assert_eq!(missing.unwrap_err().detail(), "bao secret p missing field api_key");
    let refused: Exchange<KeyMap<String>> = answered(403, "403 Forbidden", "no", Err("".into()));
    assert_eq!(
        c.kv_get_reply("p", refused).unwrap_err().detail(),
        "bao GET https://b/v1/secret/data/p -> 403 Forbidden: no"
    );
    let unreadable: Exchange<KeyMap<String>> = answered(200, "200 OK", "x", Err("eof".into()));
    assert_eq!(c.kv_get_reply("p", unreadable).unwrap_err().detail(), "bao GET parse: eof");
    let gone: Exchange<()> = answered(404, "404 Not Found", "", Err("".into()));
    assert!(c.kv_delete_reply("p", gone).is_ok());
    let gone: Exchange<()> = answered(404, "404 Not Found", "", Err("".into()));
    assert_eq!(c.jwt_role_delete_reply("r", gone).unwrap(), false);
    assert_eq!(c.jwt_role_delete_reply("r", ok(())).unwrap(), true);
    let denied: Exchange<()> = answered(403, "403 Forbidden", "no", Err("".into()));
    assert_eq!(
        c.jwt_role_delete_reply("r", denied).unwrap_err().detail(),
        "bao DELETE https://b/v1/auth/jwt/role/r -> 403 Forbidden: no"
    );
    let gone: Exchange<()> = answered(404, "404 Not Found", "nope", Err("".into()));
    assert_eq!(
        c.kv_put_reply("p", gone).unwrap_err().detail(),
        "bao POST https://b/v1/secret/data/p -> 404 Not Found: nope"
    );
    let empty: Exchange<()> = answered(204, "204 No Content", "", Err("no body".into()));
    assert!(c.jwt_role_upsert_reply("r", empty).is_ok());
    let unsent: Exchange<()> = Exchange::Unsent("refused".into());
    assert_eq!(c.kv_delete_reply("p", unsent).unwrap_err().detail(), "bao DELETE metadata: refused");
}

#[test]
fn key_request_names_tenant_models_and_budget() {
    let c = LiteLlmClient::new("https://chat", "sk-master");
    let q = c.generate_key("alpha", &vec!["m1".to_string()], "12.5");
    assert_eq!(q.url, "https://chat/key/generate");
    assert_eq!(q.header, Some(("Authorization".to_string(), "Bearer sk-master".to_string())));
    assert_eq!(text_field(&q, "user_id"), "alpha");
    assert_eq!(text_field(&q, "key_alias"), "claw-alpha");
    assert_eq!(text_field(&q, "budget_duration"), "30d");
    assert_eq!(texts_field(&q, "models"), &vec!["m1".to_string()]);
    assert!(matches!(json(&q).get("max_budget"), Some(Field::Number(n)) if n == "12.5"));
    assert_eq!(c.generate_key_reply(ok("sk-abc123".to_string())).unwrap(), "sk-abc123");
    let refused = c.generate_key_reply(answered(400, "400 Bad Request", "why", Err("".into())));
    assert_eq!(
        refused.unwrap_err().detail(),
        "litellm /key/generate -> 400 Bad Request: why"
    );
}

#[test]
fn provider_is_made_after_the_template_and_bound_to_an_application() {
    let c = AuthentikClient::new("https://auth/", "tok");
    let q = c.fetch_provider_template("mcp interactive");
    assert_eq!(q.url, "https://auth/api/v3/providers/oauth2/?name=mcp%20interactive");
    assert_eq!(q.header, Some(("Authorization".to_string(), "Bearer tok".to_string())));
    let template = ProviderTemplate {
        authorization_flow: Some("flow".into()),
        property_mappings: None,
        signing_key: None,
    };
    let found = c.fetch_provider_template_reply("t", ok(vec![template]));
    let template = match found {
        Ok(t) => t,
        Err(f) => panic!("{}", f.detail()),
    };
    let q = c.create_oauth("alpha", &template);
    assert_eq!(q.url, "https://auth/api/v3/providers/oauth2/");
    assert_eq!(text_field(&q, "name"), "mcp-alpha");
    assert_eq!(text_field(&q, "client_type"), "confidential");
    assert_eq!(text_field(&q, "authorization_flow"), "flow");
    assert!(matches!(json(&q).get("signing_key"), Some(Field::Null)));
    assert!(texts_field(&q, "property_mappings").is_empty());
    assert!(texts_field(&q, "redirect_uris").is_empty());
    let provider = c.create_oauth_reply(ok(OAuthProvider { pk: 7, client_secret: "s".into() }));
    let provider = match provider {
        Ok(p) => p,
        Err(f) => panic!("{}", f.detail()),
    };
    let q = c.bind_application("alpha", &provider);
    assert_eq!(text_field(&q, "slug"), "mcp-alpha");
    assert!(matches!(json(&q).get("provider"), Some(Field::Integer(7))));
    match c.bind_application_reply("alpha", provider, ok(())) {
        Ok(created) => {
            assert_eq!(created.provider_pk, 7);
            assert_eq!(created.client_id, "mcp-alpha");
            assert_eq!(created.application_slug, "mcp-alpha");
            assert_eq!(created.client_secret, "s");
        }
        Err(f) => panic!("{}", f.detail()),
    }
}

#[test]
fn missing_template_is_reported() {
    let c = AuthentikClient::new("https://auth", "tok");
    match c.fetch_provider_template_reply("t", ok(vec![])) {
        Err(f) => assert_eq!(f.detail(), "no authentik provider named t"),
        Ok(_) => panic!("found"),
    }
    let default = ProviderTemplate::default();
    assert!(default.authorization_flow.is_none());
    assert!(default.property_mappings.is_none());
}

#[test]
fn deletion_of_a_provider_tolerates_what_is_gone() {
    let c = AuthentikClient::new("https://auth", "tok");
    assert_eq!(c.delete_oauth("a").url, "https://auth/api/v3/core/applications/mcp-a/");
    let gone: Exchange<()> = answered(404, "404 Not Found", "", Err("".into()));
    match c.delete_oauth_lookup("a", gone) {
        Ok(q) => assert_eq!(q.url, "https://auth/api/v3/providers/oauth2/?name=mcp-a"),
        Err(f) => panic!("{}", f.detail()),
    }
    let denied: Exchange<()> = answered(403, "403 Forbidden", "no", Err("".into()));
    assert!(c.delete_oauth_lookup("a", denied).is_err());
    let found = vec![OAuthProvider { pk: -3, client_secret: "".into() }];
    let deletion = match c.delete_oauth_provider(ok(found)) {
        Ok(Some(q)) => q,
        _ => panic!("nothing to delete"),
    };
    assert_eq!(deletion.url, "https://auth/api/v3/providers/oauth2/-3/");
    assert!(matches!(c.delete_oauth_provider(ok(vec![])), Ok(None)));
    assert!(matches!(
        c.delete_oauth_provider(answered(500, "500", "", Err("".into()))),
        Ok(None)
    ));
    assert!(c.delete_oauth_provider(answered(200, "200 OK", "", Err("eof".into()))).is_err());
    let gone: Exchange<()> = answered(404, "404 Not Found", "", Err("".into()));
    assert!(c.delete_oauth_reply(&deletion, gone).is_ok());
    let broken: Exchange<()> = answered(500, "500 Oops", "x", Err("".into()));
    assert_eq!(
        c.delete_oauth_reply(&deletion, broken).unwrap_err().detail(),
        "authentik DELETE provider https://auth/api/v3/providers/oauth2/-3/ -> 500 Oops: x"
    );
}

// ---- provisioning ----

fn request() -> TenantRequest {
    TenantRequest {
        name: "alpha".into(),
        display_name: None,
        mcp_scopes: vec!["heb".into(), "owl".into()],
        monthly_budget_usd: default_budget(),
        models: vec![],
        uid_base: 1100,
        secret_prefix: default_secret_prefix(),
    }
}

/// Carries a run out against services that succeed, up to `limit` actions. The
/// store holds what is put into it, and refuses to read anything else. Gives what
/// was done, the last state that was saved, and the result.
fn carry_out(
    mut run: Provisioning,
    first: Action,
    limit: usize,
    store: &mut Vec<(String, String)>,
) -> (Vec<String>, Option<TenantState>, Option<Result<TenantProvisioned, Failure>>) {
    let mut log: Vec<String> = Vec::new();
    let mut saved: Option<TenantState> = None;
    let mut action = first;
    loop {
        if log.len() == limit {
            return (log, saved, None);
        }
        let event = match action {
            Action::ReadField { path, field } => {
                log.push(format!("read {} {}", path, field));
                match store.iter().rev().find(|s| s.0 == path) {
                    Some(s) => Event::Text(s.1.clone()),
                    None => Event::Failed(Failure::new(format!("nothing at {}", path))),
                }
            }
            Action::MintKey { tenant, monthly_budget_usd, .. } => {
                log.push(format!("mint {} {}", tenant, monthly_budget_usd));
                Event::Text("sk-key".into())
            }
            Action::PutSecret { path, fields } => {
                log.push(format!("put {} {}", path, fields.key_at(0)));
                store.push((path, fields.value_at(0).clone()));
                Event::Done
            }
            Action::FetchTemplate { name } => {
                log.push(format!("template {}", name));
                Event::Template(ProviderTemplate::default())
            }
            Action::CreateOauth { tenant, .. } => {
                log.push(format!("create {}", tenant));
                Event::Created(OAuthProviderCreated {
                    provider_pk: 42,
                    application_slug: "mcp-alpha".into(),
                    client_id: "mcp-alpha".into(),
                    client_secret: "s".into(),
                })
            }
            Action::UpsertRole { role, bound_audiences, ttl_seconds, .. } => {
                log.push(format!("role {} {} {}", role, bound_audiences[0], ttl_seconds));
                Event::Done
            }
            Action::DrawBearer => {
                log.push("draw".into());
                Event::Text("zc_fresh".into())
            }
            Action::ReadBearer { path } => {
                log.push(format!("bearer {}", path));
                Event::Text("zc_kept\n".into())
            }
            Action::WriteBearer { path, bearer } => {
                log.push(format!("write {} {}", path, bearer));
                Event::Done
            }
            Action::SaveState { path, state } => {
                log.push(format!("save {}", path));
                saved = Some(state);
                Event::Done
            }
            Action::Finish(out) => return (log, saved, Some(Ok(out))),
            Action::GiveUp(f) => return (log, saved, Some(Err(f))),
        };
        action = run.step(event);
    }
}

#[test]
fn fresh_tenant_goes_through_every_step() {
    let (run, first) = provision(request(), TenantState::default(), "/s", "tmpl");
    let mut store = Vec::new();
    let (log, saved, out) = carry_out(run, first, 100, &mut store);
    assert_eq!(store[0], ("services/alpha/litellm".to_string(), "sk-key".to_string()));
    let save = "save /s/tenants/alpha/state.json";
    assert_eq!(
        log,
        vec![
            "mint alpha 100.0",
            save,
            "put services/alpha/litellm api_key",
            save,
            "template tmpl",
            "create alpha",
            "put services/alpha/papehouse client_secret",
            save,
            "role mcp-heb-alpha mcp-alpha 3600",
            save,
            "role mcp-owl-alpha mcp-alpha 3600",
            save,
            "draw",
            "write /s/tenants/alpha/bearer.txt zc_fresh",
            save,
        ]
    );
    let saved = saved.unwrap();
    assert!(saved.litellm_key_minted && saved.litellm_secret_written);
    assert_eq!(saved.authentik_provider_created, Some(42));
    assert!(saved.authentik_secret_written && saved.orchestrator_bearer_generated);
    assert_eq!(saved.jwt_roles_created, vec!["mcp-heb-alpha", "mcp-owl-alpha"]);
    let out = match out {
        Some(Ok(out)) => out,
        _ => panic!("not provisioned"),
    };
    assert_eq!(out.name, "alpha");
    assert_eq!(out.provider_pk, 42);
    assert_eq!(out.paired_bearer, "zc_fresh");
    assert!(out.hub_policy_snippet.starts_with("  alpha:\n"));
    assert_eq!(
        out.steps_completed,
        vec![
            "litellm:minted",
            "bao:litellm_written",
            "authentik:created",
            "bao:auth_written",
            "jwt:created:mcp-heb-alpha",
            "jwt:created:mcp-owl-alpha",
            "hub_policy:snippet_generated",
            "bearer:generated",
        ]
    );
}

#[test]
fn complete_tenant_is_only_read() {
    let (run, first) = provision(request(), TenantState::default(), "/s", "tmpl");
    let mut store = Vec::new();
    let (_, saved, _) = carry_out(run, first, 100, &mut store);
    let (run, first) = provision(request(), saved.unwrap(), "/s", "tmpl");
    let (log, saved, out) = carry_out(run, first, 100, &mut store);
    assert_eq!(
        log,
        vec![
            "read services/alpha/litellm api_key",
            "bearer /s/tenants/alpha/bearer.txt",
        ]
    );
    assert!(saved.is_none());
    let out = match out {
        Some(Ok(out)) => out,
        _ => panic!("not provisioned"),
    };
    assert_eq!(out.paired_bearer, "zc_kept");
    assert_eq!(out.provider_pk, 42);
    assert_eq!(
        out.steps_completed,
        vec![
            "litellm:already_minted",
            "bao:litellm_already_written",
            "authentik:already_created",
            "jwt:already_created:mcp-heb-alpha",
            "jwt:already_created:mcp-owl-alpha",
            "hub_policy:snippet_generated",
        ]
    );
}

#[test]
fn retry_takes_up_where_the_saved_state_ends() {
    for cut in 0..15 {
        let (run, first) = provision(request(), TenantState::default(), "/s", "tmpl");
        let mut store = Vec::new();
        let (before, saved, _) = carry_out(run, first, cut, &mut store);
        let state = TenantState::load(saved);
        let stored = state.litellm_secret_written;
        let (run, first) = provision(request(), state, "/s", "tmpl");
        let (after, saved, out) = carry_out(run, first, 100, &mut store);
        assert!(matches!(out, Some(Ok(_))), "after {}", cut);
        assert!(store.iter().any(|s| s.0 == "services/alpha/litellm" && s.1 == "sk-key"));
        for done in before.windows(2) {
            let lost = done[0].starts_with("mint") && !stored;
            if done[1].starts_with("save") && !lost {
                assert!(!after.contains(&done[0]), "{} after {}", done[0], cut);
            }
        }
        if let Some(s) = saved {
            assert!(s.orchestrator_bearer_generated);
            assert_eq!(s.jwt_roles_created.len(), 2);
        }
    }
}

#[test]
fn retry_mints_and_stores_a_key_that_was_never_stored() {
    let (mut run, _) = provision(request(), TenantState::default(), "/s", "tmpl");
    let state = match run.step(Event::Text("sk-lost".into())) {
        Action::SaveState { state, .. } => state,
        _ => panic!("not saved"),
    };
    assert!(matches!(run.step(Event::Done), Action::PutSecret { .. }));
    assert!(matches!(run.step(why()), Action::GiveUp(_)));
    assert!(state.litellm_key_minted && !state.litellm_secret_written);
    let (run, first) = provision(request(), state, "/s", "tmpl");
    let mut store = Vec::new();
    let (log, saved, out) = carry_out(run, first, 100, &mut store);
    assert_eq!(log[0], "mint alpha 100.0");
    assert_eq!(log[2], "put services/alpha/litellm api_key");
    assert_eq!(store[0], ("services/alpha/litellm".to_string(), "sk-key".to_string()));
    assert!(saved.unwrap().litellm_secret_written);
    match out {
        Some(Ok(out)) => assert_eq!(out.steps_completed[0], "litellm:minted"),
        _ => panic!("not provisioned"),
    }
}

fn failing(events: Vec<Event>) -> String {
    let (mut run, mut action) = provision(request(), TenantState::default(), "/s", "tmpl");
    for e in events {
        action = run.step(e);
    }
    match action {
        Action::GiveUp(f) => f.detail(),
        _ => panic!("went on"),
    }
}

fn why() -> Event {
    Event::Failed(Failure::new("why".into()))
}

#[test]
fn failures_are_reported_under_their_task() {
    assert_eq!(failing(vec![why()]), "litellm key mint: why");
    assert_eq!(failing(vec![Event::Text("k".into()), why()]), "why");
    let text = || Event::Text("k".into());
    assert_eq!(failing(vec![text(), Event::Done, why()]), "bao kv put litellm: why");
    let to_template = || vec![text(), Event::Done, Event::Done, Event::Done];
    let mut events = to_template();
    events.push(why());
    assert_eq!(failing(events), "fetch Authentik template provider tmpl: why");
    let mut events = to_template();
    events.push(Event::Template(ProviderTemplate::default()));
    events.push(why());
    assert_eq!(failing(events), "why");
    let created = || {
        Event::Created(OAuthProviderCreated {
            provider_pk: 1,
            application_slug: "".into(),
            client_id: "".into(),
            client_secret: "".into(),
        })
    };
    let mut events = to_template();
    events.push(Event::Template(ProviderTemplate::default()));
    events.push(created());
    events.push(why());
    assert_eq!(failing(events), "bao kv put auth: why");
    let mut events = to_template();
    events.push(Event::Template(ProviderTemplate::default()));
    events.push(created());
    events.push(Event::Done);
    events.push(Event::Done);
    events.push(why());
    assert_eq!(failing(events), "bao jwt role mcp-heb-alpha: why");
}

#[test]
fn tenant_state_missing_file_yields_default() {
    let s = TenantState::load(None);
    assert!(!s.litellm_key_minted);
    assert!(s.jwt_roles_created.is_empty());
}

#[test]
fn state_is_kept_under_the_tenant() {
    assert_eq!(TenantState::path("/s", "ghost"), "/s/tenants/ghost/state.json");
}

// ---- removal ----

fn remove(answer: fn(&RemovalAction) -> RemovalEvent) -> (Vec<String>, TenantDeprovisioned) {
    let scopes = vec!["heb".to_string(), "owl".to_string()];
    let (mut run, mut action) = deprovision("alpha", &scopes, "services", "/s", "snippet".into());
    let mut log: Vec<String> = Vec::new();
    loop {
        let event = answer(&action);
        match action {
            RemovalAction::ReadField { path, field } => log.push(format!("read {} {}", path, field)),
            RemovalAction::DeleteKey { key } => log.push(format!("key {}", key)),
            RemovalAction::DeleteOauth { tenant } => log.push(format!("oauth {}", tenant)),
            RemovalAction::DeleteSecret { path } => log.push(format!("secret {}", path)),
            RemovalAction::DeleteRole { role } => log.push(format!("role {}", role)),
            RemovalAction::WipeState { dir } => log.push(format!("wipe {}", dir)),
            RemovalAction::Finish(out) => return (log, out),
        }
        action = run.step(event);
    }
}

#[test]
fn removal_undoes_every_step() {
    let (log, out) = remove(|a| match a {
        RemovalAction::ReadField { .. } => RemovalEvent::Text("sk".into()),
        _ => RemovalEvent::Done,
    });
    assert_eq!(
        log,
        vec![
            "read services/alpha/litellm api_key",
            "key sk",
            "oauth alpha",
            "secret services/alpha/litellm",
            "secret services/alpha/papehouse",
            "role mcp-heb-alpha",
            "role mcp-owl-alpha",
            "wipe /s/tenants/alpha",
        ]
    );
    assert!(out.warnings.is_empty());
    assert_eq!(out.steps_completed.len(), 7);
    assert_eq!(out.steps_completed[0], "litellm:deleted");
    assert_eq!(out.steps_completed[6], "state:wiped");
    assert_eq!(out.name, "alpha");
    assert_eq!(out.hub_policy_removal_snippet, "snippet");
    assert_eq!(
        out.fleet_manifest_removal_snippet,
        "# Remove `- alpha` from fleet.yaml `claws:` list, and delete claws/alpha.toml.\n# Then commit + push.\n"
    );
}

#[test]
fn removal_goes_on_whatever_fails() {
    let (log, out) = remove(|_| RemovalEvent::Failed(Failure::new("no".into())));
    assert_eq!(log.len(), 7);
    assert!(out.steps_completed.is_empty());
    assert_eq!(
        out.warnings,
        vec![
            "could not read litellm key for delete: no",
            "authentik delete_oauth: no",
            "bao kv_delete services/alpha/litellm: no",
            "bao kv_delete services/alpha/papehouse: no",
            "jwt_role_delete mcp-heb-alpha: no",
            "jwt_role_delete mcp-owl-alpha: no",
            "remove state dir /s/tenants/alpha: no",
        ]
    );
}

#[test]
fn removal_notes_what_was_not_there() {
    let (_, out) = remove(|a| match a {
        RemovalAction::ReadField { .. } => RemovalEvent::Text("sk".into()),
        RemovalAction::DeleteKey { .. } => RemovalEvent::Failed(Failure::new("gone".into())),
        RemovalAction::WipeState { .. } => RemovalEvent::Absent,
        _ => RemovalEvent::Done,
    });
    assert_eq!(out.warnings, vec!["litellm delete_key: gone"]);
    assert_eq!(out.steps_completed.last().unwrap(), "state:already_absent");
}

#[test]
fn removal_warns_of_a_role_that_is_already_gone() {
    let (log, out) = remove(|a| match a {
        RemovalAction::ReadField { .. } => RemovalEvent::Text("sk".into()),
        RemovalAction::DeleteRole { role } => {
            let status = if role == "mcp-heb-alpha" { 404 } else { 204 };
            let c = BaoClient::new("https://b", "tok");
            let ex: Exchange<()> = answered(status, "", "", Err("".into()));
            role_event(c.jwt_role_delete_reply(role, ex))
        }
        _ => RemovalEvent::Done,
    });
    assert_eq!(log.len(), 8);
    assert_eq!(out.warnings, vec!["jwt_role_delete mcp-heb-alpha: no such role"]);
    assert!(!out.steps_completed.iter().any(|s| s == "jwt:deleted:mcp-heb-alpha"));
    assert!(out.steps_completed.iter().any(|s| s == "jwt:deleted:mcp-owl-alpha"));
}

// ---- set-up ----

fn args() -> BootstrapArgs {
    BootstrapArgs {
        bao_url: Some("https://b/".into()),
        bao_token: Some("tok".into()),
        bao_mount: "kv".into(),
        bao_litellm_key_path: "services/litellm/master".into(),
        litellm_url: Some("https://chat/".into()),
        bao_authentik_token_path: "services/authentik/admin_token".into(),
        authentik_url: Some("https://auth/".into()),
        authentik_template: "tmpl".into(),
    }
}

#[test]
fn provisioning_is_set_up_only_where_everything_is_given() {
    let a = args();
    let bao = a.bao_client().unwrap();
    assert_eq!(bao.kv_url("x"), "https://b/v1/kv/data/x");
    let deps = a.deps(bao, Ok("k".into()), Ok("t".into()), "/s").unwrap();
    assert_eq!(deps.litellm.master_key, "k");
    assert_eq!(deps.litellm.base_url, "https://chat");
    assert_eq!(deps.authentik.token, "t");
    assert_eq!(deps.authentik_template_name, "tmpl");
    for missing in 0..4 {
        let mut a = args();
        match missing {
            0 => a.bao_url = None,
            1 => a.bao_token = None,
            2 => a.litellm_url = None,
            _ => a.authentik_url = None,
        }
        assert!(a.bao_client().is_none());
    }
    let bao = args().bao_client().unwrap();
    let refused = Err(Failure::new("no".into()));
    assert!(args().deps(bao, Ok("k".into()), refused, "/s").is_none());
}
