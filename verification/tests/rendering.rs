use zeroclaw_fleet::bearer_rotation;
use zeroclaw_fleet::document;
use zeroclaw_fleet::document::{Item, Table};
use zeroclaw_fleet::keymap::KeyMap;
use zeroclaw_fleet::manifest::ClawOverlay;
use zeroclaw_fleet::render::{
    configure, deep_merge, hash_bearer, render, set_dotted_path, try_render, Injections,
    RenderError,
};

fn sample_inj() -> Injections {
    Injections {
        orchestrator_bearer: "zc_test_bearer".into(),
        mcp_bearer_placeholder: "__MCP_BEARER__".into(),
        mcp_server_url: "https://hub.example.com/mcp".into(),
        mcp_server_name: "hub".into(),
        channel_secrets: vec![],
    }
}

fn overlay(src: &str) -> ClawOverlay {
    match ClawOverlay::from_str(src) {
        Ok(o) => o,
        Err(e) => panic!("{}", e.detail()),
    }
}

fn table(src: &str) -> Table {
    document::parse_document(src).unwrap()
}

fn at<'a>(t: &'a Table, path: &[&str]) -> &'a Item {
    let v = t.get(path[0]).unwrap();
    if path.len() == 1 {
        v
    } else {
        match v {
            Item::Table(inner) => at(inner, &path[1..]),
            _ => panic!("{} is no table", path[0]),
        }
    }
}

fn text_at<'a>(t: &'a Table, path: &[&str]) -> &'a str {
    match at(t, path) {
        Item::Text(s) => s.as_str(),
        other => panic!("{:?} is no text", other),
    }
}

fn integer_at(t: &Table, path: &[&str]) -> i64 {
    match at(t, path) {
        Item::Integer(i) => *i,
        other => panic!("{:?} is no integer", other),
    }
}

fn array_at<'a>(t: &'a Table, path: &[&str]) -> &'a Vec<Item> {
    match at(t, path) {
        Item::Array(a) => a,
        other => panic!("{:?} is no array", other),
    }
}

#[test]
fn set_dotted_path_creates_intermediates() {
    let mut t: Table = KeyMap::new();
    set_dotted_path(&mut t, "a.b.c", Item::Text("hello".into()));
    assert_eq!(text_at(&t, &["a", "b", "c"]), "hello");
}

#[test]
fn set_dotted_path_overwrites_existing_leaf() {
    let mut t = table("[a.b]\nc = \"old\"\nother = 1\n");
    set_dotted_path(&mut t, "a.b.c", Item::Text("new".into()));
    assert_eq!(text_at(&t, &["a", "b", "c"]), "new");
    assert_eq!(integer_at(&t, &["a", "b", "other"]), 1);
}

#[test]
fn set_dotted_path_replaces_what_is_no_table_on_the_way() {
    let mut t = table("a = 1\nz = 2\n");
    set_dotted_path(&mut t, "a.b", Item::Boolean(true));
    assert!(matches!(at(&t, &["a", "b"]), Item::Boolean(true)));
    assert_eq!(integer_at(&t, &["z"]), 2);
}

#[test]
fn render_injects_channel_secrets_at_dotted_paths() {
    let base = r#"
[autonomy]
level = "supervised"

[channels.telegram]
enabled = true
allowed_users = ["123"]
"#;
    let overlay = overlay("\n[_fleet]\nname = \"alpha\"\n");
    let mut inj = sample_inj();
    inj.channel_secrets.push((
        "channels.telegram.bot_token".into(),
        "telegram-token-from-bao".into(),
    ));
    let rendered = render(base, &overlay, &inj).unwrap();
    let parsed: toml::Table = toml::from_str(&rendered).unwrap();
    assert_eq!(
        parsed["channels"]["telegram"]["bot_token"].as_str().unwrap(),
        "telegram-token-from-bao"
    );
    assert_eq!(parsed["channels"]["telegram"]["enabled"].as_bool().unwrap(), true);
}

#[test]
fn deep_merge_replaces_scalars_and_arrays() {
    let mut base = table("\ngreeting = \"hello\"\ntags = [\"a\", \"b\"]\n");
    let overlay = table("\ngreeting = \"hi\"\ntags = [\"c\"]\n");
    deep_merge(&mut base, overlay);
    assert_eq!(text_at(&base, &["greeting"]), "hi");
    assert_eq!(array_at(&base, &["tags"]).len(), 1);
}

#[test]
fn deep_merge_recurses_into_tables() {
    let mut base = table("\n[autonomy]\nlevel = \"supervised\"\nmax_actions_per_hour = 20\n");
    let overlay = table("\n[autonomy]\nmax_actions_per_hour = 40\n");
    deep_merge(&mut base, overlay);
    assert_eq!(text_at(&base, &["autonomy", "level"]), "supervised");
    assert_eq!(integer_at(&base, &["autonomy", "max_actions_per_hour"]), 40);
}

#[test]
fn deep_merge_twice_is_deep_merge_once() {
    let over = "x = 1\n[a]\nb = [1, 2]\n[a.c]\nd = \"e\"\n";
    let mut once = table("x = 0\n[a]\nb = 3\nkept = true\n");
    deep_merge(&mut once, table(over));
    let mut twice = document::duplicate_table(&once);
    deep_merge(&mut twice, table(over));
    assert_eq!(
        document::write_document(&once).unwrap(),
        document::write_document(&twice).unwrap()
    );
    assert!(matches!(at(&twice, &["a", "kept"]), Item::Boolean(true)));
}

#[test]
fn deep_merge_of_nothing_changes_nothing() {
    let mut base = table("x = 1\n[a]\nb = 2\n");
    deep_merge(&mut base, KeyMap::new());
    assert_eq!(integer_at(&base, &["x"]), 1);
    assert_eq!(integer_at(&base, &["a", "b"]), 2);
}

#[test]
fn render_injects_gateway_fields_after_merge() {
    let base = r#"
[autonomy]
level = "supervised"

[gateway]
port = 42617
host = "0.0.0.0"
require_pairing = true
paired_tokens = ["overridden-by-renderer"]
"#;
    let overlay = overlay("\n[_fleet]\nname = \"alpha\"\n");

    let rendered = render(base, &overlay, &sample_inj()).unwrap();
    let parsed: toml::Table = toml::from_str(&rendered).unwrap();

    let tokens = parsed["gateway"]["paired_tokens"].as_array().unwrap();
    assert_eq!(tokens.len(), 1);
    assert_eq!(tokens[0].as_str().unwrap().len(), 64);
    assert_eq!(parsed["gateway"]["trust_forwarded_headers"].as_bool().unwrap(), true);
    assert_eq!(
        parsed["gateway"]["web_dist_dir"].as_str().unwrap(),
        "/usr/share/zeroclawlabs/web/dist"
    );

    assert_eq!(parsed["gateway"]["port"].as_integer().unwrap(), 42617);
    assert_eq!(parsed["gateway"]["require_pairing"].as_bool().unwrap(), true);
}

#[test]
fn render_emits_mcp_server_block_with_bearer_placeholder() {
    let base = "\n[autonomy]\nlevel = \"supervised\"\n";
    let overlay = overlay("\n[_fleet]\nname = \"alpha\"\n");

    let rendered = render(base, &overlay, &sample_inj()).unwrap();
    let parsed: toml::Table = toml::from_str(&rendered).unwrap();

    let mcp = &parsed["mcp"];
    assert_eq!(mcp["enabled"].as_bool().unwrap(), true);
    assert_eq!(mcp["deferred_loading"].as_bool().unwrap(), false);
    let server = &mcp["servers"][0];
    assert_eq!(server["name"].as_str().unwrap(), "hub");
    assert_eq!(server["url"].as_str().unwrap(), "https://hub.example.com/mcp");
    assert_eq!(server["transport"].as_str().unwrap(), "http");
    assert_eq!(server["tool_timeout_secs"].as_integer().unwrap(), 60);
    assert_eq!(
        server["headers"]["Authorization"].as_str().unwrap(),
        "Bearer __MCP_BEARER__"
    );
}

#[test]
fn render_lets_overlay_drive_per_claw_branding_and_autonomy() {
    let base = "\n[autonomy]\nlevel = \"supervised\"\nauto_approve = []\n";
    let overlay = overlay(
        r#"
[_fleet]
name = "alpha"

[branding]
display_name = "Alpha"
default_color_theme = "dark"

[autonomy]
auto_approve = ["one", "two", "three"]
"#,
    );

    let rendered = render(base, &overlay, &sample_inj()).unwrap();
    let parsed: toml::Table = toml::from_str(&rendered).unwrap();

    assert_eq!(parsed["branding"]["display_name"].as_str().unwrap(), "Alpha");
    assert_eq!(parsed["autonomy"]["auto_approve"].as_array().unwrap().len(), 3);
    assert_eq!(parsed["autonomy"]["level"].as_str().unwrap(), "supervised");
}

#[test]
fn overlay_cannot_shadow_what_the_orchestrator_sets() {
    let overlay = overlay(
        r#"
[_fleet]
name = "alpha"
[gateway]
paired_tokens = ["mine"]
trust_forwarded_headers = false
port = 1
[mcp]
enabled = false
servers = []
"#,
    );
    let out = configure(table("[gateway]\nport = 2\n"), &overlay.body, &sample_inj());
    let tokens = array_at(&out, &["gateway", "paired_tokens"]);
    assert_eq!(tokens.len(), 1);
    assert!(matches!(&tokens[0], Item::Text(s) if *s == hash_bearer("zc_test_bearer")));
    assert!(matches!(at(&out, &["gateway", "trust_forwarded_headers"]), Item::Boolean(true)));
    assert_eq!(integer_at(&out, &["gateway", "port"]), 1);
    assert!(matches!(at(&out, &["mcp", "enabled"]), Item::Boolean(true)));
    assert_eq!(array_at(&out, &["mcp", "servers"]).len(), 1);
}

#[test]
fn rendered_text_is_read_back_as_the_configured_document() {
    let overlay = overlay("[_fleet]\nname = \"alpha\"\n[a]\nx = 1.5\nwhen = 1979-05-27T07:32:00Z\n");
    let base = "list = [1, 2, { k = \"v\" }]\n[a]\ny = true\n";
    let rendered = render(base, &overlay, &sample_inj()).unwrap();
    let again = document::parse_document(&rendered).unwrap();
    let direct = configure(table(base), &overlay.body, &sample_inj());
    assert_eq!(
        document::write_document(&again).unwrap(),
        document::write_document(&direct).unwrap()
    );
    let parsed: toml::Table = toml::from_str(&rendered).unwrap();
    assert_eq!(parsed["a"]["x"].as_float().unwrap(), 1.5);
    assert_eq!(parsed["a"]["when"].as_datetime().unwrap().to_string(), "1979-05-27T07:32:00Z");
    assert_eq!(parsed["list"][2]["k"].as_str().unwrap(), "v");
}

/// Every text of up to `n` of these characters.
fn awkward(n: usize) -> Vec<String> {
    let chars = ['\'', '"', '\\', '\n', '\r', '\t', '\u{1}', '\u{7f}', 'é', '#', ' '];
    let mut all = vec![String::new()];
    let mut last = all.clone();
    for _ in 0..n {
        let mut next: Vec<String> = Vec::new();
        for s in &last {
            for c in chars {
                let mut t = s.clone();
                t.push(c);
                next.push(t);
            }
        }
        all.extend(next.iter().cloned());
        last = next;
    }
    all
}

#[test]
fn awkward_texts_and_keys_are_read_back() {
    let texts = awkward(4);
    let keys = awkward(2);
    let mut keyed: Table = KeyMap::new();
    for k in &keys {
        keyed.insert(k.clone(), Item::Text(k.clone()));
    }
    let mut nested: Table = KeyMap::new();
    for k in &keys {
        let mut inner: Table = KeyMap::new();
        inner.insert("x".into(), Item::Integer(1));
        nested.insert(k.clone(), Item::Table(inner));
    }
    let mut t: Table = KeyMap::new();
    t.insert("texts".into(), Item::Array(texts.iter().cloned().map(Item::Text).collect()));
    t.insert("keyed".into(), Item::Table(keyed));
    t.insert("nested".into(), Item::Table(nested));
    let again = document::parse_document(&document::write_document(&t).unwrap()).unwrap();
    match again.get("texts") {
        Some(Item::Array(a)) => {
            assert_eq!(a.len(), texts.len());
            for (got, want) in a.iter().zip(&texts) {
                assert!(matches!(got, Item::Text(s) if s == want), "{:?}", want);
            }
        }
        _ => panic!("no array"),
    }
    match (again.get("keyed"), again.get("nested")) {
        (Some(Item::Table(keyed)), Some(Item::Table(nested))) => {
            assert_eq!(keyed.len(), keys.len());
            assert_eq!(nested.len(), keys.len());
            for k in &keys {
                assert!(matches!(keyed.get(k), Some(Item::Text(s)) if s == k), "{:?}", k);
                assert!(matches!(nested.get(k), Some(Item::Table(_))), "{:?}", k);
            }
        }
        _ => panic!("no tables"),
    }
}

/// The value within `n` tables, arrays or both in turn.
fn nested_in(kind: usize, n: usize) -> Item {
    let mut v = Item::Text("deep".into());
    for i in 0..n {
        v = if kind == 0 || (kind == 2 && i % 2 == 0) || (kind == 3 && i % 2 == 1) {
            let mut t: Table = KeyMap::new();
            t.insert("$k".into(), v);
            Item::Table(t)
        } else {
            Item::Array(vec![v])
        };
    }
    v
}

#[test]
fn deeply_nested_documents_are_read_back() {
    for kind in 0..4 {
        let mut t: Table = KeyMap::new();
        t.insert("$x".into(), nested_in(kind, 79));
        let again = document::parse_document(&document::write_document(&t).unwrap()).unwrap();
        assert_eq!(format!("{:?}", again), format!("{:?}", t), "{}", kind);
    }
    for kind in 0..2 {
        let mut t: Table = KeyMap::new();
        let empty = if kind == 0 { Item::Table(KeyMap::new()) } else { Item::Array(vec![]) };
        let mut v = empty;
        for _ in 0..78 {
            let mut inner: Table = KeyMap::new();
            inner.insert("$__serde_spanned_private_start".into(), v);
            v = if kind == 0 {
                Item::Table(inner)
            } else {
                Item::Array(vec![inner.remove("$__serde_spanned_private_start").unwrap()])
            };
        }
        t.insert("x".into(), v);
        let again = document::parse_document(&document::write_document(&t).unwrap()).unwrap();
        assert_eq!(format!("{:?}", again), format!("{:?}", t), "{}", kind);
    }
}

#[test]
fn texts_that_the_writer_cannot_count_have_no_rendering() {
    let overlay = overlay("[_fleet]\nname = \"alpha\"\n");
    for quote in ["'", "\""] {
        let mut inj = sample_inj();
        inj.channel_secrets = vec![("a.b".into(), format!("x{}y", quote.repeat(255)))];
        let rendered = match try_render("", &overlay, &inj) {
            Some(Ok(s)) => s,
            _ => panic!("not rendered"),
        };
        let parsed: toml::Table = toml::from_str(&rendered).unwrap();
        assert_eq!(parsed["a"]["b"].as_str().unwrap(), format!("x{}y", quote.repeat(255)));
        inj.channel_secrets = vec![("a.b".into(), format!("x{}y", quote.repeat(256)))];
        assert!(try_render("", &overlay, &inj).is_none());
        inj.channel_secrets = vec![("a.b".into(), format!("{}-{}", quote.repeat(200), quote.repeat(200)))];
        assert!(matches!(try_render("", &overlay, &inj), Some(Ok(_))));
    }
    let mut t: Table = KeyMap::new();
    t.insert("'".repeat(300), Item::Array(vec![Item::Text("'".repeat(255)), Item::Boolean(true)]));
    assert!(document::is_tame(&t));
    t.insert("z".into(), Item::Array(vec![Item::Text("\"".repeat(256))]));
    assert!(!document::is_tame(&t));
}

#[test]
fn rendered_text_holds_the_placeholder_as_its_bearer() {
    let overlay = overlay("[_fleet]\nname = \"alpha\"\n");
    let rendered = render("", &overlay, &sample_inj()).unwrap();
    assert_eq!(
        bearer_rotation::current_bearer(&rendered).as_deref(),
        Some("__MCP_BEARER__")
    );
    let rotated = bearer_rotation::rotated(&rendered, "__MCP_BEARER__", "new.jwt.value");
    assert_eq!(
        bearer_rotation::current_bearer(&rotated).as_deref(),
        Some("new.jwt.value")
    );
}

#[test]
fn base_that_is_no_toml_is_refused() {
    let overlay = overlay("[_fleet]\nname = \"alpha\"\n");
    match render("= nothing", &overlay, &sample_inj()) {
        Err(e) => {
            assert!(matches!(e, RenderError::Parse(_)));
            assert!(e.detail().starts_with("parse base.toml: "));
        }
        Ok(_) => panic!("rendered"),
    }
    let e = RenderError::Serialize("why".into());
    assert_eq!(e.detail(), "serialize merged config: why");
}

#[test]
fn section_that_is_no_table_has_no_rendering() {
    let overlay = overlay("[_fleet]\nname = \"alpha\"\n");
    assert!(try_render("gateway = 1\n", &overlay, &sample_inj()).is_none());
    assert!(try_render("mcp = \"x\"\n", &overlay, &sample_inj()).is_none());
    let some = try_render("[gateway]\nport = 1\n", &overlay, &sample_inj());
    assert!(matches!(some, Some(Ok(_))));
    assert!(matches!(
        try_render("= nothing", &overlay, &sample_inj()),
        Some(Err(RenderError::Parse(_)))
    ));
}

#[test]
fn hash_bearer_is_deterministic_64_hex_chars() {
    let h1 = hash_bearer("zc_alpha");
    let h2 = hash_bearer("zc_alpha");
    let h3 = hash_bearer("zc_beta");
    assert_eq!(h1, h2);
    assert_ne!(h1, h3);
    assert_eq!(h1.len(), 64);
    assert!(h1.chars().all(|c| c.is_ascii_hexdigit()));
    assert_eq!(h1, "1fe7db7d2e5f80ba99aefd4568cedee08299b0cd1d585396995e59fb438a639c");
}
