use zeroclaw_fleet::manifest::{
    load_overlays, try_load_claw_list, ClawDefaults, ClawOverlay, FleetManifest, ManifestError,
};

fn overlay(src: &str) -> ClawOverlay {
    match ClawOverlay::from_str(src) {
        Ok(o) => o,
        Err(e) => panic!("{}", e.detail()),
    }
}

fn refusal(src: &str) -> ManifestError {
    match ClawOverlay::from_str(src) {
        Ok(_) => panic!("accepted"),
        Err(e) => e,
    }
}

#[test]
fn overlay_parses_fleet_metadata_and_keeps_body() {
    let src = r#"
[_fleet]
name = "alpha"
mcp_scopes = ["search"]

[providers]
fallback = "openai"

[branding]
display_name = "Alpha"
"#;
    let o = overlay(src);
    assert_eq!(o.fleet.name, "alpha");
    assert_eq!(o.fleet.mcp_scopes, vec!["search".to_string()]);
    assert!(o.body.contains_key("providers"));
    assert!(o.body.contains_key("branding"));
    assert!(!o.body.contains_key("_fleet"));
}

#[test]
fn display_name_prefers_branding_field() {
    let with_branding = overlay("\n[_fleet]\nname = \"grocery\"\n[branding]\ndisplay_name = \"H-E-Buddy\"\n");
    assert_eq!(with_branding.display_name(), "H-E-Buddy");
}

#[test]
fn display_name_falls_back_to_kebab_name() {
    let no_branding = overlay("\n[_fleet]\nname = \"alpha\"\n");
    assert_eq!(no_branding.display_name(), "alpha");
}

#[test]
fn display_name_falls_back_when_branding_table_lacks_field() {
    let partial = overlay("\n[_fleet]\nname = \"beta\"\n[branding]\ndefault_color_theme = \"dark\"\n");
    assert_eq!(partial.display_name(), "beta");
}

#[test]
fn overlay_missing_fleet_table_is_rejected() {
    let e = refusal("[providers]\nfallback = \"openai\"\n");
    assert!(matches!(e, ManifestError::MissingFleet));
    assert!(e.message().contains("`[_fleet]`"));
}

#[test]
fn overlay_without_a_name_is_rejected() {
    let e = refusal("[_fleet]\nimage = \"x\"\n");
    assert!(matches!(e, ManifestError::Metadata));
    assert_eq!(e.detail(), "parse `[_fleet]` metadata");
}

#[test]
fn overlay_that_is_no_toml_is_rejected() {
    let e = refusal("[_fleet");
    assert!(matches!(e, ManifestError::Parse(_)));
    assert!(e.detail().starts_with("parse overlay TOML: "));
}

#[test]
fn only_overlays_that_can_be_read_are_loaded() {
    let files = vec![
        ("a".to_string(), Some("[_fleet]\nname = \"a\"\n".to_string())),
        ("b".to_string(), Some("nonsense".to_string())),
        ("c".to_string(), None),
        ("d".to_string(), Some("[_fleet]\nname = \"delta\"\n".to_string())),
    ];
    let loaded = load_overlays(&files);
    assert_eq!(loaded.len(), 2);
    assert_eq!(loaded.get("a").unwrap().fleet.name, "a");
    assert_eq!(loaded.get("d").unwrap().fleet.name, "delta");
    assert!(!loaded.contains_key("b"));
    assert!(!loaded.contains_key("c"));
}

#[test]
fn claw_list_keeps_its_order_and_is_empty_without_a_manifest() {
    let m = FleetManifest {
        defaults: ClawDefaults::default(),
        claws: vec!["beta".to_string(), "alpha".to_string()],
    };
    assert_eq!(try_load_claw_list(Some(m)), vec!["beta".to_string(), "alpha".to_string()]);
    assert!(try_load_claw_list(None).is_empty());
}
