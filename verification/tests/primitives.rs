use zeroclaw_fleet::failure::Failure;
use zeroclaw_fleet::keymap::KeyMap;
use zeroclaw_fleet::paths;
use zeroclaw_fleet::text;

#[test]
fn key_map_keeps_its_keys_in_order() {
    let mut m: KeyMap<u32> = KeyMap::new();
    m.insert("b".into(), 2);
    m.insert("a".into(), 1);
    m.insert("c".into(), 3);
    m.insert("b".into(), 20);
    assert_eq!(m.len(), 3);
    let keys: Vec<&str> = (0..3).map(|i| m.key_at(i)).collect();
    assert_eq!(keys, vec!["a", "b", "c"]);
    assert_eq!(m.get("b"), Some(&20));
    assert_eq!(m.remove("a"), Some(1));
    assert_eq!(m.remove("a"), None);
    assert_eq!(m.into_entries(), vec![("b".to_string(), 20), ("c".to_string(), 3)]);
}

#[test]
fn key_map_orders_keys_as_strings_are_ordered() {
    let mut words = vec!["z", "", "\u{e9}", "a", "ab", "B", "\u{10000}", "\u{ffff}"];
    let items: Vec<(String, ())> = words.iter().map(|w| (w.to_string(), ())).collect();
    let m = KeyMap::from_items(items);
    words.sort();
    let keys: Vec<&str> = (0..words.len()).map(|i| m.key_at(i)).collect();
    assert_eq!(keys, words);
}

#[test]
fn numbers_are_written_as_std_writes_them() {
    for n in [0u64, 9, 10, 12345, u64::MAX] {
        assert_eq!(text::decimal(n), n.to_string());
    }
    for n in [0i64, -1, 42, i64::MIN, i64::MAX] {
        assert_eq!(text::integer(n), n.to_string());
    }
    assert_eq!(text::padded(7, 3), "007");
    assert_eq!(text::padded(1234, 3), "1234");
}

#[test]
fn texts_are_trimmed_split_and_replaced_as_std_does() {
    for s in ["", "  a b ", "\u{a0}x\u{3000}", "\u{200b}y", "\t\n\r z\u{85}", "a"] {
        assert_eq!(text::trim(s), s.trim());
    }
    assert_eq!(text::trim_start_matches("//a/", '/'), "a/");
    assert_eq!(text::trim_end_matches("/a//", '/'), "/a");
    for s in ["", "a", "a.b", ".a.", "..", "\u{e9}.x"] {
        let want: Vec<&str> = s.split('.').collect();
        assert_eq!(text::split(s, '.'), want);
    }
    for (s, old, new) in [("aXbX", "X", "-"), ("abc", "", "-"), ("abc", "z", "-"), ("aa", "aa", "")] {
        assert_eq!(text::replace_first(s, old, new), s.replacen(old, new, 1));
    }
}

#[test]
fn paths_are_joined_as_unix_paths() {
    for (base, part) in [("/a", "b"), ("/a/", "b"), ("", "b"), ("/a", "/b"), ("/a", ""), ("a", "b/c")] {
        let want = std::path::Path::new(base).join(part);
        assert_eq!(paths::join(base, part), want.to_str().unwrap());
    }
}

#[test]
fn failures_tell_what_lies_behind_them() {
    let f = Failure::caused("sending", "timeout".to_string());
    assert_eq!(f.detail(), "sending: timeout");
    let f = f.under("provisioning".to_string());
    assert_eq!(f.message, "provisioning");
    assert_eq!(f.detail(), "provisioning: sending: timeout");
    assert_eq!(Failure::new("alone".to_string()).detail(), "alone");
}
