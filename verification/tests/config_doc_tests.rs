use aterm::config_doc::{
    import_step, merge_imports, merge_toml, parse_config_doc, take_imports, ArrayItem, ConfigDoc, ConfigEntry,
    ConfigLeaf, MAX_IMPORT_DEPTH,
};
use aterm::paths::{abbreviate_home, config_candidates, expand_path, home_relative, join_path};

fn path(p: &[&str]) -> Vec<String> {
    p.iter().map(|s| s.to_string()).collect()
}

fn int_at(p: &[&str], v: i64) -> ConfigEntry {
    ConfigEntry { path: path(p), value: ConfigLeaf::Other(toml::Value::Integer(v)) }
}

fn doc(entries: Vec<ConfigEntry>) -> ConfigDoc {
    ConfigDoc { entries }
}

fn get<'a>(d: &'a ConfigDoc, p: &[&str]) -> Option<&'a ConfigLeaf> {
    let want = path(p);
    d.entries.iter().find(|e| e.path == want).map(|e| &e.value)
}

fn as_int(v: Option<&ConfigLeaf>) -> Option<i64> {
    match v {
        Some(ConfigLeaf::Other(toml::Value::Integer(i))) => Some(*i),
        _ => None,
    }
}

#[test]
fn merge_toml_overlays_keys() {
    let base = doc(vec![int_at(&["a"], 1), int_at(&["b"], 2)]);
    let overlay = doc(vec![int_at(&["b"], 99), int_at(&["c"], 3)]);
    let merged = merge_toml(base, overlay);
    assert_eq!(as_int(get(&merged, &["a"])), Some(1));
    assert_eq!(as_int(get(&merged, &["b"])), Some(99));
    assert_eq!(as_int(get(&merged, &["c"])), Some(3));
    assert_eq!(merged.entries.len(), 3);
}

#[test]
fn merge_toml_recurses_into_subtables() {
    let base = doc(vec![int_at(&["t", "x"], 1), int_at(&["t", "y"], 2)]);
    let overlay = doc(vec![int_at(&["t", "y"], 99), int_at(&["t", "z"], 3)]);
    let merged = merge_toml(base, overlay);
    assert_eq!(as_int(get(&merged, &["t", "x"])), Some(1));
    assert_eq!(as_int(get(&merged, &["t", "y"])), Some(99));
    assert_eq!(as_int(get(&merged, &["t", "z"])), Some(3));
}

#[test]
fn merge_toml_leaf_and_table_replace_each_other() {
    let base = doc(vec![int_at(&["t", "x"], 1), int_at(&["u"], 5)]);
    let overlay = doc(vec![int_at(&["t"], 7), int_at(&["u", "k"], 8)]);
    let merged = merge_toml(base, overlay);
    assert_eq!(merged.entries.len(), 2);
    assert_eq!(as_int(get(&merged, &["t"])), Some(7));
    assert_eq!(as_int(get(&merged, &["u", "k"])), Some(8));
}

#[test]
fn merge_toml_empty_table_keeps_base_table() {
    let base = doc(vec![int_at(&["t", "x"], 1)]);
    let overlay = doc(vec![ConfigEntry { path: path(&["t"]), value: ConfigLeaf::EmptyTable }]);
    let merged = merge_toml(base, overlay);
    assert_eq!(merged.entries.len(), 1);
    assert_eq!(as_int(get(&merged, &["t", "x"])), Some(1));
    let base = doc(vec![int_at(&["t"], 1)]);
    let overlay = doc(vec![ConfigEntry { path: path(&["t"]), value: ConfigLeaf::EmptyTable }]);
    let merged = merge_toml(base, overlay);
    assert_eq!(merged.entries.len(), 1);
    assert_eq!(get(&merged, &["t"]), Some(&ConfigLeaf::EmptyTable));
}

fn imports(p: &[&str], files: &[&str]) -> ConfigEntry {
    ConfigEntry {
        path: path(p),
        value: ConfigLeaf::Array(files.iter().map(|f| ArrayItem::Str(f.to_string())).collect()),
    }
}

#[test]
fn take_imports_pulls_top_level_and_general() {
    let mut v = doc(vec![imports(&["import"], &["a.toml"]), imports(&["general", "import"], &["b.toml"])]);
    let mut got = take_imports(&mut v);
    got.sort();
    assert_eq!(got, vec!["a.toml".to_string(), "b.toml".to_string()]);
    assert!(get(&v, &["import"]).is_none());
    assert!(get(&v, &["general", "import"]).is_none());
    assert_eq!(get(&v, &["general"]), Some(&ConfigLeaf::EmptyTable));
}

#[test]
fn take_imports_keeps_other_keys_and_skips_non_strings() {
    let mut v = doc(vec![
        int_at(&["general", "live_config_reload"], 1),
        ConfigEntry {
            path: path(&["import"]),
            value: ConfigLeaf::Array(vec![
                ArrayItem::Str("x.toml".to_string()),
                ArrayItem::Other(toml::Value::Integer(3)),
                ArrayItem::Str("y.toml".to_string()),
            ]),
        },
        imports(&["general", "import"], &["z.toml"]),
    ]);
    let got = take_imports(&mut v);
    assert_eq!(got, vec!["x.toml".to_string(), "y.toml".to_string(), "z.toml".to_string()]);
    assert_eq!(v.entries.len(), 1);
    assert_eq!(as_int(get(&v, &["general", "live_config_reload"])), Some(1));
}

#[test]
fn importing_file_wins_over_imports() {
    let first = doc(vec![int_at(&["font", "size"], 10), int_at(&["window", "x"], 1)]);
    let second = doc(vec![int_at(&["font", "size"], 11), int_at(&["colors", "y"], 2)]);
    let main = doc(vec![int_at(&["font", "size"], 14)]);
    let merged = merge_imports(vec![first, second], main);
    assert_eq!(as_int(get(&merged, &["font", "size"])), Some(14));
    assert_eq!(as_int(get(&merged, &["window", "x"])), Some(1));
    assert_eq!(as_int(get(&merged, &["colors", "y"])), Some(2));
    assert_eq!(merged.entries.len(), 3);
}

#[test]
fn join_follows_pathbuf_push() {
    assert_eq!(join_path("/home/u", ".config/a"), "/home/u/.config/a");
    assert_eq!(join_path("/home/u/", "a"), "/home/u/a");
    assert_eq!(join_path("", "a"), "a");
    assert_eq!(join_path("/home/u", "/etc/x"), "/etc/x");
}

#[test]
fn expand_path_handles_tilde_and_relative() {
    assert_eq!(expand_path("~/themes/x.toml", "/cfg", Some("/home/u")), "/home/u/themes/x.toml");
    assert_eq!(expand_path("~", "/cfg", Some("/home/u")), "/home/u");
    assert_eq!(expand_path("~/x", "/cfg", None), "/cfg/~/x");
    assert_eq!(expand_path("themes/x.toml", "/cfg", Some("/home/u")), "/cfg/themes/x.toml");
    assert_eq!(expand_path("/abs.toml", "/cfg", Some("/home/u")), "/abs.toml");
}

#[test]
fn config_candidates_order() {
    let c = config_candidates(Some("/x"), Some("/h"), Some("/c"));
    assert_eq!(
        c,
        vec![
            "/x/alacritty/alacritty.toml".to_string(),
            "/h/.config/alacritty/alacritty.toml".to_string(),
            "/h/.alacritty.toml".to_string(),
            "/c/alacritty/alacritty.toml".to_string(),
            "/c/alacritty.toml".to_string(),
        ]
    );
    assert_eq!(config_candidates(Some(""), None, None), Vec::<String>::new());
}

#[test]
fn abbreviate_home_collapses_home() {
    assert_eq!(abbreviate_home("/home/u", Some("/home/u")), "~");
    assert_eq!(abbreviate_home("/home/u/src/x", Some("/home/u")), "~/src/x");
    assert_eq!(abbreviate_home("/home/user2", Some("/home/u")), "/home/user2");
    assert_eq!(abbreviate_home("/tmp", None), "/tmp");
}

#[test]
fn parse_config_doc_flattens_tables() {
    let d = parse_config_doc("import = [\"a.toml\"]\n[font]\nsize = 12\n[font.normal]\nfamily = \"Mono\"\n[window]\n").unwrap();
    assert_eq!(get(&d, &["font", "normal", "family"]), Some(&ConfigLeaf::Str("Mono".to_string())));
    assert_eq!(as_int(get(&d, &["font", "size"])), Some(12));
    assert_eq!(get(&d, &["window"]), Some(&ConfigLeaf::EmptyTable));
    assert_eq!(
        get(&d, &["import"]),
        Some(&ConfigLeaf::Array(vec![ArrayItem::Str("a.toml".to_string())]))
    );
    assert!(parse_config_doc("this is = = not toml").is_none());
}

#[test]
fn import_step_expands_imports_and_stops_past_the_depth_limit() {
    let mut d = parse_config_doc("import = [\"~/x.toml\", \"y.toml\"]\n[general]\nimport = [\"/abs/z.toml\"]\n").unwrap();
    let paths = import_step(0, &mut d, "/cfg", Some("/home/u")).unwrap();
    assert_eq!(paths, vec!["/home/u/x.toml", "/cfg/y.toml", "/abs/z.toml"]);
    assert!(get(&d, &["import"]).is_none());
    assert!(get(&d, &["general", "import"]).is_none());
    let mut deep = parse_config_doc("import = [\"a.toml\"]\n").unwrap();
    assert_eq!(import_step(MAX_IMPORT_DEPTH + 1, &mut deep, "/cfg", None), None);
    assert!(get(&deep, &["import"]).is_some());
    assert!(import_step(MAX_IMPORT_DEPTH, &mut deep, "/cfg", None).is_some());
}

#[test]
fn home_relative_shows_home_as_tilde() {
    assert_eq!(home_relative("/home/u", Some(String::new())), "~");
    assert_eq!(home_relative("/home/u/src", Some("src".to_string())), "~/src");
    assert_eq!(home_relative("/etc", None), "/etc");
    assert_eq!(abbreviate_home("/home/u", Some("/home/u")), "~");
}

#[test]
fn imported_text_merges_under_the_importing_text() {
    let mut main = parse_config_doc(
        "import = [\"theme.toml\"]\n[colors.primary]\nbackground = \"#101010\"\n[font]\nsize = 14\n",
    )
    .unwrap();
    let theme = parse_config_doc(
        "[colors.primary]\nbackground = \"#ffffff\"\nforeground = \"#000000\"\n[font]\nsize = 9\n",
    )
    .unwrap();
    let paths = import_step(0, &mut main, "/home/u/.config/alacritty", None).unwrap();
    assert_eq!(paths, vec!["/home/u/.config/alacritty/theme.toml"]);
    let merged = merge_imports(vec![theme], main);
    // The importing file's keys win; what only the import sets survives.
    assert_eq!(
        get(&merged, &["colors", "primary", "background"]),
        Some(&ConfigLeaf::Str("#101010".to_string()))
    );
    assert_eq!(
        get(&merged, &["colors", "primary", "foreground"]),
        Some(&ConfigLeaf::Str("#000000".to_string()))
    );
    assert_eq!(as_int(get(&merged, &["font", "size"])), Some(14));
    assert!(get(&merged, &["import"]).is_none());
}

#[test]
fn parsed_text_keeps_dotted_keys_inline_tables_and_mixed_arrays() {
    let d = parse_config_doc("a.b.c = \"x\"\nt = { u = true, v = {} }\narr = [\"s\", 1, [2]]\n").unwrap();
    assert_eq!(get(&d, &["a", "b", "c"]), Some(&ConfigLeaf::Str("x".to_string())));
    assert!(matches!(get(&d, &["t", "u"]), Some(ConfigLeaf::Other(toml::Value::Boolean(true)))));
    assert_eq!(get(&d, &["t", "v"]), Some(&ConfigLeaf::EmptyTable));
    match get(&d, &["arr"]) {
        Some(ConfigLeaf::Array(items)) => {
            assert_eq!(items.len(), 3);
            assert_eq!(items[0], ArrayItem::Str("s".to_string()));
            assert!(matches!(items[1], ArrayItem::Other(toml::Value::Integer(1))));
            assert!(matches!(items[2], ArrayItem::Other(toml::Value::Array(_))));
        },
        other => panic!("arr is {other:?}"),
    }
    // Keys come out in the table's order (sorted).
    let keys: Vec<String> = d.entries.iter().map(|e| e.path.join(".")).collect();
    assert_eq!(keys, vec!["a.b.c", "arr", "t.u", "t.v"]);
}
