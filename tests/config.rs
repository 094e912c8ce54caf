use searchevery::config::{
    default_auto_scan_enabled, default_exclude_patterns, default_path_max_len, default_search_mode,
    normalize_config, points_into_source_tree, AppConfig,
};
use searchevery::text::whitespace;

fn cfg() -> AppConfig {
    AppConfig {
        search_mode: "hybrid".to_string(),
        scan_roots: vec!["/home/u".to_string()],
        exclude_patterns: vec!["x".to_string()],
        index_dir: "/data/idx".to_string(),
        path_max_len: 40,
        auto_scan_enabled: false,
    }
}

#[test]
fn defaults() {
    assert_eq!(default_search_mode(), "inverted");
    assert_eq!(default_path_max_len(), 80);
    assert!(default_auto_scan_enabled());
    let ex = default_exclude_patterns();
    assert_eq!(ex.len(), 9);
    assert_eq!(ex[0], "\\Windows");
    assert_eq!(ex[8], "\\node_modules");
}

#[test]
fn complete_config_is_kept() {
    let c = normalize_config(cfg(), vec!["/r".to_string()], "/def".to_string());
    assert_eq!(c.search_mode, "hybrid");
    assert_eq!(c.scan_roots, vec!["/home/u".to_string()]);
    assert_eq!(c.exclude_patterns, vec!["x".to_string()]);
    assert_eq!(c.index_dir, "/data/idx");
    assert_eq!(c.path_max_len, 40);
    assert!(!c.auto_scan_enabled);
}

#[test]
fn blank_and_empty_fields_take_defaults() {
    let mut c = cfg();
    c.search_mode = "  \t\u{3000}\u{a0}".to_string();
    c.scan_roots = Vec::new();
    c.exclude_patterns = Vec::new();
    c.index_dir = " ".to_string();
    c.path_max_len = 0;
    let n = normalize_config(c, vec!["/r".to_string()], "/def".to_string());
    assert_eq!(n.search_mode, "inverted");
    assert_eq!(n.scan_roots, vec!["/r".to_string()]);
    assert_eq!(n.exclude_patterns, default_exclude_patterns());
    assert_eq!(n.index_dir, "/def");
    assert_eq!(n.path_max_len, 80);
}

#[test]
fn index_dir_in_source_tree_is_redirected() {
    assert!(points_into_source_tree("C:/proj/SRC-TAURI/idx"));
    assert!(!points_into_source_tree("/proj/src_tauri"));
    let mut c = cfg();
    c.index_dir = "/proj/Src-Tauri/target/idx".to_string();
    let n = normalize_config(c, Vec::new(), "/def".to_string());
    assert_eq!(n.index_dir, "/def");
}

#[test]
fn non_whitespace_search_mode_is_kept() {
    let mut c = cfg();
    c.search_mode = "\u{200b}".to_string();
    let n = normalize_config(c, vec!["/r".to_string()], "/def".to_string());
    assert_eq!(n.search_mode, "\u{200b}");
}

#[test]
fn whitespace_matches_std() {
    for c in ['\t', '\n', '\r', ' ', '\u{85}', '\u{a0}', '\u{1680}', '\u{2000}', '\u{200a}', '\u{3000}', 'a', '\u{200b}', '\u{feff}', '0'] {
        assert_eq!(whitespace(c), c.is_whitespace(), "{:?}", c);
    }
}
