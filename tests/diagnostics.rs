use searchevery::diagnostics::config_warnings;

#[test]
fn warnings_in_report_order() {
    assert!(config_warnings(1, "/idx", true).is_empty());
    assert_eq!(
        config_warnings(0, " ", false),
        vec![
            "config.scan_roots is empty".to_string(),
            "config.index_dir is empty".to_string(),
            "index_dir does not exist".to_string(),
        ]
    );
    assert_eq!(config_warnings(2, "/idx", false), vec!["index_dir does not exist".to_string()]);
}
