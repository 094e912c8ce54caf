use searchevery::scanner::{admits, make_record, select_files, within_size_cap, FileEntry};

fn entry(path: &str, size: u64) -> FileEntry {
    let name = path.rsplit('/').next().unwrap_or("").to_string();
    let ext = match name.rfind('.') {
        Some(i) => name[i + 1..].to_string(),
        None => String::new(),
    };
    FileEntry { path: path.to_string(), file_name: name, ext, size, modified_secs: Some(1_700_000_000) }
}

#[test]
fn empty_roots_scan_returns_empty() {
    let out = select_files(&Vec::new(), &vec!["node_modules".to_string()], Some(1));
    assert!(out.is_empty());
}

#[test]
fn size_cap_keeps_files_within_one_megabyte() {
    let entries = vec![entry("/d/a.txt", 10), entry("/d/b.bin", 2_000_000), entry("/d/c.md", 50)];
    let out = select_files(&entries, &Vec::new(), Some(1));
    assert_eq!(out.len(), 2);
    assert_eq!(out[0].path, "/d/a.txt");
    assert_eq!(out[0].size, 10);
    assert_eq!(out[1].path, "/d/c.md");
    assert_eq!(out[1].size, 50);
}

#[test]
fn cap_is_inclusive_in_mebibytes() {
    assert!(within_size_cap(1_048_576, Some(1)));
    assert!(!within_size_cap(1_048_577, Some(1)));
    assert!(within_size_cap(u64::MAX, None));
    assert!(within_size_cap(u64::MAX, Some(u64::MAX)));
    assert!(!within_size_cap(1, Some(0)));
}

#[test]
fn excluded_paths_are_dropped() {
    let entries = vec![
        entry("/p/node_modules/x.js", 5),
        entry("/p/src/main.rs", 5),
        entry("/p/Temp/a.txt", 5),
    ];
    let exclude = vec!["node_modules".to_string(), "/Temp".to_string()];
    let out = select_files(&entries, &exclude, None);
    assert_eq!(out.len(), 1);
    assert_eq!(out[0].path, "/p/src/main.rs");
    for m in &out {
        for p in &exclude {
            assert!(!m.path.contains(p.as_str()));
        }
    }
}

#[test]
fn exclusion_is_case_sensitive_substring() {
    let e = entry("/p/Node_Modules/x.js", 5);
    assert!(admits(&e, &vec!["node_modules".to_string()], None));
    assert!(!admits(&e, &vec!["Node_".to_string()], None));
}

#[test]
fn record_lowercases_extension_and_keeps_time() {
    let m = make_record(&entry("/d/REPORT.TXT", 3));
    assert_eq!(m.ext, "txt");
    assert_eq!(m.file_name, "REPORT.TXT");
    assert_eq!(m.modified_ts, 1_700_000_000);
}

#[test]
fn unknown_modification_time_is_zero() {
    let mut e = entry("/d/a.txt", 3);
    e.modified_secs = None;
    assert_eq!(make_record(&e).modified_ts, 0);
    e.modified_secs = Some(u64::MAX);
    assert_eq!(make_record(&e).modified_ts, i64::MAX);
}
