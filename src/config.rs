//! Application settings and their defaults.

use vstd::prelude::*;

use crate::text::{blank_seq, contains, contains_seq, is_blank, is_white, lower_of, lowercase};

verus! {

/// Settings of the application.
pub struct AppConfig {
    /// `inverted`, `hybrid` or `vector`.
    pub search_mode: String,
    pub scan_roots: Vec<String>,
    pub exclude_patterns: Vec<String>,
    pub index_dir: String,
    pub path_max_len: u32,
    pub auto_scan_enabled: bool,
}

/// The default search mode.
pub fn default_search_mode() -> (r: String)
    ensures
        r@ == "inverted"@,
{
    "inverted".to_owned()
}

/// The default exclusion patterns: system and build directories.
pub open spec fn default_excludes() -> Seq<Seq<char>> {
    seq![
        "\\Windows"@,
        "\\Program Files"@,
        "\\Program Files (x86)"@,
        "\\AppData"@,
        "\\ProgramData"@,
        "\\Temp"@,
        "\\$Recycle.Bin"@,
        "\\System Volume Information"@,
        "\\node_modules"@,
    ]
}

/// The default exclusion patterns.
pub fn default_exclude_patterns() -> (r: Vec<String>)
    ensures
        r@.map_values(|s: String| s@) == default_excludes(),
{
    let r = vec![
        "\\Windows".to_owned(),
        "\\Program Files".to_owned(),
        "\\Program Files (x86)".to_owned(),
        "\\AppData".to_owned(),
        "\\ProgramData".to_owned(),
        "\\Temp".to_owned(),
        "\\$Recycle.Bin".to_owned(),
        "\\System Volume Information".to_owned(),
        "\\node_modules".to_owned(),
    ];
    proof {
        assert(r@.map_values(|s: String| s@) =~= default_excludes());
    }
    r
}

/// The default maximum displayed path length.
pub fn default_path_max_len() -> (r: u32)
    ensures
        r == 80,
{
    80
}

/// Automatic scanning is on by default.
pub fn default_auto_scan_enabled() -> (r: bool)
    ensures
        r,
{
    true
}

/// An index directory inside the application's own source tree is refused: the
/// lowercased path must not contain `src-tauri`.
pub open spec fn inside_source_tree(dir: Seq<char>) -> bool {
    contains_seq(lower_of(dir), "src-tauri"@)
}

/// Whether `dir` points into the application's source tree.
pub fn points_into_source_tree(dir: &str) -> (r: bool)
    ensures
        r == inside_source_tree(dir@),
{
    let low = lowercase(dir);
    contains(low.as_str(), "src-tauri")
}

/// The settings as loaded: blank or empty fields take their defaults, and an index
/// directory inside the source tree is replaced by the default one.
pub fn normalize_config(cfg: AppConfig, default_roots: Vec<String>, default_index_dir: String) -> (r:
    AppConfig)
    ensures
        r.search_mode@ == if blank_seq(cfg.search_mode@) {
            "inverted"@
        } else {
            cfg.search_mode@
        },
        r.scan_roots@ == if cfg.scan_roots@.len() == 0 {
            default_roots@
        } else {
            cfg.scan_roots@
        },
        cfg.exclude_patterns@.len() > 0 ==> r.exclude_patterns@ == cfg.exclude_patterns@,
        cfg.exclude_patterns@.len() == 0 ==> r.exclude_patterns@.map_values(|s: String| s@)
            == default_excludes(),
        ({
            let dir = if blank_seq(cfg.index_dir@) {
                default_index_dir@
            } else {
                cfg.index_dir@
            };
            r.index_dir@ == if inside_source_tree(dir) {
                default_index_dir@
            } else {
                dir
            }
        }),
        r.path_max_len == if cfg.path_max_len == 0 {
            80
        } else {
            cfg.path_max_len
        },
        r.auto_scan_enabled == cfg.auto_scan_enabled,
        !blank_seq(r.search_mode@),
        default_roots@.len() > 0 ==> r.scan_roots@.len() > 0,
        r.exclude_patterns@.len() > 0,
        r.path_max_len != 0,
        !blank_seq(default_index_dir@) && !inside_source_tree(default_index_dir@) ==> !blank_seq(
            r.index_dir@,
        ) && !inside_source_tree(r.index_dir@),
{
    let AppConfig { search_mode, scan_roots, exclude_patterns, index_dir, path_max_len, auto_scan_enabled } =
        cfg;
    let search_mode = if is_blank(search_mode.as_str()) {
        let d = default_search_mode();
        proof {
            reveal_strlit("inverted");
            assert(!is_white(d@[0]));
        }
        d
    } else {
        search_mode
    };
    let scan_roots = if scan_roots.len() == 0 {
        default_roots
    } else {
        scan_roots
    };
    let exclude_patterns = if exclude_patterns.len() == 0 {
        let d = default_exclude_patterns();
        assert(d@.len() == d@.map_values(|s: String| s@).len());
        d
    } else {
        exclude_patterns
    };
    let index_dir = if is_blank(index_dir.as_str()) {
        default_index_dir.clone()
    } else {
        index_dir
    };
    let index_dir = if points_into_source_tree(index_dir.as_str()) {
        default_index_dir
    } else {
        index_dir
    };
    let path_max_len = if path_max_len == 0 {
        default_path_max_len()
    } else {
        path_max_len
    };
    AppConfig { search_mode, scan_roots, exclude_patterns, index_dir, path_max_len, auto_scan_enabled }
}

} // verus!
