//! Consistency warnings of the diagnostics report.

use vstd::prelude::*;

use crate::text::{blank_seq, is_blank};

verus! {

/// The warnings for the settings and the index directory, in report order.
pub open spec fn warnings_for(scan_roots_count: nat, index_dir: Seq<char>, index_dir_exists: bool) -> Seq<
    Seq<char>,
> {
    let a: Seq<Seq<char>> = if scan_roots_count == 0 {
        seq!["config.scan_roots is empty"@]
    } else {
        Seq::empty()
    };
    let b: Seq<Seq<char>> = if blank_seq(index_dir) {
        seq!["config.index_dir is empty"@]
    } else {
        Seq::empty()
    };
    let c: Seq<Seq<char>> = if !index_dir_exists {
        seq!["index_dir does not exist"@]
    } else {
        Seq::empty()
    };
    a + b + c
}

/// Warnings about missing scan roots, a blank index directory, or an index
/// directory that does not exist.
pub fn config_warnings(scan_roots_count: usize, index_dir: &str, index_dir_exists: bool) -> (r: Vec<
    String,
>)
    ensures
        r@.map_values(|s: String| s@) == warnings_for(scan_roots_count as nat, index_dir@, index_dir_exists),
{
    let mut r: Vec<String> = Vec::new();
    if scan_roots_count == 0 {
        r.push("config.scan_roots is empty".to_owned());
    }
    if is_blank(index_dir) {
        r.push("config.index_dir is empty".to_owned());
    }
    if !index_dir_exists {
        r.push("index_dir does not exist".to_owned());
    }
    proof {
        assert(r@.map_values(|s: String| s@) =~= warnings_for(
            scan_roots_count as nat,
            index_dir@,
            index_dir_exists,
        ));
    }
    r
}

} // verus!
