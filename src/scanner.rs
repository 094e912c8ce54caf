//! Scanner rules: which discovered files become records, and what a record holds.

use vstd::prelude::*;

use crate::text::{contains_any, contains_any_of, lower_of, lowercase};

verus! {

/// Bytes in one mebibyte, the unit of the size cap.
pub const BYTES_PER_MB: u64 = 1048576;

/// One regular file as the directory walk reports it, before any rule is applied.
pub struct FileEntry {
    /// Absolute path, as text.
    pub path: String,
    /// Last path component.
    pub file_name: String,
    /// Extension as found in the file name (any case), empty when there is none.
    pub ext: String,
    /// Length in bytes.
    pub size: u64,
    /// Modification time in seconds since the UNIX epoch, when the platform gives one.
    pub modified_secs: Option<u64>,
}

/// A discovered file: the unit that the index stores.
pub struct FileMeta {
    pub path: String,
    pub file_name: String,
    /// Lowercased extension.
    pub ext: String,
    pub size: u64,
    /// Modification time in epoch seconds, zero when unknown.
    pub modified_ts: i64,
}

pub struct FileMetaView {
    pub path: Seq<char>,
    pub file_name: Seq<char>,
    pub ext: Seq<char>,
    pub size: u64,
    pub modified_ts: i64,
}

impl View for FileMeta {
    type V = FileMetaView;

    open spec fn view(&self) -> FileMetaView {
        FileMetaView {
            path: self.path@,
            file_name: self.file_name@,
            ext: self.ext@,
            size: self.size,
            modified_ts: self.modified_ts,
        }
    }
}

/// The views of a sequence of records.
pub open spec fn meta_views(s: Seq<FileMeta>) -> Seq<FileMetaView> {
    s.map_values(|m: FileMeta| m@)
}

/// Options of a scan.
pub struct ScanOptions {
    pub roots: Vec<String>,
    pub exclude_patterns: Vec<String>,
    pub max_file_size_mb: Option<u64>,
    pub follow_symlinks: bool,
}

/// `size` respects a cap given in mebibytes (no cap: every size does).
pub open spec fn within_cap(size: u64, cap_mb: Option<u64>) -> bool {
    match cap_mb {
        Some(mb) => size as int <= mb as int * BYTES_PER_MB as int,
        None => true,
    }
}

/// Epoch seconds as stored in a record: zero when unknown, saturated at `i64::MAX`.
pub open spec fn epoch_seconds(secs: Option<u64>) -> i64 {
    match secs {
        Some(s) => if s <= i64::MAX as u64 {
            s as i64
        } else {
            i64::MAX
        },
        None => 0,
    }
}

/// An entry is kept when no exclusion pattern occurs in its path and its size respects the cap.
pub open spec fn admitted(e: FileEntry, exclude: Seq<String>, cap_mb: Option<u64>) -> bool {
    !contains_any(e.path@, exclude) && within_cap(e.size, cap_mb)
}

/// The record made of an admitted entry.
pub open spec fn record_of(e: FileEntry) -> FileMetaView {
    FileMetaView {
        path: e.path@,
        file_name: e.file_name@,
        ext: lower_of(e.ext@),
        size: e.size,
        modified_ts: epoch_seconds(e.modified_secs),
    }
}

/// The records that a scan yields for `entries`, in traversal order.
pub open spec fn scan_records(entries: Seq<FileEntry>, exclude: Seq<String>, cap_mb: Option<u64>) -> Seq<
    FileMetaView,
>
    decreases entries.len(),
{
    if entries.len() == 0 {
        Seq::empty()
    } else {
        let prev = scan_records(entries.drop_last(), exclude, cap_mb);
        if admitted(entries.last(), exclude, cap_mb) {
            prev.push(record_of(entries.last()))
        } else {
            prev
        }
    }
}

/// Whether `size` respects a cap of `cap_mb` mebibytes.
pub fn within_size_cap(size: u64, cap_mb: Option<u64>) -> (r: bool)
    ensures
        r == within_cap(size, cap_mb),
{
    match cap_mb {
        Some(mb) => {
            if mb > u64::MAX / BYTES_PER_MB {
                proof {
                    assert(mb as int * BYTES_PER_MB as int >= u64::MAX) by (nonlinear_arith)
                        requires
                            mb > u64::MAX / BYTES_PER_MB,
                    ;
                }
                true
            } else {
                proof {
                    assert(mb as int * BYTES_PER_MB as int <= u64::MAX) by (nonlinear_arith)
                        requires
                            mb <= u64::MAX / BYTES_PER_MB,
                    ;
                }
                size <= mb * BYTES_PER_MB
            }
        },
        None => true,
    }
}

/// Epoch seconds of a modification time: zero when unknown.
pub fn epoch_seconds_of(secs: Option<u64>) -> (r: i64)
    ensures
        r == epoch_seconds(secs),
{
    match secs {
        Some(s) => if s <= i64::MAX as u64 {
            s as i64
        } else {
            i64::MAX
        },
        None => 0,
    }
}

/// Whether the scan keeps `entry`.
pub fn admits(entry: &FileEntry, exclude: &Vec<String>, cap_mb: Option<u64>) -> (r: bool)
    ensures
        r == admitted(*entry, exclude@, cap_mb),
{
    !contains_any_of(entry.path.as_str(), exclude) && within_size_cap(entry.size, cap_mb)
}

/// The record for `entry`: its extension lowercased, its time in epoch seconds.
pub fn make_record(entry: &FileEntry) -> (r: FileMeta)
    ensures
        r@ == record_of(*entry),
{
    FileMeta {
        path: entry.path.clone(),
        file_name: entry.file_name.clone(),
        ext: lowercase(entry.ext.as_str()),
        size: entry.size,
        modified_ts: epoch_seconds_of(entry.modified_secs),
    }
}

/// No record's path holds an exclusion pattern, and every size respects the cap.
pub open spec fn all_admitted(s: Seq<FileMetaView>, exclude: Seq<String>, cap_mb: Option<u64>) -> bool {
    forall|k: int|
        0 <= k < s.len() ==> !contains_any(#[trigger] s[k].path, exclude) && within_cap(
            s[k].size,
            cap_mb,
        )
}

/// Every record of a scan is admitted: no exclusion pattern in its path, its size within the cap.
pub proof fn lemma_scan_records_admitted(
    entries: Seq<FileEntry>,
    exclude: Seq<String>,
    cap_mb: Option<u64>,
)
    ensures
        all_admitted(scan_records(entries, exclude, cap_mb), exclude, cap_mb),
    decreases entries.len(),
{
    if entries.len() > 0 {
        let prev = scan_records(entries.drop_last(), exclude, cap_mb);
        lemma_scan_records_admitted(entries.drop_last(), exclude, cap_mb);
        let all = scan_records(entries, exclude, cap_mb);
        assert forall|k: int| 0 <= k < all.len() implies !contains_any(
            #[trigger] all[k].path,
            exclude,
        ) && within_cap(all[k].size, cap_mb) by {
            if k < prev.len() {
                assert(all[k] == prev[k]);
            }
        }
    }
}

/// Applies the scan rules to the walked entries, in order: excluded paths and files
/// above the cap are dropped, the others become records.
pub fn select_files(entries: &Vec<FileEntry>, exclude: &Vec<String>, cap_mb: Option<u64>) -> (r:
    Vec<FileMeta>)
    ensures
        meta_views(r@) == scan_records(entries@, exclude@, cap_mb),
        all_admitted(meta_views(r@), exclude@, cap_mb),
{
    let mut r: Vec<FileMeta> = Vec::new();
    let mut i: usize = 0;
    while i < entries.len()
        invariant
            i <= entries@.len(),
            meta_views(r@) == scan_records(
                entries@.take(i as int),
                exclude@,
                cap_mb,
            ),
        decreases entries@.len() - i,
    {
        proof {
            assert(entries@.take(i as int + 1).drop_last() =~= entries@.take(i as int));
        }
        if admits(&entries[i], exclude, cap_mb) {
            let m = make_record(&entries[i]);
            r.push(m);
            proof {
                assert(meta_views(r@) =~= scan_records(
                    entries@.take(i as int),
                    exclude@,
                    cap_mb,
                ).push(record_of(entries@[i as int])));
            }
        }
        i = i + 1;
    }
    proof {
        assert(entries@.take(entries@.len() as int) =~= entries@);
        lemma_scan_records_admitted(entries@, exclude@, cap_mb);
    }
    r
}

} // verus!
