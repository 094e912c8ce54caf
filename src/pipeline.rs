//! Decisions of a scan-and-index run: pool and writer sizing, and a state machine
//! that turns walk events into progress notifications, dispatched indexing tasks
//! and run-state updates. The caller performs the actions in the order given.

use vstd::prelude::*;

use crate::scanner::{
    admits, admitted, make_record, record_of, FileEntry, FileMeta, FileMetaView, BYTES_PER_MB,
};
use crate::text::contains_any;

verus! {

/// Size cap of the pipeline's own walk, in mebibytes.
pub const PIPELINE_SIZE_CAP_MB: u64 = 500;

/// Cores kept free for the host process.
pub const RESERVED_CORES: usize = 2;

/// Upper bound of the streaming writer's heap, in units of 1,000,000 bytes.
pub const WRITER_HEAP_CAP_MB: u64 = 100;

/// Heap of the batch writer, in bytes.
pub const BATCH_WRITER_HEAP_BYTES: usize = 50000000;

/// Worker threads for a host with `physical` cores: all but two, and at least one.
pub open spec fn workers_for(physical: int) -> int {
    if physical - RESERVED_CORES >= 1 {
        physical - RESERVED_CORES
    } else {
        1
    }
}

/// Size of the indexing worker pool.
pub fn worker_count(physical_cores: usize) -> (r: usize)
    ensures
        r as int == workers_for(physical_cores as int),
        r >= 1,
{
    let cores = if physical_cores < 1 {
        1
    } else {
        physical_cores
    };
    let spare = if cores > RESERVED_CORES {
        cores - RESERVED_CORES
    } else {
        0
    };
    if spare < 1 {
        1
    } else {
        spare
    }
}

/// Streaming writer heap for a host with `total_mem_kib` KiB of memory: a sixty-fourth
/// of it in whole megabytes, at most the cap.
pub open spec fn heap_for(total_mem_kib: u64) -> int {
    let mb = total_mem_kib as int / 1024 / 64;
    (if mb <= WRITER_HEAP_CAP_MB {
        mb
    } else {
        WRITER_HEAP_CAP_MB as int
    }) * 1000000
}

/// Heap size of the streaming writer, in bytes.
pub fn writer_heap_bytes(total_mem_kib: u64) -> (r: usize)
    ensures
        r as int == heap_for(total_mem_kib),
        r <= 100000000,
{
    let mb = total_mem_kib / 1024 / 64;
    let capped: u64 = if mb <= WRITER_HEAP_CAP_MB {
        mb
    } else {
        WRITER_HEAP_CAP_MB
    };
    (capped * 1000000) as usize
}

/// A notification to the observer of a run.
pub enum PipelineEvent {
    /// A file was discovered; `current` counts the discovered files so far.
    ScanProgress { current: usize, path: String, name: String },
    /// The walk is over.
    ScanDone { total: usize },
    /// An indexing task finished; `current` counts the finished tasks so far, out of
    /// `batch_size` when the whole batch is known in advance.
    IndexProgress { current: usize, batch_size: Option<usize>, path: String, name: String },
    /// Every task was dispatched (not necessarily finished).
    IndexDone { ok: bool },
}

impl PipelineEvent {
    /// The name under which the event is published.
    pub fn name(&self) -> (r: &'static str)
        ensures
            r@ == event_name(*self),
    {
        match self {
            PipelineEvent::ScanProgress { .. } => "scan_progress",
            PipelineEvent::ScanDone { .. } => "scan_done",
            PipelineEvent::IndexProgress { .. } => "index_progress",
            PipelineEvent::IndexDone { .. } => "index_done",
        }
    }
}

pub open spec fn event_name(e: PipelineEvent) -> Seq<char> {
    match e {
        PipelineEvent::ScanProgress { .. } => "scan_progress"@,
        PipelineEvent::ScanDone { .. } => "scan_done"@,
        PipelineEvent::IndexProgress { .. } => "index_progress"@,
        PipelineEvent::IndexDone { .. } => "index_done"@,
    }
}

/// Something the caller of the state machine must do.
pub enum PipelineAction {
    /// Record the run as started today.
    MarkStarted,
    /// Publish an event.
    Emit(PipelineEvent),
    /// Hand the file to an indexing task.
    Dispatch(FileMeta),
    /// Record the run as completed today.
    MarkCompleted,
}

pub open spec fn is_scan_progress(a: PipelineAction, current: int, e: FileEntry) -> bool {
    match a {
        PipelineAction::Emit(PipelineEvent::ScanProgress { current: c, path, name }) => {
            &&& c == current
            &&& path@ == e.path@
            &&& name@ == e.file_name@
        },
        _ => false,
    }
}

pub open spec fn is_dispatch(a: PipelineAction, m: FileMetaView) -> bool {
    match a {
        PipelineAction::Dispatch(f) => f@ == m,
        _ => false,
    }
}

/// Progress of one run.
pub struct PipelineRun {
    /// Files discovered and dispatched so far.
    pub scanned: usize,
    /// The walk is over.
    pub finished: bool,
}

impl PipelineRun {
    /// A new run, and its first action: record the run as started.
    pub fn start() -> (r: (PipelineRun, Vec<PipelineAction>))
        ensures
            r.0.scanned == 0,
            !r.0.finished,
            r.1@.len() == 1,
            r.1@[0] is MarkStarted,
    {
        (PipelineRun { scanned: 0, finished: false }, vec![PipelineAction::MarkStarted])
    }

    /// A regular file was walked. Admitted files are counted, announced and
    /// dispatched, in that order; the others produce nothing.
    pub fn on_entry(&mut self, entry: &FileEntry, exclude: &Vec<String>) -> (r: Vec<PipelineAction>)
        requires
            !old(self).finished,
            old(self).scanned < usize::MAX,
        ensures
            !final(self).finished,
            admitted(*entry, exclude@, Some(PIPELINE_SIZE_CAP_MB)) ==> {
                &&& final(self).scanned == old(self).scanned + 1
                &&& r@.len() == 2
                &&& is_scan_progress(r@[0], final(self).scanned as int, *entry)
                &&& is_dispatch(r@[1], record_of(*entry))
            },
            !admitted(*entry, exclude@, Some(PIPELINE_SIZE_CAP_MB)) ==> {
                &&& final(self).scanned == old(self).scanned
                &&& r@.len() == 0
            },
            r@.len() > 0 ==> !contains_any(entry.path@, exclude@) && entry.size <= PIPELINE_SIZE_CAP_MB
                * BYTES_PER_MB,
    {
        if !admits(entry, exclude, Some(PIPELINE_SIZE_CAP_MB)) {
            return Vec::new();
        }
        self.scanned = self.scanned + 1;
        let ev = PipelineEvent::ScanProgress {
            current: self.scanned,
            path: entry.path.clone(),
            name: entry.file_name.clone(),
        };
        vec![PipelineAction::Emit(ev), PipelineAction::Dispatch(make_record(entry))]
    }

    /// The walk is over: announce the total, record completion, announce that
    /// indexing was dispatched.
    pub fn on_walk_done(&mut self) -> (r: Vec<PipelineAction>)
        requires
            !old(self).finished,
        ensures
            final(self).finished,
            final(self).scanned == old(self).scanned,
            r@.len() == 3,
            r@[0] == PipelineAction::Emit(PipelineEvent::ScanDone { total: old(self).scanned }),
            r@[1] is MarkCompleted,
            r@[2] == PipelineAction::Emit(PipelineEvent::IndexDone { ok: true }),
    {
        self.finished = true;
        vec![
            PipelineAction::Emit(PipelineEvent::ScanDone { total: self.scanned }),
            PipelineAction::MarkCompleted,
            PipelineAction::Emit(PipelineEvent::IndexDone { ok: true }),
        ]
    }
}

/// `ev` announces the `current`-th discovered file, `e`.
pub open spec fn announces(ev: PipelineEvent, current: int, e: FileEntry) -> bool {
    match ev {
        PipelineEvent::ScanProgress { current: c, path, name } => {
            &&& c == current
            &&& path@ == e.path@
            &&& name@ == e.file_name@
        },
        _ => false,
    }
}

/// Progress of a plain scan that announces each record it keeps.
pub struct ScanRun {
    /// Records kept so far.
    pub found: usize,
}

impl ScanRun {
    /// A scan that has kept nothing yet.
    pub fn new() -> (r: ScanRun)
        ensures
            r.found == 0,
    {
        ScanRun { found: 0 }
    }

    /// A regular file was walked. An admitted file is counted and returned with its
    /// announcement; the others give nothing.
    pub fn on_entry(&mut self, entry: &FileEntry, exclude: &Vec<String>, cap_mb: Option<u64>) -> (r:
        Option<(FileMeta, PipelineEvent)>)
        requires
            old(self).found < usize::MAX,
        ensures
            admitted(*entry, exclude@, cap_mb) ==> {
                &&& final(self).found == old(self).found + 1
                &&& r is Some
                &&& (r->0).0@ == record_of(*entry)
                &&& announces((r->0).1, final(self).found as int, *entry)
            },
            !admitted(*entry, exclude@, cap_mb) ==> final(self).found == old(self).found && r is None,
    {
        if !admits(entry, exclude, cap_mb) {
            return None;
        }
        self.found = self.found + 1;
        let ev = PipelineEvent::ScanProgress {
            current: self.found,
            path: entry.path.clone(),
            name: entry.file_name.clone(),
        };
        Some((make_record(entry), ev))
    }

    /// The walk is over: announce the total.
    pub fn on_walk_done(&self) -> (r: PipelineEvent)
        ensures
            r == (PipelineEvent::ScanDone { total: self.found }),
    {
        PipelineEvent::ScanDone { total: self.found }
    }
}

/// The notification for document `i` (counting from zero) of a batch of `total`.
pub fn batch_progress(i: usize, total: usize, meta: &FileMeta) -> (r: PipelineEvent)
    requires
        i < total,
    ensures
        match r {
            PipelineEvent::IndexProgress { current, batch_size, path, name } => {
                &&& current == i + 1
                &&& batch_size == Some(total)
                &&& path@ == meta.path@
                &&& name@ == meta.file_name@
            },
            _ => false,
        },
{
    PipelineEvent::IndexProgress {
        current: i + 1,
        batch_size: Some(total),
        path: meta.path.clone(),
        name: meta.file_name.clone(),
    }
}

} // verus!
