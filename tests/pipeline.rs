use searchevery::pipeline::{
    batch_progress, worker_count, writer_heap_bytes, PipelineAction, PipelineEvent, PipelineRun,
    ScanRun,
};
use searchevery::scanner::{make_record, FileEntry};

fn entry(path: &str, size: u64) -> FileEntry {
    FileEntry {
        path: path.to_string(),
        file_name: path.rsplit('/').next().unwrap().to_string(),
        ext: "TXT".to_string(),
        size,
        modified_secs: Some(42),
    }
}

#[test]
fn worker_count_never_below_one() {
    assert_eq!(worker_count(0), 1);
    assert_eq!(worker_count(1), 1);
    assert_eq!(worker_count(2), 1);
    assert_eq!(worker_count(3), 1);
    assert_eq!(worker_count(4), 2);
    assert_eq!(worker_count(16), 14);
    assert_eq!(worker_count(usize::MAX), usize::MAX - 2);
}

#[test]
fn writer_heap_is_a_sixty_fourth_capped() {
    assert_eq!(writer_heap_bytes(0), 0);
    assert_eq!(writer_heap_bytes(4 * 1024 * 1024), 64_000_000);
    assert_eq!(writer_heap_bytes(16 * 1024 * 1024), 100_000_000);
    assert_eq!(writer_heap_bytes(u64::MAX), 100_000_000);
}

#[test]
fn run_announces_and_dispatches_admitted_files() {
    let (mut run, first) = PipelineRun::start();
    assert_eq!(first.len(), 1);
    assert!(matches!(first[0], PipelineAction::MarkStarted));
    let exclude = vec!["skip".to_string()];

    let acts = run.on_entry(&entry("/r/a.txt", 10), &exclude);
    assert_eq!(acts.len(), 2);
    match &acts[0] {
        PipelineAction::Emit(PipelineEvent::ScanProgress { current, path, name }) => {
            assert_eq!(*current, 1);
            assert_eq!(path, "/r/a.txt");
            assert_eq!(name, "a.txt");
        }
        _ => panic!("expected scan progress"),
    }
    match &acts[1] {
        PipelineAction::Dispatch(m) => {
            assert_eq!(m.path, "/r/a.txt");
            assert_eq!(m.ext, "txt");
            assert_eq!(m.modified_ts, 42);
        }
        _ => panic!("expected dispatch"),
    }

    assert!(run.on_entry(&entry("/r/skip/b.txt", 10), &exclude).is_empty());
    assert!(run.on_entry(&entry("/r/big.txt", 500 * 1024 * 1024 + 1), &exclude).is_empty());
    assert_eq!(run.on_entry(&entry("/r/edge.txt", 500 * 1024 * 1024), &exclude).len(), 2);
    assert_eq!(run.scanned, 2);

    let done = run.on_walk_done();
    assert!(run.finished);
    assert_eq!(done.len(), 3);
    assert!(matches!(done[0], PipelineAction::Emit(PipelineEvent::ScanDone { total: 2 })));
    assert!(matches!(done[1], PipelineAction::MarkCompleted));
    assert!(matches!(done[2], PipelineAction::Emit(PipelineEvent::IndexDone { ok: true })));
}

#[test]
fn event_names() {
    assert_eq!(PipelineEvent::ScanDone { total: 0 }.name(), "scan_done");
    assert_eq!(PipelineEvent::IndexDone { ok: true }.name(), "index_done");
    let p = PipelineEvent::ScanProgress { current: 1, path: String::new(), name: String::new() };
    assert_eq!(p.name(), "scan_progress");
    let i = PipelineEvent::IndexProgress { current: 1, batch_size: None, path: String::new(), name: String::new() };
    assert_eq!(i.name(), "index_progress");
}

#[test]
fn plain_scan_announces_each_kept_record() {
    let mut run = ScanRun::new();
    let exclude = vec!["skip".to_string()];
    let (m, ev) = run.on_entry(&entry("/r/a.txt", 10), &exclude, Some(1)).unwrap();
    assert_eq!(m.path, "/r/a.txt");
    assert!(matches!(ev, PipelineEvent::ScanProgress { current: 1, .. }));
    assert!(run.on_entry(&entry("/r/skip/b.txt", 10), &exclude, Some(1)).is_none());
    assert!(run.on_entry(&entry("/r/big.txt", 2_000_000), &exclude, Some(1)).is_none());
    let (_, ev) = run.on_entry(&entry("/r/c.txt", 5), &exclude, None).unwrap();
    assert!(matches!(ev, PipelineEvent::ScanProgress { current: 2, .. }));
    assert!(matches!(run.on_walk_done(), PipelineEvent::ScanDone { total: 2 }));
}

#[test]
fn batch_progress_counts_from_one() {
    let m = make_record(&entry("/r/a.txt", 1));
    match batch_progress(0, 3, &m) {
        PipelineEvent::IndexProgress { current, batch_size, path, name } => {
            assert_eq!(current, 1);
            assert_eq!(batch_size, Some(3));
            assert_eq!(path, "/r/a.txt");
            assert_eq!(name, "a.txt");
        }
        _ => panic!("expected index progress"),
    }
}
