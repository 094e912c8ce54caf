use searchevery::indexer::{
    build_document, decode_text, decode_text_lossy, document_for, Decoding, index_schema, is_text_like, wants_content, FieldKind,
    IndexDocument, SUMMARY_CHARS,
};
use searchevery::scanner::FileMeta;
use searchevery::writer::{batch_ops, upsert_ops, WriterOp};

fn meta(path: &str, ext: &str, size: u64, ts: i64) -> FileMeta {
    FileMeta {
        path: path.to_string(),
        file_name: path.rsplit('/').next().unwrap().to_string(),
        ext: ext.to_string(),
        size,
        modified_ts: ts,
    }
}

fn apply(docs: &mut Vec<IndexDocument>, pending: &mut Vec<WriterOp>, ops: Vec<WriterOp>) {
    for op in ops {
        match op {
            WriterOp::Commit => {
                for p in pending.drain(..) {
                    match p {
                        WriterOp::DeletePath(path) => docs.retain(|d| d.path != path),
                        WriterOp::Add(d) => docs.push(d),
                        WriterOp::Commit => {}
                    }
                }
            }
            other => pending.push(other),
        }
    }
}

#[test]
fn schema_has_the_fixed_fields() {
    let s = index_schema();
    let names: Vec<&str> = s.iter().map(|f| f.name.as_str()).collect();
    assert_eq!(names, vec!["path", "name", "ext", "content", "summary", "size", "modified_ts"]);
    assert!(s[0].stored && s[0].indexed);
    assert!(s[2].stored && !s[2].indexed);
    assert!(!s[3].stored && s[3].indexed);
    assert_eq!(s[5].kind, FieldKind::U64);
    assert_eq!(s[6].kind, FieldKind::I64);
}

#[test]
fn text_like_extensions_ignore_case() {
    assert!(is_text_like("txt"));
    assert!(is_text_like("MD"));
    assert!(is_text_like("Yml"));
    assert!(!is_text_like("rs"));
    assert!(!is_text_like(""));
    assert!(!is_text_like("txtx"));
    assert!(wants_content(true, "JSON"));
    assert!(!wants_content(false, "json"));
}

#[test]
fn summary_is_first_three_hundred_characters() {
    let text: String = "é".repeat(400);
    let d = build_document(&meta("/a/x.txt", "txt", 800, 7), Some(text.clone()));
    assert_eq!(d.content.as_deref(), Some(text.as_str()));
    let s = d.summary.unwrap();
    assert_eq!(s.chars().count(), SUMMARY_CHARS);
    assert_eq!(s, "é".repeat(300));
    assert_eq!(d.name, "x.txt");
    assert_eq!(d.size, 800);
    assert_eq!(d.modified_ts, 7);
}

#[test]
fn empty_text_has_content_but_no_summary() {
    let d = build_document(&meta("/a/x.txt", "txt", 0, 0), Some(String::new()));
    assert_eq!(d.content.as_deref(), Some(""));
    assert!(d.summary.is_none());
    let short = build_document(&meta("/a/y.txt", "txt", 2, 0), Some("hi".to_string()));
    assert_eq!(short.summary.as_deref(), Some("hi"));
}

#[test]
fn undecodable_content_is_left_out() {
    assert!(decode_text(vec![0xff, 0xfe]).is_none());
    assert_eq!(decode_text("héllo".as_bytes().to_vec()).as_deref(), Some("héllo"));
    let m = meta("/a/x.txt", "txt", 2, 0);
    let d = document_for(&m, true, Decoding::Strict, Some(vec![0xc3, 0x28]));
    assert!(d.content.is_none() && d.summary.is_none());
    assert_eq!(d.path, "/a/x.txt");
    let d = document_for(&m, true, Decoding::Strict, Some(b"plain".to_vec()));
    assert_eq!(d.content.as_deref(), Some("plain"));
    let d = document_for(&m, false, Decoding::Strict, Some(b"plain".to_vec()));
    assert!(d.content.is_none());
    let bin = meta("/a/x.bin", "bin", 2, 0);
    assert!(document_for(&bin, true, Decoding::Lossy, Some(b"plain".to_vec())).content.is_none());
}

#[test]
fn upsert_is_delete_add_commit() {
    let ops = upsert_ops(build_document(&meta("/a/x.txt", "txt", 1, 1), None));
    assert_eq!(ops.len(), 3);
    assert!(matches!(&ops[0], WriterOp::DeletePath(p) if p == "/a/x.txt"));
    assert!(matches!(&ops[1], WriterOp::Add(d) if d.path == "/a/x.txt"));
    assert!(matches!(ops[2], WriterOp::Commit));
}

#[test]
fn indexing_a_path_twice_keeps_one_latest_document() {
    let mut docs = Vec::new();
    let mut pending = Vec::new();
    apply(&mut docs, &mut pending, upsert_ops(build_document(&meta("/a/other.txt", "txt", 9, 9), None)));
    apply(&mut docs, &mut pending, upsert_ops(build_document(&meta("/a/x.txt", "txt", 1, 100), Some("old".into()))));
    apply(&mut docs, &mut pending, upsert_ops(build_document(&meta("/a/x.txt", "txt", 2, 200), Some("new".into()))));
    let same: Vec<&IndexDocument> = docs.iter().filter(|d| d.path == "/a/x.txt").collect();
    assert_eq!(same.len(), 1);
    assert_eq!(same[0].size, 2);
    assert_eq!(same[0].modified_ts, 200);
    assert_eq!(same[0].content.as_deref(), Some("new"));
    assert_eq!(docs.len(), 2);
}

#[test]
fn batch_replaces_each_path_then_commits_once() {
    let docs = vec![
        build_document(&meta("/a/1.txt", "txt", 1, 1), None),
        build_document(&meta("/a/2.txt", "txt", 1, 1), None),
    ];
    let ops = batch_ops(docs);
    assert_eq!(ops.len(), 5);
    assert!(matches!(&ops[0], WriterOp::DeletePath(p) if p == "/a/1.txt"));
    assert!(matches!(&ops[1], WriterOp::Add(d) if d.path == "/a/1.txt"));
    assert!(matches!(&ops[2], WriterOp::DeletePath(p) if p == "/a/2.txt"));
    assert!(matches!(&ops[3], WriterOp::Add(d) if d.path == "/a/2.txt"));
    assert!(matches!(ops[4], WriterOp::Commit));
    assert_eq!(batch_ops(Vec::new()).len(), 1);
}

#[test]
fn batch_with_repeated_path_keeps_the_later_document() {
    let mut docs = Vec::new();
    let mut pending = Vec::new();
    apply(&mut docs, &mut pending, upsert_ops(build_document(&meta("/a/x.txt", "txt", 5, 5), None)));
    let batch = vec![
        build_document(&meta("/a/x.txt", "txt", 1, 10), None),
        build_document(&meta("/a/y.txt", "txt", 3, 30), None),
        build_document(&meta("/a/x.txt", "txt", 2, 20), None),
    ];
    apply(&mut docs, &mut pending, batch_ops(batch));
    assert!(pending.is_empty());
    let xs: Vec<&IndexDocument> = docs.iter().filter(|d| d.path == "/a/x.txt").collect();
    assert_eq!(xs.len(), 1);
    assert_eq!(xs[0].size, 2);
    assert_eq!(xs[0].modified_ts, 20);
    assert_eq!(docs.len(), 2);
}

#[test]
fn lossy_mode_replaces_invalid_bytes() {
    assert_eq!(decode_text_lossy(&[0x61, 0xff, 0x62]), "a\u{fffd}b");
    assert_eq!(decode_text_lossy("héllo".as_bytes()), "héllo");
    let m = meta("/a/x.txt", "txt", 3, 0);
    let d = document_for(&m, true, Decoding::Lossy, Some(vec![0x61, 0xc3, 0x28]));
    assert_eq!(d.content.as_deref(), Some("a\u{fffd}("));
    assert_eq!(d.summary.as_deref(), Some("a\u{fffd}("));
    let d = document_for(&m, true, Decoding::Strict, Some(vec![0x61, 0xc3, 0x28]));
    assert!(d.content.is_none());
    assert!(document_for(&m, true, Decoding::Lossy, None).content.is_none());
}
