//! Index documents and the writer operations that put them into the index.
//!
//! The on-disk index is driven by a sequence of [`WriterOp`]s. Its committed
//! contents are modelled as a sequence of document views: a delete removes every
//! document with the given path, an add appends, and a commit makes the pending
//! operations visible in the order in which they were issued.

use vstd::prelude::*;
use vstd::utf8::{decode_utf8, valid_utf8};

use crate::scanner::{FileMeta, FileMetaView};
use crate::text::{eq_ignore_ascii_case, eq_ignore_ascii_case_seq, take_chars, take_chars_seq};

verus! {

/// At most this many bytes of a file are read for its content.
pub const CONTENT_READ_LIMIT: usize = 1000000;

/// Length of the stored summary, in characters.
pub const SUMMARY_CHARS: usize = 300;

/// Options of an index build.
pub struct IndexOptions {
    pub index_dir: String,
    pub enable_content_parse: bool,
}

/// Value type of a schema field.
#[derive(PartialEq, Eq, Structural, Clone, Copy, Debug)]
pub enum FieldKind {
    Text,
    U64,
    I64,
}

/// One field of the index schema with its capability flags.
pub struct FieldSpec {
    pub name: String,
    pub kind: FieldKind,
    pub stored: bool,
    pub indexed: bool,
}

pub struct FieldSpecView {
    pub name: Seq<char>,
    pub kind: FieldKind,
    pub stored: bool,
    pub indexed: bool,
}

impl View for FieldSpec {
    type V = FieldSpecView;

    open spec fn view(&self) -> FieldSpecView {
        FieldSpecView { name: self.name@, kind: self.kind, stored: self.stored, indexed: self.indexed }
    }
}

pub open spec fn field(name: Seq<char>, kind: FieldKind, stored: bool, indexed: bool) -> FieldSpecView {
    FieldSpecView { name, kind, stored, indexed }
}

/// The fixed field layout of every index directory.
pub open spec fn schema_table() -> Seq<FieldSpecView> {
    seq![
        field("path"@, FieldKind::Text, true, true),
        field("name"@, FieldKind::Text, true, true),
        field("ext"@, FieldKind::Text, true, false),
        field("content"@, FieldKind::Text, false, true),
        field("summary"@, FieldKind::Text, true, false),
        field("size"@, FieldKind::U64, true, false),
        field("modified_ts"@, FieldKind::I64, true, false),
    ]
}

fn field_spec(name: &str, kind: FieldKind, stored: bool, indexed: bool) -> (r: FieldSpec)
    ensures
        r@ == field(name@, kind, stored, indexed),
{
    FieldSpec { name: name.to_owned(), kind, stored, indexed }
}

/// The index schema, field by field.
pub fn index_schema() -> (r: Vec<FieldSpec>)
    ensures
        r@.map_values(|f: FieldSpec| f@) == schema_table(),
{
    let r = vec![
        field_spec("path", FieldKind::Text, true, true),
        field_spec("name", FieldKind::Text, true, true),
        field_spec("ext", FieldKind::Text, true, false),
        field_spec("content", FieldKind::Text, false, true),
        field_spec("summary", FieldKind::Text, true, false),
        field_spec("size", FieldKind::U64, true, false),
        field_spec("modified_ts", FieldKind::I64, true, false),
    ];
    proof {
        assert(r@.map_values(|f: FieldSpec| f@) =~= schema_table());
    }
    r
}

/// Extensions whose files are read for their text.
pub open spec fn text_like_exts() -> Seq<Seq<char>> {
    seq!["txt"@, "md"@, "csv"@, "log"@, "json"@, "xml"@, "ini"@, "conf"@, "yaml"@, "yml"@]
}

/// `ext` names a text-like file type, ignoring ASCII case.
pub open spec fn text_like(ext: Seq<char>) -> bool {
    exists|k: int|
        0 <= k < text_like_exts().len() && eq_ignore_ascii_case_seq(
            #[trigger] text_like_exts()[k],
            ext,
        )
}

/// Whether files with extension `ext` are read for their text.
pub fn is_text_like(ext: &str) -> (r: bool)
    ensures
        r == text_like(ext@),
{
    let list: Vec<&str> = vec!["txt", "md", "csv", "log", "json", "xml", "ini", "conf", "yaml", "yml"];
    assert(list@.map_values(|s: &str| s@) =~= text_like_exts());
    let mut k: usize = 0;
    while k < list.len()
        invariant
            k <= list@.len(),
            list@.map_values(|s: &str| s@) == text_like_exts(),
            forall|j: int|
                0 <= j < k ==> !eq_ignore_ascii_case_seq(#[trigger] text_like_exts()[j], ext@),
        decreases list@.len() - k,
    {
        assert(list@.map_values(|s: &str| s@)[k as int] == list@[k as int]@);
        if eq_ignore_ascii_case(list[k], ext) {
            return true;
        }
        k = k + 1;
    }
    false
}

/// Content is extracted when parsing is enabled and the extension is text-like.
pub fn wants_content(enable_content_parse: bool, ext: &str) -> (r: bool)
    ensures
        r == (enable_content_parse && text_like(ext@)),
{
    enable_content_parse && is_text_like(ext)
}

/// Relies on `String::from_utf8`: it succeeds exactly on valid UTF-8 and then holds
/// the decoded characters.
#[verifier::external_body]
fn utf8_text(bytes: Vec<u8>) -> (r: Option<String>)
    ensures
        r.is_some() == valid_utf8(bytes@),
        r.is_some() ==> r->0@ == decode_utf8(bytes@),
{
    String::from_utf8(bytes).ok()
}

/// The text of a file's leading bytes, when they are valid UTF-8: strict
/// decoding, where bytes that are not valid UTF-8 give no text.
pub fn decode_text(bytes: Vec<u8>) -> (r: Option<String>)
    ensures
        r.is_some() == valid_utf8(bytes@),
        r.is_some() ==> r->0@ == decode_utf8(bytes@),
{
    utf8_text(bytes)
}

/// What `String::from_utf8_lossy` makes of a byte sequence: its UTF-8 text with
/// each invalid sequence replaced by U+FFFD.
pub uninterp spec fn lossy_text_of(b: Seq<u8>) -> Seq<char>;

/// Relies on `String::from_utf8_lossy`: the text with invalid sequences replaced,
/// a function of the bytes alone, and exactly the decoded text when the bytes are
/// valid UTF-8.
#[verifier::external_body]
fn utf8_text_lossy(bytes: &[u8]) -> (r: String)
    ensures
        r@ == lossy_text_of(bytes@),
        valid_utf8(bytes@) ==> r@ == decode_utf8(bytes@),
{
    String::from_utf8_lossy(bytes).into_owned()
}

/// The text of a file's leading bytes with invalid UTF-8 sequences replaced:
/// lossy decoding, which always gives text.
pub fn decode_text_lossy(bytes: &[u8]) -> (r: String)
    ensures
        r@ == lossy_text_of(bytes@),
        valid_utf8(bytes@) ==> r@ == decode_utf8(bytes@),
{
    utf8_text_lossy(bytes)
}

/// How file bytes become content text.
#[derive(PartialEq, Eq, Structural, Clone, Copy, Debug)]
pub enum Decoding {
    /// Invalid UTF-8 gives no content (streaming and progress builds).
    Strict,
    /// Invalid sequences are replaced (the plain batch build).
    Lossy,
}

/// The text decoded from `b` in the given mode.
pub open spec fn decoded(mode: Decoding, b: Seq<u8>) -> Option<Seq<char>> {
    match mode {
        Decoding::Strict => if valid_utf8(b) {
            Some(decode_utf8(b))
        } else {
            None
        },
        Decoding::Lossy => Some(lossy_text_of(b)),
    }
}

/// A document of the index.
pub struct IndexDocument {
    pub path: String,
    pub name: String,
    pub ext: String,
    pub size: u64,
    pub modified_ts: i64,
    /// Full text, indexed but not stored.
    pub content: Option<String>,
    /// Leading characters of the content, stored for display.
    pub summary: Option<String>,
}

pub struct DocView {
    pub path: Seq<char>,
    pub name: Seq<char>,
    pub ext: Seq<char>,
    pub size: u64,
    pub modified_ts: i64,
    pub content: Option<Seq<char>>,
    pub summary: Option<Seq<char>>,
}

pub open spec fn opt_view(o: Option<String>) -> Option<Seq<char>> {
    match o {
        Some(s) => Some(s@),
        None => None,
    }
}

impl View for IndexDocument {
    type V = DocView;

    open spec fn view(&self) -> DocView {
        DocView {
            path: self.path@,
            name: self.name@,
            ext: self.ext@,
            size: self.size,
            modified_ts: self.modified_ts,
            content: opt_view(self.content),
            summary: opt_view(self.summary),
        }
    }
}

/// The summary stored for a content text: its first characters, none for empty text.
pub open spec fn summary_of(text: Option<Seq<char>>) -> Option<Seq<char>> {
    match text {
        Some(t) => if t.len() > 0 {
            Some(take_chars_seq(t, SUMMARY_CHARS as nat))
        } else {
            None
        },
        None => None,
    }
}

/// The document indexed for a record and its content text.
pub open spec fn document_of(m: FileMetaView, text: Option<Seq<char>>) -> DocView {
    DocView {
        path: m.path,
        name: m.file_name,
        ext: m.ext,
        size: m.size,
        modified_ts: m.modified_ts,
        content: text,
        summary: summary_of(text),
    }
}

/// Builds the document for `meta` with its content text, if any.
pub fn build_document(meta: &FileMeta, text: Option<String>) -> (r: IndexDocument)
    ensures
        r@ == document_of(meta@, opt_view(text)),
{
    let summary = match &text {
        Some(t) => {
            let s = take_chars(t.as_str(), SUMMARY_CHARS);
            if t.as_str().unicode_len() > 0 {
                Some(s)
            } else {
                None
            }
        },
        None => None,
    };
    IndexDocument {
        path: meta.path.clone(),
        name: meta.file_name.clone(),
        ext: meta.ext.clone(),
        size: meta.size,
        modified_ts: meta.modified_ts,
        content: text,
        summary,
    }
}

/// The content text of a file: decoded from its leading bytes in the given mode
/// when content is wanted for it and the bytes could be read.
pub open spec fn content_text(enable: bool, mode: Decoding, m: FileMetaView, bytes: Option<Seq<u8>>) -> Option<
    Seq<char>,
> {
    if enable && text_like(m.ext) {
        match bytes {
            Some(b) => decoded(mode, b),
            None => None,
        }
    } else {
        None
    }
}

pub open spec fn bytes_view(o: Option<Vec<u8>>) -> Option<Seq<u8>> {
    match o {
        Some(b) => Some(b@),
        None => None,
    }
}

/// The document for `meta`, given the bytes read from the file (none when it could
/// not be read or was not read), decoded in the given mode.
pub fn document_for(
    meta: &FileMeta,
    enable_content_parse: bool,
    mode: Decoding,
    bytes: Option<Vec<u8>>,
) -> (r: IndexDocument)
    ensures
        r@ == document_of(
            meta@,
            content_text(enable_content_parse, mode, meta@, bytes_view(bytes)),
        ),
{
    let text = if wants_content(enable_content_parse, meta.ext.as_str()) {
        match bytes {
            Some(b) => match mode {
                Decoding::Strict => decode_text(b),
                Decoding::Lossy => Some(decode_text_lossy(b.as_slice())),
            },
            None => None,
        }
    } else {
        None
    };
    build_document(meta, text)
}

} // verus!
