//! Writer operations and their effect on the committed contents of an index.
//!
//! Streaming mode issues an upsert per document (delete by path, add, commit);
//! batch mode replaces the document of every path in turn and commits once.

use vstd::prelude::*;

use crate::indexer::{DocView, IndexDocument};

verus! {

/// One operation handed to the index writer.
pub enum WriterOp {
    /// Delete every document whose path term is this path.
    DeletePath(String),
    /// Add a document.
    Add(IndexDocument),
    /// Make every operation issued so far visible and durable.
    Commit,
}

pub enum OpView {
    DeletePath(Seq<char>),
    Add(DocView),
    Commit,
}

impl View for WriterOp {
    type V = OpView;

    open spec fn view(&self) -> OpView {
        match self {
            WriterOp::DeletePath(p) => OpView::DeletePath(p@),
            WriterOp::Add(d) => OpView::Add(d@),
            WriterOp::Commit => OpView::Commit,
        }
    }
}

pub open spec fn ops_view(s: Seq<WriterOp>) -> Seq<OpView> {
    s.map_values(|o: WriterOp| o@)
}

/// The documents of `docs` whose path is `p`, in order.
pub open spec fn with_path(docs: Seq<DocView>, p: Seq<char>) -> Seq<DocView>
    decreases docs.len(),
{
    if docs.len() == 0 {
        Seq::empty()
    } else {
        let prev = with_path(docs.drop_last(), p);
        if docs.last().path == p {
            prev.push(docs.last())
        } else {
            prev
        }
    }
}

/// `docs` without the documents whose path is `p`.
pub open spec fn without_path(docs: Seq<DocView>, p: Seq<char>) -> Seq<DocView>
    decreases docs.len(),
{
    if docs.len() == 0 {
        Seq::empty()
    } else {
        let prev = without_path(docs.drop_last(), p);
        if docs.last().path == p {
            prev
        } else {
            prev.push(docs.last())
        }
    }
}

/// The effect of one delete or add on a document sequence.
pub open spec fn apply_op(docs: Seq<DocView>, op: OpView) -> Seq<DocView> {
    match op {
        OpView::DeletePath(p) => without_path(docs, p),
        OpView::Add(d) => docs.push(d),
        OpView::Commit => docs,
    }
}

/// The effect of `ops`, in order.
pub open spec fn apply_ops(docs: Seq<DocView>, ops: Seq<OpView>) -> Seq<DocView>
    decreases ops.len(),
{
    if ops.len() == 0 {
        docs
    } else {
        apply_op(apply_ops(docs, ops.drop_last()), ops.last())
    }
}

/// An index: what readers see, and what was issued since the last commit.
pub struct IndexState {
    pub committed: Seq<DocView>,
    pub pending: Seq<OpView>,
}

/// The index after one more operation.
pub open spec fn step(st: IndexState, op: OpView) -> IndexState {
    match op {
        OpView::Commit => IndexState {
            committed: apply_ops(st.committed, st.pending),
            pending: Seq::empty(),
        },
        _ => IndexState { committed: st.committed, pending: st.pending.push(op) },
    }
}

/// The index after `ops`, in order.
pub open spec fn run(st: IndexState, ops: Seq<OpView>) -> IndexState
    decreases ops.len(),
{
    if ops.len() == 0 {
        st
    } else {
        step(run(st, ops.drop_last()), ops.last())
    }
}

/// The operations of one upsert.
pub open spec fn upsert_view(d: DocView) -> Seq<OpView> {
    seq![OpView::DeletePath(d.path), OpView::Add(d), OpView::Commit]
}

/// The operations of a batch build before its commit: for each document in turn,
/// a delete of its path and its add.
pub open spec fn batch_pending(docs: Seq<DocView>) -> Seq<OpView>
    decreases docs.len(),
{
    if docs.len() == 0 {
        Seq::empty()
    } else {
        batch_pending(docs.drop_last()).push(OpView::DeletePath(docs.last().path)).push(
            OpView::Add(docs.last()),
        )
    }
}

/// The operations of a batch build: delete and add per document, then one commit.
pub open spec fn batch_view(docs: Seq<DocView>) -> Seq<OpView> {
    batch_pending(docs).push(OpView::Commit)
}

/// The last document of `docs` whose path is `p`, if any.
pub open spec fn last_with_path(docs: Seq<DocView>, p: Seq<char>) -> Option<DocView>
    decreases docs.len(),
{
    if docs.len() == 0 {
        None
    } else if docs.last().path == p {
        Some(docs.last())
    } else {
        last_with_path(docs.drop_last(), p)
    }
}

/// No two documents share a path.
pub open spec fn unique_paths(docs: Seq<DocView>) -> bool {
    forall|p: Seq<char>| #[trigger] with_path(docs, p).len() <= 1
}

/// Operations that replace the document for `doc.path` with `doc` and commit.
pub fn upsert_ops(doc: IndexDocument) -> (r: Vec<WriterOp>)
    ensures
        ops_view(r@) == upsert_view(doc@),
{
    let p = doc.path.clone();
    let r = vec![WriterOp::DeletePath(p), WriterOp::Add(doc), WriterOp::Commit];
    proof {
        assert(ops_view(r@) =~= upsert_view(doc@));
    }
    r
}

/// Operations that, for every document in order, delete the documents with its
/// path and add it, and then commit once.
pub fn batch_ops(docs: Vec<IndexDocument>) -> (r: Vec<WriterOp>)
    ensures
        ops_view(r@) == batch_view(docs@.map_values(|d: IndexDocument| d@)),
{
    let ghost dv = docs@.map_values(|d: IndexDocument| d@);
    let mut r: Vec<WriterOp> = Vec::new();
    for d in it: docs
        invariant
            it.seq() == docs@,
            dv == docs@.map_values(|d: IndexDocument| d@),
            ops_view(r@) == batch_pending(dv.take(it.index() as int)),
    {
        let ghost before = r@;
        let ghost k = it.index() as int;
        let p = d.path.clone();
        r.push(WriterOp::DeletePath(p));
        r.push(WriterOp::Add(d));
        proof {
            let t1 = dv.take(k + 1);
            assert(t1.drop_last() =~= dv.take(k));
            assert(t1.last() == dv[k]);
            assert(ops_view(r@) =~= ops_view(before).push(OpView::DeletePath(dv[k].path)).push(
                OpView::Add(dv[k]),
            ));
        }
    }
    let ghost before = r@;
    r.push(WriterOp::Commit);
    proof {
        assert(dv.take(dv.len() as int) =~= dv);
        assert(ops_view(r@) =~= ops_view(before).push(OpView::Commit));
    }
    r
}

proof fn lemma_with_path_without(docs: Seq<DocView>, p: Seq<char>)
    ensures
        with_path(without_path(docs, p), p) == Seq::<DocView>::empty(),
        forall|q: Seq<char>| q != p ==> #[trigger] with_path(without_path(docs, p), q) == with_path(docs, q),
    decreases docs.len(),
{
    if docs.len() > 0 {
        lemma_with_path_without(docs.drop_last(), p);
        let prev = without_path(docs.drop_last(), p);
        if docs.last().path != p {
            assert(prev.push(docs.last()).drop_last() =~= prev);
        }
        assert forall|q: Seq<char>| q != p implies #[trigger] with_path(without_path(docs, p), q)
            == with_path(docs, q) by {
            assert(with_path(prev, q) == with_path(docs.drop_last(), q));
        }
    }
}

proof fn lemma_with_path_push(docs: Seq<DocView>, d: DocView)
    ensures
        with_path(docs.push(d), d.path) == with_path(docs, d.path).push(d),
        forall|q: Seq<char>| q != d.path ==> #[trigger] with_path(docs.push(d), q) == with_path(docs, q),
{
    assert(docs.push(d).drop_last() =~= docs);
}

/// One upsert leaves exactly one document with its path, the one it added, and
/// leaves the documents of every other path as the pending operations had them.
pub proof fn lemma_upsert_replaces(st: IndexState, d: DocView)
    ensures
        run(st, upsert_view(d)).pending.len() == 0,
        with_path(run(st, upsert_view(d)).committed, d.path) == seq![d],
        forall|q: Seq<char>|
            q != d.path ==> #[trigger] with_path(run(st, upsert_view(d)).committed, q) == with_path(
                apply_ops(st.committed, st.pending),
                q,
            ),
{
    let ops = upsert_view(d);
    let one = seq![ops[0]];
    let two = seq![ops[0], ops[1]];
    assert(one.drop_last() =~= Seq::<OpView>::empty());
    assert(two.drop_last() =~= one);
    assert(ops.drop_last() =~= two);
    let s1 = step(st, ops[0]);
    let s2 = step(s1, ops[1]);
    assert(one.last() == ops[0]);
    assert(two.last() == ops[1]);
    assert(run(st, one.drop_last()) == st);
    assert(run(st, one) == s1);
    assert(run(st, two) == s2);
    let pend = st.pending.push(OpView::DeletePath(d.path)).push(OpView::Add(d));
    assert(s2.pending == pend);
    assert(pend.drop_last() =~= st.pending.push(OpView::DeletePath(d.path)));
    assert(st.pending.push(OpView::DeletePath(d.path)).drop_last() =~= st.pending);
    let base = apply_ops(st.committed, st.pending);
    let cleared = without_path(base, d.path);
    assert(apply_ops(st.committed, pend) == cleared.push(d));
    lemma_with_path_without(base, d.path);
    lemma_with_path_push(cleared, d);
    assert(with_path(cleared, d.path).push(d) =~= seq![d]);
}

/// Indexing the same path twice leaves exactly one document for it, with the
/// field values of the second document.
pub proof fn lemma_upsert_idempotent(st: IndexState, first: DocView, second: DocView)
    requires
        first.path == second.path,
    ensures
        with_path(run(run(st, upsert_view(first)), upsert_view(second)).committed, second.path)
            == seq![second],
{
    lemma_upsert_replaces(run(st, upsert_view(first)), second);
}

/// An upsert on a committed index keeps at most one live document per path.
pub proof fn lemma_upsert_keeps_paths_unique(st: IndexState, d: DocView)
    requires
        st.pending.len() == 0,
        unique_paths(st.committed),
    ensures
        unique_paths(run(st, upsert_view(d)).committed),
{
    lemma_upsert_replaces(st, d);
    assert(apply_ops(st.committed, st.pending) == st.committed);
    let after = run(st, upsert_view(d)).committed;
    assert forall|p: Seq<char>| #[trigger] with_path(after, p).len() <= 1 by {
        if p != d.path {
            assert(with_path(after, p) == with_path(st.committed, p));
        }
    }
}

proof fn lemma_batch_pending_no_commit(docs: Seq<DocView>)
    ensures
        forall|k: int|
            0 <= k < batch_pending(docs).len() ==> !(#[trigger] batch_pending(docs)[k] is Commit),
    decreases docs.len(),
{
    if docs.len() > 0 {
        lemma_batch_pending_no_commit(docs.drop_last());
        let prev = batch_pending(docs.drop_last());
        let all = batch_pending(docs);
        assert forall|k: int| 0 <= k < all.len() implies !(#[trigger] all[k] is Commit) by {
            if k < prev.len() {
                assert(all[k] == prev[k]);
            }
        }
    }
}

proof fn lemma_apply_batch(base: Seq<DocView>, docs: Seq<DocView>)
    ensures
        forall|p: Seq<char>|
            #[trigger] with_path(apply_ops(base, batch_pending(docs)), p) == match last_with_path(
                docs,
                p,
            ) {
                Some(d) => seq![d],
                None => with_path(base, p),
            },
    decreases docs.len(),
{
    if docs.len() > 0 {
        let dl = docs.drop_last();
        let d = docs.last();
        lemma_apply_batch(base, dl);
        let prev_ops = batch_pending(dl);
        let mid = prev_ops.push(OpView::DeletePath(d.path));
        let ops = batch_pending(docs);
        assert(ops.drop_last() =~= mid);
        assert(mid.drop_last() =~= prev_ops);
        let x = apply_ops(base, prev_ops);
        let cleared = without_path(x, d.path);
        assert(apply_ops(base, mid) == cleared);
        assert(apply_ops(base, ops) == cleared.push(d));
        lemma_with_path_without(x, d.path);
        lemma_with_path_push(cleared, d);
        assert(with_path(cleared, d.path).push(d) =~= seq![d]);
        assert forall|p: Seq<char>|
            #[trigger] with_path(apply_ops(base, ops), p) == match last_with_path(docs, p) {
                Some(e) => seq![e],
                None => with_path(base, p),
            } by {
            if p != d.path {
                assert(with_path(cleared, p) == with_path(x, p));
            }
        }
    }
}

proof fn lemma_run_pending_only(st: IndexState, ops: Seq<OpView>)
    requires
        forall|k: int| 0 <= k < ops.len() ==> !(#[trigger] ops[k] is Commit),
    ensures
        run(st, ops) == (IndexState { committed: st.committed, pending: st.pending + ops }),
    decreases ops.len(),
{
    if ops.len() > 0 {
        lemma_run_pending_only(st, ops.drop_last());
        assert(ops.last() == ops[ops.len() - 1]);
        assert((st.pending + ops.drop_last()).push(ops.last()) =~= st.pending + ops);
    }
}

/// A batch build on a committed index leaves, for every path, only the last
/// document of the batch with that path, and the index untouched for paths that
/// are not in the batch; so no path gains a second live document.
pub proof fn lemma_batch_build(st: IndexState, docs: Seq<DocView>)
    requires
        st.pending.len() == 0,
    ensures
        run(st, batch_view(docs)).pending.len() == 0,
        forall|p: Seq<char>|
            #[trigger] with_path(run(st, batch_view(docs)).committed, p) == match last_with_path(
                docs,
                p,
            ) {
                Some(d) => seq![d],
                None => with_path(st.committed, p),
            },
        unique_paths(st.committed) ==> unique_paths(run(st, batch_view(docs)).committed),
{
    let bp = batch_pending(docs);
    assert(batch_view(docs).drop_last() =~= bp);
    lemma_batch_pending_no_commit(docs);
    lemma_run_pending_only(st, bp);
    assert(st.pending + bp =~= bp);
    assert(apply_ops(st.committed, st.pending) == st.committed);
    lemma_apply_batch(st.committed, docs);
    let after = run(st, batch_view(docs)).committed;
    assert(after == apply_ops(st.committed, bp));
    if unique_paths(st.committed) {
        assert forall|p: Seq<char>| #[trigger] with_path(after, p).len() <= 1 by {
            assert(with_path(after, p) == match last_with_path(docs, p) {
                Some(d) => seq![d],
                None => with_path(st.committed, p),
            });
        }
    }
}

} // verus!
