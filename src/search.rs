//! Query post-processing: the engine returns the best-ranked hits, at most
//! [`RESULT_LIMIT`] of them, and the filters are applied to that window only.
//! Hits that a filter rejects still use up places in the window.

use vstd::prelude::*;

use crate::text::{eq_ignore_ascii_case, eq_ignore_ascii_case_seq};

verus! {

/// Number of best-ranked hits fetched from the index per query.
pub const RESULT_LIMIT: usize = 50;

/// Optional filters of a query.
pub struct SearchFilters {
    /// Allowed extensions, ignoring ASCII case; none or an empty list allows all.
    pub ext: Option<Vec<String>>,
    pub min_size: Option<u64>,
    pub max_size: Option<u64>,
}

/// A query: text in the engine's query syntax, filters, and the index to search.
pub struct QueryRequest {
    pub query: String,
    pub filters: Option<SearchFilters>,
    pub index_dir: String,
}

/// The stored fields of one hit; a field the document lacks is empty or absent.
pub struct StoredHit {
    pub path: String,
    pub name: String,
    pub ext: String,
    pub size: Option<u64>,
    pub modified_ts: Option<i64>,
    pub summary: Option<String>,
}

/// `ext` is allowed by the extension list.
pub open spec fn ext_allowed(exts: Option<Vec<String>>, ext: Seq<char>) -> bool {
    match exts {
        Some(list) => list@.len() == 0 || exists|k: int|
            0 <= k < list@.len() && eq_ignore_ascii_case_seq(#[trigger] list@[k]@, ext),
        None => true,
    }
}

/// A known size respects a lower bound, when there is one.
pub open spec fn at_least(size: Option<u64>, lo: Option<u64>) -> bool {
    match (size, lo) {
        (Some(sz), Some(lo)) => sz >= lo,
        _ => true,
    }
}

/// A known size respects an upper bound, when there is one.
pub open spec fn at_most(size: Option<u64>, hi: Option<u64>) -> bool {
    match (size, hi) {
        (Some(sz), Some(hi)) => sz <= hi,
        _ => true,
    }
}

/// A hit passes the filters. A hit without a size passes both size bounds.
pub open spec fn passes(h: StoredHit, filters: Option<SearchFilters>) -> bool {
    match filters {
        Some(f) => {
            &&& ext_allowed(f.ext, h.ext@)
            &&& at_least(h.size, f.min_size)
            &&& at_most(h.size, f.max_size)
        },
        None => true,
    }
}

fn ext_in_list(list: &Vec<String>, ext: &str) -> (r: bool)
    ensures
        r == exists|k: int| 0 <= k < list@.len() && eq_ignore_ascii_case_seq(#[trigger] list@[k]@, ext@),
{
    let mut k: usize = 0;
    while k < list.len()
        invariant
            k <= list@.len(),
            forall|j: int| 0 <= j < k ==> !eq_ignore_ascii_case_seq(#[trigger] list@[j]@, ext@),
        decreases list@.len() - k,
    {
        if eq_ignore_ascii_case(list[k].as_str(), ext) {
            return true;
        }
        k = k + 1;
    }
    false
}

/// Whether a hit passes the filters.
pub fn passes_filters(h: &StoredHit, filters: &Option<SearchFilters>) -> (r: bool)
    ensures
        r == passes(*h, *filters),
{
    match filters {
        None => true,
        Some(f) => {
            let ext_ok = match &f.ext {
                Some(list) => list.len() == 0 || ext_in_list(list, h.ext.as_str()),
                None => true,
            };
            let min_ok = match (f.min_size, h.size) {
                (Some(lo), Some(sz)) => sz >= lo,
                _ => true,
            };
            let max_ok = match (f.max_size, h.size) {
                (Some(hi), Some(sz)) => sz <= hi,
                _ => true,
            };
            ext_ok && min_ok && max_ok
        },
    }
}

/// Positions, among the first `n` hits, of those that pass the filters, in rank order.
pub open spec fn kept(hits: Seq<StoredHit>, filters: Option<SearchFilters>, n: int) -> Seq<int>
    decreases n,
{
    if n <= 0 {
        Seq::empty()
    } else {
        let prev = kept(hits, filters, n - 1);
        if passes(hits[n - 1], filters) {
            prev.push(n - 1)
        } else {
            prev
        }
    }
}

/// The size of the result window for `len` ranked hits.
pub open spec fn window(len: int) -> int {
    if len <= RESULT_LIMIT {
        len
    } else {
        RESULT_LIMIT as int
    }
}

proof fn lemma_kept_bounds(hits: Seq<StoredHit>, filters: Option<SearchFilters>, n: int)
    requires
        n >= 0,
    ensures
        kept(hits, filters, n).len() <= n,
        forall|k: int|
            0 <= k < kept(hits, filters, n).len() ==> 0 <= #[trigger] kept(hits, filters, n)[k] < n,
    decreases n,
{
    if n > 0 {
        lemma_kept_bounds(hits, filters, n - 1);
    }
}

/// Positions of the hits returned for a ranked list: those of the first
/// [`RESULT_LIMIT`] that pass the filters, best first.
pub fn select_hits(hits: &Vec<StoredHit>, filters: &Option<SearchFilters>) -> (r: Vec<usize>)
    ensures
        r@.map_values(|i: usize| i as int) == kept(hits@, *filters, window(hits@.len() as int)),
        r@.len() <= RESULT_LIMIT,
        forall|k: int| 0 <= k < r@.len() ==> #[trigger] r@[k] < RESULT_LIMIT,
{
    let n: usize = if hits.len() <= RESULT_LIMIT {
        hits.len()
    } else {
        RESULT_LIMIT
    };
    let mut r: Vec<usize> = Vec::new();
    let mut i: usize = 0;
    while i < n
        invariant
            i <= n,
            n as int == window(hits@.len() as int),
            r@.map_values(|i: usize| i as int) == kept(hits@, *filters, i as int),
        decreases n - i,
    {
        if passes_filters(&hits[i], filters) {
            r.push(i);
            proof {
                assert(r@.map_values(|i: usize| i as int) =~= kept(hits@, *filters, i as int).push(
                    i as int,
                ));
            }
        }
        i = i + 1;
    }
    proof {
        lemma_kept_bounds(hits@, *filters, n as int);
        assert forall|k: int| 0 <= k < r@.len() implies #[trigger] r@[k] < RESULT_LIMIT by {
            assert(r@.map_values(|i: usize| i as int)[k] == r@[k] as int);
        }
    }
    r
}

/// Filtering happens after the cut-off: however many hits qualify, the results
/// are at most the qualifying hits within the first [`RESULT_LIMIT`] ranks.
pub proof fn lemma_filter_after_cutoff(hits: Seq<StoredHit>, filters: Option<SearchFilters>)
    ensures
        kept(hits, filters, window(hits.len() as int)).len() <= RESULT_LIMIT,
        kept(hits, filters, window(hits.len() as int)) == kept(
            hits.take(window(hits.len() as int)),
            filters,
            window(hits.len() as int),
        ),
{
    let w = window(hits.len() as int);
    lemma_kept_bounds(hits, filters, w);
    lemma_kept_prefix(hits, filters, w);
}

/// Positions, among the first `n` hits, of those that fail the filters.
pub open spec fn rejected(hits: Seq<StoredHit>, filters: Option<SearchFilters>, n: int) -> Seq<int>
    decreases n,
{
    if n <= 0 {
        Seq::empty()
    } else {
        let prev = rejected(hits, filters, n - 1);
        if passes(hits[n - 1], filters) {
            prev
        } else {
            prev.push(n - 1)
        }
    }
}

proof fn lemma_kept_rejected(hits: Seq<StoredHit>, filters: Option<SearchFilters>, n: int)
    requires
        n >= 0,
    ensures
        kept(hits, filters, n).len() + rejected(hits, filters, n).len() == n,
    decreases n,
{
    if n > 0 {
        lemma_kept_rejected(hits, filters, n - 1);
    }
}

proof fn lemma_kept_grows(hits: Seq<StoredHit>, filters: Option<SearchFilters>, n: int, m: int)
    requires
        0 <= n <= m,
    ensures
        kept(hits, filters, n).len() <= kept(hits, filters, m).len(),
        (exists|i: int| n <= i < m && passes(#[trigger] hits[i], filters)) ==> kept(
            hits,
            filters,
            n,
        ).len() < kept(hits, filters, m).len(),
    decreases m - n,
{
    if n < m {
        lemma_kept_grows(hits, filters, n, m - 1);
        if exists|i: int| n <= i < m && passes(#[trigger] hits[i], filters) {
            let i = choose|i: int| n <= i < m && passes(#[trigger] hits[i], filters);
            if i < m - 1 {
                assert(n <= i < m - 1 && passes(hits[i], filters));
            }
        }
    }
}

/// Clipping by the cut-off: with at least [`RESULT_LIMIT`] ranked hits, the
/// results number [`RESULT_LIMIT`] less the hits among the first ones that the
/// filters reject; and when a qualifying hit ranks below the cut-off, fewer hits
/// are returned than qualify.
pub proof fn lemma_clipped_count(hits: Seq<StoredHit>, filters: Option<SearchFilters>)
    requires
        hits.len() >= RESULT_LIMIT,
    ensures
        kept(hits, filters, window(hits.len() as int)).len() == RESULT_LIMIT - rejected(
            hits,
            filters,
            RESULT_LIMIT as int,
        ).len(),
        kept(hits, filters, window(hits.len() as int)).len() <= kept(hits, filters, hits.len() as int).len(),
        (exists|i: int| RESULT_LIMIT <= i < hits.len() && passes(#[trigger] hits[i], filters)) ==> kept(
            hits,
            filters,
            window(hits.len() as int),
        ).len() < kept(hits, filters, hits.len() as int).len(),
{
    lemma_kept_rejected(hits, filters, RESULT_LIMIT as int);
    lemma_kept_grows(hits, filters, RESULT_LIMIT as int, hits.len() as int);
}

proof fn lemma_kept_prefix(hits: Seq<StoredHit>, filters: Option<SearchFilters>, n: int)
    requires
        0 <= n <= hits.len(),
    ensures
        kept(hits, filters, n) == kept(hits.take(n), filters, n),
{
    lemma_kept_prefix_upto(hits, filters, n, n);
}

proof fn lemma_kept_prefix_upto(hits: Seq<StoredHit>, filters: Option<SearchFilters>, n: int, m: int)
    requires
        0 <= m <= n <= hits.len(),
    ensures
        kept(hits, filters, m) == kept(hits.take(n), filters, m),
    decreases m,
{
    if m > 0 {
        lemma_kept_prefix_upto(hits, filters, n, m - 1);
        assert(hits.take(n)[m - 1] == hits[m - 1]);
    }
}

} // verus!
