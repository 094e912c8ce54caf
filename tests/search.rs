use searchevery::search::{passes_filters, select_hits, SearchFilters, StoredHit, RESULT_LIMIT};

fn hit(i: usize, ext: &str, size: Option<u64>) -> StoredHit {
    StoredHit {
        path: format!("/d/f{}.{}", i, ext),
        name: format!("f{}.{}", i, ext),
        ext: ext.to_string(),
        size,
        modified_ts: None,
        summary: None,
    }
}

#[test]
fn filters_apply_after_the_cutoff() {
    // 60 ranked hits; 40 of the first 50 fail the extension filter.
    let mut hits = Vec::new();
    for i in 0..60 {
        let ext = if i < 50 && i % 5 != 0 { "bin" } else { "txt" };
        hits.push(hit(i, ext, Some(1)));
    }
    let filters = Some(SearchFilters { ext: Some(vec!["txt".to_string()]), min_size: None, max_size: None });
    let qualifying = hits.iter().filter(|h| passes_filters(h, &filters)).count();
    assert_eq!(qualifying, 20);
    let kept = select_hits(&hits, &filters);
    assert_eq!(kept.len(), 10);
    assert!(kept.len() < qualifying);
    assert!(kept.iter().all(|&i| i < RESULT_LIMIT));
    assert_eq!(kept, vec![0, 5, 10, 15, 20, 25, 30, 35, 40, 45]);
}

#[test]
fn no_filters_return_the_window() {
    let hits: Vec<StoredHit> = (0..70).map(|i| hit(i, "md", None)).collect();
    let kept = select_hits(&hits, &None);
    assert_eq!(kept, (0..50).collect::<Vec<usize>>());
    let few: Vec<StoredHit> = (0..3).map(|i| hit(i, "md", None)).collect();
    assert_eq!(select_hits(&few, &None), vec![0, 1, 2]);
}

#[test]
fn extension_filter_ignores_case_and_empty_list_allows_all() {
    let h = hit(0, "TXT", Some(5));
    let f = Some(SearchFilters { ext: Some(vec!["txt".to_string()]), min_size: None, max_size: None });
    assert!(passes_filters(&h, &f));
    let f = Some(SearchFilters { ext: Some(vec!["md".to_string()]), min_size: None, max_size: None });
    assert!(!passes_filters(&h, &f));
    let f = Some(SearchFilters { ext: Some(Vec::new()), min_size: None, max_size: None });
    assert!(passes_filters(&h, &f));
}

#[test]
fn size_bounds_are_inclusive_and_skip_unknown_sizes() {
    let f = Some(SearchFilters { ext: None, min_size: Some(10), max_size: Some(20) });
    assert!(passes_filters(&hit(0, "a", Some(10)), &f));
    assert!(passes_filters(&hit(0, "a", Some(20)), &f));
    assert!(!passes_filters(&hit(0, "a", Some(9)), &f));
    assert!(!passes_filters(&hit(0, "a", Some(21)), &f));
    assert!(passes_filters(&hit(0, "a", None), &f));
}

#[test]
fn clipped_count_is_window_minus_rejected() {
    // 45 of the first 50 fail; 10 qualifying hits rank below the cut-off.
    let mut hits = Vec::new();
    for i in 0..60 {
        let ext = if i < 45 { "bin" } else { "txt" };
        hits.push(hit(i, ext, None));
    }
    let filters = Some(SearchFilters { ext: Some(vec!["TXT".to_string()]), min_size: None, max_size: None });
    assert_eq!(select_hits(&hits, &filters).len(), 50 - 45);
}
