use quickdiff::fuzzy::FuzzyMatcher;

fn indexed<'a>(items: &[&'a str]) -> Vec<(usize, &'a str)> {
    items.iter().enumerate().map(|(i, s)| (i, *s)).collect()
}

#[test]
fn test_empty_pattern_returns_empty() {
    let mut m = FuzzyMatcher::new();
    let results = m.filter_sorted("", &indexed(&["a", "b"]));
    assert!(results.is_empty());
}

#[test]
fn test_filter_sorted_basic() {
    let mut m = FuzzyMatcher::new();
    let candidates = ["main.rs", "app.rs", "lib.rs", "fuzzy.rs"];
    let results = m.filter_sorted("rs", &indexed(&candidates));
    assert_eq!(results.len(), 4);
    for idx in &results {
        assert!(*idx < candidates.len());
    }
}

#[test]
fn test_filter_sorted_no_match() {
    let mut m = FuzzyMatcher::new();
    let candidates = ["main.rs", "app.rs"];
    let results = m.filter_sorted("xyz", &indexed(&candidates));
    assert!(results.is_empty());
}

#[test]
fn test_fuzzy_match() {
    let mut m = FuzzyMatcher::new();
    let candidates = ["application.rs", "main.rs"];
    let results = m.filter_sorted("aplrs", &indexed(&candidates));
    assert_eq!(results.len(), 1);
    assert_eq!(results[0], 0);
}

#[test]
fn test_score_ordering() {
    let mut m = FuzzyMatcher::new();
    let candidates = ["something_app.rs", "app.rs", "zapp.rs"];
    let results = m.filter_sorted("app", &indexed(&candidates));
    assert!(!results.is_empty());
    assert_eq!(results[0], 1);
}

#[test]
fn filter_keeps_each_index_at_most_once() {
    let mut m = FuzzyMatcher::new();
    let candidates = ["a.rs", "b.rs", "c.rs"];
    let mut results = m.filter_sorted("rs", &indexed(&candidates));
    results.sort();
    assert_eq!(results, vec![0, 1, 2]);
}

#[test]
fn filter_passes_through_caller_indices() {
    let mut m = FuzzyMatcher::new();
    let results = m.filter_sorted("main", &[(7, "main.rs"), (9, "lib.rs")]);
    assert_eq!(results, vec![7]);
}
