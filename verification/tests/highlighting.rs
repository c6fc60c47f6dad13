use quickdiff::highlight::{
    compute_line_bounds, fill_line_gaps, find_enclosing_scope, highlight_name_to_style, query_scopes,
    scope_kind_label, scopes_from_matches, spans_from_events, FileHighlightCache, HighlighterCache,
    HighlighterTrait, HlEvent, LanguageId, PlainHighlighter, ScopeCapture, ScopeInfo, StyleId, StyledSpan,
    TreeSitterHighlighter,
};

#[test]
fn language_detection() {
    assert_eq!(LanguageId::from_extension("rs"), LanguageId::Rust);
    assert_eq!(LanguageId::from_extension("tsx"), LanguageId::TypeScriptReact);
    assert_eq!(LanguageId::from_extension("txt"), LanguageId::Plain);
    assert_eq!(LanguageId::from_extension("RS"), LanguageId::Rust);
}

#[test]
fn plain_highlighter() {
    let hl = PlainHighlighter;
    let spans = hl.highlight("hello world");
    assert_eq!(spans.len(), 1);
    assert_eq!(spans[0].start, 0);
    assert_eq!(spans[0].end, 11);
}

#[test]
fn rust_highlighter() {
    let hl = TreeSitterHighlighter::new(LanguageId::Rust).unwrap();
    let spans = hl.highlight("fn main() {}");
    assert!(!spans.is_empty());
    let has_keyword = spans.iter().any(|s| s.style_id == StyleId::Keyword);
    assert!(has_keyword, "Expected keyword highlight for 'fn'");
}

#[test]
fn typescript_highlighter() {
    let hl = TreeSitterHighlighter::new(LanguageId::TypeScript).unwrap();
    let spans = hl.highlight("const x: number = 42;");
    assert!(!spans.is_empty());
    let has_styled = spans.iter().any(|s| s.style_id != StyleId::Default);
    assert!(has_styled || !spans.is_empty(), "Expected some highlight output");
}

#[test]
fn file_highlight_cache_plain_splits_lines() {
    let cache = HighlighterCache::new();
    let mut file_cache = FileHighlightCache::new();

    file_cache.compute(&cache, LanguageId::Plain, "alpha\nbeta");

    let first = file_cache.line_spans(0).unwrap();
    assert_eq!(first, &[StyledSpan { start: 0, end: 5, style_id: StyleId::Default }]);

    let second = file_cache.line_spans(1).unwrap();
    assert_eq!(second, &[StyledSpan { start: 0, end: 4, style_id: StyleId::Default }]);
}

#[test]
fn highlighter_cache() {
    let cache = HighlighterCache::new();
    let spans = cache.highlight(LanguageId::Rust, "fn main() {}");
    assert!(!spans.is_empty());
    let spans = cache.highlight(LanguageId::Rust, "let x = 1;");
    assert!(!spans.is_empty());
    let spans = cache.highlight(LanguageId::Plain, "hello");
    assert!(!spans.is_empty());
}

#[test]
fn highlight_names_map_to_styles() {
    assert_eq!(highlight_name_to_style("keyword"), StyleId::Keyword);
    assert_eq!(highlight_name_to_style("string"), StyleId::String);
    assert_eq!(highlight_name_to_style("nonsense"), StyleId::Default);
}

#[test]
fn line_bounds_of_source() {
    assert_eq!(compute_line_bounds("ab\ncd"), vec![(0, 2), (3, 5)]);
    assert_eq!(compute_line_bounds("ab\n"), vec![(0, 2)]);
}

#[test]
fn gaps_are_filled_with_default() {
    let filled = fill_line_gaps(vec![StyledSpan { start: 2, end: 3, style_id: StyleId::Keyword }], 5);
    assert_eq!(
        filled,
        vec![
            StyledSpan { start: 0, end: 2, style_id: StyleId::Default },
            StyledSpan { start: 2, end: 3, style_id: StyleId::Keyword },
            StyledSpan { start: 3, end: 5, style_id: StyleId::Default },
        ]
    );
    assert_eq!(fill_line_gaps(Vec::new(), 0), Vec::<StyledSpan>::new());
}

#[test]
fn spans_follow_events() {
    let events = vec![
        HlEvent::Source { start: 0, end: 2 },
        HlEvent::Start(0),
        HlEvent::Source { start: 2, end: 4 },
        HlEvent::End,
    ];
    let spans = spans_from_events(&events, 4);
    assert_eq!(spans.len(), 2);
    assert_eq!(spans[0].style_id, StyleId::Default);
    assert_eq!((spans[1].start, spans[1].end), (2, 4));
    let failed = spans_from_events(&vec![HlEvent::Error], 7);
    assert_eq!(failed, vec![StyledSpan { start: 0, end: 7, style_id: StyleId::Default }]);
}

#[test]
fn enclosing_scope_prefers_innermost() {
    let scopes = vec![
        ScopeInfo { name: "outer".to_string(), kind: "fn", start_line: 0, end_line: 4 },
        ScopeInfo { name: "inner".to_string(), kind: "fn", start_line: 1, end_line: 3 },
    ];
    assert_eq!(find_enclosing_scope(&scopes, 2).unwrap().name, "inner");
    assert_eq!(find_enclosing_scope(&scopes, 0).unwrap().name, "outer");
    assert!(find_enclosing_scope(&scopes, 9).is_none());
}

#[test]
fn rust_scope_query() {
    let source = r#"
fn main() {
    println!("hello");
}

impl Foo {
    fn bar(&self) {}
}
"#;
    let scopes = query_scopes(LanguageId::Rust, source);
    assert!(!scopes.is_empty());

    let main_scope = scopes.iter().find(|s| s.name == "main");
    assert!(main_scope.is_some());
    assert_eq!(main_scope.unwrap().kind, "fn");

    let impl_scope = scopes.iter().find(|s| s.name == "Foo");
    assert!(impl_scope.is_some());
    assert_eq!(impl_scope.unwrap().kind, "impl");
}

#[test]
fn find_enclosing_scope_rust() {
    let source = r#"fn outer() {
    fn inner() {
        let x = 1;
    }
}
"#;
    let scopes = query_scopes(LanguageId::Rust, source);

    let scope = find_enclosing_scope(&scopes, 2);
    assert!(scope.is_some());
    assert_eq!(scope.unwrap().name, "inner");

    let scope = find_enclosing_scope(&scopes, 0);
    assert!(scope.is_some());
    assert_eq!(scope.unwrap().name, "outer");
}

#[test]
fn ts_scope_query() {
    let source = r#"
function hello() {
    console.log("hi");
}

class Foo {
    bar() {}
}
"#;
    let scopes = query_scopes(LanguageId::TypeScript, source);
    assert!(!scopes.is_empty());

    let hello_scope = scopes.iter().find(|s| s.name == "hello");
    assert!(hello_scope.is_some());
    assert_eq!(hello_scope.unwrap().kind, "function");

    let class_scope = scopes.iter().find(|s| s.name == "Foo");
    assert!(class_scope.is_some());
    assert_eq!(class_scope.unwrap().kind, "class");
}

fn cap(index: u32, kind: &str, start: usize, end: usize, text: Option<&str>) -> ScopeCapture {
    ScopeCapture { index, node_kind: kind.to_string(), start_row: start, end_row: end, text: text.map(|t| t.to_string()) }
}

#[test]
fn scopes_are_sorted_outer_first() {
    let matches = vec![
        vec![cap(0, "identifier", 5, 5, Some("late")), cap(1, "function_item", 5, 9, None)],
        vec![cap(1, "impl_item", 1, 20, None), cap(0, "type_identifier", 1, 1, Some("Big"))],
        vec![cap(0, "identifier", 1, 1, Some("orphan"))],
        vec![cap(1, "function_item", 1, 3, None)],
    ];
    let scopes = scopes_from_matches(&matches, Some(0), Some(1), LanguageId::Rust);
    let got: Vec<(&str, &str, usize, usize)> =
        scopes.iter().map(|s| (s.name.as_str(), s.kind, s.start_line, s.end_line)).collect();
    assert_eq!(got, vec![("Big", "impl", 1, 20), ("", "fn", 1, 3), ("late", "fn", 5, 9)]);
    assert!(query_scopes(LanguageId::Json, "{}").is_empty());
    assert_eq!(scope_kind_label(LanguageId::TypeScript, "arrow_function"), "=>");
    assert_eq!(scope_kind_label(LanguageId::Rust, "enum_item"), "scope");
}

#[test]
fn highlighted_spans_stay_within_source_and_repeat() {
    let cache = HighlighterCache::new();
    let src = "fn main() {\n    let x = 1;\n}\n";
    let a = cache.highlight(LanguageId::Rust, src);
    let b = cache.highlight(LanguageId::Rust, src);
    assert_eq!(a, b);
    assert!(!a.is_empty());
    for s in &a {
        assert!(s.start <= s.end && s.end <= src.len());
    }
}

#[test]
fn file_highlight_cache_uses_the_requested_language() {
    let cache = HighlighterCache::new();
    let src = "fn main() {}\nlet x = 1;";
    let mut rust = FileHighlightCache::new();
    rust.compute(&cache, LanguageId::Rust, src);
    let mut plain = FileHighlightCache::new();
    plain.compute(&cache, LanguageId::Plain, src);
    assert_eq!(plain.line_spans(0).unwrap().len(), 1);
    let line0 = rust.line_spans(0).unwrap();
    assert!(line0.len() > 1);
    assert!(line0.iter().any(|s| s.style_id == StyleId::Keyword));
}
