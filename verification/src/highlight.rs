//! Syntax highlighting: languages, styles, highlight spans per line.
//!
//! The grammars and the highlighting engine are tree-sitter's; what is
//! made of the engine's events (spans, per-line spans, gap filling) is
//! here.

use vstd::prelude::*;
use vstd::string::StringSliceAdditionalSpecFns;
use tree_sitter::StreamingIterator;

verus! {

/// Language identifier for syntax highlighting.
#[derive(Debug, Clone, Copy, PartialEq, Eq, Hash, Structural)]
pub enum LanguageId {
    /// Rust source files.
    Rust,
    /// TypeScript source files.
    TypeScript,
    /// TypeScript with JSX.
    TypeScriptReact,
    /// JavaScript source files.
    JavaScript,
    /// JavaScript with JSX.
    JavaScriptReact,
    /// Go source files.
    Go,
    /// Python source files.
    Python,
    /// JSON files.
    Json,
    /// YAML files.
    Yaml,
    /// Bash/shell scripts.
    Bash,
    /// Plain text (no highlighting).
    Plain,
}

/// Result of `str::to_lowercase` (Unicode lower case) on `s`.
pub uninterp spec fn lowercase(s: Seq<char>) -> Seq<char>;

/// The ASCII lower case of a character (other characters unchanged).
pub open spec fn ascii_lower(c: char) -> char {
    if 'A' <= c && c <= 'Z' {
        ((c as u32) + 32) as char
    } else {
        c
    }
}

/// `str::to_lowercase`: the Unicode lower case of `s`; on ASCII text it is
/// the ASCII lower case of each character.
#[verifier::external_body]
fn std_to_lowercase(s: &str) -> (r: String)
    ensures
        r@ == lowercase(s@),
        (forall|i: int| 0 <= i < s@.len() ==> (#[trigger] s@[i] as u32) < 128) ==> r@ == s@.map_values(
            |c: char| ascii_lower(c),
        ),
{
    s.to_lowercase()
}

/// The language of a lower-case file extension.
pub open spec fn language_of(e: Seq<char>) -> LanguageId {
    if e == "rs"@ {
        LanguageId::Rust
    } else if e == "ts"@ {
        LanguageId::TypeScript
    } else if e == "tsx"@ {
        LanguageId::TypeScriptReact
    } else if e == "js"@ || e == "mjs"@ || e == "cjs"@ {
        LanguageId::JavaScript
    } else if e == "jsx"@ {
        LanguageId::JavaScriptReact
    } else if e == "go"@ {
        LanguageId::Go
    } else if e == "py"@ || e == "pyi"@ {
        LanguageId::Python
    } else if e == "json"@ {
        LanguageId::Json
    } else if e == "yaml"@ || e == "yml"@ {
        LanguageId::Yaml
    } else if e == "sh"@ || e == "bash"@ || e == "zsh"@ {
        LanguageId::Bash
    } else {
        LanguageId::Plain
    }
}

fn str_is(a: &String, b: &str) -> (r: bool)
    ensures
        r == (a@ == b@),
{
    *a == b.to_owned()
}

impl LanguageId {
    /// Detect language from file extension (case-insensitively).
    pub fn from_extension(ext: &str) -> (r: Self)
        ensures
            r == language_of(lowercase(ext@)),
            (forall|i: int| 0 <= i < ext@.len() ==> (#[trigger] ext@[i] as u32) < 128) ==> r == language_of(
                ext@.map_values(|c: char| ascii_lower(c)),
            ),
    {
        let e = std_to_lowercase(ext);
        if str_is(&e, "rs") {
            LanguageId::Rust
        } else if str_is(&e, "ts") {
            LanguageId::TypeScript
        } else if str_is(&e, "tsx") {
            LanguageId::TypeScriptReact
        } else if str_is(&e, "js") || str_is(&e, "mjs") || str_is(&e, "cjs") {
            LanguageId::JavaScript
        } else if str_is(&e, "jsx") {
            LanguageId::JavaScriptReact
        } else if str_is(&e, "go") {
            LanguageId::Go
        } else if str_is(&e, "py") || str_is(&e, "pyi") {
            LanguageId::Python
        } else if str_is(&e, "json") {
            LanguageId::Json
        } else if str_is(&e, "yaml") || str_is(&e, "yml") {
            LanguageId::Yaml
        } else if str_is(&e, "sh") || str_is(&e, "bash") || str_is(&e, "zsh") {
            LanguageId::Bash
        } else {
            LanguageId::Plain
        }
    }
}

/// Style identifiers for highlighting.
#[derive(Debug, Clone, Copy, PartialEq, Eq, Hash, Structural)]
pub enum StyleId {
    /// Default/unstyled text.
    Default,
    /// Language keywords.
    Keyword,
    /// Type names.
    Type,
    /// Function names.
    Function,
    /// String literals.
    String,
    /// Numeric literals.
    Number,
    /// Comments.
    Comment,
    /// Operators.
    Operator,
    /// Punctuation.
    Punctuation,
    /// Variable names.
    Variable,
    /// Constants.
    Constant,
    /// Property access.
    Property,
    /// Attributes/decorators.
    Attribute,
}

impl Default for StyleId {
    fn default() -> (r: Self)
        ensures
            r == StyleId::Default,
    {
        StyleId::Default
    }
}

/// A styled span in highlighted text.
#[derive(Debug, Clone, Copy, PartialEq, Eq, Structural)]
pub struct StyledSpan {
    /// Byte start offset in the source.
    pub start: usize,
    /// Byte end offset in the source.
    pub end: usize,
    /// Style identifier (maps to a palette).
    pub style_id: StyleId,
}

/// The highlight names recognized, in the order the engine reports them.
pub open spec fn highlight_names() -> Seq<Seq<char>> {
    seq![
        "attribute"@,
        "comment"@,
        "constant"@,
        "constant.builtin"@,
        "constructor"@,
        "function"@,
        "function.builtin"@,
        "function.method"@,
        "keyword"@,
        "number"@,
        "operator"@,
        "property"@,
        "punctuation"@,
        "punctuation.bracket"@,
        "punctuation.delimiter"@,
        "string"@,
        "type"@,
        "type.builtin"@,
        "variable"@,
        "variable.builtin"@,
        "variable.parameter"@,
    ]
}

/// Highlight names recognized by tree-sitter-highlight.
pub fn highlight_name_list() -> (r: Vec<&'static str>)
    ensures
        crate::gh::strs(r@) == highlight_names(),
{
    let v: Vec<&'static str> = vec![
        "attribute",
        "comment",
        "constant",
        "constant.builtin",
        "constructor",
        "function",
        "function.builtin",
        "function.method",
        "keyword",
        "number",
        "operator",
        "property",
        "punctuation",
        "punctuation.bracket",
        "punctuation.delimiter",
        "string",
        "type",
        "type.builtin",
        "variable",
        "variable.builtin",
        "variable.parameter",
    ];
    assert(crate::gh::strs(v@) =~= highlight_names());
    v
}

/// The style of a highlight name.
pub open spec fn style_of_name(n: Seq<char>) -> StyleId {
    if n == "keyword"@ {
        StyleId::Keyword
    } else if n == "type"@ || n == "type.builtin"@ {
        StyleId::Type
    } else if n == "function"@ || n == "function.builtin"@ || n == "function.method"@ || n
        == "constructor"@ {
        StyleId::Function
    } else if n == "string"@ {
        StyleId::String
    } else if n == "number"@ {
        StyleId::Number
    } else if n == "comment"@ {
        StyleId::Comment
    } else if n == "operator"@ {
        StyleId::Operator
    } else if n == "punctuation"@ || n == "punctuation.bracket"@ || n == "punctuation.delimiter"@ {
        StyleId::Punctuation
    } else if n == "variable"@ || n == "variable.builtin"@ || n == "variable.parameter"@ {
        StyleId::Variable
    } else if n == "constant"@ || n == "constant.builtin"@ {
        StyleId::Constant
    } else if n == "property"@ {
        StyleId::Property
    } else if n == "attribute"@ {
        StyleId::Attribute
    } else {
        StyleId::Default
    }
}

/// Map highlight name to StyleId.
pub fn highlight_name_to_style(name: &str) -> (r: StyleId)
    ensures
        r == style_of_name(name@),
{
    let n = name.to_owned();
    if str_is(&n, "keyword") {
        StyleId::Keyword
    } else if str_is(&n, "type") || str_is(&n, "type.builtin") {
        StyleId::Type
    } else if str_is(&n, "function") || str_is(&n, "function.builtin") || str_is(
        &n,
        "function.method",
    ) || str_is(&n, "constructor") {
        StyleId::Function
    } else if str_is(&n, "string") {
        StyleId::String
    } else if str_is(&n, "number") {
        StyleId::Number
    } else if str_is(&n, "comment") {
        StyleId::Comment
    } else if str_is(&n, "operator") {
        StyleId::Operator
    } else if str_is(&n, "punctuation") || str_is(&n, "punctuation.bracket") || str_is(
        &n,
        "punctuation.delimiter",
    ) {
        StyleId::Punctuation
    } else if str_is(&n, "variable") || str_is(&n, "variable.builtin") || str_is(
        &n,
        "variable.parameter",
    ) {
        StyleId::Variable
    } else if str_is(&n, "constant") || str_is(&n, "constant.builtin") {
        StyleId::Constant
    } else if str_is(&n, "property") {
        StyleId::Property
    } else if str_is(&n, "attribute") {
        StyleId::Attribute
    } else {
        StyleId::Default
    }
}

/// The style of the `i`-th highlight name (default when out of range).
pub open spec fn style_of_index(i: int) -> StyleId {
    if 0 <= i < highlight_names().len() {
        style_of_name(highlight_names()[i])
    } else {
        StyleId::Default
    }
}

fn style_at(names: &Vec<&'static str>, i: usize) -> (r: StyleId)
    requires
        crate::gh::strs(names@) == highlight_names(),
    ensures
        r == style_of_index(i as int),
{
    if i < names.len() {
        assert(names@[i as int]@ == highlight_names()[i as int]);
        highlight_name_to_style(names[i])
    } else {
        StyleId::Default
    }
}

// ---------------------------------------------------------------------------
// Scopes
// ---------------------------------------------------------------------------

/// Information about a scope-defining construct (function, class, etc).
#[derive(Debug, PartialEq, Eq)]
pub struct ScopeInfo {
    /// Name of the scope (e.g., function name).
    pub name: String,
    /// Kind of scope (e.g., "fn", "impl", "class").
    pub kind: &'static str,
    /// Start line (0-indexed).
    pub start_line: usize,
    /// End line (0-indexed, inclusive).
    pub end_line: usize,
}

/// Scope `s` contains `line`.
pub open spec fn scope_contains(s: ScopeInfo, line: usize) -> bool {
    s.start_line <= line <= s.end_line
}

/// Find the innermost enclosing scope for a given line: among the scopes
/// containing it, the first one spanning the fewest lines.
pub fn find_enclosing_scope(scopes: &[ScopeInfo], line: usize) -> (r: Option<&ScopeInfo>)
    ensures
        r is None <==> forall|k: int| 0 <= k < scopes@.len() ==> !scope_contains(scopes@[k], line),
        r matches Some(s) ==> exists|k: int|
            0 <= k < scopes@.len() && scopes@[k] == *s && scope_contains(*s, line) && (forall|j: int|
                0 <= j < scopes@.len() && scope_contains(scopes@[j], line) ==> s.end_line
                    - s.start_line <= scopes@[j].end_line - scopes@[j].start_line) && (forall|j: int|
                0 <= j < k && scope_contains(scopes@[j], line) ==> s.end_line - s.start_line
                    < scopes@[j].end_line - scopes@[j].start_line),
{
    let mut best: Option<usize> = None;
    let mut i: usize = 0;
    while i < scopes.len()
        invariant
            i <= scopes@.len(),
            best is None <==> forall|k: int| 0 <= k < i ==> !scope_contains(scopes@[k], line),
            best matches Some(b) ==> ({
                &&& b < i
                &&& scope_contains(scopes@[b as int], line)
                &&& forall|j: int|
                    0 <= j < i && scope_contains(scopes@[j], line) ==> scopes@[b as int].end_line
                        - scopes@[b as int].start_line <= scopes@[j].end_line
                        - scopes@[j].start_line
                &&& forall|j: int|
                    0 <= j < b && scope_contains(scopes@[j], line) ==> scopes@[b as int].end_line
                        - scopes@[b as int].start_line < scopes@[j].end_line
                        - scopes@[j].start_line
            }),
        decreases scopes@.len() - i,
    {
        let s = &scopes[i];
        if s.start_line <= line && line <= s.end_line {
            match best {
                None => {
                    best = Some(i);
                },
                Some(b) => {
                    if s.end_line - s.start_line < scopes[b].end_line - scopes[b].start_line {
                        best = Some(i);
                    }
                },
            }
        }
        i = i + 1;
    }
    match best {
        Some(b) => Some(&scopes[b]),
        None => None,
    }
}

// ---------------------------------------------------------------------------
// Spans from the engine's events
// ---------------------------------------------------------------------------

/// One event of a highlighting run.
#[derive(Debug, Clone, Copy, PartialEq, Eq, Structural)]
pub enum HlEvent {
    /// Source text in `start..end` (bytes) under the current highlight.
    Source { start: usize, end: usize },
    /// A highlight (by index into the recognized names) starts.
    Start(usize),
    /// The innermost highlight ends.
    End,
    /// The run failed here; later events are not read.
    Error,
}

/// The span covering the whole source with the default style.
pub open spec fn whole(len: usize) -> StyledSpan {
    StyledSpan { start: 0, end: len, style_id: StyleId::Default }
}

/// State of a run: (spans, style stack, position, stopped).
pub open spec fn run_events(evs: Seq<HlEvent>, len: usize) -> (Seq<StyledSpan>, Seq<StyleId>, usize, bool)
    decreases evs.len(),
{
    if evs.len() == 0 {
        (Seq::empty(), seq![StyleId::Default], 0, false)
    } else {
        let st = run_events(evs.drop_last(), len);
        if st.3 {
            st
        } else {
            match evs.last() {
                HlEvent::Source { start, end } => {
                    let style = if st.1.len() > 0 {
                        st.1.last()
                    } else {
                        StyleId::Default
                    };
                    let s = if start < len {
                        start
                    } else {
                        len
                    };
                    let e = if end < len {
                        end
                    } else {
                        len
                    };
                    (
                        if s < e {
                            st.0.push(StyledSpan { start: s, end: e, style_id: style })
                        } else {
                            st.0
                        },
                        st.1,
                        e,
                        false,
                    )
                },
                HlEvent::Start(h) => (st.0, st.1.push(style_of_index(h as int)), st.2, false),
                HlEvent::End => (
                    st.0,
                    if st.1.len() > 0 {
                        st.1.drop_last()
                    } else {
                        st.1
                    },
                    st.2,
                    false,
                ),
                HlEvent::Error => (st.0, st.1, st.2, true),
            }
        }
    }
}

/// The spans of a run over a source of `len` bytes: the spans of its
/// source events, then the rest of the source in the default style; the
/// whole source in the default style when that gives nothing.
pub open spec fn spans_of_events(evs: Seq<HlEvent>, len: usize) -> Seq<StyledSpan> {
    let st = run_events(evs, len);
    let spans = if st.2 < len {
        st.0.push(StyledSpan { start: st.2, end: len, style_id: StyleId::Default })
    } else {
        st.0
    };
    if spans.len() == 0 {
        seq![whole(len)]
    } else {
        spans
    }
}

/// Turn the events of a highlighting run into styled spans.
pub fn spans_from_events(events: &Vec<HlEvent>, len: usize) -> (r: Vec<StyledSpan>)
    ensures
        r@ == spans_of_events(events@, len),
{
    let names = highlight_name_list();
    let mut spans: Vec<StyledSpan> = Vec::new();
    let mut stack: Vec<StyleId> = vec![StyleId::Default];
    let mut pos: usize = 0;
    let mut i: usize = 0;
    assert(events@.subrange(0, 0) =~= Seq::<HlEvent>::empty());
    assert(stack@ =~= seq![StyleId::Default]);
    while i < events.len()
        invariant
            crate::gh::strs(names@) == highlight_names(),
            i == events@.len() ==> events@.subrange(0, i as int) == events@,
            i <= events@.len(),
            run_events(events@.subrange(0, i as int), len) == (spans@, stack@, pos, false),
        ensures
            run_events(events@, len).0 == spans@,
            run_events(events@, len).2 == pos,
        decreases events@.len() - i,
    {
        proof {
            assert(events@.subrange(0, i + 1).drop_last() =~= events@.subrange(0, i as int));
            assert(events@.subrange(0, i + 1).last() == events@[i as int]);
        }
        match events[i] {
            HlEvent::Source { start, end } => {
                let style = if stack.len() > 0 {
                    stack[stack.len() - 1]
                } else {
                    StyleId::Default
                };
                let s = if start < len {
                    start
                } else {
                    len
                };
                let e = if end < len {
                    end
                } else {
                    len
                };
                if s < e {
                    spans.push(StyledSpan { start: s, end: e, style_id: style });
                }
                pos = e;
            },
            HlEvent::Start(h) => {
                stack.push(style_at(&names, h));
            },
            HlEvent::End => {
                if stack.len() > 0 {
                    stack.pop();
                }
            },
            HlEvent::Error => {
                proof {
                    lemma_run_stopped(events@, i as int, len);
                }
                break;
            },
        }
        i = i + 1;
    }
    if pos < len {
        spans.push(StyledSpan { start: pos, end: len, style_id: StyleId::Default });
    }
    if spans.len() == 0 {
        spans.push(StyledSpan { start: 0, end: len, style_id: StyleId::Default });
    }
    spans
}

/// Once stopped, a run stays as it was.
proof fn lemma_run_stopped(evs: Seq<HlEvent>, i: int, len: usize)
    requires
        0 <= i < evs.len(),
        evs[i] is Error,
        !run_events(evs.subrange(0, i), len).3,
    ensures
        run_events(evs, len) == ({
            let st = run_events(evs.subrange(0, i), len);
            (st.0, st.1, st.2, true)
        }),
    decreases evs.len(),
{
    if i == evs.len() - 1 {
        assert(evs.drop_last() =~= evs.subrange(0, i));
    } else {
        assert(evs.drop_last().subrange(0, i) =~= evs.subrange(0, i));
        lemma_run_stopped(evs.drop_last(), i, len);
    }
}

/// Trait for syntax highlighters.
pub trait HighlighterTrait: Send + Sync {
    /// Highlight source code, returning styled spans for each byte range.
    fn highlight(&self, source: &str) -> Vec<StyledSpan>;
}

/// No-op highlighter (plain text).
#[derive(Debug)]
pub struct PlainHighlighter;

impl Default for PlainHighlighter {
    fn default() -> (r: Self) {
        PlainHighlighter
    }
}

impl HighlighterTrait for PlainHighlighter {
    fn highlight(&self, source: &str) -> (r: Vec<StyledSpan>)
        ensures
            r@ == seq![whole(source.spec_bytes().len() as usize)],
    {
        let n = source.len();
        let v = vec![StyledSpan { start: 0, end: n, style_id: StyleId::Default }];
        assert(v@ =~= seq![whole(n)]);
        v
    }
}

// ---------------------------------------------------------------------------
// The tree-sitter engine
// ---------------------------------------------------------------------------

#[verifier::external_type_specification]
#[verifier::external_body]
pub struct ExTsLanguage(tree_sitter::Language);

#[verifier::external_type_specification]
#[verifier::external_body]
pub struct ExHighlightConfiguration(tree_sitter_highlight::HighlightConfiguration);

#[verifier::external_type_specification]
#[verifier::external_body]
pub struct ExTsHighlighter(tree_sitter_highlight::Highlighter);

/// `tree_sitter_rust::LANGUAGE` and its `HIGHLIGHTS_QUERY`.
#[verifier::external_body]
fn rust_grammar() -> (tree_sitter::Language, &'static str) {
    (tree_sitter_rust::LANGUAGE.into(), tree_sitter_rust::HIGHLIGHTS_QUERY)
}

/// `tree_sitter_typescript::LANGUAGE_TYPESCRIPT` and its `HIGHLIGHTS_QUERY`.
#[verifier::external_body]
fn typescript_grammar() -> (tree_sitter::Language, &'static str) {
    (tree_sitter_typescript::LANGUAGE_TYPESCRIPT.into(), tree_sitter_typescript::HIGHLIGHTS_QUERY)
}

/// `tree_sitter_typescript::LANGUAGE_TSX` and the TypeScript `HIGHLIGHTS_QUERY`.
#[verifier::external_body]
fn tsx_grammar() -> (tree_sitter::Language, &'static str) {
    (tree_sitter_typescript::LANGUAGE_TSX.into(), tree_sitter_typescript::HIGHLIGHTS_QUERY)
}

/// `tree_sitter_go::LANGUAGE` and its `HIGHLIGHTS_QUERY`.
#[verifier::external_body]
fn go_grammar() -> (tree_sitter::Language, &'static str) {
    (tree_sitter_go::LANGUAGE.into(), tree_sitter_go::HIGHLIGHTS_QUERY)
}

/// `tree_sitter_python::LANGUAGE` and its `HIGHLIGHTS_QUERY`.
#[verifier::external_body]
fn python_grammar() -> (tree_sitter::Language, &'static str) {
    (tree_sitter_python::LANGUAGE.into(), tree_sitter_python::HIGHLIGHTS_QUERY)
}

/// `tree_sitter_json::LANGUAGE` and its `HIGHLIGHTS_QUERY`.
#[verifier::external_body]
fn json_grammar() -> (tree_sitter::Language, &'static str) {
    (tree_sitter_json::LANGUAGE.into(), tree_sitter_json::HIGHLIGHTS_QUERY)
}

/// `tree_sitter_yaml::LANGUAGE` and its `HIGHLIGHTS_QUERY`.
#[verifier::external_body]
fn yaml_grammar() -> (tree_sitter::Language, &'static str) {
    (tree_sitter_yaml::LANGUAGE.into(), tree_sitter_yaml::HIGHLIGHTS_QUERY)
}

/// `tree_sitter_bash::LANGUAGE` and its `HIGHLIGHT_QUERY`.
#[verifier::external_body]
fn bash_grammar() -> (tree_sitter::Language, &'static str) {
    (tree_sitter_bash::LANGUAGE.into(), tree_sitter_bash::HIGHLIGHT_QUERY)
}

/// A language's grammar: its tree-sitter language and highlights query.
/// Only `grammar_of` makes one, so the grammar is a function of the
/// language it is for, which is its view.
struct Grammar {
    lang: LanguageId,
    language: tree_sitter::Language,
    highlights: &'static str,
}

impl View for Grammar {
    type V = LanguageId;

    closed spec fn view(&self) -> LanguageId {
        self.lang
    }
}

/// The grammar of `lang`; `None` for plain text.
fn grammar_of(lang: LanguageId) -> (r: Option<Grammar>)
    ensures
        r is Some <==> lang != LanguageId::Plain,
        r matches Some(g) ==> g@ == lang,
{
    let (language, highlights) = match lang {
        LanguageId::Rust => rust_grammar(),
        LanguageId::TypeScript | LanguageId::JavaScript => typescript_grammar(),
        LanguageId::TypeScriptReact | LanguageId::JavaScriptReact => tsx_grammar(),
        LanguageId::Go => go_grammar(),
        LanguageId::Python => python_grammar(),
        LanguageId::Json => json_grammar(),
        LanguageId::Yaml => yaml_grammar(),
        LanguageId::Bash => bash_grammar(),
        LanguageId::Plain => {
            return None;
        },
    };
    Some(Grammar { lang, language, highlights })
}

/// Whether the highlight configuration of `lang`'s grammar builds.
pub uninterp spec fn highlight_config_builds(lang: LanguageId) -> bool;

/// `HighlightConfiguration::new(language, "source", highlights_query, "", "")`
/// on the grammar; `None` when the query does not compile. Whether it
/// compiles depends on the grammar alone.
#[verifier::external_body]
fn new_highlight_config(grammar: &Grammar) -> (r: Option<tree_sitter_highlight::HighlightConfiguration>)
    ensures
        r is Some <==> highlight_config_builds(grammar@),
{
    tree_sitter_highlight::HighlightConfiguration::new(grammar.language.clone(), "source", grammar.highlights, "", "").ok()
}

/// `HighlightConfiguration::configure` with the recognized highlight names.
#[verifier::external_body]
fn configure_names(config: &mut tree_sitter_highlight::HighlightConfiguration, names: &[&str]) {
    config.configure(names);
}

/// `tree_sitter_highlight::Highlighter::new`.
#[verifier::external_body]
fn new_ts_highlighter() -> tree_sitter_highlight::Highlighter {
    tree_sitter_highlight::Highlighter::new()
}

/// The events of highlighting `source` with the configuration of `lang`'s
/// grammar, `None` when the run cannot start.
pub uninterp spec fn highlight_run(lang: LanguageId, source: Seq<char>) -> Option<Seq<HlEvent>>;

/// Events as a sequence.
pub open spec fn opt_events(v: Option<Vec<HlEvent>>) -> Option<Seq<HlEvent>> {
    match v {
        Some(e) => Some(e@),
        None => None,
    }
}

/// `Highlighter::highlight` with the highlighter's configuration on
/// `source` (no encoding, cancellation or injections), with its events read
/// in order, an error as `Error`: `None` when the run cannot start. The
/// events depend on the language and the source alone; what they are is the
/// grammar's, and is not stated.
#[verifier::external_body]
fn run_highlight(
    engine: &mut tree_sitter_highlight::Highlighter,
    highlighter: &TreeSitterHighlighter,
    source: &str,
) -> (r: Option<Vec<HlEvent>>)
    ensures
        opt_events(r) == highlight_run(highlighter@, source@),
{
    let iter = engine.highlight(&highlighter.config, source.as_bytes(), None, None, |_| None).ok()?;
    let mut events = Vec::new();
    for ev in iter {
        events.push(match ev {
            Ok(tree_sitter_highlight::HighlightEvent::Source { start, end }) => HlEvent::Source { start, end },
            Ok(tree_sitter_highlight::HighlightEvent::HighlightStart(h)) => HlEvent::Start(h.0),
            Ok(tree_sitter_highlight::HighlightEvent::HighlightEnd) => HlEvent::End,
            Err(_) => HlEvent::Error,
        });
    }
    Some(events)
}

// ---------------------------------------------------------------------------
// Scopes: functions, types and modules found by a tree-sitter query
// ---------------------------------------------------------------------------

#[verifier::external_type_specification]
#[verifier::external_body]
pub struct ExTsParser(tree_sitter::Parser);

#[verifier::external_type_specification]
#[verifier::external_body]
pub struct ExTsTree(tree_sitter::Tree);

#[verifier::external_type_specification]
#[verifier::external_body]
pub struct ExTsQuery(tree_sitter::Query);

/// Rust scope query: functions, impls, structs and modules with their names.
pub const RUST_SCOPE_QUERY: &'static str = "
(function_item name: (identifier) @name) @scope
(impl_item type: (_) @name) @scope
(struct_item name: (type_identifier) @name) @scope
(mod_item name: (identifier) @name) @scope
";

/// TypeScript/JavaScript scope query: functions, classes and methods.
pub const TS_SCOPE_QUERY: &'static str = "
(function_declaration name: (identifier) @name) @scope
(class_declaration name: (type_identifier) @name) @scope
(method_definition name: (property_identifier) @name) @scope
(arrow_function) @scope
(function_expression) @scope
";

/// `tree_sitter::Parser::new`.
#[verifier::external_body]
fn new_parser() -> tree_sitter::Parser {
    tree_sitter::Parser::new()
}

/// Whether a parser accepts the language of `lang`'s grammar.
pub uninterp spec fn grammar_loads(lang: LanguageId) -> bool;

/// `Parser::set_language` with the grammar's language: whether it was
/// accepted, which depends on the grammar alone.
#[verifier::external_body]
fn parser_set_language(parser: &mut tree_sitter::Parser, grammar: &Grammar) -> (r: bool)
    ensures
        r == grammar_loads(grammar@),
{
    parser.set_language(&grammar.language).is_ok()
}

/// A parser set to the language of one grammar (its view). Only
/// `scope_parser` makes one.
struct ScopeParser {
    lang: LanguageId,
    parser: tree_sitter::Parser,
}

impl View for ScopeParser {
    type V = LanguageId;

    closed spec fn view(&self) -> LanguageId {
        self.lang
    }
}

/// A parser for `grammar`'s language, when it accepts it.
fn scope_parser(grammar: &Grammar) -> (r: Option<ScopeParser>)
    ensures
        r is Some <==> grammar_loads(grammar@),
        r matches Some(p) ==> p@ == grammar@,
{
    let mut parser = new_parser();
    if parser_set_language(&mut parser, grammar) {
        Some(ScopeParser { lang: grammar.lang, parser })
    } else {
        None
    }
}

/// Whether `source` parses with the grammar of `lang`.
pub uninterp spec fn source_parses(lang: LanguageId, source: Seq<char>) -> bool;

/// `Parser::parse` of `source` without an old tree; whether it gives a tree
/// depends on the parser's language and the source alone.
#[verifier::external_body]
fn parse_source(parser: &mut ScopeParser, source: &str) -> (r: Option<tree_sitter::Tree>)
    ensures
        final(parser)@ == old(parser)@,
        r is Some <==> source_parses(old(parser)@, source@),
{
    parser.parser.parse(source, None)
}

/// A syntax tree, with the language and the source it was parsed from
/// (its view).
struct ParsedSource {
    lang: LanguageId,
    source: Ghost<Seq<char>>,
    tree: tree_sitter::Tree,
}

impl View for ParsedSource {
    type V = (LanguageId, Seq<char>);

    closed spec fn view(&self) -> (LanguageId, Seq<char>) {
        (self.lang, self.source@)
    }
}

/// Whether the query `query` compiles for the grammar of `lang`.
pub uninterp spec fn scope_query_compiles(lang: LanguageId, query: Seq<char>) -> bool;

/// `tree_sitter::Query::new` with the grammar's language, `None` when the
/// query does not compile.
#[verifier::external_body]
fn new_query(grammar: &Grammar, source: &str) -> (r: Option<tree_sitter::Query>)
    ensures
        r is Some <==> scope_query_compiles(grammar@, source@),
{
    tree_sitter::Query::new(&grammar.language, source).ok()
}

/// A compiled query, with the language and the query text it was compiled
/// from (its view).
struct ScopeQuery {
    lang: LanguageId,
    text: Ghost<Seq<char>>,
    query: tree_sitter::Query,
}

impl View for ScopeQuery {
    type V = (LanguageId, Seq<char>);

    closed spec fn view(&self) -> (LanguageId, Seq<char>) {
        (self.lang, self.text@)
    }
}

/// The index of the capture `name` in the query `query` for `lang`.
pub uninterp spec fn scope_capture_index(lang: LanguageId, query: Seq<char>, name: Seq<char>) -> Option<u32>;

/// `Query::capture_index_for_name`.
#[verifier::external_body]
fn capture_index(query: &ScopeQuery, name: &str) -> (r: Option<u32>)
    ensures
        r == scope_capture_index(query@.0, query@.1, name@),
{
    query.query.capture_index_for_name(name)
}

/// One capture of a query match: the capture's index, and the captured
/// node's kind, first and last rows and text.
#[derive(Debug)]
pub struct ScopeCapture {
    /// Index of the capture name in the query.
    pub index: u32,
    /// The node's grammar kind.
    pub node_kind: String,
    /// First row of the node (0-indexed).
    pub start_row: usize,
    /// Last row of the node (0-indexed).
    pub end_row: usize,
    /// The node's text, when it is valid UTF-8.
    pub text: Option<String>,
}

/// The matches of the query `query` for `lang` over the tree of `source`,
/// each as its captures in order.
pub uninterp spec fn scope_matches(lang: LanguageId, query: Seq<char>, source: Seq<char>) -> Seq<Seq<ScopeCapture>>;

/// `QueryCursor::matches` of the query over the tree's root node, each match
/// read as its captures in order. The matches depend on the language, the
/// query and the source alone; what they are is the grammar's, and is not
/// stated.
#[verifier::external_body]
fn query_matches(query: &ScopeQuery, tree: &ParsedSource, source: &str) -> (r: Vec<Vec<ScopeCapture>>)
    requires
        tree@.0 == query@.0,
        tree@.1 == source@,
    ensures
        matches_view(r@) == scope_matches(query@.0, query@.1, source@),
{
    let mut cursor = tree_sitter::QueryCursor::new();
    let mut matches = cursor.matches(&query.query, tree.tree.root_node(), source.as_bytes());
    let mut out = Vec::new();
    while let Some(m) = matches.next() {
        let mut caps = Vec::new();
        for c in m.captures() {
            let text = c.node.utf8_text(source.as_bytes()).ok().map(|t| t.to_string());
            let (start_row, end_row) = (c.node.start_position().row, c.node.end_position().row);
            caps.push(ScopeCapture { index: c.index, node_kind: c.node.kind().to_string(), start_row, end_row, text });
        }
        out.push(caps);
    }
    out
}

/// The label of a scope's kind for a language's node kind.
pub open spec fn scope_label(lang: LanguageId, kind: Seq<char>) -> Seq<char> {
    match lang {
        LanguageId::Rust => if kind == "function_item"@ {
            "fn"@
        } else if kind == "impl_item"@ {
            "impl"@
        } else if kind == "struct_item"@ {
            "struct"@
        } else if kind == "mod_item"@ {
            "mod"@
        } else {
            "scope"@
        },
        _ => if kind == "function_declaration"@ || kind == "function_expression"@ {
            "function"@
        } else if kind == "class_declaration"@ {
            "class"@
        } else if kind == "method_definition"@ {
            "method"@
        } else if kind == "arrow_function"@ {
            "=>"@
        } else {
            "scope"@
        },
    }
}

fn same(a: &str, b: &str) -> (r: bool)
    ensures
        r == (a@ == b@),
{
    a.to_owned() == b.to_owned()
}

/// The kind label of a scope node.
pub fn scope_kind_label(lang: LanguageId, kind: &str) -> (r: &'static str)
    ensures
        r@ == scope_label(lang, kind@),
{
    match lang {
        LanguageId::Rust => if same(kind, "function_item") {
            "fn"
        } else if same(kind, "impl_item") {
            "impl"
        } else if same(kind, "struct_item") {
            "struct"
        } else if same(kind, "mod_item") {
            "mod"
        } else {
            "scope"
        },
        _ => if same(kind, "function_declaration") || same(kind, "function_expression") {
            "function"
        } else if same(kind, "class_declaration") {
            "class"
        } else if same(kind, "method_definition") {
            "method"
        } else if same(kind, "arrow_function") {
            "=>"
        } else {
            "scope"
        },
    }
}

/// A scope as values.
pub struct ScopeV {
    pub name: Seq<char>,
    pub kind: Seq<char>,
    pub start_line: usize,
    pub end_line: usize,
}

impl View for ScopeInfo {
    type V = ScopeV;

    open spec fn view(&self) -> ScopeV {
        ScopeV { name: self.name@, kind: self.kind@, start_line: self.start_line, end_line: self.end_line }
    }
}

/// The last capture of a match that is the scope capture.
pub open spec fn scope_capture(m: Seq<ScopeCapture>, scope_idx: Option<u32>) -> Option<ScopeCapture>
    decreases m.len(),
{
    if m.len() == 0 {
        None
    } else if Some(m.last().index) == scope_idx {
        Some(m.last())
    } else {
        scope_capture(m.drop_last(), scope_idx)
    }
}

/// The text of the last capture of a match that is the name capture (and
/// not the scope capture): `Some(None)` when that node's text is not UTF-8.
pub open spec fn name_capture(m: Seq<ScopeCapture>, name_idx: Option<u32>, scope_idx: Option<u32>) -> Option<
    Option<Seq<char>>,
>
    decreases m.len(),
{
    if m.len() == 0 {
        None
    } else if Some(m.last().index) != scope_idx && Some(m.last().index) == name_idx {
        Some(crate::config::opt_string(m.last().text))
    } else {
        name_capture(m.drop_last(), name_idx, scope_idx)
    }
}

/// The scope a match describes, if it captured a scope node: named by its
/// name capture (empty without one).
pub open spec fn match_scope(m: Seq<ScopeCapture>, name_idx: Option<u32>, scope_idx: Option<u32>, lang: LanguageId) -> Option<
    ScopeV,
> {
    match scope_capture(m, scope_idx) {
        Some(c) => Some(
            ScopeV {
                name: match name_capture(m, name_idx, scope_idx) {
                    Some(Some(t)) => t,
                    _ => Seq::empty(),
                },
                kind: scope_label(lang, c.node_kind@),
                start_line: c.start_row,
                end_line: c.end_row,
            },
        ),
        None => None,
    }
}

/// `a` sorts strictly before `b`: earlier start, or the same start and a
/// later end (outer scopes before the scopes they hold).
pub open spec fn scope_before(a: ScopeV, b: ScopeV) -> bool {
    a.start_line < b.start_line || (a.start_line == b.start_line && a.end_line > b.end_line)
}

/// Where a scope is inserted: before the first entry it sorts before.
pub open spec fn scope_insert_pos(s: Seq<ScopeV>, x: ScopeV) -> int
    decreases s.len(),
{
    if s.len() == 0 {
        0
    } else if scope_before(x, s[0]) {
        0
    } else {
        1 + scope_insert_pos(s.drop_first(), x)
    }
}

proof fn lemma_scope_insert_pos_bounds(s: Seq<ScopeV>, x: ScopeV)
    ensures
        0 <= scope_insert_pos(s, x) <= s.len(),
        forall|j: int| 0 <= j < scope_insert_pos(s, x) ==> !scope_before(x, #[trigger] s[j]),
        scope_insert_pos(s, x) < s.len() ==> scope_before(x, s[scope_insert_pos(s, x)]),
    decreases s.len(),
{
    if s.len() > 0 && !scope_before(x, s[0]) {
        lemma_scope_insert_pos_bounds(s.drop_first(), x);
        assert forall|j: int| 0 <= j < scope_insert_pos(s, x) implies !scope_before(x, #[trigger] s[j]) by {
            if j > 0 {
                assert(s[j] == s.drop_first()[j - 1]);
            }
        }
    }
}

/// The scopes of the matches, in match order, each inserted into place:
/// sorted by start line, then by end line descending, ties in match order.
pub open spec fn scopes_of_matches(ms: Seq<Seq<ScopeCapture>>, name_idx: Option<u32>, scope_idx: Option<u32>, lang: LanguageId) -> Seq<
    ScopeV,
>
    decreases ms.len(),
{
    if ms.len() == 0 {
        Seq::empty()
    } else {
        let prev = scopes_of_matches(ms.drop_last(), name_idx, scope_idx, lang);
        match match_scope(ms.last(), name_idx, scope_idx, lang) {
            Some(x) => prev.insert(scope_insert_pos(prev, x), x),
            None => prev,
        }
    }
}

/// Views of a list of matches.
pub open spec fn matches_view(v: Seq<Vec<ScopeCapture>>) -> Seq<Seq<ScopeCapture>> {
    v.map_values(|m: Vec<ScopeCapture>| m@)
}

/// Views of a list of scopes.
pub open spec fn scopes_view(v: Seq<ScopeInfo>) -> Seq<ScopeV> {
    v.map_values(|s: ScopeInfo| s@)
}

fn match_to_scope(m: &Vec<ScopeCapture>, name_idx: Option<u32>, scope_idx: Option<u32>, lang: LanguageId) -> (r: Option<ScopeInfo>)
    ensures
        match match_scope(m@, name_idx, scope_idx, lang) {
            Some(v) => r matches Some(s) && s@ == v,
            None => r is None,
        },
{
    let mut scope: Option<usize> = None;
    let mut name: Option<Option<String>> = None;
    let mut i: usize = 0;
    while i < m.len()
        invariant
            i <= m@.len(),
            match scope_capture(m@.take(i as int), scope_idx) {
                Some(c) => scope matches Some(k) && k < i && m@[k as int] == c,
                None => scope is None,
            },
            match name_capture(m@.take(i as int), name_idx, scope_idx) {
                Some(t) => name matches Some(n) && crate::config::opt_string(n) == t,
                None => name is None,
            },
        decreases m@.len() - i,
    {
        assert(m@.take(i + 1).drop_last() =~= m@.take(i as int));
        assert(m@.take(i + 1).last() == m@[i as int]);
        let c = &m[i];
        if Some(c.index) == scope_idx {
            scope = Some(i);
        } else if Some(c.index) == name_idx {
            name = Some(match &c.text {
                Some(t) => Some(t.clone()),
                None => None,
            });
        }
        i = i + 1;
    }
    assert(m@.take(i as int) =~= m@);
    match scope {
        Some(k) => {
            let node = &m[k];
            let n = match name {
                Some(Some(t)) => t,
                _ => String::new(),
            };
            Some(ScopeInfo {
                name: n,
                kind: scope_kind_label(lang, node.node_kind.as_str()),
                start_line: node.start_row,
                end_line: node.end_row,
            })
        },
        None => None,
    }
}

/// The scopes of query matches, outer scopes first.
pub fn scopes_from_matches(matches: &Vec<Vec<ScopeCapture>>, name_idx: Option<u32>, scope_idx: Option<u32>, lang: LanguageId) -> (r: Vec<ScopeInfo>)
    ensures
        scopes_view(r@) == scopes_of_matches(matches_view(matches@), name_idx, scope_idx, lang),
{
    let mut out: Vec<ScopeInfo> = Vec::new();
    let mut i: usize = 0;
    while i < matches.len()
        invariant
            i <= matches@.len(),
            scopes_view(out@) == scopes_of_matches(matches_view(matches@).take(i as int), name_idx, scope_idx, lang),
        decreases matches@.len() - i,
    {
        assert(matches_view(matches@).take(i + 1).drop_last() =~= matches_view(matches@).take(i as int));
        assert(matches_view(matches@).take(i + 1).last() == matches@[i as int]@);
        match match_to_scope(&matches[i], name_idx, scope_idx, lang) {
            Some(x) => {
                let ghost prev = scopes_view(out@);
                let mut pos: usize = 0;
                while pos < out.len() && !(x.start_line < out[pos].start_line || (x.start_line
                    == out[pos].start_line && x.end_line > out[pos].end_line))
                    invariant
                        prev == scopes_view(out@),
                        pos <= out@.len(),
                        forall|j: int| 0 <= j < pos ==> !scope_before(x@, #[trigger] prev[j]),
                    decreases out@.len() - pos,
                {
                    pos = pos + 1;
                }
                proof {
                    lemma_scope_insert_pos_bounds(prev, x@);
                    let p = scope_insert_pos(prev, x@);
                    if p < pos {
                        assert(!scope_before(x@, prev[p]));
                    } else if p > pos {
                        assert(scope_before(x@, prev[pos as int]));
                    }
                }
                let ghost xv = x@;
                out.insert(pos, x);
                assert(scopes_view(out@) =~= prev.insert(pos as int, xv));
            },
            None => {},
        }
        i = i + 1;
    }
    assert(matches_view(matches@).take(i as int) =~= matches_view(matches@));
    out
}

/// The scope query of a language, if it has one.
pub open spec fn scope_query_of(lang: LanguageId) -> Option<Seq<char>> {
    match lang {
        LanguageId::Rust => Some(RUST_SCOPE_QUERY@),
        LanguageId::TypeScript | LanguageId::JavaScript | LanguageId::TypeScriptReact
        | LanguageId::JavaScriptReact => Some(TS_SCOPE_QUERY@),
        _ => None,
    }
}

/// The scopes of `source` as `lang`: those built from the matches of the
/// language's scope query, when the grammar loads, the source parses and
/// the query compiles; none otherwise.
pub open spec fn scopes_for(lang: LanguageId, source: Seq<char>) -> Seq<ScopeV> {
    match scope_query_of(lang) {
        None => Seq::empty(),
        Some(q) => if grammar_loads(lang) && source_parses(lang, source) && scope_query_compiles(lang, q) {
            scopes_of_matches(
                scope_matches(lang, q, source),
                scope_capture_index(lang, q, "name"@),
                scope_capture_index(lang, q, "scope"@),
                lang,
            )
        } else {
            Seq::empty()
        },
    }
}

/// Query scopes from source code for a given language: sorted by start
/// line, outer scopes before the scopes they hold. Languages without a
/// scope query have none.
pub fn query_scopes(lang: LanguageId, source: &str) -> (r: Vec<ScopeInfo>)
    ensures
        scopes_view(r@) == scopes_for(lang, source@),
        !(lang is Rust || lang is TypeScript || lang is JavaScript || lang is TypeScriptReact
            || lang is JavaScriptReact) ==> r@.len() == 0,
        forall|a: int, b: int| 0 <= a < b < r@.len() ==> !scope_before(#[trigger] r@[b]@, #[trigger] r@[a]@),
{
    let query_src = match lang {
        LanguageId::Rust => RUST_SCOPE_QUERY,
        LanguageId::TypeScript | LanguageId::JavaScript | LanguageId::TypeScriptReact
        | LanguageId::JavaScriptReact => TS_SCOPE_QUERY,
        _ => {
            let r: Vec<ScopeInfo> = Vec::new();
            assert(scopes_view(r@) =~= Seq::<ScopeV>::empty());
            return r;
        },
    };
    let empty: Vec<ScopeInfo> = Vec::new();
    assert(scopes_view(empty@) =~= Seq::<ScopeV>::empty());
    let grammar = match grammar_of(lang) {
        Some(g) => g,
        None => {
            return empty;
        },
    };
    let mut parser = match scope_parser(&grammar) {
        Some(p) => p,
        None => {
            return empty;
        },
    };
    let tree = match parse_source(&mut parser, source) {
        Some(t) => ParsedSource { lang: parser.lang, source: Ghost(source@), tree: t },
        None => {
            return empty;
        },
    };
    let query = match new_query(&grammar, query_src) {
        Some(q) => ScopeQuery { lang, text: Ghost(query_src@), query: q },
        None => {
            return empty;
        },
    };
    let name_idx = capture_index(&query, "name");
    let scope_idx = capture_index(&query, "scope");
    let matches = query_matches(&query, &tree, source);
    let r = scopes_from_matches(&matches, name_idx, scope_idx, lang);
    proof {
        lemma_scopes_sorted(matches_view(matches@), name_idx, scope_idx, lang);
        let sv = scopes_view(r@);
        assert forall|a: int, b: int| 0 <= a < b < r@.len() implies !scope_before(
            #[trigger] r@[b]@,
            #[trigger] r@[a]@,
        ) by {
            assert(sv[a] == r@[a]@ && sv[b] == r@[b]@);
        }
    }
    r
}

/// The scopes built from matches are in order: none sorts before one
/// listed ahead of it.
pub proof fn lemma_scopes_sorted(ms: Seq<Seq<ScopeCapture>>, name_idx: Option<u32>, scope_idx: Option<u32>, lang: LanguageId)
    ensures
        forall|a: int, b: int|
            0 <= a < b < scopes_of_matches(ms, name_idx, scope_idx, lang).len() ==> !scope_before(
                #[trigger] scopes_of_matches(ms, name_idx, scope_idx, lang)[b],
                #[trigger] scopes_of_matches(ms, name_idx, scope_idx, lang)[a],
            ),
    decreases ms.len(),
{
    if ms.len() > 0 {
        lemma_scopes_sorted(ms.drop_last(), name_idx, scope_idx, lang);
        let prev = scopes_of_matches(ms.drop_last(), name_idx, scope_idx, lang);
        match match_scope(ms.last(), name_idx, scope_idx, lang) {
            Some(x) => {
                lemma_scope_insert_pos_bounds(prev, x);
                let p = scope_insert_pos(prev, x);
                let s = prev.insert(p, x);
                assert forall|a: int, b: int| 0 <= a < b < s.len() implies !scope_before(
                    #[trigger] s[b],
                    #[trigger] s[a],
                ) by {
                    if b < p {
                        assert(s[a] == prev[a] && s[b] == prev[b]);
                    } else if b == p {
                        assert(s[a] == prev[a]);
                        assert(!scope_before(x, prev[a]));
                    } else if a < p {
                        assert(s[a] == prev[a] && s[b] == prev[b - 1]);
                    } else if a == p {
                        assert(s[b] == prev[b - 1]);
                        if p < prev.len() {
                            assert(scope_before(x, prev[p]));
                            if b - 1 > p {
                                assert(!scope_before(prev[b - 1], prev[p]));
                            }
                        }
                    } else {
                        assert(s[a] == prev[a - 1] && s[b] == prev[b - 1]);
                    }
                }
            },
            None => {},
        }
    }
}

/// Tree-sitter based highlighter: the highlight configuration of one
/// language's grammar, configured with the recognized names. Its view is
/// the language.
pub struct TreeSitterHighlighter {
    lang: LanguageId,
    config: tree_sitter_highlight::HighlightConfiguration,
}

impl View for TreeSitterHighlighter {
    type V = LanguageId;

    closed spec fn view(&self) -> LanguageId {
        self.lang
    }
}

/// The spans of highlighting `source` (of `len` bytes) as `lang`: those of
/// the engine's events, or the whole source in the default style when the
/// engine cannot start.
pub open spec fn engine_spans(lang: LanguageId, source: Seq<char>, len: usize) -> Seq<StyledSpan> {
    match highlight_run(lang, source) {
        Some(evs) => spans_of_events(evs, len),
        None => seq![whole(len)],
    }
}

/// Every span lies within the first `len` bytes.
pub open spec fn spans_within(spans: Seq<StyledSpan>, len: usize) -> bool {
    forall|k: int| 0 <= k < spans.len() ==> (#[trigger] spans[k]).start <= spans[k].end && spans[k].end <= len
}

impl TreeSitterHighlighter {
    /// Create a new highlighter for the given language; `None` for plain
    /// text, or when the language's highlight configuration does not build.
    pub fn new(lang: LanguageId) -> (r: Option<Self>)
        ensures
            r is Some <==> (lang != LanguageId::Plain && highlight_config_builds(lang)),
            r matches Some(h) ==> h@ == lang,
    {
        let grammar = match grammar_of(lang) {
            Some(g) => g,
            None => {
                return None;
            },
        };
        let mut config = match new_highlight_config(&grammar) {
            Some(c) => c,
            None => {
                return None;
            },
        };
        let names = highlight_name_list();
        configure_names(&mut config, names.as_slice());
        Some(TreeSitterHighlighter { lang, config })
    }
}

impl HighlighterTrait for TreeSitterHighlighter {
    /// The spans of the engine's events; the whole source in the default
    /// style when the engine cannot start.
    fn highlight(&self, source: &str) -> (r: Vec<StyledSpan>)
        ensures
            r@ == engine_spans(self@, source@, source.spec_bytes().len() as usize),
            r@.len() > 0,
            spans_within(r@, source.spec_bytes().len() as usize),
    {
        let mut hl = new_ts_highlighter();
        match run_highlight(&mut hl, self, source) {
            Some(events) => {
                let r = spans_from_events(&events, source.len());
                proof {
                    lemma_spans_nonempty(events@, source.len());
                    lemma_spans_within(events@, source.len());
                }
                r
            },
            None => vec![StyledSpan { start: 0, end: source.len(), style_id: StyleId::Default }],
        }
    }
}

/// A run's spans, and its position, stay within the source.
proof fn lemma_run_within(evs: Seq<HlEvent>, len: usize)
    ensures
        spans_within(run_events(evs, len).0, len),
        run_events(evs, len).2 <= len,
    decreases evs.len(),
{
    if evs.len() > 0 {
        lemma_run_within(evs.drop_last(), len);
    }
}

proof fn lemma_spans_within(evs: Seq<HlEvent>, len: usize)
    ensures
        spans_within(spans_of_events(evs, len), len),
{
    lemma_run_within(evs, len);
}

proof fn lemma_spans_nonempty(evs: Seq<HlEvent>, len: usize)
    ensures
        spans_of_events(evs, len).len() > 0,
{
}

/// The spans of highlighting `source` (of `len` bytes) as `lang`: the
/// engine's when the language has a highlight configuration that builds,
/// else the whole source in the default style.
pub open spec fn highlighted(lang: LanguageId, source: Seq<char>, len: usize) -> Seq<StyledSpan> {
    if lang != LanguageId::Plain && highlight_config_builds(lang) {
        engine_spans(lang, source, len)
    } else {
        seq![whole(len)]
    }
}

/// Highlighter cache: a plain highlighter, and a tree-sitter highlighter
/// for each other language, made when asked for.
#[derive(Debug)]
pub struct HighlighterCache {
    plain: PlainHighlighter,
}

impl Default for HighlighterCache {
    fn default() -> (r: Self) {
        Self::new()
    }
}

impl HighlighterCache {
    /// Create a new empty highlighter cache.
    pub fn new() -> (r: Self) {
        HighlighterCache { plain: PlainHighlighter }
    }

    /// Highlight source code for the given language (plain when the
    /// language has no usable grammar).
    pub fn highlight(&self, lang: LanguageId, source: &str) -> (r: Vec<StyledSpan>)
        ensures
            r@ == highlighted(lang, source@, source.spec_bytes().len() as usize),
            r@.len() > 0,
            spans_within(r@, source.spec_bytes().len() as usize),
    {
        if lang == LanguageId::Plain {
            return self.plain.highlight(source);
        }
        match TreeSitterHighlighter::new(lang) {
            Some(h) => h.highlight(source),
            None => self.plain.highlight(source),
        }
    }
}

// ---------------------------------------------------------------------------
// Spans per line
// ---------------------------------------------------------------------------

/// (byte start, byte end) of each line of `b`, without the newlines; a
/// final line without newline counts when non-empty.
pub open spec fn line_bounds_of(b: Seq<u8>) -> Seq<(usize, usize)>
    decreases b.len(),
{
    line_bounds_from(b, 0, 0)
}

/// Bounds of the lines starting at `start`, scanning from `i`.
pub open spec fn line_bounds_from(b: Seq<u8>, start: int, i: int) -> Seq<(usize, usize)>
    decreases b.len() - i,
{
    if i >= b.len() || i < 0 {
        if start < b.len() {
            seq![(start as usize, b.len() as usize)]
        } else {
            Seq::empty()
        }
    } else if b[i] == 10 {
        seq![(start as usize, i as usize)] + line_bounds_from(b, i + 1, i + 1)
    } else {
        line_bounds_from(b, start, i + 1)
    }
}

/// Bounds are in order: each is a range, and each ends before the next starts.
pub open spec fn bounds_ok(bs: Seq<(usize, usize)>) -> bool {
    &&& forall|k: int| 0 <= k < bs.len() ==> (#[trigger] bs[k]).0 <= bs[k].1
    &&& forall|j: int, k: int| 0 <= j < k < bs.len() ==> (#[trigger] bs[j]).1 <= (#[trigger] bs[k]).0
}

proof fn lemma_line_bounds_from(b: Seq<u8>, start: int, i: int)
    requires
        0 <= start <= i <= b.len(),
        b.len() <= usize::MAX,
    ensures
        bounds_ok(line_bounds_from(b, start, i)),
        forall|k: int|
            0 <= k < line_bounds_from(b, start, i).len() ==> start <= (#[trigger] line_bounds_from(
                b,
                start,
                i,
            )[k]).0 && line_bounds_from(b, start, i)[k].1 <= b.len(),
    decreases b.len() - i,
{
    let r = line_bounds_from(b, start, i);
    if i < b.len() {
        if b[i] == 10 {
            lemma_line_bounds_from(b, i + 1, i + 1);
            let rest = line_bounds_from(b, i + 1, i + 1);
            assert(r == seq![(start as usize, i as usize)] + rest);
            assert forall|k: int| 0 <= k < r.len() implies (#[trigger] r[k]).0 <= r[k].1 by {
                if k > 0 {
                    assert(r[k] == rest[k - 1]);
                }
            }
            assert forall|j: int, k: int| 0 <= j < k < r.len() implies (#[trigger] r[j]).1 <= (
            #[trigger] r[k]).0 by {
                assert(r[k] == rest[k - 1]);
                if j > 0 {
                    assert(r[j] == rest[j - 1]);
                }
            }
            assert forall|k: int| 0 <= k < r.len() implies start <= (#[trigger] r[k]).0 && r[k].1
                <= b.len() by {
                if k > 0 {
                    assert(r[k] == rest[k - 1]);
                }
            }
        } else {
            lemma_line_bounds_from(b, start, i + 1);
        }
    }
}

/// Byte ranges of the lines of `source`.
pub fn compute_line_bounds(source: &str) -> (r: Vec<(usize, usize)>)
    ensures
        r@ == line_bounds_of(source.spec_bytes()),
        bounds_ok(r@),
{
    let b = source.as_bytes();
    let ghost bs = b@;
    let mut bounds: Vec<(usize, usize)> = Vec::new();
    let mut start: usize = 0;
    let mut i: usize = 0;
    while i < b.len()
        invariant
            bs == b@,
            start <= i <= bs.len(),
            bounds@ + line_bounds_from(bs, start as int, i as int) == line_bounds_from(bs, 0, 0),
        decreases bs.len() - i,
    {
        if b[i] == 10 {
            let ghost b0 = bounds@;
            bounds.push((start, i));
            assert(bounds@ + line_bounds_from(bs, i + 1, i + 1) =~= b0 + line_bounds_from(
                bs,
                start as int,
                i as int,
            ));
            start = i + 1;
        }
        i = i + 1;
    }
    if start < b.len() {
        let ghost b0 = bounds@;
        bounds.push((start, b.len()));
        assert(bounds@ =~= b0 + line_bounds_from(bs, start as int, i as int));
    } else {
        assert(bounds@ =~= bounds@ + line_bounds_from(bs, start as int, i as int));
    }
    let blen = b.len();
    proof {
        assert(bs.len() == blen);
        lemma_line_bounds_from(bs, 0, 0);
    }
    bounds
}

/// The part of `s` inside line `b`, relative to the line start.
pub open spec fn clip(s: StyledSpan, b: (usize, usize)) -> Option<StyledSpan> {
    let cs = if s.start > b.0 {
        s.start
    } else {
        b.0
    };
    let ce = if s.end < b.1 {
        s.end
    } else {
        b.1
    };
    if cs < ce {
        Some(StyledSpan { start: (cs - b.0) as usize, end: (ce - b.0) as usize, style_id: s.style_id })
    } else {
        None
    }
}

/// The parts of the spans inside line `b`, in span order.
pub open spec fn line_clips(spans: Seq<StyledSpan>, b: (usize, usize)) -> Seq<StyledSpan>
    decreases spans.len(),
{
    if spans.len() == 0 {
        Seq::empty()
    } else {
        let p = line_clips(spans.drop_last(), b);
        match clip(spans.last(), b) {
            Some(c) => p.push(c),
            None => p,
        }
    }
}

/// Views of per-line span lists.
pub open spec fn per_line_view(v: Seq<Vec<StyledSpan>>) -> Seq<Seq<StyledSpan>> {
    v.map_values(|l: Vec<StyledSpan>| l@)
}

/// Split spans over the source into spans per line (relative to each
/// line's start).
pub fn split_spans_by_line(spans: &[StyledSpan], bounds: &[(usize, usize)]) -> (r: Vec<Vec<StyledSpan>>)
    requires
        bounds_ok(bounds@),
    ensures
        r@.len() == bounds@.len(),
        forall|k: int| 0 <= k < bounds@.len() ==> (#[trigger] r@[k])@ == line_clips(spans@, bounds@[k]),
{
    let n = bounds.len();
    let mut per_line: Vec<Vec<StyledSpan>> = Vec::new();
    let mut k: usize = 0;
    while k < n
        invariant
            n == bounds@.len(),
            k <= n,
            per_line@.len() == k,
            forall|j: int| 0 <= j < k ==> (#[trigger] per_line@[j])@ == Seq::<StyledSpan>::empty(),
        decreases n - k,
    {
        per_line.push(Vec::new());
        k = k + 1;
    }
    let mut si: usize = 0;
    assert(spans@.subrange(0, 0) =~= Seq::<StyledSpan>::empty());
    while si < spans.len()
        invariant
            n == bounds@.len(),
            bounds_ok(bounds@),
            si <= spans@.len(),
            per_line@.len() == n,
            forall|j: int|
                0 <= j < n ==> (#[trigger] per_line@[j])@ == line_clips(
                    spans@.subrange(0, si as int),
                    bounds@[j],
                ),
        decreases spans@.len() - si,
    {
        let span = spans[si];
        proof {
            assert(spans@.subrange(0, si + 1).drop_last() =~= spans@.subrange(0, si as int));
            assert(spans@.subrange(0, si + 1).last() == span);
        }
        let ghost before = per_line_view(per_line@);
        if span.start < span.end {
            // first line whose end is past the span's start
            let mut lo: usize = 0;
            let mut hi: usize = n;
            while lo < hi
                invariant
                    n == bounds@.len(),
                    bounds_ok(bounds@),
                    lo <= hi <= n,
                    forall|j: int| 0 <= j < lo ==> bounds@[j].1 <= span.start,
                    forall|j: int| hi <= j < n ==> bounds@[j].1 > span.start,
                decreases hi - lo,
            {
                let mid = lo + (hi - lo) / 2;
                if bounds[mid].1 <= span.start {
                    proof {
                        assert forall|j: int| 0 <= j < mid + 1 implies bounds@[j].1 <= span.start by {
                            if j < mid {
                                assert(bounds@[j].1 <= bounds@[mid as int].0);
                            }
                        }
                    }
                    lo = mid + 1;
                } else {
                    proof {
                        assert forall|j: int| mid <= j < n implies bounds@[j].1 > span.start by {
                            if j > mid {
                                assert(bounds@[mid as int].1 <= bounds@[j].0);
                            }
                        }
                    }
                    hi = mid;
                }
            }
            let mut idx = lo;
            loop
                invariant_except_break
                    lo <= idx <= n,
                    forall|j: int|
                        0 <= j < n ==> (#[trigger] per_line@[j])@ == if lo <= j < idx {
                            match clip(span, bounds@[j]) {
                                Some(c) => before[j].push(c),
                                None => before[j],
                            }
                        } else {
                            before[j]
                        },
                invariant
                    n == bounds@.len(),
                    bounds_ok(bounds@),
                    per_line@.len() == n,
                    span.start < span.end,
                    forall|j: int| 0 <= j < lo ==> bounds@[j].1 <= span.start,
                    forall|j: int| 0 <= j < n ==> before[j] == line_clips(
                        spans@.subrange(0, si as int),
                        bounds@[j],
                    ),
                ensures
                    forall|j: int|
                        0 <= j < n ==> (#[trigger] per_line@[j])@ == match clip(span, bounds@[j]) {
                            Some(c) => before[j].push(c),
                            None => before[j],
                        },
                decreases n - idx,
            {
                if idx >= n {
                    break;
                }
                let (line_start, line_end) = bounds[idx];
                if span.start >= line_end {
                    idx = idx + 1;
                    continue;
                }
                if span.end <= line_start {
                    proof {
                        assert forall|j: int| idx <= j < n implies clip(span, bounds@[j]) is None by {
                            if j > idx {
                                assert(bounds@[idx as int].1 <= bounds@[j].0);
                            }
                        }
                    }
                    break;
                }
                let cs = if span.start > line_start {
                    span.start
                } else {
                    line_start
                };
                let ce = if span.end < line_end {
                    span.end
                } else {
                    line_end
                };
                if cs < ce {
                    let c = StyledSpan { start: cs - line_start, end: ce - line_start, style_id: span.style_id };
                    let mut line = per_line[idx].clone();
                    assert(line@ =~= per_line@[idx as int]@);
                    line.push(c);
                    per_line.set(idx, line);
                }
                if span.end <= line_end {
                    proof {
                        assert forall|j: int| idx < j < n implies clip(span, bounds@[j]) is None by {
                            assert(bounds@[idx as int].1 <= bounds@[j].0);
                        }
                    }
                    break;
                }
                idx = idx + 1;
            }
        } else {
            assert forall|j: int| 0 <= j < n implies clip(span, bounds@[j]) is None by {}
        }
        si = si + 1;
    }
    assert(spans@.subrange(0, si as int) =~= spans@);
    per_line
}

/// (filled spans, cursor) after placing the spans in order: a gap before
/// a span is filled with the default style, and a span is kept when it
/// ends past the cursor.
pub open spec fn fill_state(spans: Seq<StyledSpan>) -> (Seq<StyledSpan>, usize)
    decreases spans.len(),
{
    if spans.len() == 0 {
        (Seq::empty(), 0)
    } else {
        let st = fill_state(spans.drop_last());
        let s = spans.last();
        let f1 = if s.start > st.1 {
            st.0.push(StyledSpan { start: st.1, end: s.start, style_id: StyleId::Default })
        } else {
            st.0
        };
        if s.end > st.1 {
            (f1.push(s), s.end)
        } else {
            (f1, st.1)
        }
    }
}

/// The spans of a line of `line_len` bytes with its gaps filled in the
/// default style (an empty line keeps its spans; a line without spans is
/// one default span).
pub open spec fn filled_line(spans: Seq<StyledSpan>, line_len: usize) -> Seq<StyledSpan> {
    if line_len == 0 {
        spans
    } else if spans.len() == 0 {
        seq![StyledSpan { start: 0, end: line_len, style_id: StyleId::Default }]
    } else {
        let st = fill_state(spans);
        if st.1 < line_len {
            st.0.push(StyledSpan { start: st.1, end: line_len, style_id: StyleId::Default })
        } else {
            st.0
        }
    }
}

/// Fill the gaps between a line's spans with the default style.
pub fn fill_line_gaps(spans: Vec<StyledSpan>, line_len: usize) -> (r: Vec<StyledSpan>)
    ensures
        r@ == filled_line(spans@, line_len),
{
    if line_len == 0 {
        return spans;
    }
    if spans.len() == 0 {
        let v = vec![StyledSpan { start: 0, end: line_len, style_id: StyleId::Default }];
        assert(v@ =~= seq![StyledSpan { start: 0, end: line_len, style_id: StyleId::Default }]);
        return v;
    }
    let mut filled: Vec<StyledSpan> = Vec::new();
    let mut cursor: usize = 0;
    let mut i: usize = 0;
    assert(spans@.subrange(0, 0) =~= Seq::<StyledSpan>::empty());
    while i < spans.len()
        invariant
            i <= spans@.len(),
            fill_state(spans@.subrange(0, i as int)) == (filled@, cursor),
        decreases spans@.len() - i,
    {
        let span = spans[i];
        proof {
            assert(spans@.subrange(0, i + 1).drop_last() =~= spans@.subrange(0, i as int));
            assert(spans@.subrange(0, i + 1).last() == span);
        }
        if span.start > cursor {
            filled.push(StyledSpan { start: cursor, end: span.start, style_id: StyleId::Default });
        }
        if span.end > cursor {
            filled.push(span);
            cursor = span.end;
        }
        i = i + 1;
    }
    assert(spans@.subrange(0, i as int) =~= spans@);
    if cursor < line_len {
        filled.push(StyledSpan { start: cursor, end: line_len, style_id: StyleId::Default });
    }
    filled
}

/// Per-line spans of a source whose whole-source spans are `spans`.
pub open spec fn lines_from_spans(src: Seq<u8>, spans: Seq<StyledSpan>) -> Seq<Seq<StyledSpan>> {
    let bs = line_bounds_of(src);
    Seq::new(
        bs.len(),
        |k: int| filled_line(line_clips(spans, bs[k]), (bs[k].1 - bs[k].0) as usize),
    )
}

/// Per-line spans from whole-source spans.
pub fn line_spans_from(source: &str, spans: &[StyledSpan]) -> (r: Vec<Vec<StyledSpan>>)
    ensures
        per_line_view(r@) == lines_from_spans(source.spec_bytes(), spans@),
{
    let bounds = compute_line_bounds(source);
    let per_line = split_spans_by_line(spans, bounds.as_slice());
    let mut out: Vec<Vec<StyledSpan>> = Vec::new();
    let mut k: usize = 0;
    let ghost target = lines_from_spans(source.spec_bytes(), spans@);
    while k < per_line.len()
        invariant
            bounds@ == line_bounds_of(source.spec_bytes()),
            bounds_ok(bounds@),
            per_line@.len() == bounds@.len(),
            forall|j: int| 0 <= j < bounds@.len() ==> (#[trigger] per_line@[j])@ == line_clips(
                spans@,
                bounds@[j],
            ),
            target == lines_from_spans(source.spec_bytes(), spans@),
            k <= per_line@.len(),
            out@.len() == k,
            forall|j: int| 0 <= j < k ==> (#[trigger] out@[j])@ == target[j],
        decreases per_line@.len() - k,
    {
        let b = bounds[k];
        assert(b.0 <= b.1);
        let line = per_line[k].clone();
        assert(line@ =~= per_line@[k as int]@);
        out.push(fill_line_gaps(line, b.1 - b.0));
        k = k + 1;
    }
    assert(per_line_view(out@) =~= target);
    out
}

/// Cached per-line highlights for a single file.
#[derive(Debug)]
pub struct FileHighlightCache {
    line_spans: Vec<Vec<StyledSpan>>,
}

impl Default for FileHighlightCache {
    fn default() -> (r: Self)
        ensures
            r.spec_lines().len() == 0,
    {
        Self::new()
    }
}

impl FileHighlightCache {
    /// The cached spans of each line.
    pub closed spec fn spec_lines(&self) -> Seq<Seq<StyledSpan>> {
        per_line_view(self.line_spans@)
    }

    /// Create an empty cache.
    pub fn new() -> (r: Self)
        ensures
            r.spec_lines().len() == 0,
    {
        FileHighlightCache { line_spans: Vec::new() }
    }

    /// Clear cached spans.
    pub fn clear(&mut self)
        ensures
            final(self).spec_lines().len() == 0,
    {
        self.line_spans = Vec::new();
    }

    /// Compute and cache highlights for an entire source file: the spans
    /// the highlighter gives for `lang`, cut and filled per line.
    pub fn compute(&mut self, highlighters: &HighlighterCache, lang: LanguageId, source: &str)
        ensures
            final(self).spec_lines() == lines_from_spans(
                source.spec_bytes(),
                highlighted(lang, source@, source.spec_bytes().len() as usize),
            ),
    {
        let bounds = compute_line_bounds(source);
        if bounds.len() == 0 {
            self.line_spans = Vec::new();
            let ghost w = highlighted(lang, source@, source.spec_bytes().len() as usize);
            assert(per_line_view(self.line_spans@) =~= lines_from_spans(source.spec_bytes(), w));
            return;
        }
        let spans = highlighters.highlight(lang, source);
        self.line_spans = line_spans_from(source, spans.as_slice());
    }

    /// Get cached spans for a line (0-indexed).
    pub fn line_spans(&self, line_num: usize) -> (r: Option<&[StyledSpan]>)
        ensures
            line_num < self.spec_lines().len() ==> (r matches Some(s) && s@ == self.spec_lines()[line_num as int]),
            line_num >= self.spec_lines().len() ==> r is None,
    {
        if line_num < self.line_spans.len() {
            Some(self.line_spans[line_num].as_slice())
        } else {
            None
        }
    }
}

} // verus!
