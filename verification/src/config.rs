//! User configuration: the preference layers and how they combine.
//!
//! Reading and parsing the config files happens outside this module; the
//! parsed layers are combined here.

use vstd::prelude::*;

verus! {

/// Resolved view preferences used by the app.
#[derive(Debug, PartialEq, Eq)]
pub struct ViewPreferences {
    /// Active theme name.
    pub theme: String,
    /// Whether long lines should wrap inside the diff panes.
    pub wrap_lines: bool,
    /// Whether line numbers should be shown in the gutter.
    pub line_numbers: bool,
}

/// Mathematical view of [`ViewPreferences`].
pub struct PrefsV {
    pub theme: Seq<char>,
    pub wrap_lines: bool,
    pub line_numbers: bool,
}

impl View for ViewPreferences {
    type V = PrefsV;

    open spec fn view(&self) -> PrefsV {
        PrefsV { theme: self.theme@, wrap_lines: self.wrap_lines, line_numbers: self.line_numbers }
    }
}

impl Clone for ViewPreferences {
    fn clone(&self) -> (r: Self)
        ensures
            r@ == self@,
    {
        ViewPreferences {
            theme: self.theme.clone(),
            wrap_lines: self.wrap_lines,
            line_numbers: self.line_numbers,
        }
    }
}

/// The built-in preferences.
pub open spec fn default_prefs() -> PrefsV {
    PrefsV { theme: "default"@, wrap_lines: false, line_numbers: true }
}

impl Default for ViewPreferences {
    fn default() -> (r: Self)
        ensures
            r@ == default_prefs(),
    {
        ViewPreferences { theme: "default".to_owned(), wrap_lines: false, line_numbers: true }
    }
}

/// Config file shape.
#[derive(Debug, PartialEq, Eq)]
pub struct QuickdiffConfig {
    /// Theme name.
    pub theme: Option<String>,
    /// Preferred layout mode (reserved for future layout work).
    pub layout: Option<String>,
    /// Whether to wrap long lines.
    pub wrap_lines: Option<bool>,
    /// Whether to show line numbers.
    pub line_numbers: Option<bool>,
}

/// The text of an optional string.
pub open spec fn opt_string(o: Option<String>) -> Option<Seq<char>> {
    match o {
        Some(s) => Some(s@),
        None => None,
    }
}

/// Mathematical view of a config layer.
pub struct LayerV {
    pub theme: Option<Seq<char>>,
    pub layout: Option<Seq<char>>,
    pub wrap_lines: Option<bool>,
    pub line_numbers: Option<bool>,
}

impl View for QuickdiffConfig {
    type V = LayerV;

    open spec fn view(&self) -> LayerV {
        LayerV {
            theme: opt_string(self.theme),
            layout: opt_string(self.layout),
            wrap_lines: self.wrap_lines,
            line_numbers: self.line_numbers,
        }
    }
}

fn clone_opt_string(o: &Option<String>) -> (r: Option<String>)
    ensures
        opt_string(r) == opt_string(*o),
{
    match o {
        Some(s) => Some(s.clone()),
        None => None,
    }
}

impl Clone for QuickdiffConfig {
    fn clone(&self) -> (r: Self)
        ensures
            r@ == self@,
    {
        QuickdiffConfig {
            theme: clone_opt_string(&self.theme),
            layout: clone_opt_string(&self.layout),
            wrap_lines: self.wrap_lines,
            line_numbers: self.line_numbers,
        }
    }
}

impl Default for QuickdiffConfig {
    fn default() -> (r: Self)
        ensures
            r@ == (LayerV { theme: None, layout: None, wrap_lines: None, line_numbers: None }),
    {
        QuickdiffConfig { theme: None, layout: None, wrap_lines: None, line_numbers: None }
    }
}

/// `v` when set, else `d`.
pub open spec fn set_or<T>(v: Option<T>, d: T) -> T {
    match v {
        Some(x) => x,
        None => d,
    }
}

/// Preferences `p` with the settings of layer `c` applied over them.
pub open spec fn merged_prefs(p: PrefsV, c: LayerV) -> PrefsV {
    PrefsV {
        theme: set_or(c.theme, p.theme),
        wrap_lines: set_or(c.wrap_lines, p.wrap_lines),
        line_numbers: set_or(c.line_numbers, p.line_numbers),
    }
}

/// The layer whose settings are those of `b`, or of `a` where `b` has none.
pub open spec fn stacked(a: LayerV, b: LayerV) -> LayerV {
    LayerV {
        theme: match b.theme {
            Some(t) => Some(t),
            None => a.theme,
        },
        layout: match b.layout {
            Some(t) => Some(t),
            None => a.layout,
        },
        wrap_lines: match b.wrap_lines {
            Some(t) => Some(t),
            None => a.wrap_lines,
        },
        line_numbers: match b.line_numbers {
            Some(t) => Some(t),
            None => a.line_numbers,
        },
    }
}

impl QuickdiffConfig {
    /// Apply this layer's settings over `prefs`.
    pub fn merge_into(&self, prefs: &mut ViewPreferences)
        ensures
            final(prefs)@ == merged_prefs(old(prefs)@, self@),
    {
        match &self.theme {
            Some(theme) => {
                prefs.theme = theme.clone();
            },
            None => {},
        }
        match self.wrap_lines {
            Some(w) => {
                prefs.wrap_lines = w;
            },
            None => {},
        }
        match self.line_numbers {
            Some(n) => {
                prefs.line_numbers = n;
            },
            None => {},
        }
    }
}

/// Applying two layers in turn is applying their stack: a later layer's
/// setting wins, an earlier one shows through where the later has none.
pub proof fn lemma_merge_stacks(p: PrefsV, a: LayerV, b: LayerV)
    ensures
        merged_prefs(merged_prefs(p, a), b) == merged_prefs(p, stacked(a, b)),
{
}

/// Applying the same layer twice is applying it once.
pub proof fn lemma_merge_idempotent(p: PrefsV, a: LayerV)
    ensures
        merged_prefs(merged_prefs(p, a), a) == merged_prefs(p, a),
{
}

/// CLI overrides that outrank config files.
#[derive(Debug)]
pub struct ConfigOverrides {
    /// Theme override from CLI.
    pub theme: Option<String>,
}

impl Default for ConfigOverrides {
    fn default() -> (r: Self)
        ensures
            r.theme is None,
    {
        ConfigOverrides { theme: None }
    }
}

/// Result of resolving config layers.
#[derive(Debug)]
pub struct LoadedPreferences {
    /// Final merged view preferences.
    pub prefs: ViewPreferences,
    /// Non-fatal warnings encountered while loading config.
    pub warnings: Vec<String>,
}

/// A layer that is absent sets nothing.
pub open spec fn layer_or_empty(c: Option<LayerV>) -> LayerV {
    match c {
        Some(l) => l,
        None => LayerV { theme: None, layout: None, wrap_lines: None, line_numbers: None },
    }
}

/// The preferences resolved from the defaults, the global layer, the repo
/// layer and the CLI theme, each outranking the ones before.
pub open spec fn resolved_prefs(
    global: Option<LayerV>,
    repo: Option<LayerV>,
    cli_theme: Option<Seq<char>>,
) -> PrefsV {
    let p = merged_prefs(merged_prefs(default_prefs(), layer_or_empty(global)), layer_or_empty(repo));
    PrefsV { theme: set_or(cli_theme, p.theme), ..p }
}

/// The view of an optional layer.
pub open spec fn opt_layer(c: Option<&QuickdiffConfig>) -> Option<LayerV> {
    match c {
        Some(l) => Some(l@),
        None => None,
    }
}

/// Resolve preferences from defaults + global config + repo config + CLI
/// overrides, given the layers that were read (`None` where a file was
/// absent or unreadable) and the warnings gathered while reading them.
pub fn load_preferences(
    global: Option<&QuickdiffConfig>,
    repo: Option<&QuickdiffConfig>,
    overrides: &ConfigOverrides,
    warnings: Vec<String>,
) -> (r: LoadedPreferences)
    ensures
        r.prefs@ == resolved_prefs(opt_layer(global), opt_layer(repo), opt_string(overrides.theme)),
        r.warnings@ == warnings@,
{
    let mut prefs = ViewPreferences::default();
    match global {
        Some(g) => g.merge_into(&mut prefs),
        None => {},
    }
    match repo {
        Some(c) => c.merge_into(&mut prefs),
        None => {},
    }
    match &overrides.theme {
        Some(theme) => {
            prefs.theme = theme.clone();
        },
        None => {},
    }
    LoadedPreferences { prefs, warnings }
}

/// With no layers and no override, the defaults are what is resolved.
pub proof fn lemma_resolve_defaults()
    ensures
        resolved_prefs(None, None, None) == default_prefs(),
{
}

/// A CLI theme always wins.
pub proof fn lemma_cli_theme_wins(global: Option<LayerV>, repo: Option<LayerV>, t: Seq<char>)
    ensures
        resolved_prefs(global, repo, Some(t)).theme == t,
{
}

/// Global config path, inside the config directory `config_dir`.
pub fn global_config_path(config_dir: &str) -> (r: String)
    ensures
        r@ == crate::repo::path_joined(config_dir@, "config.toml"@),
{
    crate::repo::std_path_join(config_dir, "config.toml")
}

/// Repo-local config path.
pub fn repo_config_path(repo_root: &str) -> (r: String)
    ensures
        r@ == crate::repo::path_joined(
            crate::repo::path_joined(repo_root@, ".quickdiff"@),
            "config.toml"@,
        ),
{
    let dir = crate::repo::std_path_join(repo_root, ".quickdiff");
    crate::repo::std_path_join(dir.as_str(), "config.toml")
}

} // verus!
