//! quickdiff: a git-first diff viewer's core model, verified.

pub mod strings;
pub mod text;
pub mod diff;
pub mod diff_laws;
pub mod sorting;
pub mod repo;
pub mod pr_diff;
pub mod stdin_input;
pub mod comments;
pub mod comments_store;
pub mod config;
pub mod viewed;
pub mod windowing;
pub mod watcher;
pub mod gh;
pub mod view_state;
pub mod render_helpers;
pub mod highlight;
pub mod web;
pub mod worker;
pub mod cli_comments;
pub mod fuzzy;
pub mod theme;
pub mod navigation;
pub mod cli_args;
pub mod pane;
pub mod bars;
pub mod sidebar;
pub mod overlays;
pub mod keys;
pub mod app_state;
