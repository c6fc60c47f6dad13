//! What a key press or mouse event asks the viewer to do, by mode and
//! focus: the decision half of input handling. Carrying the command out is
//! the caller's part.

use vstd::prelude::*;
use crate::view_state::{Focus, Mode};

verus! {

/// A key, as the terminal reports it.
#[derive(Debug, Clone, Copy, PartialEq, Eq, Structural)]
pub enum Key {
    Char(char),
    Up,
    Down,
    Left,
    Right,
    Enter,
    Esc,
    Tab,
    Backspace,
    PageUp,
    PageDown,
    /// Any other key.
    Other,
}

/// A key press: the key and whether Control was held.
#[derive(Debug, Clone, Copy, PartialEq, Eq, Structural)]
pub struct KeyPress {
    pub key: Key,
    pub ctrl: bool,
}

/// What the viewer is asked to do.
#[derive(Debug, Clone, Copy, PartialEq, Eq, Structural)]
pub enum Command {
    Quit,
    ToggleFocus,
    SetFocus(Focus),
    ToggleViewed,
    OpenThemeSelector,
    SelectNext,
    SelectPrev,
    StartFilter,
    ClearFilter,
    /// Scroll the diff by rows and columns.
    ScrollDiff(i32, i32),
    NextHunk,
    PrevHunk,
    GoToEnd,
    GoToStart,
    StartAddComment,
    ShowComments,
    CancelAddComment,
    SaveComment,
    DraftPop,
    DraftPush(char),
    CloseComments,
    CommentsNext,
    CommentsPrev,
    CommentsJump,
    CommentsResolve,
    CommentsToggleResolved,
    CancelFilter,
    ApplyFilter,
    FilterPop,
    FilterPush(char),
    CloseThemeSelector,
    ThemeNext,
    ThemePrev,
    ThemeApply,
}

/// Keys of the comment input line.
pub open spec fn add_comment_key(k: Key) -> (bool, Option<Command>) {
    match k {
        Key::Esc => (true, Some(Command::CancelAddComment)),
        Key::Enter => (true, Some(Command::SaveComment)),
        Key::Backspace => (true, Some(Command::DraftPop)),
        Key::Char(c) => (true, Some(Command::DraftPush(c))),
        _ => (false, None),
    }
}

/// Keys of the comments overlay, which takes every key.
pub open spec fn view_comments_key(k: Key) -> (bool, Option<Command>) {
    match k {
        Key::Esc => (true, Some(Command::CloseComments)),
        Key::Char('q') => (true, Some(Command::CloseComments)),
        Key::Char('C') => (true, Some(Command::CloseComments)),
        Key::Char('j') => (true, Some(Command::CommentsNext)),
        Key::Down => (true, Some(Command::CommentsNext)),
        Key::Char('k') => (true, Some(Command::CommentsPrev)),
        Key::Up => (true, Some(Command::CommentsPrev)),
        Key::Enter => (true, Some(Command::CommentsJump)),
        Key::Char('r') => (true, Some(Command::CommentsResolve)),
        Key::Char('a') => (true, Some(Command::CommentsToggleResolved)),
        _ => (true, None),
    }
}

/// Keys of the filter input line.
pub open spec fn filter_key(k: Key) -> (bool, Option<Command>) {
    match k {
        Key::Esc => (true, Some(Command::CancelFilter)),
        Key::Enter => (true, Some(Command::ApplyFilter)),
        Key::Backspace => (true, Some(Command::FilterPop)),
        Key::Char(c) => (true, Some(Command::FilterPush(c))),
        _ => (false, None),
    }
}

/// Keys of the theme selector, which takes every key.
pub open spec fn theme_key(k: Key) -> (bool, Option<Command>) {
    match k {
        Key::Esc => (true, Some(Command::CloseThemeSelector)),
        Key::Char('q') => (true, Some(Command::CloseThemeSelector)),
        Key::Char('T') => (true, Some(Command::CloseThemeSelector)),
        Key::Char('j') => (true, Some(Command::ThemeNext)),
        Key::Down => (true, Some(Command::ThemeNext)),
        Key::Char('k') => (true, Some(Command::ThemePrev)),
        Key::Up => (true, Some(Command::ThemePrev)),
        Key::Enter => (true, Some(Command::ThemeApply)),
        _ => (true, None),
    }
}

/// Keys that work wherever the focus is, in normal mode.
pub open spec fn global_key(p: KeyPress) -> Option<Command> {
    match p.key {
        Key::Char('q') => Some(Command::Quit),
        Key::Char('c') => if p.ctrl {
            Some(Command::Quit)
        } else {
            None
        },
        Key::Tab => Some(Command::ToggleFocus),
        Key::Char('1') => Some(Command::SetFocus(Focus::Sidebar)),
        Key::Char('2') => Some(Command::SetFocus(Focus::Diff)),
        Key::Char(' ') => Some(Command::ToggleViewed),
        Key::Char('T') => Some(Command::OpenThemeSelector),
        _ => None,
    }
}

/// Keys of the sidebar.
pub open spec fn sidebar_key(k: Key) -> Option<Command> {
    match k {
        Key::Char('j') => Some(Command::SelectNext),
        Key::Down => Some(Command::SelectNext),
        Key::Char('k') => Some(Command::SelectPrev),
        Key::Up => Some(Command::SelectPrev),
        Key::Enter => Some(Command::SetFocus(Focus::Diff)),
        Key::Char('/') => Some(Command::StartFilter),
        Key::Esc => Some(Command::ClearFilter),
        _ => None,
    }
}

/// Keys of the diff view; commenting needs worktree mode.
pub open spec fn diff_key(k: Key, worktree: bool) -> Option<Command> {
    match k {
        Key::Char('j') => Some(Command::ScrollDiff(1, 0)),
        Key::Down => Some(Command::ScrollDiff(1, 0)),
        Key::Char('k') => Some(Command::ScrollDiff(-1i32, 0i32)),
        Key::Up => Some(Command::ScrollDiff(-1i32, 0i32)),
        Key::Char('h') => Some(Command::ScrollDiff(0i32, -1i32)),
        Key::Left => Some(Command::ScrollDiff(0i32, -1i32)),
        Key::Char('l') => Some(Command::ScrollDiff(0, 1)),
        Key::Right => Some(Command::ScrollDiff(0, 1)),
        Key::Char('}') => Some(Command::NextHunk),
        Key::Char('{') => Some(Command::PrevHunk),
        Key::PageDown => Some(Command::ScrollDiff(20, 0)),
        Key::PageUp => Some(Command::ScrollDiff(-20i32, 0i32)),
        Key::Char('G') => Some(Command::GoToEnd),
        Key::Char('g') => Some(Command::GoToStart),
        Key::Char('c') => if worktree {
            Some(Command::StartAddComment)
        } else {
            None
        },
        Key::Char('C') => if worktree {
            Some(Command::ShowComments)
        } else {
            None
        },
        _ => None,
    }
}

/// The input modes the key handler knows: normal and the four input or
/// overlay modes.
pub open spec fn key_mode(mode: Mode) -> bool {
    mode == Mode::Normal || mode == Mode::AddComment || mode == Mode::ViewComments || mode == Mode::FilterFiles
        || mode == Mode::SelectTheme
}

/// Whether a key press is handled, and the command it gives: the mode's
/// keys first; in normal mode the global keys, then those of the focused
/// pane.
pub open spec fn key_outcome(mode: Mode, focus: Focus, worktree: bool, p: KeyPress) -> (bool, Option<Command>) {
    if mode == Mode::AddComment {
        add_comment_key(p.key)
    } else if mode == Mode::ViewComments {
        view_comments_key(p.key)
    } else if mode == Mode::FilterFiles {
        filter_key(p.key)
    } else if mode == Mode::SelectTheme {
        theme_key(p.key)
    } else if global_key(p) is Some {
        (true, global_key(p))
    } else {
        let c = match focus {
            Focus::Sidebar => sidebar_key(p.key),
            Focus::Diff => diff_key(p.key, worktree),
        };
        (c is Some, c)
    }
}

/// Decide what a key press asks for.
pub fn key_command(mode: Mode, focus: Focus, worktree: bool, p: KeyPress) -> (r: (bool, Option<Command>))
    requires
        key_mode(mode),
    ensures
        r == key_outcome(mode, focus, worktree, p),
{
    match mode {
        Mode::AddComment => {
            return match p.key {
                Key::Esc => (true, Some(Command::CancelAddComment)),
                Key::Enter => (true, Some(Command::SaveComment)),
                Key::Backspace => (true, Some(Command::DraftPop)),
                Key::Char(c) => (true, Some(Command::DraftPush(c))),
                _ => (false, None),
            };
        },
        Mode::ViewComments => {
            return match p.key {
                Key::Esc | Key::Char('q') | Key::Char('C') => (true, Some(Command::CloseComments)),
                Key::Char('j') | Key::Down => (true, Some(Command::CommentsNext)),
                Key::Char('k') | Key::Up => (true, Some(Command::CommentsPrev)),
                Key::Enter => (true, Some(Command::CommentsJump)),
                Key::Char('r') => (true, Some(Command::CommentsResolve)),
                Key::Char('a') => (true, Some(Command::CommentsToggleResolved)),
                _ => (true, None),
            };
        },
        Mode::FilterFiles => {
            return match p.key {
                Key::Esc => (true, Some(Command::CancelFilter)),
                Key::Enter => (true, Some(Command::ApplyFilter)),
                Key::Backspace => (true, Some(Command::FilterPop)),
                Key::Char(c) => (true, Some(Command::FilterPush(c))),
                _ => (false, None),
            };
        },
        Mode::SelectTheme => {
            return match p.key {
                Key::Esc | Key::Char('q') | Key::Char('T') => (true, Some(Command::CloseThemeSelector)),
                Key::Char('j') | Key::Down => (true, Some(Command::ThemeNext)),
                Key::Char('k') | Key::Up => (true, Some(Command::ThemePrev)),
                Key::Enter => (true, Some(Command::ThemeApply)),
                _ => (true, None),
            };
        },
        _ => {},
    }
    let global = match p.key {
        Key::Char('q') => Some(Command::Quit),
        Key::Char('c') if p.ctrl => Some(Command::Quit),
        Key::Tab => Some(Command::ToggleFocus),
        Key::Char('1') => Some(Command::SetFocus(Focus::Sidebar)),
        Key::Char('2') => Some(Command::SetFocus(Focus::Diff)),
        Key::Char(' ') => Some(Command::ToggleViewed),
        Key::Char('T') => Some(Command::OpenThemeSelector),
        _ => None,
    };
    if global.is_some() {
        return (true, global);
    }
    let c = match focus {
        Focus::Sidebar => match p.key {
            Key::Char('j') | Key::Down => Some(Command::SelectNext),
            Key::Char('k') | Key::Up => Some(Command::SelectPrev),
            Key::Enter => Some(Command::SetFocus(Focus::Diff)),
            Key::Char('/') => Some(Command::StartFilter),
            Key::Esc => Some(Command::ClearFilter),
            _ => None,
        },
        Focus::Diff => match p.key {
            Key::Char('j') | Key::Down => Some(Command::ScrollDiff(1, 0)),
            Key::Char('k') | Key::Up => Some(Command::ScrollDiff(-1i32, 0i32)),
            Key::Char('h') | Key::Left => Some(Command::ScrollDiff(0i32, -1i32)),
            Key::Char('l') | Key::Right => Some(Command::ScrollDiff(0, 1)),
            Key::Char('}') => Some(Command::NextHunk),
            Key::Char('{') => Some(Command::PrevHunk),
            Key::PageDown => Some(Command::ScrollDiff(20, 0)),
            Key::PageUp => Some(Command::ScrollDiff(-20i32, 0i32)),
            Key::Char('G') => Some(Command::GoToEnd),
            Key::Char('g') => Some(Command::GoToStart),
            Key::Char('c') if worktree => Some(Command::StartAddComment),
            Key::Char('C') if worktree => Some(Command::ShowComments),
            _ => None,
        },
    };
    (c.is_some(), c)
}

// ---------------------------------------------------------------------------
// Mouse
// ---------------------------------------------------------------------------

/// Columns of the sidebar, borders included.
pub const SIDEBAR_WIDTH: u16 = 32;

/// A mouse event kind.
#[derive(Debug, Clone, Copy, PartialEq, Eq, Structural)]
pub enum MouseKind {
    ScrollUp,
    ScrollDown,
    LeftDown,
    Other,
}

/// What a mouse event asks for.
#[derive(Debug, Clone, Copy, PartialEq, Eq, Structural)]
pub enum MouseCommand {
    /// Move the file selection by this many steps (negative: up).
    SelectSteps(i32),
    /// Scroll the diff by this many rows.
    ScrollDiff(i32),
    /// Focus the sidebar, and pick the file at this line of its list, if
    /// the click fell on the list.
    ClickSidebar(Option<usize>),
    /// Focus the diff.
    ClickDiff,
}

/// The mouse command of an event at column `x`, row `y`; only normal mode
/// takes the mouse. The wheel moves three lines; a click on the top bar does
/// nothing.
pub open spec fn mouse_outcome(mode: Mode, kind: MouseKind, x: u16, y: u16) -> Option<MouseCommand> {
    if mode != Mode::Normal {
        None
    } else {
        match kind {
            MouseKind::ScrollUp => Some(if x < SIDEBAR_WIDTH {
                MouseCommand::SelectSteps(-3i32)
            } else {
                MouseCommand::ScrollDiff(-3i32)
            }),
            MouseKind::ScrollDown => Some(if x < SIDEBAR_WIDTH {
                MouseCommand::SelectSteps(3)
            } else {
                MouseCommand::ScrollDiff(3)
            }),
            MouseKind::LeftDown => if y == 0 {
                None
            } else if x < SIDEBAR_WIDTH {
                Some(MouseCommand::ClickSidebar(if y >= 2 && 1 <= x < SIDEBAR_WIDTH - 1 {
                    Some((y - 2) as usize)
                } else {
                    None
                }))
            } else {
                Some(MouseCommand::ClickDiff)
            },
            MouseKind::Other => None,
        }
    }
}

/// Decide what a mouse event asks for.
pub fn mouse_command(mode: Mode, kind: MouseKind, x: u16, y: u16) -> (r: Option<MouseCommand>)
    ensures
        r == mouse_outcome(mode, kind, x, y),
{
    if mode != Mode::Normal {
        return None;
    }
    match kind {
        MouseKind::ScrollUp => Some(if x < SIDEBAR_WIDTH {
            MouseCommand::SelectSteps(-3i32)
        } else {
            MouseCommand::ScrollDiff(-3i32)
        }),
        MouseKind::ScrollDown => Some(if x < SIDEBAR_WIDTH {
            MouseCommand::SelectSteps(3)
        } else {
            MouseCommand::ScrollDiff(3)
        }),
        MouseKind::LeftDown => {
            if y == 0 {
                None
            } else if x < SIDEBAR_WIDTH {
                let line = if y >= 2 && 1 <= x && x < SIDEBAR_WIDTH - 1 {
                    Some((y - 2) as usize)
                } else {
                    None
                };
                Some(MouseCommand::ClickSidebar(line))
            } else {
                Some(MouseCommand::ClickDiff)
            }
        },
        MouseKind::Other => None,
    }
}

/// The file a click on line `line` of the sidebar list picks: the list
/// (filtered, or every file) scrolled by `scroll`.
pub open spec fn clicked_file(filtered: Seq<usize>, n_files: nat, scroll: nat, line: nat) -> Option<usize> {
    let k = scroll + line;
    if filtered.len() == 0 {
        if k < n_files {
            Some(k as usize)
        } else {
            None
        }
    } else if k < filtered.len() {
        Some(filtered[k as int])
    } else {
        None
    }
}

/// The file a click on line `line` of the sidebar list picks, if any.
pub fn file_at_click(filtered: &[usize], n_files: usize, scroll: usize, line: usize) -> (r: Option<usize>)
    ensures
        r == clicked_file(filtered@, n_files as nat, scroll as nat, line as nat),
{
    let len = if filtered.len() == 0 {
        n_files
    } else {
        filtered.len()
    };
    if scroll >= len || line >= len - scroll {
        return None;
    }
    let k = scroll + line;
    if filtered.len() == 0 {
        Some(k)
    } else {
        Some(filtered[k])
    }
}

/// The comments overlay and the theme selector take every key, so nothing
/// reaches the panes behind them.
pub proof fn lemma_overlays_take_every_key(focus: Focus, worktree: bool, p: KeyPress)
    ensures
        key_outcome(Mode::ViewComments, focus, worktree, p).0,
        key_outcome(Mode::SelectTheme, focus, worktree, p).0,
{
}


/// Law: in normal mode with the diff focused, `}` and only `}` jumps to the
/// next hunk and `{` and only `{` to the previous one, with or without ctrl
/// and whatever the diff shows; with the sidebar focused, no key jumps.
pub proof fn lemma_hunk_jump_keys(worktree: bool, p: KeyPress)
    ensures
        (key_outcome(Mode::Normal, Focus::Diff, worktree, p) == (true, Some(Command::NextHunk))) <==> p.key == Key::Char('}'),
        (key_outcome(Mode::Normal, Focus::Diff, worktree, p) == (true, Some(Command::PrevHunk))) <==> p.key == Key::Char('{'),
        key_outcome(Mode::Normal, Focus::Sidebar, worktree, p).1 != Some(Command::NextHunk),
        key_outcome(Mode::Normal, Focus::Sidebar, worktree, p).1 != Some(Command::PrevHunk),
{
}

} // verus!
