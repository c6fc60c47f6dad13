use quickdiff::keys::{file_at_click, key_command, mouse_command, Command, Key, KeyPress, MouseCommand, MouseKind};
use quickdiff::view_state::{Focus, Mode};

fn press(key: Key) -> KeyPress {
    KeyPress { key, ctrl: false }
}

#[test]
fn global_keys_in_normal_mode() {
    assert_eq!(key_command(Mode::Normal, Focus::Diff, false, press(Key::Char('q'))), (true, Some(Command::Quit)));
    assert_eq!(
        key_command(Mode::Normal, Focus::Sidebar, false, KeyPress { key: Key::Char('c'), ctrl: true }),
        (true, Some(Command::Quit))
    );
    assert_eq!(key_command(Mode::Normal, Focus::Sidebar, false, press(Key::Tab)), (true, Some(Command::ToggleFocus)));
    assert_eq!(
        key_command(Mode::Normal, Focus::Diff, false, press(Key::Char('1'))),
        (true, Some(Command::SetFocus(Focus::Sidebar)))
    );
}

#[test]
fn pane_keys_follow_focus() {
    assert_eq!(key_command(Mode::Normal, Focus::Sidebar, false, press(Key::Char('j'))), (true, Some(Command::SelectNext)));
    assert_eq!(key_command(Mode::Normal, Focus::Diff, false, press(Key::Char('j'))), (true, Some(Command::ScrollDiff(1, 0))));
    assert_eq!(key_command(Mode::Normal, Focus::Diff, false, press(Key::PageUp)), (true, Some(Command::ScrollDiff(-20, 0))));
    assert_eq!(key_command(Mode::Normal, Focus::Sidebar, false, press(Key::Char('x'))), (false, None));
}

#[test]
fn commenting_needs_worktree_mode() {
    assert_eq!(key_command(Mode::Normal, Focus::Diff, false, press(Key::Char('c'))), (false, None));
    assert_eq!(key_command(Mode::Normal, Focus::Diff, true, press(Key::Char('c'))), (true, Some(Command::StartAddComment)));
    assert_eq!(key_command(Mode::Normal, Focus::Diff, true, press(Key::Char('C'))), (true, Some(Command::ShowComments)));
}

#[test]
fn input_modes_take_their_keys() {
    assert_eq!(key_command(Mode::AddComment, Focus::Diff, true, press(Key::Char('q'))), (true, Some(Command::DraftPush('q'))));
    assert_eq!(key_command(Mode::AddComment, Focus::Diff, true, press(Key::Tab)), (false, None));
    assert_eq!(key_command(Mode::FilterFiles, Focus::Sidebar, false, press(Key::Enter)), (true, Some(Command::ApplyFilter)));
    assert_eq!(key_command(Mode::ViewComments, Focus::Diff, true, press(Key::Tab)), (true, None));
    assert_eq!(key_command(Mode::SelectTheme, Focus::Diff, true, press(Key::Char('T'))), (true, Some(Command::CloseThemeSelector)));
}

#[test]
fn mouse_events() {
    assert_eq!(mouse_command(Mode::Normal, MouseKind::ScrollUp, 5, 10), Some(MouseCommand::SelectSteps(-3)));
    assert_eq!(mouse_command(Mode::Normal, MouseKind::ScrollDown, 40, 10), Some(MouseCommand::ScrollDiff(3)));
    assert_eq!(mouse_command(Mode::Normal, MouseKind::LeftDown, 5, 0), None);
    assert_eq!(mouse_command(Mode::Normal, MouseKind::LeftDown, 5, 4), Some(MouseCommand::ClickSidebar(Some(2))));
    assert_eq!(mouse_command(Mode::Normal, MouseKind::LeftDown, 0, 4), Some(MouseCommand::ClickSidebar(None)));
    assert_eq!(mouse_command(Mode::Normal, MouseKind::LeftDown, 50, 4), Some(MouseCommand::ClickDiff));
    assert_eq!(mouse_command(Mode::FilterFiles, MouseKind::LeftDown, 50, 4), None);
}

#[test]
fn clicks_pick_files() {
    assert_eq!(file_at_click(&[], 5, 1, 2), Some(3));
    assert_eq!(file_at_click(&[], 5, 3, 2), None);
    assert_eq!(file_at_click(&[4, 0, 2], 5, 0, 2), Some(2));
    assert_eq!(file_at_click(&[4, 0, 2], 5, 1, 2), None);
}
