use mdir::event::{map_key, map_key_confirm, map_key_editor, map_key_editor_confirm, map_key_help};
use mdir::event::{map_key_input, map_key_normal, map_key_viewer, map_key_viewer_search};
use mdir::event::{InputMode, KeyAction, KeyCode, KeyInput};

fn key(code: KeyCode) -> KeyInput {
    KeyInput::new(code, false)
}

fn ctrl(code: KeyCode) -> KeyInput {
    KeyInput::new(code, true)
}

#[test]
fn test_arrow_keys() {
    assert_eq!(map_key_normal(key(KeyCode::Up)), KeyAction::MoveUp);
    assert_eq!(map_key_normal(key(KeyCode::Down)), KeyAction::MoveDown);
    assert_eq!(map_key_normal(key(KeyCode::Left)), KeyAction::MoveLeft);
    assert_eq!(map_key_normal(key(KeyCode::Right)), KeyAction::MoveRight);
}

#[test]
fn test_quit_keys() {
    assert_eq!(map_key_normal(key(KeyCode::Char('q'))), KeyAction::Quit);
    assert_eq!(map_key_normal(key(KeyCode::F(10))), KeyAction::Quit);
    assert_eq!(map_key_normal(ctrl(KeyCode::Char('c'))), KeyAction::Quit);
}

#[test]
fn test_navigation_keys() {
    assert_eq!(map_key_normal(key(KeyCode::Enter)), KeyAction::Enter);
    assert_eq!(map_key_normal(key(KeyCode::Backspace)), KeyAction::Backspace);
    assert_eq!(map_key_normal(key(KeyCode::Home)), KeyAction::Home);
    assert_eq!(map_key_normal(key(KeyCode::End)), KeyAction::End);
    assert_eq!(map_key_normal(key(KeyCode::PageUp)), KeyAction::PageUp);
    assert_eq!(map_key_normal(key(KeyCode::PageDown)), KeyAction::PageDown);
}

#[test]
fn event_test_toggle_hidden() {
    assert_eq!(map_key_normal(key(KeyCode::Char('h'))), KeyAction::ToggleHidden);
}

#[test]
fn test_unknown_key_noop() {
    assert_eq!(map_key_normal(key(KeyCode::Char('z'))), KeyAction::Noop);
    assert_eq!(map_key_normal(key(KeyCode::Char('1'))), KeyAction::Noop);
}

#[test]
fn test_select_key() {
    assert_eq!(map_key_normal(key(KeyCode::Char(' '))), KeyAction::Select);
}

#[test]
fn test_crud_keys() {
    assert_eq!(map_key_normal(key(KeyCode::Char('c'))), KeyAction::Copy);
    assert_eq!(map_key_normal(key(KeyCode::Char('m'))), KeyAction::Move);
    assert_eq!(map_key_normal(key(KeyCode::Char('d'))), KeyAction::Delete);
    assert_eq!(map_key_normal(key(KeyCode::Char('r'))), KeyAction::Rename);
    assert_eq!(map_key_normal(key(KeyCode::Char('k'))), KeyAction::Mkdir);
}

#[test]
fn test_input_mode_keys() {
    assert_eq!(map_key_input(key(KeyCode::Char('a'))), KeyAction::InputChar('a'));
    assert_eq!(map_key_input(key(KeyCode::Backspace)), KeyAction::InputBackspace);
    assert_eq!(map_key_input(key(KeyCode::Enter)), KeyAction::InputConfirm);
    assert_eq!(map_key_input(key(KeyCode::Esc)), KeyAction::InputCancel);
}

#[test]
fn test_input_cursor_keys() {
    assert_eq!(map_key_input(key(KeyCode::Left)), KeyAction::InputCursorLeft);
    assert_eq!(map_key_input(key(KeyCode::Right)), KeyAction::InputCursorRight);
    assert_eq!(map_key_input(key(KeyCode::Home)), KeyAction::InputCursorHome);
    assert_eq!(map_key_input(key(KeyCode::End)), KeyAction::InputCursorEnd);
    assert_eq!(map_key_input(key(KeyCode::Delete)), KeyAction::InputDelete);
}

#[test]
fn test_confirm_mode_keys() {
    assert_eq!(map_key_confirm(key(KeyCode::Char('y'))), KeyAction::ConfirmYes);
    assert_eq!(map_key_confirm(key(KeyCode::Char('n'))), KeyAction::ConfirmNo);
    assert_eq!(map_key_confirm(key(KeyCode::Enter)), KeyAction::ConfirmYes);
    assert_eq!(map_key_confirm(key(KeyCode::Esc)), KeyAction::ConfirmNo);
}

#[test]
fn test_view_and_search_keys() {
    assert_eq!(map_key_normal(key(KeyCode::Char('v'))), KeyAction::View);
    assert_eq!(map_key_normal(key(KeyCode::Char('f'))), KeyAction::FileSearch);
}

#[test]
fn test_viewer_mode_keys() {
    assert_eq!(map_key_viewer(key(KeyCode::Up)), KeyAction::ViewerUp);
    assert_eq!(map_key_viewer(key(KeyCode::Down)), KeyAction::ViewerDown);
    assert_eq!(map_key_viewer(key(KeyCode::PageUp)), KeyAction::ViewerPageUp);
    assert_eq!(map_key_viewer(key(KeyCode::PageDown)), KeyAction::ViewerPageDown);
    assert_eq!(map_key_viewer(key(KeyCode::Home)), KeyAction::ViewerHome);
    assert_eq!(map_key_viewer(key(KeyCode::End)), KeyAction::ViewerEnd);
    assert_eq!(map_key_viewer(key(KeyCode::Char('/'))), KeyAction::ViewerSearch);
    assert_eq!(map_key_viewer(key(KeyCode::Char('n'))), KeyAction::ViewerNextMatch);
    assert_eq!(map_key_viewer(key(KeyCode::Char('N'))), KeyAction::ViewerPrevMatch);
    assert_eq!(map_key_viewer(key(KeyCode::Char('q'))), KeyAction::ViewerClose);
    assert_eq!(map_key_viewer(key(KeyCode::Esc)), KeyAction::ViewerClose);
}

#[test]
fn test_viewer_search_mode_keys() {
    assert_eq!(map_key_viewer_search(key(KeyCode::Char('a'))), KeyAction::ViewerSearchChar('a'));
    assert_eq!(map_key_viewer_search(key(KeyCode::Backspace)), KeyAction::ViewerSearchBackspace);
    assert_eq!(map_key_viewer_search(key(KeyCode::Enter)), KeyAction::ViewerSearchConfirm);
    assert_eq!(map_key_viewer_search(key(KeyCode::Esc)), KeyAction::ViewerSearchCancel);
}

#[test]
fn test_ctrl_c_not_copy() {
    assert_eq!(map_key_normal(ctrl(KeyCode::Char('c'))), KeyAction::Quit);
}

#[test]
fn ctrl_c_quits_the_list_but_is_typed_in_fields() {
    assert_eq!(map_key(InputMode::Normal, ctrl(KeyCode::Char('c'))), KeyAction::Quit);
    assert_eq!(map_key(InputMode::Normal, key(KeyCode::Char('c'))), KeyAction::Copy);
    assert_eq!(map_key(InputMode::Input, ctrl(KeyCode::Char('c'))), KeyAction::InputChar('c'));
    assert_eq!(map_key(InputMode::ViewerSearch, ctrl(KeyCode::Char('c'))), KeyAction::ViewerSearchChar('c'));
}

#[test]
fn text_fields_take_plain_characters() {
    assert_eq!(map_key(InputMode::Input, key(KeyCode::Char('q'))), KeyAction::InputChar('q'));
    assert_eq!(map_key(InputMode::ViewerSearch, key(KeyCode::Char('q'))), KeyAction::ViewerSearchChar('q'));
    assert_eq!(map_key(InputMode::Editor, key(KeyCode::Char('가'))), KeyAction::EditorChar('가'));
}

#[test]
fn editor_and_help_keys() {
    assert_eq!(map_key_editor(ctrl(KeyCode::Char('s'))), KeyAction::EditorSave);
    assert_eq!(map_key_editor(key(KeyCode::Esc)), KeyAction::EditorClose);
    assert_eq!(map_key_editor(key(KeyCode::Enter)), KeyAction::EditorEnter);
    assert_eq!(map_key_editor(key(KeyCode::Backspace)), KeyAction::EditorBackspace);
    assert_eq!(map_key_editor(key(KeyCode::Delete)), KeyAction::EditorDelete);
    assert_eq!(map_key_editor_confirm(key(KeyCode::Char('y'))), KeyAction::EditorConfirmYes);
    assert_eq!(map_key_editor_confirm(key(KeyCode::Esc)), KeyAction::EditorConfirmNo);
    assert_eq!(map_key_help(key(KeyCode::Char('?'))), KeyAction::HelpClose);
    assert_eq!(map_key_help(key(KeyCode::Down)), KeyAction::HelpDown);
    assert_eq!(map_key_normal(key(KeyCode::Char('?'))), KeyAction::Help);
    assert_eq!(map_key_normal(key(KeyCode::Char('e'))), KeyAction::Edit);
    assert_eq!(map_key_normal(key(KeyCode::Char('n'))), KeyAction::NewFile);
}
