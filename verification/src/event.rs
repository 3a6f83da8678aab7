//! Keys and what they mean in each mode of the application.

use vstd::prelude::*;

verus! {

/// What happened at the terminal, as far as the application cares.
pub enum AppEvent {
    Key(KeyAction),
    Resize(u16, u16),
    Idle,
}

/// An action requested by a key.
#[derive(Debug, Clone, Copy, PartialEq, Eq, Structural)]
pub enum KeyAction {
    MoveUp,
    MoveDown,
    MoveLeft,
    MoveRight,
    Home,
    End,
    PageUp,
    PageDown,
    Enter,
    Backspace,
    ToggleHidden,
    Select,
    Copy,
    Move,
    Delete,
    Rename,
    Mkdir,
    NewFile,
    Edit,
    Help,
    InputChar(char),
    InputBackspace,
    InputDelete,
    InputConfirm,
    InputCancel,
    InputCursorLeft,
    InputCursorRight,
    InputCursorHome,
    InputCursorEnd,
    View,
    FileSearch,
    ConfirmYes,
    ConfirmNo,
    ViewerUp,
    ViewerDown,
    ViewerPageUp,
    ViewerPageDown,
    ViewerHome,
    ViewerEnd,
    ViewerSearch,
    ViewerNextMatch,
    ViewerPrevMatch,
    ViewerClose,
    ViewerSearchChar(char),
    ViewerSearchBackspace,
    ViewerSearchConfirm,
    ViewerSearchCancel,
    EditorChar(char),
    EditorBackspace,
    EditorDelete,
    EditorEnter,
    EditorUp,
    EditorDown,
    EditorLeft,
    EditorRight,
    EditorHome,
    EditorEnd,
    EditorPageUp,
    EditorPageDown,
    EditorSave,
    EditorClose,
    EditorConfirmYes,
    EditorConfirmNo,
    HelpUp,
    HelpDown,
    HelpPageUp,
    HelpPageDown,
    HelpHome,
    HelpEnd,
    HelpClose,
    Quit,
    Noop,
}

/// Which key table is in force.
#[derive(Debug, Clone, Copy, PartialEq, Eq, Structural)]
pub enum InputMode {
    Normal,
    Input,
    Confirm,
    Viewer,
    ViewerSearch,
    Editor,
    EditorConfirmClose,
    Help,
}

/// A key, as the terminal reports it.
#[derive(Debug, Clone, Copy, PartialEq, Eq, Structural)]
pub enum KeyCode {
    Char(char),
    F(u8),
    Up,
    Down,
    Left,
    Right,
    Home,
    End,
    PageUp,
    PageDown,
    Enter,
    Backspace,
    Delete,
    Esc,
    Tab,
    Other,
}

/// A key press: the key and whether Control was held.
#[derive(Debug, Clone, Copy, PartialEq, Eq, Structural)]
pub struct KeyInput {
    pub code: KeyCode,
    pub ctrl: bool,
}

impl KeyInput {
    pub fn new(code: KeyCode, ctrl: bool) -> (k: KeyInput)
        ensures
            k.code == code,
            k.ctrl == ctrl,
    {
        KeyInput { code, ctrl }
    }
}

/// The file list's keys.
pub open spec fn normal_action(key: KeyInput) -> KeyAction {
    match key.code {
        KeyCode::Up => KeyAction::MoveUp,
        KeyCode::Down => KeyAction::MoveDown,
        KeyCode::Left => KeyAction::MoveLeft,
        KeyCode::Right => KeyAction::MoveRight,
        KeyCode::Home => KeyAction::Home,
        KeyCode::End => KeyAction::End,
        KeyCode::PageUp => KeyAction::PageUp,
        KeyCode::PageDown => KeyAction::PageDown,
        KeyCode::Enter => KeyAction::Enter,
        KeyCode::Backspace => KeyAction::Backspace,
        KeyCode::Char(c) => {
            if c == 'q' || c == 'Q' {
                KeyAction::Quit
            } else if c == 'h' || c == 'H' {
                KeyAction::ToggleHidden
            } else if c == ' ' {
                KeyAction::Select
            } else if c == 'c' && key.ctrl {
                KeyAction::Quit
            } else if c == 'c' || c == 'C' {
                KeyAction::Copy
            } else if c == 'm' || c == 'M' {
                KeyAction::Move
            } else if c == 'd' || c == 'D' {
                KeyAction::Delete
            } else if c == 'r' || c == 'R' {
                KeyAction::Rename
            } else if c == 'k' || c == 'K' {
                KeyAction::Mkdir
            } else if c == 'v' || c == 'V' {
                KeyAction::View
            } else if c == 'f' || c == 'F' {
                KeyAction::FileSearch
            } else if c == 'n' || c == 'N' {
                KeyAction::NewFile
            } else if c == 'e' || c == 'E' {
                KeyAction::Edit
            } else if c == '?' {
                KeyAction::Help
            } else {
                KeyAction::Noop
            }
        },
        KeyCode::F(n) => if n == 10 {
            KeyAction::Quit
        } else {
            KeyAction::Noop
        },
        _ => KeyAction::Noop,
    }
}

/// Keys of the file list.
pub fn map_key_normal(key: KeyInput) -> (a: KeyAction)
    ensures
        a == normal_action(key),
{
    match key.code {
        KeyCode::Up => KeyAction::MoveUp,
        KeyCode::Down => KeyAction::MoveDown,
        KeyCode::Left => KeyAction::MoveLeft,
        KeyCode::Right => KeyAction::MoveRight,
        KeyCode::Home => KeyAction::Home,
        KeyCode::End => KeyAction::End,
        KeyCode::PageUp => KeyAction::PageUp,
        KeyCode::PageDown => KeyAction::PageDown,
        KeyCode::Enter => KeyAction::Enter,
        KeyCode::Backspace => KeyAction::Backspace,
        KeyCode::Char(c) => {
            if c == 'q' || c == 'Q' {
                KeyAction::Quit
            } else if c == 'h' || c == 'H' {
                KeyAction::ToggleHidden
            } else if c == ' ' {
                KeyAction::Select
            } else if c == 'c' && key.ctrl {
                KeyAction::Quit
            } else if c == 'c' || c == 'C' {
                KeyAction::Copy
            } else if c == 'm' || c == 'M' {
                KeyAction::Move
            } else if c == 'd' || c == 'D' {
                KeyAction::Delete
            } else if c == 'r' || c == 'R' {
                KeyAction::Rename
            } else if c == 'k' || c == 'K' {
                KeyAction::Mkdir
            } else if c == 'v' || c == 'V' {
                KeyAction::View
            } else if c == 'f' || c == 'F' {
                KeyAction::FileSearch
            } else if c == 'n' || c == 'N' {
                KeyAction::NewFile
            } else if c == 'e' || c == 'E' {
                KeyAction::Edit
            } else if c == '?' {
                KeyAction::Help
            } else {
                KeyAction::Noop
            }
        },
        KeyCode::F(n) => if n == 10 {
            KeyAction::Quit
        } else {
            KeyAction::Noop
        },
        _ => KeyAction::Noop,
    }
}

/// The text field's keys.
pub open spec fn input_action(key: KeyInput) -> KeyAction {
    match key.code {
        KeyCode::Enter => KeyAction::InputConfirm,
        KeyCode::Esc => KeyAction::InputCancel,
        KeyCode::Backspace => KeyAction::InputBackspace,
        KeyCode::Delete => KeyAction::InputDelete,
        KeyCode::Left => KeyAction::InputCursorLeft,
        KeyCode::Right => KeyAction::InputCursorRight,
        KeyCode::Home => KeyAction::InputCursorHome,
        KeyCode::End => KeyAction::InputCursorEnd,
        KeyCode::Char(c) => KeyAction::InputChar(c),
        _ => KeyAction::Noop,
    }
}

/// Keys of the text field.
pub fn map_key_input(key: KeyInput) -> (a: KeyAction)
    ensures
        a == input_action(key),
{
    match key.code {
        KeyCode::Enter => KeyAction::InputConfirm,
        KeyCode::Esc => KeyAction::InputCancel,
        KeyCode::Backspace => KeyAction::InputBackspace,
        KeyCode::Delete => KeyAction::InputDelete,
        KeyCode::Left => KeyAction::InputCursorLeft,
        KeyCode::Right => KeyAction::InputCursorRight,
        KeyCode::Home => KeyAction::InputCursorHome,
        KeyCode::End => KeyAction::InputCursorEnd,
        KeyCode::Char(c) => KeyAction::InputChar(c),
        _ => KeyAction::Noop,
    }
}

/// The viewer's keys.
pub open spec fn viewer_action(key: KeyInput) -> KeyAction {
    match key.code {
        KeyCode::Up => KeyAction::ViewerUp,
        KeyCode::Down => KeyAction::ViewerDown,
        KeyCode::PageUp => KeyAction::ViewerPageUp,
        KeyCode::PageDown => KeyAction::ViewerPageDown,
        KeyCode::Home => KeyAction::ViewerHome,
        KeyCode::End => KeyAction::ViewerEnd,
        KeyCode::Char(c) => if c == '/' {
            KeyAction::ViewerSearch
        } else if c == 'n' {
            KeyAction::ViewerNextMatch
        } else if c == 'N' {
            KeyAction::ViewerPrevMatch
        } else if c == 'q' || c == 'Q' {
            KeyAction::ViewerClose
        } else {
            KeyAction::Noop
        },
        KeyCode::Esc => KeyAction::ViewerClose,
        _ => KeyAction::Noop,
    }
}

/// Keys of the viewer.
pub fn map_key_viewer(key: KeyInput) -> (a: KeyAction)
    ensures
        a == viewer_action(key),
{
    match key.code {
        KeyCode::Up => KeyAction::ViewerUp,
        KeyCode::Down => KeyAction::ViewerDown,
        KeyCode::PageUp => KeyAction::ViewerPageUp,
        KeyCode::PageDown => KeyAction::ViewerPageDown,
        KeyCode::Home => KeyAction::ViewerHome,
        KeyCode::End => KeyAction::ViewerEnd,
        KeyCode::Char(c) => if c == '/' {
            KeyAction::ViewerSearch
        } else if c == 'n' {
            KeyAction::ViewerNextMatch
        } else if c == 'N' {
            KeyAction::ViewerPrevMatch
        } else if c == 'q' || c == 'Q' {
            KeyAction::ViewerClose
        } else {
            KeyAction::Noop
        },
        KeyCode::Esc => KeyAction::ViewerClose,
        _ => KeyAction::Noop,
    }
}

/// The viewer search field's keys.
pub open spec fn viewer_search_action(key: KeyInput) -> KeyAction {
    match key.code {
        KeyCode::Enter => KeyAction::ViewerSearchConfirm,
        KeyCode::Esc => KeyAction::ViewerSearchCancel,
        KeyCode::Backspace => KeyAction::ViewerSearchBackspace,
        KeyCode::Char(c) => KeyAction::ViewerSearchChar(c),
        _ => KeyAction::Noop,
    }
}

/// Keys of the viewer's search field.
pub fn map_key_viewer_search(key: KeyInput) -> (a: KeyAction)
    ensures
        a == viewer_search_action(key),
{
    match key.code {
        KeyCode::Enter => KeyAction::ViewerSearchConfirm,
        KeyCode::Esc => KeyAction::ViewerSearchCancel,
        KeyCode::Backspace => KeyAction::ViewerSearchBackspace,
        KeyCode::Char(c) => KeyAction::ViewerSearchChar(c),
        _ => KeyAction::Noop,
    }
}

/// The delete confirmation's keys.
pub open spec fn confirm_action(key: KeyInput) -> KeyAction {
    match key.code {
        KeyCode::Char(c) => if c == 'y' || c == 'Y' {
            KeyAction::ConfirmYes
        } else if c == 'n' || c == 'N' {
            KeyAction::ConfirmNo
        } else {
            KeyAction::Noop
        },
        KeyCode::Enter => KeyAction::ConfirmYes,
        KeyCode::Esc => KeyAction::ConfirmNo,
        _ => KeyAction::Noop,
    }
}

/// Keys of the delete confirmation.
pub fn map_key_confirm(key: KeyInput) -> (a: KeyAction)
    ensures
        a == confirm_action(key),
{
    match key.code {
        KeyCode::Char(c) => if c == 'y' || c == 'Y' {
            KeyAction::ConfirmYes
        } else if c == 'n' || c == 'N' {
            KeyAction::ConfirmNo
        } else {
            KeyAction::Noop
        },
        KeyCode::Enter => KeyAction::ConfirmYes,
        KeyCode::Esc => KeyAction::ConfirmNo,
        _ => KeyAction::Noop,
    }
}

/// The editor's keys: Control-S saves, Esc closes, other characters are
/// typed.
pub open spec fn editor_action(key: KeyInput) -> KeyAction {
    match key.code {
        KeyCode::Up => KeyAction::EditorUp,
        KeyCode::Down => KeyAction::EditorDown,
        KeyCode::Left => KeyAction::EditorLeft,
        KeyCode::Right => KeyAction::EditorRight,
        KeyCode::Home => KeyAction::EditorHome,
        KeyCode::End => KeyAction::EditorEnd,
        KeyCode::PageUp => KeyAction::EditorPageUp,
        KeyCode::PageDown => KeyAction::EditorPageDown,
        KeyCode::Backspace => KeyAction::EditorBackspace,
        KeyCode::Delete => KeyAction::EditorDelete,
        KeyCode::Enter => KeyAction::EditorEnter,
        KeyCode::Esc => KeyAction::EditorClose,
        KeyCode::Char(c) => if key.ctrl {
            if c == 's' || c == 'S' {
                KeyAction::EditorSave
            } else {
                KeyAction::Noop
            }
        } else {
            KeyAction::EditorChar(c)
        },
        _ => KeyAction::Noop,
    }
}

/// Keys of the editor.
pub fn map_key_editor(key: KeyInput) -> (a: KeyAction)
    ensures
        a == editor_action(key),
{
    match key.code {
        KeyCode::Up => KeyAction::EditorUp,
        KeyCode::Down => KeyAction::EditorDown,
        KeyCode::Left => KeyAction::EditorLeft,
        KeyCode::Right => KeyAction::EditorRight,
        KeyCode::Home => KeyAction::EditorHome,
        KeyCode::End => KeyAction::EditorEnd,
        KeyCode::PageUp => KeyAction::EditorPageUp,
        KeyCode::PageDown => KeyAction::EditorPageDown,
        KeyCode::Backspace => KeyAction::EditorBackspace,
        KeyCode::Delete => KeyAction::EditorDelete,
        KeyCode::Enter => KeyAction::EditorEnter,
        KeyCode::Esc => KeyAction::EditorClose,
        KeyCode::Char(c) => if key.ctrl {
            if c == 's' || c == 'S' {
                KeyAction::EditorSave
            } else {
                KeyAction::Noop
            }
        } else {
            KeyAction::EditorChar(c)
        },
        _ => KeyAction::Noop,
    }
}

/// The keys of the question whether to drop unsaved edits.
pub open spec fn editor_confirm_action(key: KeyInput) -> KeyAction {
    match key.code {
        KeyCode::Char(c) => if c == 'y' || c == 'Y' {
            KeyAction::EditorConfirmYes
        } else if c == 'n' || c == 'N' {
            KeyAction::EditorConfirmNo
        } else {
            KeyAction::Noop
        },
        KeyCode::Enter => KeyAction::EditorConfirmYes,
        KeyCode::Esc => KeyAction::EditorConfirmNo,
        _ => KeyAction::Noop,
    }
}

/// Keys of the question whether to drop unsaved edits.
pub fn map_key_editor_confirm(key: KeyInput) -> (a: KeyAction)
    ensures
        a == editor_confirm_action(key),
{
    match key.code {
        KeyCode::Char(c) => if c == 'y' || c == 'Y' {
            KeyAction::EditorConfirmYes
        } else if c == 'n' || c == 'N' {
            KeyAction::EditorConfirmNo
        } else {
            KeyAction::Noop
        },
        KeyCode::Enter => KeyAction::EditorConfirmYes,
        KeyCode::Esc => KeyAction::EditorConfirmNo,
        _ => KeyAction::Noop,
    }
}

/// The help screen's keys: Q, Esc and ? close it.
pub open spec fn help_action(key: KeyInput) -> KeyAction {
    match key.code {
        KeyCode::Up => KeyAction::HelpUp,
        KeyCode::Down => KeyAction::HelpDown,
        KeyCode::PageUp => KeyAction::HelpPageUp,
        KeyCode::PageDown => KeyAction::HelpPageDown,
        KeyCode::Home => KeyAction::HelpHome,
        KeyCode::End => KeyAction::HelpEnd,
        KeyCode::Esc => KeyAction::HelpClose,
        KeyCode::Char(c) => if c == 'q' || c == 'Q' || c == '?' {
            KeyAction::HelpClose
        } else {
            KeyAction::Noop
        },
        _ => KeyAction::Noop,
    }
}

/// Keys of the help screen.
pub fn map_key_help(key: KeyInput) -> (a: KeyAction)
    ensures
        a == help_action(key),
{
    match key.code {
        KeyCode::Up => KeyAction::HelpUp,
        KeyCode::Down => KeyAction::HelpDown,
        KeyCode::PageUp => KeyAction::HelpPageUp,
        KeyCode::PageDown => KeyAction::HelpPageDown,
        KeyCode::Home => KeyAction::HelpHome,
        KeyCode::End => KeyAction::HelpEnd,
        KeyCode::Esc => KeyAction::HelpClose,
        KeyCode::Char(c) => if c == 'q' || c == 'Q' || c == '?' {
            KeyAction::HelpClose
        } else {
            KeyAction::Noop
        },
        _ => KeyAction::Noop,
    }
}

/// The action a key requests in a mode.
pub open spec fn action_for(mode: InputMode, key: KeyInput) -> KeyAction {
    match mode {
        InputMode::Normal => normal_action(key),
        InputMode::Input => input_action(key),
        InputMode::Confirm => confirm_action(key),
        InputMode::Viewer => viewer_action(key),
        InputMode::ViewerSearch => viewer_search_action(key),
        InputMode::Editor => editor_action(key),
        InputMode::EditorConfirmClose => editor_confirm_action(key),
        InputMode::Help => help_action(key),
    }
}

/// Looks a key up in the table of the given mode.
pub fn map_key(mode: InputMode, key: KeyInput) -> (a: KeyAction)
    ensures
        a == action_for(mode, key),
{
    match mode {
        InputMode::Normal => map_key_normal(key),
        InputMode::Input => map_key_input(key),
        InputMode::Confirm => map_key_confirm(key),
        InputMode::Viewer => map_key_viewer(key),
        InputMode::ViewerSearch => map_key_viewer_search(key),
        InputMode::Editor => map_key_editor(key),
        InputMode::EditorConfirmClose => map_key_editor_confirm(key),
        InputMode::Help => map_key_help(key),
    }
}

/// Control-C always quits the file list, whatever else C does there.
pub proof fn law_ctrl_c_quits()
    ensures
        normal_action(KeyInput { code: KeyCode::Char('c'), ctrl: true }) == KeyAction::Quit,
        normal_action(KeyInput { code: KeyCode::Char('c'), ctrl: false }) == KeyAction::Copy,
{
}

/// Every printable key typed into a text field goes into the text, in the
/// file prompt as in the viewer's search field.
pub proof fn law_text_fields_take_characters(c: char, ctrl: bool)
    ensures
        input_action(KeyInput { code: KeyCode::Char(c), ctrl }) == KeyAction::InputChar(c),
        viewer_search_action(KeyInput { code: KeyCode::Char(c), ctrl }) == KeyAction::ViewerSearchChar(
            c,
        ),
{
}

} // verus!
