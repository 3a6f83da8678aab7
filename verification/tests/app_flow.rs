use mdir::app::{disk_space, search_full, search_step, search_visit, App, AppMode, Effect, FileOp, InputPurpose, Outcome};
use mdir::editor::EditorState;
use mdir::event::KeyAction;
use mdir::file_entry::{entry_name, EntryType, FileEntry};
use mdir::glob::glob_match;
use mdir::help::generate_help_lines;
use mdir::text::{calculate_columns, char_to_byte_pos};

struct Node {
    path: String,
    content: Option<Vec<u8>>,
    readable: bool,
}

/// A small file system in memory, standing in for the disk.
struct MemFs {
    nodes: Vec<Node>,
    writes: Vec<(String, String)>,
}

fn join(dir: &str, name: &str) -> String {
    if dir.ends_with('/') {
        format!("{}{}", dir, name)
    } else {
        format!("{}/{}", dir, name)
    }
}

fn parent_path(p: &str) -> String {
    match p.rfind('/') {
        Some(0) => "/".to_string(),
        Some(i) => p[..i].to_string(),
        None => String::new(),
    }
}

fn base_name(p: &str) -> String {
    match p.rfind('/') {
        Some(i) => p[i + 1..].to_string(),
        None => p.to_string(),
    }
}

impl MemFs {
    fn new() -> MemFs {
        MemFs { nodes: vec![Node { path: "/".to_string(), content: None, readable: true }], writes: Vec::new() }
    }

    fn dir(&mut self, p: &str) {
        self.nodes.push(Node { path: p.to_string(), content: None, readable: true });
    }

    fn file(&mut self, p: &str, content: &[u8]) {
        self.nodes.push(Node { path: p.to_string(), content: Some(content.to_vec()), readable: true });
    }

    fn find(&self, p: &str) -> Option<usize> {
        self.nodes.iter().position(|n| n.path == p)
    }

    fn has(&self, p: &str) -> bool {
        self.find(p).is_some()
    }

    fn is_dir(&self, p: &str) -> bool {
        match self.find(p) {
            Some(i) => self.nodes[i].content.is_none(),
            None => false,
        }
    }

    fn is_file(&self, p: &str) -> bool {
        self.has(p) && !self.is_dir(p)
    }

    fn entry_of(&self, i: usize) -> FileEntry {
        let n = &self.nodes[i];
        FileEntry::from_parts(
            n.path.clone(),
            if n.content.is_none() { EntryType::Directory } else { EntryType::File },
            n.content.as_ref().map(|c| c.len() as u64).unwrap_or(4096),
            None,
        )
    }

    fn children(&self, p: &str) -> Vec<usize> {
        (0..self.nodes.len()).filter(|&i| self.nodes[i].path != "/" && parent_path(&self.nodes[i].path) == p).collect()
    }

    fn below(&self, p: &str) -> Vec<usize> {
        let prefix = join(p, "");
        (0..self.nodes.len()).filter(|&i| self.nodes[i].path == p || self.nodes[i].path.starts_with(&prefix)).collect()
    }

    fn remove_tree(&mut self, p: &str) {
        let prefix = join(p, "");
        self.nodes.retain(|n| !(n.path == p || n.path.starts_with(&prefix)));
    }

    fn copy_tree(&mut self, from: &str, to: &str) {
        let copies: Vec<Node> = self
            .below(from)
            .into_iter()
            .map(|i| Node {
                path: format!("{}{}", to, &self.nodes[i].path[from.len()..]),
                content: self.nodes[i].content.clone(),
                readable: true,
            })
            .collect();
        self.nodes.extend(copies);
    }

    fn transfer(&mut self, sources: &[String], dest: &str, keep: bool) -> Result<(), String> {
        if !self.is_dir(dest) {
            return Err(format!("대상 경로가 디렉토리가 아닙니다: {}", dest));
        }
        for s in sources {
            let target = join(dest, &base_name(s));
            if self.has(&target) {
                return Err(format!("대상이 이미 존재합니다: {}", target));
            }
            self.copy_tree(s, &target);
            if !keep {
                self.remove_tree(s);
            }
        }
        Ok(())
    }

    fn run_op(&mut self, op: FileOp) -> Result<(), String> {
        match op {
            FileOp::Copy { sources, dest } => self.transfer(&sources, &dest, true),
            FileOp::Move { sources, dest } => self.transfer(&sources, &dest, false),
            FileOp::Delete { targets } => {
                for t in targets {
                    self.remove_tree(&t);
                }
                Ok(())
            }
            FileOp::Rename { source, new_name } => {
                let target = join(&parent_path(&source), &new_name);
                if self.has(&target) {
                    return Err(format!("이미 존재하는 이름입니다: {}", new_name));
                }
                self.copy_tree(&source, &target);
                self.remove_tree(&source);
                Ok(())
            }
            FileOp::Mkdir { parent, name } => {
                let target = join(&parent, &name);
                if self.has(&target) {
                    return Err(format!("이미 존재합니다: {}", name));
                }
                self.dir(&target);
                Ok(())
            }
            FileOp::NewFile { parent, name } => {
                let target = join(&parent, &name);
                if self.has(&target) {
                    return Err(format!("이미 존재합니다: {}", name));
                }
                self.file(&target, b"");
                Ok(())
            }
        }
    }

    fn search(&self, dir: &str, pattern: &str, max: usize, out: &mut Vec<FileEntry>) {
        if search_full(out.len(), max) {
            return;
        }
        for i in self.children(dir) {
            let e = self.entry_of(i);
            let (take, descend) = match search_visit(out.len(), max, &e.name, e.is_dir(), pattern) {
                Some(step) => step,
                None => return,
            };
            if take {
                out.push(e.clone());
            }
            if descend {
                self.search(&e.path, pattern, max, out);
            }
        }
    }

    /// Does the work an effect asks for; `None` when there is none.
    fn perform(&mut self, e: Effect) -> Option<Outcome> {
        match e {
            Effect::Idle => None,
            Effect::ReadDir { path } => {
                if !self.is_dir(&path) {
                    return Some(Outcome::Listing(Err("No such file or directory (os error 2)".to_string())));
                }
                let entries = self.children(&path).into_iter().map(|i| self.entry_of(i)).collect();
                Some(Outcome::Listing(Ok(entries)))
            }
            Effect::CheckDir { path } => match self.find(&path) {
                Some(i) if self.nodes[i].readable => Some(Outcome::DirChecked(Ok(()))),
                Some(_) => Some(Outcome::DirChecked(Err("Permission denied (os error 13)".to_string()))),
                None => Some(Outcome::DirChecked(Err("No such file or directory (os error 2)".to_string()))),
            },
            Effect::RunFileOp(op) => Some(Outcome::OpDone(self.run_op(op))),
            Effect::ReadFile { path } => match self.find(&path).and_then(|i| self.nodes[i].content.clone()) {
                Some(c) => Some(Outcome::FileRead(Ok(c))),
                None => Some(Outcome::FileRead(Err("Is a directory (os error 21)".to_string()))),
            },
            Effect::SearchFiles { dir, pattern, max_results } => {
                let mut out = Vec::new();
                self.search(&dir, &pattern, max_results, &mut out);
                Some(Outcome::Found(out))
            }
            Effect::WriteFile { path, content } => {
                self.remove_tree(&path);
                self.file(&path, content.as_bytes());
                self.writes.push((path, content));
                Some(Outcome::Written(Ok(())))
            }
        }
    }
}

fn run(app: &mut App, fs: &mut MemFs, first: Effect) {
    let mut e = first;
    while let Some(o) = fs.perform(e) {
        e = app.complete(o);
    }
}

fn press(app: &mut App, fs: &mut MemFs, a: KeyAction) {
    let e = app.handle_key(a);
    run(app, fs, e);
}

fn reload(app: &mut App, fs: &mut MemFs) {
    let e = app.load_directory();
    run(app, fs, e);
}

fn open_app(fs: &mut MemFs, dir: &str) -> App {
    let mut app = App::new(dir.to_string());
    reload(&mut app, fs);
    app
}

fn test_tree() -> MemFs {
    let mut fs = MemFs::new();
    fs.dir("/t");
    fs.dir("/t/alpha_dir");
    fs.dir("/t/beta_dir");
    fs.file("/t/file_a.txt", b"aaa");
    fs.file("/t/file_b.txt", b"bbb");
    fs.file("/t/.hidden", b"hidden");
    fs.dir("/dest");
    fs
}

fn create_test_app() -> (App, MemFs) {
    let mut fs = test_tree();
    let app = open_app(&mut fs, "/t");
    (app, fs)
}

fn type_text(app: &mut App, fs: &mut MemFs, text: &str) {
    for c in text.chars() {
        press(app, fs, KeyAction::InputChar(c));
    }
}

fn input_state(app: &App) -> (String, usize) {
    match &app.mode {
        AppMode::Input { buffer, cursor_pos, .. } => (buffer.clone(), *cursor_pos),
        m => panic!("not in a prompt: {:?}", m),
    }
}

fn set_buffer(app: &mut App, text: &str) {
    if let AppMode::Input { buffer, cursor_pos, .. } = &mut app.mode {
        buffer.clear();
        buffer.push_str(text);
        *cursor_pos = text.chars().count();
    }
}

fn position(app: &App, name: &str) -> usize {
    app.entries.iter().position(|e| e.name == name).unwrap()
}

fn setup_editor(app: &mut App, lines: Vec<&str>, filepath: &str) {
    app.editor = Some(EditorState {
        filepath: filepath.to_string(),
        filename: "test.txt".to_string(),
        lines: lines.into_iter().map(|s| s.to_string()).collect(),
        cursor_row: 0,
        cursor_col: 0,
        scroll_row: 0,
        scroll_col: 0,
        modified: false,
        message: None,
    });
    app.mode = AppMode::Editor;
}

fn ed(app: &App) -> &EditorState {
    app.editor.as_ref().unwrap()
}

fn ed_mut(app: &mut App) -> &mut EditorState {
    app.editor.as_mut().unwrap()
}

#[test]
fn test_initial_state() {
    let (app, _fs) = create_test_app();
    assert_eq!(app.cursor, 0);
    assert!(!app.should_quit);
    assert_eq!(app.entries.len(), 5);
    assert_eq!(app.mode, AppMode::Normal);
    assert!(app.selected_indices.is_empty());
}

#[test]
fn test_move_down_up() {
    let (mut app, mut fs) = create_test_app();
    press(&mut app, &mut fs, KeyAction::MoveDown);
    assert_eq!(app.cursor, 1);
    press(&mut app, &mut fs, KeyAction::MoveDown);
    assert_eq!(app.cursor, 2);
    press(&mut app, &mut fs, KeyAction::MoveUp);
    assert_eq!(app.cursor, 1);
}

#[test]
fn test_cursor_bounds() {
    let (mut app, mut fs) = create_test_app();
    press(&mut app, &mut fs, KeyAction::MoveUp);
    assert_eq!(app.cursor, 0);
    press(&mut app, &mut fs, KeyAction::End);
    let last = app.entries.len() - 1;
    assert_eq!(app.cursor, last);
    press(&mut app, &mut fs, KeyAction::MoveDown);
    assert_eq!(app.cursor, last);
}

#[test]
fn test_home_end() {
    let (mut app, mut fs) = create_test_app();
    press(&mut app, &mut fs, KeyAction::End);
    assert_eq!(app.cursor, app.entries.len() - 1);
    press(&mut app, &mut fs, KeyAction::Home);
    assert_eq!(app.cursor, 0);
}

#[test]
fn test_enter_directory() {
    let (mut app, mut fs) = create_test_app();
    press(&mut app, &mut fs, KeyAction::MoveDown);
    assert!(app.entries[app.cursor].is_dir());
    let dir_name = app.entries[app.cursor].name.clone();
    press(&mut app, &mut fs, KeyAction::Enter);
    assert!(app.current_dir.ends_with(&dir_name));
}

#[test]
fn test_go_parent_restores_cursor() {
    let (mut app, mut fs) = create_test_app();
    fs.file("/t/alpha_dir/inner.txt", b"in");
    press(&mut app, &mut fs, KeyAction::MoveDown);
    press(&mut app, &mut fs, KeyAction::Enter);
    assert!(app.current_dir.ends_with("alpha_dir"));
    press(&mut app, &mut fs, KeyAction::Backspace);
    assert_eq!(app.current_dir, "/t");
    assert_eq!(app.entries[app.cursor].name, "alpha_dir");
}

#[test]
fn app_test_toggle_hidden() {
    let (mut app, mut fs) = create_test_app();
    let count_before = app.entries.len();
    press(&mut app, &mut fs, KeyAction::ToggleHidden);
    assert!(app.entries.len() > count_before);
    assert!(app.entries.iter().any(|e| e.name == ".hidden"));
}

#[test]
fn toggle_hidden_keeps_the_cursor_on_its_entry() {
    let (mut app, mut fs) = create_test_app();
    app.cursor = position(&app, "file_a.txt");
    press(&mut app, &mut fs, KeyAction::ToggleHidden);
    assert_eq!(app.entries[app.cursor].name, "file_a.txt");
    assert_eq!(app.entries[3].name, ".hidden");
}

#[test]
fn test_quit() {
    let (mut app, mut fs) = create_test_app();
    press(&mut app, &mut fs, KeyAction::Quit);
    assert!(app.should_quit);
}

#[test]
fn test_calculate_columns() {
    assert_eq!(calculate_columns(60), 1);
    assert_eq!(calculate_columns(80), 2);
    assert_eq!(calculate_columns(119), 2);
    assert_eq!(calculate_columns(120), 3);
    assert_eq!(calculate_columns(200), 3);
}

#[test]
fn test_column_movement() {
    let (mut app, mut fs) = create_test_app();
    app.rows_per_col = 2;
    app.cursor = 0;
    press(&mut app, &mut fs, KeyAction::MoveRight);
    assert_eq!(app.cursor, 2);
    press(&mut app, &mut fs, KeyAction::MoveLeft);
    assert_eq!(app.cursor, 0);
}

#[test]
fn test_dir_file_count() {
    let (app, _fs) = create_test_app();
    assert_eq!(app.dir_count(), 2);
    assert_eq!(app.file_count(), 2);
}

#[test]
fn app_test_empty_directory() {
    let mut fs = MemFs::new();
    fs.dir("/empty");
    let app = open_app(&mut fs, "/empty");
    assert_eq!(app.entries.len(), 1);
    assert!(app.entries[0].is_parent);
}

#[test]
fn test_unknown_key_no_movement() {
    let (mut app, mut fs) = create_test_app();
    app.cursor = 2;
    press(&mut app, &mut fs, KeyAction::Noop);
    assert_eq!(app.cursor, 2);
}

#[test]
fn test_enter_permission_denied() {
    let mut fs = MemFs::new();
    fs.dir("/p");
    fs.nodes.push(Node { path: "/p/restricted_dir".to_string(), content: None, readable: false });
    let mut app = open_app(&mut fs, "/p");
    let original_dir = app.current_dir.clone();
    let original_entries_len = app.entries.len();
    app.cursor = position(&app, "restricted_dir");
    press(&mut app, &mut fs, KeyAction::Enter);
    assert_eq!(app.current_dir, original_dir);
    assert_eq!(app.entries.len(), original_entries_len);
    assert_eq!(app.error_message.as_deref(), Some("디렉토리 진입 실패: Permission denied (os error 13)"));
}

#[test]
fn test_root_directory_backspace() {
    let mut fs = MemFs::new();
    let mut app = open_app(&mut fs, "/");
    let original_dir = app.current_dir.clone();
    press(&mut app, &mut fs, KeyAction::Backspace);
    assert_eq!(app.current_dir, original_dir);
}

#[test]
fn test_page_up_down() {
    let (mut app, mut fs) = create_test_app();
    app.rows_per_col = 2;
    app.cursor = 0;
    press(&mut app, &mut fs, KeyAction::PageDown);
    assert_eq!(app.cursor, 2);
    app.cursor = 4;
    press(&mut app, &mut fs, KeyAction::PageDown);
    assert_eq!(app.cursor, 4);
    app.cursor = 3;
    press(&mut app, &mut fs, KeyAction::PageUp);
    assert_eq!(app.cursor, 1);
    app.cursor = 0;
    press(&mut app, &mut fs, KeyAction::PageUp);
    assert_eq!(app.cursor, 0);
}

#[test]
fn test_enter_on_file() {
    let (mut app, mut fs) = create_test_app();
    app.cursor = app.entries.iter().position(|e| !e.is_dir() && !e.is_parent).unwrap();
    let original_dir = app.current_dir.clone();
    press(&mut app, &mut fs, KeyAction::Enter);
    assert_eq!(app.current_dir, original_dir);
}

#[test]
fn test_enter_parent_entry() {
    let (mut app, mut fs) = create_test_app();
    fs.file("/t/alpha_dir/inner.txt", b"in");
    press(&mut app, &mut fs, KeyAction::MoveDown);
    press(&mut app, &mut fs, KeyAction::Enter);
    assert_eq!(app.cursor, 0);
    assert!(app.entries[0].is_parent);
    press(&mut app, &mut fs, KeyAction::Enter);
    assert_eq!(app.current_dir, "/t");
    assert_eq!(app.entries[app.cursor].name, "alpha_dir");
}

#[test]
fn test_display_size_mb_gb() {
    let mb_entry = FileEntry {
        name: "big.bin".to_string(),
        path: "big.bin".to_string(),
        entry_type: EntryType::File,
        size: 5_242_880,
        modified: None,
        is_parent: false,
    };
    assert_eq!(mb_entry.display_size(), "5.0M");
    let gb_entry = FileEntry {
        name: "huge.iso".to_string(),
        path: "huge.iso".to_string(),
        entry_type: EntryType::File,
        size: 2_147_483_648,
        modified: None,
        is_parent: false,
    };
    assert_eq!(gb_entry.display_size(), "2.0G");
}

#[test]
fn test_update_layout() {
    let (mut app, _fs) = create_test_app();
    app.update_layout(60, 30);
    assert_eq!(app.columns, 1);
    assert_eq!(app.rows_per_col, 27);
    app.update_layout(100, 40);
    assert_eq!(app.columns, 2);
    assert_eq!(app.rows_per_col, 37);
    app.update_layout(150, 50);
    assert_eq!(app.columns, 3);
    assert_eq!(app.rows_per_col, 47);
}

#[test]
fn test_select_toggle() {
    let (mut app, mut fs) = create_test_app();
    app.cursor = 1;
    press(&mut app, &mut fs, KeyAction::Select);
    assert!(app.selected_indices.contains(&1));
    assert_eq!(app.cursor, 2);
    app.cursor = 1;
    press(&mut app, &mut fs, KeyAction::Select);
    assert!(!app.selected_indices.contains(&1));
}

#[test]
fn test_select_parent_blocked() {
    let (mut app, mut fs) = create_test_app();
    app.cursor = 0;
    press(&mut app, &mut fs, KeyAction::Select);
    assert!(app.selected_indices.is_empty());
}

#[test]
fn test_select_cleared_on_dir_change() {
    let (mut app, mut fs) = create_test_app();
    app.cursor = 1;
    press(&mut app, &mut fs, KeyAction::Select);
    assert!(!app.selected_indices.is_empty());
    app.cursor = 1;
    press(&mut app, &mut fs, KeyAction::Enter);
    assert!(app.selected_indices.is_empty());
}

#[test]
fn test_selected_count() {
    let (mut app, mut fs) = create_test_app();
    assert_eq!(app.selected_count(), 0);
    app.cursor = 1;
    press(&mut app, &mut fs, KeyAction::Select);
    press(&mut app, &mut fs, KeyAction::Select);
    assert_eq!(app.selected_count(), 2);
}

#[test]
fn test_start_copy_enters_input_mode() {
    let (mut app, mut fs) = create_test_app();
    app.cursor = 3;
    press(&mut app, &mut fs, KeyAction::Copy);
    match &app.mode {
        AppMode::Input { purpose, buffer, prompt, cursor_pos } => {
            assert_eq!(*purpose, InputPurpose::Copy);
            assert_eq!(buffer, "/t");
            assert_eq!(*cursor_pos, 2);
            assert_eq!(prompt, "복사 대상 경로 (1개 파일):");
        }
        _ => panic!("Copy 키로 Input 모드 진입 실패"),
    }
}

#[test]
fn test_start_delete_enters_confirm_mode() {
    let (mut app, mut fs) = create_test_app();
    app.cursor = 3;
    press(&mut app, &mut fs, KeyAction::Delete);
    match &app.mode {
        AppMode::Confirm { message } => {
            assert!(message.contains("삭제"));
            assert_eq!(message, "삭제하시겠습니까? [file_a.txt] (Y/N)");
        }
        _ => panic!("Delete 키로 Confirm 모드 진입 실패"),
    }
}

#[test]
fn delete_question_names_at_most_three() {
    let mut fs = MemFs::new();
    fs.dir("/m");
    for n in ["a", "b", "c", "d"] {
        fs.file(&format!("/m/{}", n), b"x");
    }
    let mut app = open_app(&mut fs, "/m");
    app.cursor = 1;
    for _ in 0..4 {
        press(&mut app, &mut fs, KeyAction::Select);
    }
    press(&mut app, &mut fs, KeyAction::Delete);
    let listed = |app: &App| -> String {
        match &app.mode {
            AppMode::Confirm { message } => {
                let inner = message.strip_prefix("삭제하시겠습니까? [").unwrap();
                inner.strip_suffix("] (Y/N)").unwrap().to_string()
            }
            other => panic!("unexpected {:?}", other),
        }
    };
    let four = listed(&app);
    let first = four.strip_suffix(" 외 3개").unwrap();
    assert!(["a", "b", "c", "d"].contains(&first));
    press(&mut app, &mut fs, KeyAction::ConfirmNo);
    app.selected_indices.remove(&4);
    press(&mut app, &mut fs, KeyAction::Delete);
    let mut three: Vec<String> = listed(&app).split(", ").map(|n| n.to_string()).collect();
    three.sort();
    assert_eq!(three, vec!["a", "b", "c"]);
}

#[test]
fn test_start_rename_enters_input_mode() {
    let (mut app, mut fs) = create_test_app();
    app.cursor = 3;
    press(&mut app, &mut fs, KeyAction::Rename);
    match &app.mode {
        AppMode::Input { purpose, buffer, cursor_pos, prompt } => {
            assert_eq!(*purpose, InputPurpose::Rename);
            assert_eq!(buffer, "file_a.txt");
            assert_eq!(*cursor_pos, buffer.len());
            assert_eq!(prompt, "새 이름 (file_a.txt→):");
        }
        _ => panic!("Rename 키로 Input 모드 진입 실패"),
    }
}

#[test]
fn test_start_mkdir_enters_input_mode() {
    let (mut app, mut fs) = create_test_app();
    press(&mut app, &mut fs, KeyAction::Mkdir);
    match &app.mode {
        AppMode::Input { purpose, buffer, cursor_pos, .. } => {
            assert_eq!(*purpose, InputPurpose::Mkdir);
            assert!(buffer.is_empty());
            assert_eq!(*cursor_pos, 0);
        }
        _ => panic!("Mkdir 키로 Input 모드 진입 실패"),
    }
}

#[test]
fn test_start_new_file_enters_input_mode() {
    let (mut app, mut fs) = create_test_app();
    press(&mut app, &mut fs, KeyAction::NewFile);
    match &app.mode {
        AppMode::Input { purpose, buffer, cursor_pos, .. } => {
            assert_eq!(*purpose, InputPurpose::NewFile);
            assert!(buffer.is_empty());
            assert_eq!(*cursor_pos, 0);
        }
        _ => panic!("NewFile 키로 Input 모드 진입 실패"),
    }
}

#[test]
fn test_new_file_execute() {
    let (mut app, mut fs) = create_test_app();
    press(&mut app, &mut fs, KeyAction::NewFile);
    type_text(&mut app, &mut fs, "test_new.txt");
    press(&mut app, &mut fs, KeyAction::InputConfirm);
    assert_eq!(app.mode, AppMode::Normal);
    assert!(fs.is_file("/t/test_new.txt"));
    assert!(app.entries.iter().any(|e| e.name == "test_new.txt"));
}

#[test]
fn test_input_char_and_backspace() {
    let (mut app, mut fs) = create_test_app();
    press(&mut app, &mut fs, KeyAction::Mkdir);
    type_text(&mut app, &mut fs, "abc");
    assert_eq!(input_state(&app), ("abc".to_string(), 3));
    press(&mut app, &mut fs, KeyAction::InputBackspace);
    assert_eq!(input_state(&app), ("ab".to_string(), 2));
}

#[test]
fn test_input_cursor_movement() {
    let (mut app, mut fs) = create_test_app();
    press(&mut app, &mut fs, KeyAction::Mkdir);
    type_text(&mut app, &mut fs, "abcde");
    press(&mut app, &mut fs, KeyAction::InputCursorLeft);
    press(&mut app, &mut fs, KeyAction::InputCursorLeft);
    assert_eq!(input_state(&app).1, 3);
    press(&mut app, &mut fs, KeyAction::InputChar('X'));
    assert_eq!(input_state(&app), ("abcXde".to_string(), 4));
    press(&mut app, &mut fs, KeyAction::InputBackspace);
    assert_eq!(input_state(&app), ("abcde".to_string(), 3));
    press(&mut app, &mut fs, KeyAction::InputDelete);
    assert_eq!(input_state(&app), ("abce".to_string(), 3));
    press(&mut app, &mut fs, KeyAction::InputCursorHome);
    assert_eq!(input_state(&app).1, 0);
    press(&mut app, &mut fs, KeyAction::InputCursorEnd);
    let (b, c) = input_state(&app);
    assert_eq!(c, b.chars().count());
}

#[test]
fn test_input_cursor_boundary() {
    let (mut app, mut fs) = create_test_app();
    press(&mut app, &mut fs, KeyAction::Mkdir);
    press(&mut app, &mut fs, KeyAction::InputCursorLeft);
    press(&mut app, &mut fs, KeyAction::InputBackspace);
    press(&mut app, &mut fs, KeyAction::InputDelete);
    assert_eq!(input_state(&app), (String::new(), 0));
    press(&mut app, &mut fs, KeyAction::InputChar('a'));
    press(&mut app, &mut fs, KeyAction::InputChar('b'));
    press(&mut app, &mut fs, KeyAction::InputCursorRight);
    assert_eq!(input_state(&app).1, 2);
    press(&mut app, &mut fs, KeyAction::InputDelete);
    assert_eq!(input_state(&app).0, "ab");
}

#[test]
fn test_input_cancel() {
    let (mut app, mut fs) = create_test_app();
    press(&mut app, &mut fs, KeyAction::Mkdir);
    assert!(matches!(app.mode, AppMode::Input { .. }));
    press(&mut app, &mut fs, KeyAction::InputCancel);
    assert_eq!(app.mode, AppMode::Normal);
}

#[test]
fn test_confirm_no_cancels() {
    let (mut app, mut fs) = create_test_app();
    app.cursor = 3;
    press(&mut app, &mut fs, KeyAction::Delete);
    assert!(matches!(app.mode, AppMode::Confirm { .. }));
    press(&mut app, &mut fs, KeyAction::ConfirmNo);
    assert_eq!(app.mode, AppMode::Normal);
}

#[test]
fn test_mkdir_execute() {
    let (mut app, mut fs) = create_test_app();
    press(&mut app, &mut fs, KeyAction::Mkdir);
    type_text(&mut app, &mut fs, "new_dir");
    press(&mut app, &mut fs, KeyAction::InputConfirm);
    assert_eq!(app.mode, AppMode::Normal);
    assert!(fs.is_dir("/t/new_dir"));
    assert!(app.entries.iter().any(|e| e.name == "new_dir"));
}

#[test]
fn mkdir_with_bad_names_is_refused() {
    let (mut app, mut fs) = create_test_app();
    press(&mut app, &mut fs, KeyAction::Mkdir);
    press(&mut app, &mut fs, KeyAction::InputConfirm);
    assert_eq!(app.mode, AppMode::Normal);
    assert_eq!(app.error_message.as_deref(), Some("디렉토리명이 비어있습니다"));
    press(&mut app, &mut fs, KeyAction::Mkdir);
    type_text(&mut app, &mut fs, "a/b");
    press(&mut app, &mut fs, KeyAction::InputConfirm);
    assert_eq!(app.error_message.as_deref(), Some("이름에 경로 구분자를 포함할 수 없습니다"));
    press(&mut app, &mut fs, KeyAction::Mkdir);
    type_text(&mut app, &mut fs, "alpha_dir");
    press(&mut app, &mut fs, KeyAction::InputConfirm);
    assert_eq!(app.error_message.as_deref(), Some("이미 존재합니다: alpha_dir"));
}

#[test]
fn test_delete_execute() {
    let (mut app, mut fs) = create_test_app();
    app.cursor = 3;
    press(&mut app, &mut fs, KeyAction::Delete);
    press(&mut app, &mut fs, KeyAction::ConfirmYes);
    assert_eq!(app.mode, AppMode::Normal);
    assert!(!fs.has("/t/file_a.txt"));
    assert_eq!(app.entries.len(), 4);
}

#[test]
fn test_rename_execute() {
    let (mut app, mut fs) = create_test_app();
    app.cursor = 3;
    press(&mut app, &mut fs, KeyAction::Rename);
    set_buffer(&mut app, "renamed.txt");
    press(&mut app, &mut fs, KeyAction::InputConfirm);
    assert_eq!(app.mode, AppMode::Normal);
    assert!(!fs.has("/t/file_a.txt"));
    assert!(fs.has("/t/renamed.txt"));
}

#[test]
fn test_copy_execute() {
    let (mut app, mut fs) = create_test_app();
    app.cursor = 3;
    press(&mut app, &mut fs, KeyAction::Copy);
    set_buffer(&mut app, "/dest");
    press(&mut app, &mut fs, KeyAction::InputConfirm);
    assert_eq!(app.mode, AppMode::Normal);
    assert!(fs.has("/t/file_a.txt"));
    assert!(fs.has("/dest/file_a.txt"));
}

#[test]
fn test_move_execute() {
    let (mut app, mut fs) = create_test_app();
    app.cursor = 3;
    press(&mut app, &mut fs, KeyAction::Move);
    set_buffer(&mut app, "/dest");
    press(&mut app, &mut fs, KeyAction::InputConfirm);
    assert_eq!(app.mode, AppMode::Normal);
    assert!(!fs.has("/t/file_a.txt"));
    assert!(fs.has("/dest/file_a.txt"));
}

#[test]
fn copy_to_a_missing_directory_reports_it() {
    let (mut app, mut fs) = create_test_app();
    app.cursor = 3;
    press(&mut app, &mut fs, KeyAction::Copy);
    set_buffer(&mut app, "/nowhere");
    press(&mut app, &mut fs, KeyAction::InputConfirm);
    assert_eq!(app.mode, AppMode::Normal);
    assert_eq!(app.error_message.as_deref(), Some("대상 경로가 디렉토리가 아닙니다: /nowhere"));
}

#[test]
fn test_crud_on_parent_blocked() {
    let (mut app, mut fs) = create_test_app();
    app.cursor = 0;
    press(&mut app, &mut fs, KeyAction::Delete);
    assert_eq!(app.mode, AppMode::Normal);
    assert_eq!(app.error_message.as_deref(), Some("삭제할 파일이 없습니다"));
    press(&mut app, &mut fs, KeyAction::Rename);
    assert_eq!(app.error_message.as_deref(), Some("'..'은 이름 변경할 수 없습니다"));
    press(&mut app, &mut fs, KeyAction::Copy);
    assert_eq!(app.error_message.as_deref(), Some("복사할 파일이 없습니다"));
    press(&mut app, &mut fs, KeyAction::Move);
    assert_eq!(app.error_message.as_deref(), Some("이동할 파일이 없습니다"));
}

#[test]
fn test_crud_with_selection() {
    let (mut app, mut fs) = create_test_app();
    app.cursor = 3;
    press(&mut app, &mut fs, KeyAction::Select);
    app.cursor = 4;
    press(&mut app, &mut fs, KeyAction::Select);
    press(&mut app, &mut fs, KeyAction::Copy);
    match &app.mode {
        AppMode::Input { prompt, .. } => assert!(prompt.contains("2개")),
        _ => panic!("not in a prompt"),
    }
    set_buffer(&mut app, "/dest");
    press(&mut app, &mut fs, KeyAction::InputConfirm);
    assert!(fs.has("/dest/file_a.txt"));
    assert!(fs.has("/dest/file_b.txt"));
    assert!(app.selected_indices.is_empty());
}

#[test]
fn file_operations_carry_exactly_the_targets() {
    let (mut app, mut fs) = create_test_app();
    app.cursor = 4;
    press(&mut app, &mut fs, KeyAction::Select);
    app.cursor = 1;
    press(&mut app, &mut fs, KeyAction::Select);
    press(&mut app, &mut fs, KeyAction::Move);
    set_buffer(&mut app, "/dest");
    let e = app.handle_key(KeyAction::InputConfirm);
    match e {
        Effect::RunFileOp(FileOp::Move { sources, dest }) => {
            let mut sources = sources;
            sources.sort();
            assert_eq!(sources, vec!["/t/alpha_dir".to_string(), "/t/file_b.txt".to_string()]);
            assert_eq!(dest, "/dest");
        }
        other => panic!("unexpected {:?}", other),
    }
}

#[test]
fn test_viewer_open_text_file() {
    let (mut app, mut fs) = create_test_app();
    app.cursor = 3;
    press(&mut app, &mut fs, KeyAction::View);
    assert_eq!(app.mode, AppMode::Viewer);
    let v = app.viewer.as_ref().unwrap();
    assert_eq!(v.filename, "file_a.txt");
    assert_eq!(v.lines.len(), 1);
    assert_eq!(v.scroll, 0);
}

#[test]
fn test_viewer_open_directory_ignored() {
    let (mut app, mut fs) = create_test_app();
    app.cursor = 1;
    press(&mut app, &mut fs, KeyAction::View);
    assert_eq!(app.mode, AppMode::Normal);
    assert!(app.viewer.is_none());
}

#[test]
fn test_viewer_close() {
    let (mut app, mut fs) = create_test_app();
    app.cursor = 3;
    press(&mut app, &mut fs, KeyAction::View);
    assert_eq!(app.mode, AppMode::Viewer);
    press(&mut app, &mut fs, KeyAction::ViewerClose);
    assert_eq!(app.mode, AppMode::Normal);
    assert!(app.viewer.is_none());
}

#[test]
fn test_viewer_scroll() {
    let (mut app, mut fs) = create_test_app();
    let content: String = (0..100).map(|i| format!("line {}\n", i)).collect();
    fs.file("/t/long.txt", content.as_bytes());
    reload(&mut app, &mut fs);
    app.cursor = position(&app, "long.txt");
    app.update_layout(80, 24);
    press(&mut app, &mut fs, KeyAction::View);
    let v = app.viewer.as_ref().unwrap();
    assert_eq!(v.scroll, 0);
    assert_eq!(v.lines.len(), 100);
    press(&mut app, &mut fs, KeyAction::ViewerDown);
    assert_eq!(app.viewer.as_ref().unwrap().scroll, 1);
    press(&mut app, &mut fs, KeyAction::ViewerUp);
    assert_eq!(app.viewer.as_ref().unwrap().scroll, 0);
    press(&mut app, &mut fs, KeyAction::ViewerUp);
    assert_eq!(app.viewer.as_ref().unwrap().scroll, 0);
    press(&mut app, &mut fs, KeyAction::ViewerEnd);
    let v = app.viewer.as_ref().unwrap();
    assert!(v.scroll > 0);
    assert!(v.scroll + 21 >= v.lines.len());
    assert_eq!(v.scroll, 79);
    press(&mut app, &mut fs, KeyAction::ViewerPageUp);
    assert_eq!(app.viewer.as_ref().unwrap().scroll, 58);
    press(&mut app, &mut fs, KeyAction::ViewerPageDown);
    assert_eq!(app.viewer.as_ref().unwrap().scroll, 79);
    press(&mut app, &mut fs, KeyAction::ViewerHome);
    assert_eq!(app.viewer.as_ref().unwrap().scroll, 0);
}

#[test]
fn test_viewer_search() {
    let (mut app, mut fs) = create_test_app();
    fs.file("/t/fruits.txt", b"apple\nbanana\ncherry\napricot\nblueberry\n");
    reload(&mut app, &mut fs);
    app.cursor = position(&app, "fruits.txt");
    app.update_layout(80, 24);
    press(&mut app, &mut fs, KeyAction::View);
    press(&mut app, &mut fs, KeyAction::ViewerSearch);
    assert!(matches!(app.mode, AppMode::ViewerSearch { .. }));
    press(&mut app, &mut fs, KeyAction::ViewerSearchChar('a'));
    press(&mut app, &mut fs, KeyAction::ViewerSearchChar('p'));
    press(&mut app, &mut fs, KeyAction::ViewerSearchConfirm);
    assert_eq!(app.mode, AppMode::Viewer);
    let v = app.viewer.as_ref().unwrap();
    assert_eq!(v.search_query, Some("ap".to_string()));
    assert_eq!(v.search_matches.len(), 2);
    assert_eq!(v.search_matches[0], 0);
    assert_eq!(v.search_matches[1], 3);
    press(&mut app, &mut fs, KeyAction::ViewerNextMatch);
    let v = app.viewer.as_ref().unwrap();
    assert_eq!(v.current_match, 1);
    assert_eq!(v.scroll, 3);
    press(&mut app, &mut fs, KeyAction::ViewerPrevMatch);
    let v = app.viewer.as_ref().unwrap();
    assert_eq!(v.current_match, 0);
    assert_eq!(v.scroll, 0);
}

#[test]
fn viewer_search_ignores_case_and_wraps() {
    let (mut app, mut fs) = create_test_app();
    fs.file("/t/mixed.txt", b"Alpha\r\nbeta\nALPHABET");
    reload(&mut app, &mut fs);
    app.cursor = position(&app, "mixed.txt");
    press(&mut app, &mut fs, KeyAction::View);
    assert_eq!(app.viewer.as_ref().unwrap().lines, vec!["Alpha", "beta", "ALPHABET"]);
    press(&mut app, &mut fs, KeyAction::ViewerSearch);
    for c in "alp".chars() {
        press(&mut app, &mut fs, KeyAction::ViewerSearchChar(c));
    }
    press(&mut app, &mut fs, KeyAction::ViewerSearchBackspace);
    press(&mut app, &mut fs, KeyAction::ViewerSearchChar('p'));
    press(&mut app, &mut fs, KeyAction::ViewerSearchConfirm);
    assert_eq!(app.viewer.as_ref().unwrap().search_matches, vec![0, 2]);
    press(&mut app, &mut fs, KeyAction::ViewerPrevMatch);
    assert_eq!(app.viewer.as_ref().unwrap().current_match, 1);
    assert_eq!(app.viewer.as_ref().unwrap().scroll, 2);
    press(&mut app, &mut fs, KeyAction::ViewerNextMatch);
    assert_eq!(app.viewer.as_ref().unwrap().current_match, 0);
}

#[test]
fn test_viewer_search_cancel() {
    let (mut app, mut fs) = create_test_app();
    app.cursor = 3;
    press(&mut app, &mut fs, KeyAction::View);
    press(&mut app, &mut fs, KeyAction::ViewerSearch);
    assert!(matches!(app.mode, AppMode::ViewerSearch { .. }));
    press(&mut app, &mut fs, KeyAction::ViewerSearchCancel);
    assert_eq!(app.mode, AppMode::Viewer);
}

#[test]
fn test_viewer_binary_file_rejected() {
    let (mut app, mut fs) = create_test_app();
    let mut binary_data = vec![0x89, 0x50, 0x4E, 0x47, 0x00, 0x00];
    binary_data.extend_from_slice(&[0x42; 100]);
    fs.file("/t/image.png", &binary_data);
    reload(&mut app, &mut fs);
    app.cursor = position(&app, "image.png");
    press(&mut app, &mut fs, KeyAction::View);
    assert_eq!(app.mode, AppMode::Normal);
    assert!(app.viewer.is_none());
    assert!(app.error_message.as_ref().unwrap().contains("바이너리"));
}

#[test]
fn large_files_are_not_opened() {
    let (mut app, mut fs) = create_test_app();
    app.entries[3].size = 10 * 1024 * 1024 + 1;
    app.cursor = 3;
    press(&mut app, &mut fs, KeyAction::View);
    assert_eq!(app.error_message.as_deref(), Some("파일이 너무 큽니다 (10MB 초과)"));
    press(&mut app, &mut fs, KeyAction::Edit);
    assert_eq!(app.error_message.as_deref(), Some("파일이 너무 큽니다 (10MB 초과)"));
    assert_eq!(app.mode, AppMode::Normal);
}

#[test]
fn test_file_search() {
    let (mut app, mut fs) = create_test_app();
    fs.file("/t/alpha_dir/nested.txt", b"nested");
    press(&mut app, &mut fs, KeyAction::FileSearch);
    match &app.mode {
        AppMode::Input { purpose, .. } => assert_eq!(*purpose, InputPurpose::FileSearch),
        _ => panic!("FileSearch 키로 Input 모드 진입 실패"),
    }
    type_text(&mut app, &mut fs, "txt");
    press(&mut app, &mut fs, KeyAction::InputConfirm);
    assert_eq!(app.mode, AppMode::Normal);
    assert!(app.search_results);
    assert!(app.entries.len() >= 3);
    assert!(app.entries.iter().any(|e| e.name == "nested.txt"));
}

#[test]
fn test_file_search_exit() {
    let (mut app, mut fs) = create_test_app();
    let original_dir = app.current_dir.clone();
    press(&mut app, &mut fs, KeyAction::FileSearch);
    type_text(&mut app, &mut fs, "file");
    press(&mut app, &mut fs, KeyAction::InputConfirm);
    assert!(app.search_results);
    press(&mut app, &mut fs, KeyAction::Backspace);
    assert!(!app.search_results);
    assert_eq!(app.current_dir, original_dir);
    assert_eq!(app.entries.len(), 5);
}

#[test]
fn test_file_search_enter_result() {
    let (mut app, mut fs) = create_test_app();
    fs.file("/t/alpha_dir/target.txt", b"found");
    press(&mut app, &mut fs, KeyAction::FileSearch);
    type_text(&mut app, &mut fs, "target");
    press(&mut app, &mut fs, KeyAction::InputConfirm);
    assert!(app.search_results);
    app.cursor = 0;
    press(&mut app, &mut fs, KeyAction::Enter);
    assert!(!app.search_results);
    assert!(app.current_dir.ends_with("alpha_dir"));
    assert_eq!(app.entries[app.cursor].name, "target.txt");
}

#[test]
fn test_file_search_no_results() {
    let (mut app, mut fs) = create_test_app();
    press(&mut app, &mut fs, KeyAction::FileSearch);
    type_text(&mut app, &mut fs, "nonexistent_xyz");
    press(&mut app, &mut fs, KeyAction::InputConfirm);
    assert!(!app.search_results);
    assert_eq!(app.error_message.as_deref(), Some("'nonexistent_xyz' 검색 결과가 없습니다"));
}

#[test]
fn empty_search_pattern_is_refused() {
    let (mut app, mut fs) = create_test_app();
    press(&mut app, &mut fs, KeyAction::FileSearch);
    press(&mut app, &mut fs, KeyAction::InputConfirm);
    assert_eq!(app.mode, AppMode::Normal);
    assert_eq!(app.error_message.as_deref(), Some("검색어를 입력해주세요"));
}

#[test]
fn search_skips_hidden_entries_and_their_contents() {
    assert_eq!(search_step(".git", true, "g"), (false, false));
    assert_eq!(search_step("src", true, "s*"), (true, true));
    assert_eq!(search_step("main.rs", false, "*.RS"), (true, false));
    assert_eq!(search_step("main.rs", false, "lib"), (false, false));
}

#[test]
fn test_glob_match() {
    assert!(glob_match("*.txt", "readme.txt"));
    assert!(glob_match("*.txt", "README.TXT"));
    assert!(!glob_match("*.txt", "readme.rs"));
    assert!(glob_match("test?", "test1"));
    assert!(glob_match("test?", "testA"));
    assert!(!glob_match("test?", "test12"));
    assert!(glob_match("*", "anything"));
    assert!(glob_match("file", "file_a.txt"));
    assert!(glob_match("FILE", "file_a.txt"));
}

#[test]
fn test_char_to_byte_pos() {
    assert_eq!(char_to_byte_pos("hello", 0), 0);
    assert_eq!(char_to_byte_pos("hello", 3), 3);
    assert_eq!(char_to_byte_pos("hello", 5), 5);
    assert_eq!(char_to_byte_pos("한글테스트", 0), 0);
    assert_eq!(char_to_byte_pos("한글테스트", 1), 3);
    assert_eq!(char_to_byte_pos("한글테스트", 2), 6);
    assert_eq!(char_to_byte_pos("한글테스트", 5), 15);
    assert_eq!(char_to_byte_pos("a한b", 0), 0);
    assert_eq!(char_to_byte_pos("a한b", 1), 1);
    assert_eq!(char_to_byte_pos("a한b", 2), 4);
    assert_eq!(char_to_byte_pos("a한b", 3), 5);
    assert_eq!(char_to_byte_pos("abc", 10), 3);
}

#[test]
fn test_multibyte_input_cursor() {
    let (mut app, mut fs) = create_test_app();
    press(&mut app, &mut fs, KeyAction::Mkdir);
    type_text(&mut app, &mut fs, "가나다");
    assert_eq!(input_state(&app), ("가나다".to_string(), 3));
    press(&mut app, &mut fs, KeyAction::InputCursorLeft);
    press(&mut app, &mut fs, KeyAction::InputCursorLeft);
    assert_eq!(input_state(&app).1, 1);
    press(&mut app, &mut fs, KeyAction::InputChar('X'));
    assert_eq!(input_state(&app), ("가X나다".to_string(), 2));
    press(&mut app, &mut fs, KeyAction::InputBackspace);
    assert_eq!(input_state(&app), ("가나다".to_string(), 1));
    press(&mut app, &mut fs, KeyAction::InputDelete);
    assert_eq!(input_state(&app), ("가다".to_string(), 1));
    press(&mut app, &mut fs, KeyAction::InputCursorEnd);
    assert_eq!(input_state(&app).1, 2);
    press(&mut app, &mut fs, KeyAction::InputCursorHome);
    assert_eq!(input_state(&app).1, 0);
}

#[test]
fn test_open_help_enters_help_mode() {
    let (mut app, mut fs) = create_test_app();
    press(&mut app, &mut fs, KeyAction::Help);
    assert_eq!(app.mode, AppMode::Help { scroll: 0 });
}

#[test]
fn test_help_close_returns_normal() {
    let (mut app, mut fs) = create_test_app();
    press(&mut app, &mut fs, KeyAction::Help);
    assert!(matches!(app.mode, AppMode::Help { .. }));
    press(&mut app, &mut fs, KeyAction::HelpClose);
    assert_eq!(app.mode, AppMode::Normal);
}

#[test]
fn test_help_scroll() {
    let (mut app, mut fs) = create_test_app();
    app.terminal_height = 20;
    press(&mut app, &mut fs, KeyAction::Help);
    press(&mut app, &mut fs, KeyAction::HelpDown);
    assert_eq!(app.mode, AppMode::Help { scroll: 1 });
    press(&mut app, &mut fs, KeyAction::HelpUp);
    assert_eq!(app.mode, AppMode::Help { scroll: 0 });
    press(&mut app, &mut fs, KeyAction::HelpDown);
    press(&mut app, &mut fs, KeyAction::HelpDown);
    press(&mut app, &mut fs, KeyAction::HelpHome);
    assert_eq!(app.mode, AppMode::Help { scroll: 0 });
    press(&mut app, &mut fs, KeyAction::HelpEnd);
    let total = generate_help_lines().len();
    assert_eq!(app.mode, AppMode::Help { scroll: total - 16 });
    press(&mut app, &mut fs, KeyAction::HelpDown);
    assert_eq!(app.mode, AppMode::Help { scroll: total - 16 });
    press(&mut app, &mut fs, KeyAction::HelpPageUp);
    assert_eq!(app.mode, AppMode::Help { scroll: total - 32 });
}

#[test]
fn test_generate_help_lines_not_empty() {
    let lines = generate_help_lines();
    assert!(!lines.is_empty());
    let joined = lines.join("\n");
    assert!(joined.contains("네비게이션"));
    assert!(joined.contains("CRUD"));
    assert!(joined.contains("뷰어"));
    assert!(joined.contains("에디터"));
    assert!(joined.contains("검색"));
    assert!(joined.contains("입력 모드"));
}

#[test]
fn test_editor_open_text_file() {
    let (mut app, mut fs) = create_test_app();
    app.cursor = position(&app, "file_a.txt");
    press(&mut app, &mut fs, KeyAction::Edit);
    assert_eq!(app.mode, AppMode::Editor);
    let e = ed(&app);
    assert_eq!(e.lines, vec!["aaa"]);
    assert_eq!(e.cursor_row, 0);
    assert_eq!(e.cursor_col, 0);
    assert!(!e.modified);
    assert_eq!(e.filepath, "/t/file_a.txt");
}

#[test]
fn test_editor_open_directory_rejected() {
    let (mut app, mut fs) = create_test_app();
    app.cursor = position(&app, "alpha_dir");
    press(&mut app, &mut fs, KeyAction::Edit);
    assert_eq!(app.mode, AppMode::Normal);
    assert!(app.error_message.as_ref().unwrap().contains("디렉토리"));
}

#[test]
fn test_editor_open_binary_rejected() {
    let (mut app, mut fs) = create_test_app();
    fs.file("/t/binary.dat", &[0u8, 1, 2, 3, 0]);
    reload(&mut app, &mut fs);
    app.cursor = position(&app, "binary.dat");
    press(&mut app, &mut fs, KeyAction::Edit);
    assert_eq!(app.mode, AppMode::Normal);
    assert_eq!(app.error_message.as_deref(), Some("바이너리 파일은 편집할 수 없습니다"));
}

#[test]
fn test_editor_insert_char() {
    let (mut app, mut fs) = create_test_app();
    setup_editor(&mut app, vec!["abc"], "/t/t.txt");
    press(&mut app, &mut fs, KeyAction::EditorChar('X'));
    assert_eq!(ed(&app).lines[0], "Xabc");
    assert_eq!(ed(&app).cursor_col, 1);
    assert!(ed(&app).modified);
}

#[test]
fn test_editor_insert_char_middle() {
    let (mut app, mut fs) = create_test_app();
    setup_editor(&mut app, vec!["abc"], "/t/t.txt");
    ed_mut(&mut app).cursor_col = 2;
    press(&mut app, &mut fs, KeyAction::EditorChar('X'));
    assert_eq!(ed(&app).lines[0], "abXc");
    assert_eq!(ed(&app).cursor_col, 3);
}

#[test]
fn test_editor_insert_multibyte() {
    let (mut app, mut fs) = create_test_app();
    setup_editor(&mut app, vec!["가나다"], "/t/t.txt");
    ed_mut(&mut app).cursor_col = 1;
    press(&mut app, &mut fs, KeyAction::EditorChar('X'));
    assert_eq!(ed(&app).lines[0], "가X나다");
    assert_eq!(ed(&app).cursor_col, 2);
}

#[test]
fn test_editor_backspace_within_line() {
    let (mut app, mut fs) = create_test_app();
    setup_editor(&mut app, vec!["abc"], "/t/t.txt");
    ed_mut(&mut app).cursor_col = 2;
    press(&mut app, &mut fs, KeyAction::EditorBackspace);
    assert_eq!(ed(&app).lines[0], "ac");
    assert_eq!(ed(&app).cursor_col, 1);
    assert!(ed(&app).modified);
}

#[test]
fn test_editor_backspace_line_merge() {
    let (mut app, mut fs) = create_test_app();
    setup_editor(&mut app, vec!["hello", "world"], "/t/t.txt");
    ed_mut(&mut app).cursor_row = 1;
    ed_mut(&mut app).cursor_col = 0;
    press(&mut app, &mut fs, KeyAction::EditorBackspace);
    assert_eq!(ed(&app).lines.len(), 1);
    assert_eq!(ed(&app).lines[0], "helloworld");
    assert_eq!(ed(&app).cursor_row, 0);
    assert_eq!(ed(&app).cursor_col, 5);
}

#[test]
fn test_editor_backspace_at_beginning_noop() {
    let (mut app, mut fs) = create_test_app();
    setup_editor(&mut app, vec!["abc"], "/t/t.txt");
    press(&mut app, &mut fs, KeyAction::EditorBackspace);
    assert_eq!(ed(&app).lines[0], "abc");
    assert!(!ed(&app).modified);
}

#[test]
fn test_editor_delete_within_line() {
    let (mut app, mut fs) = create_test_app();
    setup_editor(&mut app, vec!["abc"], "/t/t.txt");
    press(&mut app, &mut fs, KeyAction::EditorDelete);
    assert_eq!(ed(&app).lines[0], "bc");
    assert_eq!(ed(&app).cursor_col, 0);
    assert!(ed(&app).modified);
}

#[test]
fn test_editor_delete_line_merge() {
    let (mut app, mut fs) = create_test_app();
    setup_editor(&mut app, vec!["abc", "def"], "/t/t.txt");
    ed_mut(&mut app).cursor_col = 3;
    press(&mut app, &mut fs, KeyAction::EditorDelete);
    assert_eq!(ed(&app).lines.len(), 1);
    assert_eq!(ed(&app).lines[0], "abcdef");
}

#[test]
fn test_editor_enter_splits_line() {
    let (mut app, mut fs) = create_test_app();
    setup_editor(&mut app, vec!["abcdef"], "/t/t.txt");
    ed_mut(&mut app).cursor_col = 3;
    press(&mut app, &mut fs, KeyAction::EditorEnter);
    assert_eq!(ed(&app).lines, vec!["abc", "def"]);
    assert_eq!(ed(&app).cursor_row, 1);
    assert_eq!(ed(&app).cursor_col, 0);
    assert!(ed(&app).modified);
}

#[test]
fn test_editor_enter_at_beginning() {
    let (mut app, mut fs) = create_test_app();
    setup_editor(&mut app, vec!["abc"], "/t/t.txt");
    press(&mut app, &mut fs, KeyAction::EditorEnter);
    assert_eq!(ed(&app).lines, vec!["", "abc"]);
    assert_eq!(ed(&app).cursor_row, 1);
    assert_eq!(ed(&app).cursor_col, 0);
}

#[test]
fn test_editor_enter_at_end() {
    let (mut app, mut fs) = create_test_app();
    setup_editor(&mut app, vec!["abc"], "/t/t.txt");
    ed_mut(&mut app).cursor_col = 3;
    press(&mut app, &mut fs, KeyAction::EditorEnter);
    assert_eq!(ed(&app).lines, vec!["abc", ""]);
}

#[test]
fn test_editor_move_up_down() {
    let (mut app, mut fs) = create_test_app();
    setup_editor(&mut app, vec!["aaa", "bbb", "ccc"], "/t/t.txt");
    press(&mut app, &mut fs, KeyAction::EditorDown);
    assert_eq!(ed(&app).cursor_row, 1);
    press(&mut app, &mut fs, KeyAction::EditorDown);
    assert_eq!(ed(&app).cursor_row, 2);
    press(&mut app, &mut fs, KeyAction::EditorDown);
    assert_eq!(ed(&app).cursor_row, 2);
    press(&mut app, &mut fs, KeyAction::EditorUp);
    assert_eq!(ed(&app).cursor_row, 1);
    press(&mut app, &mut fs, KeyAction::EditorUp);
    assert_eq!(ed(&app).cursor_row, 0);
    press(&mut app, &mut fs, KeyAction::EditorUp);
    assert_eq!(ed(&app).cursor_row, 0);
}

#[test]
fn test_editor_move_up_clamps_col() {
    let (mut app, mut fs) = create_test_app();
    setup_editor(&mut app, vec!["abcdef", "ab"], "/t/t.txt");
    ed_mut(&mut app).cursor_col = 5;
    press(&mut app, &mut fs, KeyAction::EditorDown);
    assert_eq!(ed(&app).cursor_col, 2);
}

#[test]
fn test_editor_move_left_right() {
    let (mut app, mut fs) = create_test_app();
    setup_editor(&mut app, vec!["abc", "def"], "/t/t.txt");
    press(&mut app, &mut fs, KeyAction::EditorRight);
    assert_eq!(ed(&app).cursor_col, 1);
    press(&mut app, &mut fs, KeyAction::EditorRight);
    press(&mut app, &mut fs, KeyAction::EditorRight);
    assert_eq!(ed(&app).cursor_col, 3);
    press(&mut app, &mut fs, KeyAction::EditorRight);
    assert_eq!(ed(&app).cursor_row, 1);
    assert_eq!(ed(&app).cursor_col, 0);
}

#[test]
fn test_editor_move_left_wraps_prev_line() {
    let (mut app, mut fs) = create_test_app();
    setup_editor(&mut app, vec!["abc", "def"], "/t/t.txt");
    ed_mut(&mut app).cursor_row = 1;
    ed_mut(&mut app).cursor_col = 0;
    press(&mut app, &mut fs, KeyAction::EditorLeft);
    assert_eq!(ed(&app).cursor_row, 0);
    assert_eq!(ed(&app).cursor_col, 3);
}

#[test]
fn test_editor_home_end() {
    let (mut app, mut fs) = create_test_app();
    setup_editor(&mut app, vec!["hello world"], "/t/t.txt");
    ed_mut(&mut app).cursor_col = 5;
    press(&mut app, &mut fs, KeyAction::EditorHome);
    assert_eq!(ed(&app).cursor_col, 0);
    press(&mut app, &mut fs, KeyAction::EditorEnd);
    assert_eq!(ed(&app).cursor_col, 11);
}

#[test]
fn test_editor_page_up_down() {
    let (mut app, mut fs) = create_test_app();
    let lines: Vec<&str> = (0..50).map(|_| "line").collect();
    setup_editor(&mut app, lines, "/t/t.txt");
    app.terminal_height = 24;
    press(&mut app, &mut fs, KeyAction::EditorPageDown);
    assert_eq!(ed(&app).cursor_row, 20);
    press(&mut app, &mut fs, KeyAction::EditorPageDown);
    assert_eq!(ed(&app).cursor_row, 40);
    press(&mut app, &mut fs, KeyAction::EditorPageDown);
    assert_eq!(ed(&app).cursor_row, 49);
    assert_eq!(ed(&app).scroll_row, 30);
    press(&mut app, &mut fs, KeyAction::EditorPageUp);
    assert_eq!(ed(&app).cursor_row, 29);
    press(&mut app, &mut fs, KeyAction::EditorPageUp);
    assert_eq!(ed(&app).cursor_row, 9);
    assert_eq!(ed(&app).scroll_row, 9);
    press(&mut app, &mut fs, KeyAction::EditorPageUp);
    assert_eq!(ed(&app).cursor_row, 0);
}

#[test]
fn editor_scrolls_sideways_by_display_width() {
    let (mut app, mut fs) = create_test_app();
    setup_editor(&mut app, vec!["가나다라마바사아자차카타파하"], "/t/t.txt");
    app.terminal_width = 18;
    press(&mut app, &mut fs, KeyAction::EditorEnd);
    assert_eq!(ed(&app).cursor_col, 14);
    assert_eq!(ed(&app).scroll_col, 28 - 10 + 1);
    press(&mut app, &mut fs, KeyAction::EditorHome);
    assert_eq!(ed(&app).scroll_col, 0);
}

#[test]
fn test_editor_save() {
    let (mut app, mut fs) = create_test_app();
    fs.file("/t/save_test.txt", b"original\n");
    setup_editor(&mut app, vec!["modified", "content"], "/t/save_test.txt");
    ed_mut(&mut app).modified = true;
    press(&mut app, &mut fs, KeyAction::EditorSave);
    assert!(!ed(&app).modified);
    assert_eq!(ed(&app).message.as_deref(), Some("저장 완료"));
    assert_eq!(fs.writes, vec![("/t/save_test.txt".to_string(), "modified\ncontent\n".to_string())]);
    press(&mut app, &mut fs, KeyAction::EditorChar('!'));
    assert_eq!(ed(&app).message, None);
}

#[test]
fn failed_save_keeps_changes_and_says_why() {
    let (mut app, _fs) = create_test_app();
    setup_editor(&mut app, vec!["x"], "/t/x.txt");
    ed_mut(&mut app).modified = true;
    let e = app.handle_key(KeyAction::EditorSave);
    assert!(matches!(e, Effect::WriteFile { .. }));
    let next = app.complete(Outcome::Written(Err("저장 실패: disk full".to_string())));
    assert!(matches!(next, Effect::Idle));
    assert!(ed(&app).modified);
    assert_eq!(ed(&app).message.as_deref(), Some("저장 실패: disk full"));
}

#[test]
fn test_editor_close_unmodified() {
    let (mut app, mut fs) = create_test_app();
    setup_editor(&mut app, vec!["abc"], "/t/t.txt");
    press(&mut app, &mut fs, KeyAction::EditorClose);
    assert_eq!(app.mode, AppMode::Normal);
    assert!(app.editor.is_none());
}

#[test]
fn test_editor_close_modified_asks_confirm() {
    let (mut app, mut fs) = create_test_app();
    setup_editor(&mut app, vec!["abc"], "/t/t.txt");
    ed_mut(&mut app).modified = true;
    press(&mut app, &mut fs, KeyAction::EditorClose);
    assert_eq!(app.mode, AppMode::EditorConfirmClose);
    assert!(app.editor.is_some());
}

#[test]
fn test_editor_confirm_yes_closes() {
    let (mut app, mut fs) = create_test_app();
    setup_editor(&mut app, vec!["abc"], "/t/t.txt");
    ed_mut(&mut app).modified = true;
    press(&mut app, &mut fs, KeyAction::EditorClose);
    assert_eq!(app.mode, AppMode::EditorConfirmClose);
    press(&mut app, &mut fs, KeyAction::EditorConfirmYes);
    assert_eq!(app.mode, AppMode::Normal);
    assert!(app.editor.is_none());
}

#[test]
fn test_editor_confirm_no_returns_editor() {
    let (mut app, mut fs) = create_test_app();
    setup_editor(&mut app, vec!["abc"], "/t/t.txt");
    ed_mut(&mut app).modified = true;
    press(&mut app, &mut fs, KeyAction::EditorClose);
    assert_eq!(app.mode, AppMode::EditorConfirmClose);
    press(&mut app, &mut fs, KeyAction::EditorConfirmNo);
    assert_eq!(app.mode, AppMode::Editor);
    assert!(app.editor.is_some());
}

#[test]
fn test_editor_empty_file() {
    let (mut app, mut fs) = create_test_app();
    fs.file("/t/empty.txt", b"");
    reload(&mut app, &mut fs);
    app.cursor = position(&app, "empty.txt");
    press(&mut app, &mut fs, KeyAction::Edit);
    assert_eq!(app.mode, AppMode::Editor);
    assert_eq!(ed(&app).lines, vec![""]);
}

#[test]
fn saved_lines_read_back_the_same() {
    let (mut app, mut fs) = create_test_app();
    setup_editor(&mut app, vec!["one", "", "three"], "/t/round.txt");
    press(&mut app, &mut fs, KeyAction::EditorSave);
    press(&mut app, &mut fs, KeyAction::EditorClose);
    reload(&mut app, &mut fs);
    app.cursor = position(&app, "round.txt");
    press(&mut app, &mut fs, KeyAction::Edit);
    assert_eq!(ed(&app).lines, vec!["one", "", "three"]);
}

#[test]
fn unexpected_outcomes_change_nothing() {
    let (mut app, _fs) = create_test_app();
    let before = (app.cursor, app.entries.len(), app.mode.clone());
    let e = app.complete(Outcome::Found(Vec::new()));
    assert!(matches!(e, Effect::Idle));
    assert_eq!((app.cursor, app.entries.len(), app.mode.clone()), before);
}

#[test]
fn listing_failure_is_reported() {
    let mut fs = MemFs::new();
    let app = open_app(&mut fs, "/missing");
    assert_eq!(app.error_message.as_deref(), Some("디렉토리 읽기 실패: No such file or directory (os error 2)"));
    assert!(app.entries.is_empty());
}

#[test]
fn disk_space_used_and_total() {
    assert_eq!(disk_space(1000, 250, 4096), (750 * 4096, 1000 * 4096));
    assert_eq!(disk_space(10, 20, 512), (0, 5120));
}

#[test]
fn invalid_utf8_is_shown_with_replacement_characters() {
    let (mut app, mut fs) = create_test_app();
    fs.file("/t/latin1.txt", &[b'c', b'a', b'f', 0xe9, b'\n', b'o', b'k']);
    reload(&mut app, &mut fs);
    app.cursor = position(&app, "latin1.txt");
    press(&mut app, &mut fs, KeyAction::View);
    assert_eq!(app.viewer.as_ref().unwrap().lines, vec!["caf\u{fffd}", "ok"]);
}

#[test]
fn question_mark_matches_one_character() {
    assert!(glob_match("a?", "a한"));
    assert!(glob_match("?", "한"));
    assert!(!glob_match("?", "한글"));
    assert!(glob_match("??.txt", "한글.TXT"));
    assert!(glob_match("*글?", "한글a"));
}

#[test]
fn toggling_hidden_twice_gives_back_the_list_and_the_cursor() {
    let (mut app, mut fs) = create_test_app();
    app.cursor = position(&app, "file_b.txt");
    let before: Vec<String> = app.entries.iter().map(|e| e.name.clone()).collect();
    let cursor_before = app.cursor;
    press(&mut app, &mut fs, KeyAction::ToggleHidden);
    press(&mut app, &mut fs, KeyAction::ToggleHidden);
    let after: Vec<String> = app.entries.iter().map(|e| e.name.clone()).collect();
    assert_eq!(after, before);
    assert_eq!(app.cursor, cursor_before);
    assert!(!app.show_hidden);
    assert!(app.selected_indices.is_empty());
}

#[test]
fn typing_then_backspace_in_a_prompt_gives_back_the_text() {
    let (mut app, mut fs) = create_test_app();
    press(&mut app, &mut fs, KeyAction::Mkdir);
    type_text(&mut app, &mut fs, "한글ab");
    press(&mut app, &mut fs, KeyAction::InputCursorLeft);
    let before = input_state(&app);
    press(&mut app, &mut fs, KeyAction::InputChar('가'));
    assert_eq!(input_state(&app), ("한글a가b".to_string(), 4));
    press(&mut app, &mut fs, KeyAction::InputBackspace);
    assert_eq!(input_state(&app), before);
}

#[test]
fn editor_enter_then_backspace_gives_back_the_lines() {
    let (mut app, mut fs) = create_test_app();
    setup_editor(&mut app, vec!["hello", "world"], "/t/t.txt");
    ed_mut(&mut app).cursor_row = 1;
    ed_mut(&mut app).cursor_col = 3;
    press(&mut app, &mut fs, KeyAction::EditorEnter);
    assert_eq!(ed(&app).lines, vec!["hello", "wor", "ld"]);
    press(&mut app, &mut fs, KeyAction::EditorBackspace);
    assert_eq!(ed(&app).lines, vec!["hello", "world"]);
    assert_eq!((ed(&app).cursor_row, ed(&app).cursor_col), (1, 3));
}

#[test]
fn help_scroll_stays_within_its_bound() {
    let (mut app, mut fs) = create_test_app();
    app.terminal_height = 20;
    press(&mut app, &mut fs, KeyAction::Help);
    let last = generate_help_lines().len() - 16;
    for _ in 0..(last + 5) {
        press(&mut app, &mut fs, KeyAction::HelpDown);
    }
    assert_eq!(app.mode, AppMode::Help { scroll: last });
    press(&mut app, &mut fs, KeyAction::HelpPageDown);
    assert_eq!(app.mode, AppMode::Help { scroll: last });
}

#[test]
fn search_then_exit_returns_with_the_cursor_at_the_top() {
    let (mut app, mut fs) = create_test_app();
    app.cursor = position(&app, "file_b.txt");
    press(&mut app, &mut fs, KeyAction::FileSearch);
    type_text(&mut app, &mut fs, "*.txt");
    press(&mut app, &mut fs, KeyAction::InputConfirm);
    assert!(app.search_results);
    press(&mut app, &mut fs, KeyAction::MoveDown);
    press(&mut app, &mut fs, KeyAction::Backspace);
    assert!(!app.search_results);
    assert_eq!(app.current_dir, "/t");
    assert_eq!(app.cursor, 0);
    assert!(app.selected_indices.is_empty());
}

#[test]
fn empty_file_opens_as_one_empty_line() {
    let (mut app, mut fs) = create_test_app();
    fs.file("/t/empty.txt", b"");
    reload(&mut app, &mut fs);
    app.cursor = position(&app, "empty.txt");
    press(&mut app, &mut fs, KeyAction::Edit);
    assert_eq!(app.mode, AppMode::Editor);
    assert_eq!(ed(&app).lines, vec![String::new()]);
}

#[test]
fn search_stops_when_full() {
    assert!(search_full(3, 3));
    assert!(!search_full(2, 3));
    assert_eq!(search_visit(3, 3, "main.rs", false, "*.rs"), None);
    assert_eq!(search_visit(2, 3, "main.rs", false, "*.rs"), Some((true, false)));
    assert_eq!(search_visit(0, 3, ".git", true, "*"), Some((false, false)));
}

#[test]
fn entries_are_named_by_their_path() {
    assert_eq!(entry_name("/t/file_a.txt"), "file_a.txt");
    assert_eq!(entry_name("/t/alpha_dir/"), "alpha_dir");
    assert_eq!(entry_name("/"), "");
    let e = FileEntry::from_parts("/t/x/한글.txt".to_string(), EntryType::File, 7, None);
    assert_eq!(e.name, "한글.txt");
    assert_eq!(e.path, "/t/x/한글.txt");
    assert_eq!(e.size, 7);
    assert!(!e.is_parent);
}
