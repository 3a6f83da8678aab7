//! The application as a state machine: a key or the result of some outside
//! work comes in, the state changes, and at most one piece of outside work
//! (reading a directory, running a file operation, reading or writing a
//! file, searching) is requested. The caller does that work and hands the
//! result back through `App::complete`.

use vstd::prelude::*;
use std::collections::HashSet;
use crate::selection::{walks, selection_list, lemma_walk_len};
use crate::event::{KeyAction, InputMode};
use crate::file_entry::{FileEntry, EntryType, rank, entry_before, stable_arrangement, sort_entries, listing_members, sorted_entries, file_name_of, parent_of, path_parent, path_file_name, listed_upto, is_parent_entry_of, same_entries, same_entry, law_stable_sort_unique, lemma_all_listed, lemma_listed_was_read};
use crate::viewer::{ViewerState, hits};
use crate::help::HELP_LINE_COUNT;
use crate::editor::{EditorState, EditView, text_of, display_width, follow_of, ed_insert_of, ed_backspace_of, ed_delete_of, ed_enter_of, ed_up_of, ed_down_of, ed_left_of, ed_right_of, ed_page_up_of, ed_page_down_of};
use crate::content::{plain_lines, joined_lines, join_lines, looks_binary, is_binary, lossy_text, decode_lossy, lines_of, split_lines};
use crate::line_edit::clip;
use crate::nav;
use crate::line_edit::{type_char_of, backspace_of, delete_of, cursor_right_of};
use crate::text::{to_chars, char_count, copy_string, append_str, push_char};
use crate::format::{push_decimal, decimal};
use crate::glob::{glob_match, glob_spec};
use crate::file_ops::{name_problem, rename_check, mkdir_check, new_file_check};

verus! {

broadcast use vstd::std_specs::hash::group_hash_axioms;

/// What a text prompt is for.
#[derive(Debug, Clone, Copy, PartialEq, Eq, Structural)]
pub enum InputPurpose {
    Copy,
    Move,
    Rename,
    Mkdir,
    NewFile,
    FileSearch,
}

/// What the screen is showing and which keys apply.
#[derive(Debug, Clone, PartialEq, Eq)]
pub enum AppMode {
    Normal,
    Input { purpose: InputPurpose, buffer: String, prompt: String, cursor_pos: usize },
    Confirm { message: String },
    Viewer,
    ViewerSearch { buffer: String, cursor_pos: usize },
    Help { scroll: usize },
    Editor,
    EditorConfirmClose,
}

/// A change to the file system that the application asks for.
#[derive(Debug)]
pub enum FileOp {
    Copy { sources: Vec<String>, dest: String },
    Move { sources: Vec<String>, dest: String },
    Rename { source: String, new_name: String },
    Mkdir { parent: String, name: String },
    NewFile { parent: String, name: String },
    Delete { targets: Vec<String> },
}

/// Outside work the application asks for.
#[derive(Debug)]
pub enum Effect {
    /// Nothing to do.
    Idle,
    /// Read all entries of a directory, hidden ones too, in the order the
    /// system gives them; they come back as `Outcome::Listing`.
    ReadDir { path: String },
    /// Check that a directory can be read; `Outcome::DirChecked`.
    CheckDir { path: String },
    /// Change the file system; `Outcome::OpDone`.
    RunFileOp(FileOp),
    /// Read a whole file; `Outcome::FileRead`.
    ReadFile { path: String },
    /// Search below a directory; `Outcome::Found`.
    SearchFiles { dir: String, pattern: String, max_results: usize },
    /// Write a file; `Outcome::Written`.
    WriteFile { path: String, content: String },
}

/// The result of outside work.
#[derive(Debug)]
pub enum Outcome {
    Listing(Result<Vec<FileEntry>, String>),
    DirChecked(Result<(), String>),
    OpDone(Result<(), String>),
    FileRead(Result<Vec<u8>, String>),
    Found(Vec<FileEntry>),
    Written(Result<(), String>),
}

/// What the application will do with the result of the work it asked for.
#[derive(Debug)]
pub enum Pending {
    Nothing,
    /// A directory listing; afterwards the cursor goes to the entry of this
    /// name, when one is given.
    Listing { focus: Option<String> },
    /// Entering a directory, once it proved readable.
    EnterDir { target: String, from_parent: bool },
    /// The file operation of a prompt.
    InputOp,
    /// Deleting the targets.
    DeleteOp,
    /// A file search for this pattern.
    FileSearch { pattern: String },
    /// Opening the viewer on a file of this name.
    OpenViewer { name: String },
    /// Opening the editor on a file.
    OpenEditor { path: String, name: String },
    /// Saving the editor's file.
    SaveEditor,
}

/// The whole state of the file manager.
pub struct App {
    pub current_dir: String,
    pub entries: Vec<FileEntry>,
    pub cursor: usize,
    pub scroll_offset: usize,
    pub columns: usize,
    pub rows_per_col: usize,
    pub terminal_width: u16,
    pub terminal_height: u16,
    pub show_hidden: bool,
    pub should_quit: bool,
    pub error_message: Option<String>,
    pub mode: AppMode,
    pub selected_indices: HashSet<usize>,
    pub viewer: Option<ViewerState>,
    pub editor: Option<EditorState>,
    pub search_results: bool,
    pub search_original_dir: Option<String>,
    pub previous_dir: Option<String>,
    pub pending: Pending,
}

impl App {
    /// The state's invariant: the text cursors stay inside their text, and
    /// the editor and the viewer are well-formed.
    pub open spec fn wf(&self) -> bool {
        &&& match self.mode {
            AppMode::Input { buffer, cursor_pos, .. } => cursor_pos <= buffer@.len(),
            AppMode::ViewerSearch { buffer, cursor_pos } => cursor_pos <= buffer@.len(),
            _ => true,
        }
        &&& self.editor matches Some(ed) ==> ed.wf()
        &&& self.viewer matches Some(v) ==> v.wf()
    }

    /// A fresh state for `path`: nothing listed yet, two columns of twenty
    /// rows on an 80x24 terminal.
    pub fn new(path: String) -> (app: App)
        ensures
            app.current_dir == path,
            app.entries@.len() == 0,
            app.cursor == 0,
            app.scroll_offset == 0,
            app.columns == 2,
            app.rows_per_col == 20,
            app.terminal_width == 80,
            app.terminal_height == 24,
            !app.show_hidden,
            !app.should_quit,
            app.error_message is None,
            app.mode == AppMode::Normal,
            app.selected_indices@.len() == 0,
            app.viewer is None,
            app.editor is None,
            !app.search_results,
            app.search_original_dir is None,
            app.previous_dir is None,
            app.pending is Nothing,
            app.wf(),
    {
        App {
            current_dir: path,
            entries: Vec::new(),
            cursor: 0,
            scroll_offset: 0,
            columns: 2,
            rows_per_col: 20,
            terminal_width: 80,
            terminal_height: 24,
            show_hidden: false,
            should_quit: false,
            error_message: None,
            mode: AppMode::Normal,
            selected_indices: HashSet::new(),
            viewer: None,
            editor: None,
            search_results: false,
            search_original_dir: None,
            previous_dir: None,
            pending: Pending::Nothing,
        }
    }

    /// Asks to list the current directory.
    pub fn load_directory(&mut self) -> (e: Effect)
        ensures
            *final(self) == (App { pending: Pending::Listing { focus: None }, ..*old(self) }),
            e matches Effect::ReadDir { path } && path@ == old(self).current_dir@,
    {
        self.pending = Pending::Listing { focus: None };
        Effect::ReadDir { path: copy_string(&self.current_dir) }
    }
}


/// `a` followed by `b`, as a new string.
pub fn concat(a: &str, b: &str) -> (r: String)
    ensures
        r@ == a@ + b@,
{
    let mut r = String::new();
    append_str(&mut r, a);
    append_str(&mut r, b);
    proof {
        assert(r@ =~= a@ + b@);
    }
    r
}

/// The position of the first entry named `name`.
pub open spec fn first_named(entries: Seq<FileEntry>, name: Seq<char>) -> Option<int> {
    if exists|i: int| 0 <= i < entries.len() && #[trigger] entries[i].name@ == name {
        Some(
            choose|i: int|
                0 <= i < entries.len() && #[trigger] entries[i].name@ == name && forall|j: int|
                    0 <= j < i ==> entries[j].name@ != name,
        )
    } else {
        None
    }
}

fn strings_equal(a: &String, b: &String) -> (r: bool)
    ensures
        r == (a@ == b@),
{
    *a == *b
}

/// Where the entry named `name` stands, if there is one.
pub fn position_of(entries: &Vec<FileEntry>, name: &String) -> (r: Option<usize>)
    ensures
        match r {
            Some(i) => first_named(entries@, name@) == Some(i as int),
            None => first_named(entries@, name@) is None,
        },
{
    let mut i: usize = 0;
    while i < entries.len()
        invariant
            i <= entries@.len(),
            forall|j: int| 0 <= j < i ==> entries@[j].name@ != name@,
        decreases entries@.len() - i,
    {
        if strings_equal(&entries[i].name, name) {
            proof {
                let c = choose|k: int|
                    0 <= k < entries@.len() && #[trigger] entries@[k].name@ == name@ && forall|j: int|
                        0 <= j < k ==> entries@[j].name@ != name@;
                assert(entries@[i as int].name@ == name@);
                if c < i {
                } else if c > i {
                    assert(entries@[i as int].name@ != name@);
                }
            }
            return Some(i);
        }
        i = i + 1;
    }
    None
}

/// The cursor after a listing when the entry named `name` should be under
/// it: that entry, or the first.
pub open spec fn cursor_on(entries: Seq<FileEntry>, name: Seq<char>) -> int {
    match first_named(entries, name) {
        Some(i) => i,
        None => 0,
    }
}

/// `m` holds the entries of a listing of `dir` read as `raw`, before sorting.
pub open spec fn members_of(dir: Seq<char>, raw: Seq<FileEntry>, show_hidden: bool, m: Seq<FileEntry>) -> bool {
    &&& path_parent(dir) is Some ==> {
        &&& m.len() >= 1
        &&& is_parent_entry_of(m[0], dir)
        &&& m.skip(1) == listed_upto(raw, show_hidden, raw.len() as int)
    }
    &&& path_parent(dir) is None ==> m == listed_upto(raw, show_hidden, raw.len() as int)
}

/// `e` is a sorted listing of `dir` read as `raw`: its members in list
/// order, those that compare equal in the order read.
pub open spec fn listing_of(dir: Seq<char>, raw: Seq<FileEntry>, show_hidden: bool, e: Seq<FileEntry>) -> bool {
    &&& sorted_entries(e)
    &&& exists|m: Seq<FileEntry>|
        members_of(dir, raw, show_hidden, m) && #[trigger] m.to_multiset() == e.to_multiset() && exists|
            perm: Seq<int>,
        | stable_arrangement(m, e, perm)
}

impl App {
    /// The cursor goes back into the list.
    pub fn clamp_cursor(&mut self)
        ensures
            *final(self) == (App {
                cursor: nav::clamp_of(old(self).cursor as int, old(self).entries@.len() as int) as usize,
                ..*old(self)
            }),
    {
        self.cursor = nav::clamp_cursor(self.cursor, self.entries.len());
    }

    /// A new terminal size: three columns from 120 characters on, two from
    /// 80, else one; three rows go to the frame and the status lines.
    pub fn update_layout(&mut self, width: u16, height: u16)
        ensures
            *final(self) == (App {
                terminal_width: width,
                terminal_height: height,
                columns: (if width >= 120 { 3usize } else if width >= 80 { 2usize } else { 1usize }),
                rows_per_col: (if height > 3 { (height - 3) as usize } else { 1usize }),
                cursor: nav::clamp_of(old(self).cursor as int, old(self).entries@.len() as int) as usize,
                ..*old(self)
            }),
    {
        self.terminal_width = width;
        self.terminal_height = height;
        self.columns = crate::text::calculate_columns(width);
        let available: usize = height.saturating_sub(3) as usize;
        self.rows_per_col = if available == 0 { 1 } else { available };
        self.clamp_cursor();
    }

    /// The key table for the current mode.
    pub fn input_mode(&self) -> (m: InputMode)
        ensures
            m == (match self.mode {
                AppMode::Normal => InputMode::Normal,
                AppMode::Input { .. } => InputMode::Input,
                AppMode::Confirm { .. } => InputMode::Confirm,
                AppMode::Viewer => InputMode::Viewer,
                AppMode::ViewerSearch { .. } => InputMode::ViewerSearch,
                AppMode::Editor => InputMode::Editor,
                AppMode::EditorConfirmClose => InputMode::EditorConfirmClose,
                AppMode::Help { .. } => InputMode::Help,
            }),
    {
        match &self.mode {
            AppMode::Normal => InputMode::Normal,
            AppMode::Input { .. } => InputMode::Input,
            AppMode::Confirm { .. } => InputMode::Confirm,
            AppMode::Viewer => InputMode::Viewer,
            AppMode::ViewerSearch { .. } => InputMode::ViewerSearch,
            AppMode::Editor => InputMode::Editor,
            AppMode::EditorConfirmClose => InputMode::EditorConfirmClose,
            AppMode::Help { .. } => InputMode::Help,
        }
    }

    /// The entry under the cursor.
    pub fn selected_entry(&self) -> (r: Option<&FileEntry>)
        ensures
            self.cursor < self.entries@.len() ==> r == Some(&self.entries@[self.cursor as int]),
            self.cursor >= self.entries@.len() ==> r is None,
    {
        if self.cursor < self.entries.len() {
            Some(&self.entries[self.cursor])
        } else {
            None
        }
    }

    /// Number of selected entries.
    pub fn selected_count(&self) -> (n: usize)
        ensures
            n == self.selected_indices@.len(),
    {
        self.selected_indices.len()
    }

    /// Number of directories in the list, the parent entry not counted.
    pub fn dir_count(&self) -> (n: usize)
        ensures
            n == count_dirs(self.entries@, self.entries@.len() as int),
    {
        let mut n: usize = 0;
        let mut i: usize = 0;
        while i < self.entries.len()
            invariant
                i <= self.entries@.len(),
                n == count_dirs(self.entries@, i as int),
                n <= i,
            decreases self.entries@.len() - i,
        {
            if self.entries[i].is_dir() && !self.entries[i].is_parent {
                n = n + 1;
            }
            i = i + 1;
        }
        n
    }

    /// Number of entries in the list that are not directories.
    pub fn file_count(&self) -> (n: usize)
        ensures
            n == count_files(self.entries@, self.entries@.len() as int),
    {
        let mut n: usize = 0;
        let mut i: usize = 0;
        while i < self.entries.len()
            invariant
                i <= self.entries@.len(),
                n == count_files(self.entries@, i as int),
                n <= i,
            decreases self.entries@.len() - i,
        {
            if !self.entries[i].is_dir() {
                n = n + 1;
            }
            i = i + 1;
        }
        n
    }
}

/// How many of the first `n` entries are directories other than the parent
/// entry.
pub open spec fn count_dirs(e: Seq<FileEntry>, n: int) -> nat
    decreases n,
{
    if n <= 0 {
        0
    } else {
        count_dirs(e, n - 1) + if e[n - 1].entry_type == EntryType::Directory && !e[n - 1].is_parent { 1nat } else { 0nat }
    }
}

/// How many of the first `n` entries are not directories.
pub open spec fn count_files(e: Seq<FileEntry>, n: int) -> nat
    decreases n,
{
    if n <= 0 {
        0
    } else {
        count_files(e, n - 1) + if e[n - 1].entry_type != EntryType::Directory { 1nat } else { 0nat }
    }
}


/// The message shown when a directory cannot be listed.
pub open spec fn list_failed_text(e: Seq<char>) -> Seq<char> {
    "디렉토리 읽기 실패: "@ + e
}

/// The cursor after listing: on the entry named `focus` if one is given;
/// else on the entry named as the directory just left, if any; else on the
/// first entry; inside the list in any case but the first.
pub open spec fn cursor_after_listing(entries: Seq<FileEntry>, previous: Option<String>, focus: Option<String>) -> int {
    match focus {
        Some(n) => cursor_on(entries, n@),
        None => nav::clamp_of(
            match previous {
                Some(p) => cursor_on(entries, p@),
                None => 0,
            },
            entries.len() as int,
        ),
    }
}

/// `new` is `old` after taking in `res`, the result of listing the current
/// directory: on success the sorted listing, no error, and the cursor as
/// `cursor_after_listing` puts it; on failure the old entries and an error.
/// Either way the cursor goes to the entry named `focus` when one is given.
pub open spec fn listing_applied(old: App, new: App, res: Result<Vec<FileEntry>, String>, focus: Option<String>) -> bool {
    &&& new == (App {
        entries: new.entries,
        cursor: new.cursor,
        error_message: new.error_message,
        previous_dir: new.previous_dir,
        pending: Pending::Nothing,
        ..old
    })
    &&& match res {
        Ok(raw) => {
            &&& listing_of(old.current_dir@, raw@, old.show_hidden, new.entries@)
            &&& new.error_message is None
            &&& new.previous_dir is None
            &&& new.cursor == cursor_after_listing(new.entries@, old.previous_dir, focus)
        },
        Err(e) => {
            &&& new.entries == old.entries
            &&& new.error_message matches Some(m) && m@ == list_failed_text(e@)
            &&& new.previous_dir == old.previous_dir
            &&& new.cursor == (match focus {
                Some(n) => cursor_on(old.entries@, n@),
                None => old.cursor as int,
            })
        },
    }
}

impl App {
    /// Takes in the result of listing the current directory.
    pub fn apply_listing(&mut self, res: Result<Vec<FileEntry>, String>, focus: Option<String>)
        ensures
            listing_applied(*old(self), *final(self), res, focus),
    {
        self.pending = Pending::Nothing;
        match res {
            Ok(raw) => {
                let mut entries = listing_members(self.current_dir.as_str(), raw, self.show_hidden);
                let ghost members = entries@;
                sort_entries(&mut entries);
                self.entries = entries;
                self.error_message = None;
                let start = match &self.previous_dir {
                    Some(prev) => match position_of(&self.entries, prev) {
                        Some(i) => i,
                        None => 0,
                    },
                    None => 0,
                };
                self.cursor = start;
                self.previous_dir = None;
                self.clamp_cursor();
                proof {
                    assert(members_of(self.current_dir@, raw@, self.show_hidden, members));
                }
            },
            Err(e) => {
                self.error_message = Some(concat("디렉토리 읽기 실패: ", e.as_str()));
            },
        }
        if let Some(name) = &focus {
            self.cursor = match position_of(&self.entries, name) {
                Some(i) => i,
                None => 0,
            };
        }
    }
}


/// The paths an operation works on: the selected entries other than the
/// parent entry, in the order `selected` lists them, or, with nothing selected, the
/// entry under the cursor unless it is the parent entry.
pub open spec fn targets_of(entries: Seq<FileEntry>, selected: Seq<usize>, cursor: int) -> Seq<Seq<char>> {
    if selected.len() == 0 {
        if 0 <= cursor < entries.len() && !entries[cursor].is_parent {
            seq![entries[cursor].path@]
        } else {
            Seq::empty()
        }
    } else {
        selected_paths(entries, selected, selected.len() as int)
    }
}

/// Paths of the entries at the first `n` selected positions that exist and
/// are not the parent entry.
pub open spec fn selected_paths(entries: Seq<FileEntry>, selected: Seq<usize>, n: int) -> Seq<Seq<char>>
    decreases n,
{
    if n <= 0 {
        Seq::empty()
    } else {
        let i = selected[n - 1] as int;
        if i < entries.len() && !entries[i].is_parent {
            selected_paths(entries, selected, n - 1).push(entries[i].path@)
        } else {
            selected_paths(entries, selected, n - 1)
        }
    }
}

/// How many entries an operation would work on: the number selected, or,
/// with nothing selected, one for an entry under the cursor other than the
/// parent entry.
pub open spec fn target_count_of(entries: Seq<FileEntry>, selected: Set<usize>, cursor: int) -> int {
    if selected.len() == 0 {
        if 0 <= cursor < entries.len() && !entries[cursor].is_parent { 1 } else { 0 }
    } else {
        selected.len() as int
    }
}

/// Names of the entries to delete, as the confirmation lists them: the
/// entries at the selected positions, or the one under the cursor.
pub open spec fn delete_names_of(entries: Seq<FileEntry>, selected: Seq<usize>, cursor: int) -> Seq<Seq<char>> {
    if selected.len() == 0 {
        if 0 <= cursor < entries.len() {
            seq![entries[cursor].name@]
        } else {
            Seq::empty()
        }
    } else {
        selected_names(entries, selected, selected.len() as int)
    }
}

/// `t` are the paths an operation works on, the selected positions taken
/// in some order the selection can be walked in.
pub open spec fn targets_in_walk(entries: Seq<FileEntry>, sel: Set<usize>, cursor: int, t: Seq<Seq<char>>) -> bool {
    exists|w: Seq<usize>| walks(sel, w) && t == targets_of(entries, w, cursor)
}

/// `names` are the names the delete confirmation lists, the selected
/// positions taken in some order the selection can be walked in.
pub open spec fn delete_names_in_walk(entries: Seq<FileEntry>, sel: Set<usize>, cursor: int, names: Seq<Seq<char>>) -> bool {
    exists|w: Seq<usize>| walks(sel, w) && names == delete_names_of(entries, w, cursor)
}

/// Names of the entries at the first `n` selected positions that exist.
pub open spec fn selected_names(entries: Seq<FileEntry>, selected: Seq<usize>, n: int) -> Seq<Seq<char>>
    decreases n,
{
    if n <= 0 {
        Seq::empty()
    } else {
        let i = selected[n - 1] as int;
        if i < entries.len() {
            selected_names(entries, selected, n - 1).push(entries[i].name@)
        } else {
            selected_names(entries, selected, n - 1)
        }
    }
}

/// The names joined with `, `.
pub open spec fn joined_names(names: Seq<Seq<char>>) -> Seq<char>
    decreases names.len(),
{
    if names.len() == 0 {
        Seq::empty()
    } else if names.len() == 1 {
        names[0]
    } else {
        joined_names(names.drop_last()) + ", "@ + names.last()
    }
}

/// How the confirmation shows the names: all of them up to three, else the
/// first and how many more.
pub open spec fn names_display(names: Seq<Seq<char>>) -> Seq<char> {
    if names.len() <= 3 {
        joined_names(names)
    } else {
        names[0] + " 외 "@ + decimal((names.len() - 1) as nat) + "개"@
    }
}

/// The delete confirmation's question.
pub open spec fn delete_question(names: Seq<Seq<char>>) -> Seq<char> {
    "삭제하시겠습니까? ["@ + names_display(names) + "] (Y/N)"@
}

/// The prompt of a copy or move, for `n` entries.
pub open spec fn transfer_prompt(is_copy: bool, n: nat) -> Seq<char> {
    (if is_copy { "복사 대상 경로 ("@ } else { "이동 대상 경로 ("@ }) + decimal(n) + "개 파일):"@
}

impl App {
    /// Paths of the entries an operation works on.
    pub fn target_paths(&self) -> (r: Vec<String>)
        ensures
            targets_in_walk(self.entries@, self.selected_indices@, self.cursor as int, r@.map_values(|s: String| s@)),
    {
        let list = selection_list(&self.selected_indices);
        proof {
            lemma_walk_len(self.selected_indices@, list@);
        }
        let mut r: Vec<String> = Vec::new();
        if list.len() == 0 {
            if self.cursor < self.entries.len() && !self.entries[self.cursor].is_parent {
                r.push(copy_string(&self.entries[self.cursor].path));
                proof {
                    assert(r@.map_values(|s: String| s@) =~= seq![self.entries@[self.cursor as int].path@]);
                }
            } else {
                proof {
                    assert(r@.map_values(|s: String| s@) =~= Seq::<Seq<char>>::empty());
                }
            }
            proof {
                assert(r@.map_values(|s: String| s@) == targets_of(self.entries@, list@, self.cursor as int));
            }
            return r;
        }
        let mut k: usize = 0;
        proof {
            assert(r@.map_values(|s: String| s@) =~= Seq::<Seq<char>>::empty());
        }
        while k < list.len()
            invariant
                k <= list@.len(),
                r@.map_values(|s: String| s@) == selected_paths(self.entries@, list@, k as int),
            decreases list@.len() - k,
        {
            let idx = list[k];
            if idx < self.entries.len() && !self.entries[idx].is_parent {
                let ghost before = r@;
                r.push(copy_string(&self.entries[idx].path));
                proof {
                    assert(r@.map_values(|s: String| s@) =~= before.map_values(|s: String| s@).push(
                        self.entries@[idx as int].path@,
                    ));
                }
            }
            k = k + 1;
        }
        proof {
            assert(r@.map_values(|s: String| s@) == targets_of(self.entries@, list@, self.cursor as int));
        }
        r
    }

    /// How many entries an operation would work on.
    pub fn target_count(&self) -> (n: usize)
        ensures
            n == target_count_of(self.entries@, self.selected_indices@, self.cursor as int),
    {
        if self.selected_indices.len() == 0 {
            if self.cursor < self.entries.len() && !self.entries[self.cursor].is_parent {
                return 1;
            }
            0
        } else {
            self.selected_indices.len()
        }
    }

    fn delete_names(&self) -> (r: Vec<String>)
        ensures
            delete_names_in_walk(self.entries@, self.selected_indices@, self.cursor as int, r@.map_values(|s: String| s@)),
    {
        let list = selection_list(&self.selected_indices);
        proof {
            lemma_walk_len(self.selected_indices@, list@);
        }
        let mut r: Vec<String> = Vec::new();
        proof {
            assert(r@.map_values(|s: String| s@) =~= Seq::<Seq<char>>::empty());
        }
        if list.len() == 0 {
            if self.cursor < self.entries.len() {
                r.push(copy_string(&self.entries[self.cursor].name));
                proof {
                    assert(r@.map_values(|s: String| s@) =~= seq![self.entries@[self.cursor as int].name@]);
                }
            }
            proof {
                assert(r@.map_values(|s: String| s@) == delete_names_of(self.entries@, list@, self.cursor as int));
            }
            return r;
        }
        let mut k: usize = 0;
        while k < list.len()
            invariant
                k <= list@.len(),
                r@.map_values(|s: String| s@) == selected_names(self.entries@, list@, k as int),
            decreases list@.len() - k,
        {
            let idx = list[k];
            if idx < self.entries.len() {
                let ghost before = r@;
                r.push(copy_string(&self.entries[idx].name));
                proof {
                    assert(r@.map_values(|s: String| s@) =~= before.map_values(|s: String| s@).push(
                        self.entries@[idx as int].name@,
                    ));
                }
            }
            k = k + 1;
        }
        proof {
            assert(r@.map_values(|s: String| s@) == delete_names_of(self.entries@, list@, self.cursor as int));
        }
        r
    }
}

/// Writes the names as the delete confirmation shows them.
pub fn display_names(names: &Vec<String>) -> (r: String)
    ensures
        r@ == names_display(names@.map_values(|s: String| s@)),
{
    let ghost t = names@.map_values(|s: String| s@);
    let mut r = String::new();
    if names.len() <= 3 {
        let mut i: usize = 0;
        proof {
            assert(t.take(0) =~= Seq::<Seq<char>>::empty());
        }
        while i < names.len()
            invariant
                t == names@.map_values(|s: String| s@),
                i <= names@.len(),
                r@ == joined_names(t.take(i as int)),
            decreases names@.len() - i,
        {
            if i > 0 {
                append_str(&mut r, ", ");
            }
            append_str(&mut r, names[i].as_str());
            proof {
                assert(t.take(i + 1).drop_last() =~= t.take(i as int));
                if i == 0 {
                    assert(r@ =~= t.take(1)[0]);
                }
            }
            i = i + 1;
        }
        proof {
            assert(t.take(names@.len() as int) =~= t);
        }
    } else {
        append_str(&mut r, names[0].as_str());
        append_str(&mut r, " 외 ");
        push_decimal(&mut r, (names.len() - 1) as u128);
        append_str(&mut r, "개");
        proof {
            assert(r@ =~= names_display(t));
        }
    }
    r
}


/// Files larger than this are not opened in the viewer or the editor.
pub const MAX_OPEN_SIZE: u64 = 10485760;

/// `s` as a string.
fn string_of(s: &str) -> (r: String)
    ensures
        r@ == s@,
{
    let mut r = String::new();
    append_str(&mut r, s);
    r
}

impl App {
    /// Up arrow in the list.
    pub fn move_up(&mut self)
        ensures
            *final(self) == (App { cursor: nav::up_of(old(self).cursor as int) as usize, ..*old(self) }),
    {
        self.cursor = nav::step_up(self.cursor);
    }

    /// Down arrow in the list.
    pub fn move_down(&mut self)
        ensures
            *final(self) == (App {
                cursor: nav::down_of(old(self).cursor as int, old(self).entries@.len() as int) as usize,
                ..*old(self)
            }),
    {
        self.cursor = nav::step_down(self.cursor, self.entries.len());
    }

    /// Left arrow: one column back.
    pub fn move_left(&mut self)
        ensures
            *final(self) == (App {
                cursor: nav::left_of(old(self).cursor as int, old(self).rows_per_col as int) as usize,
                ..*old(self)
            }),
    {
        self.cursor = nav::column_left(self.cursor, self.rows_per_col);
    }

    /// Right arrow: one column on.
    pub fn move_right(&mut self)
        ensures
            *final(self) == (App {
                cursor: nav::right_of(
                    old(self).cursor as int,
                    old(self).rows_per_col as int,
                    old(self).entries@.len() as int,
                ) as usize,
                ..*old(self)
            }),
    {
        self.cursor = nav::column_right(self.cursor, self.rows_per_col, self.entries.len());
    }

    /// Home: the first entry.
    pub fn move_home(&mut self)
        ensures
            *final(self) == (App { cursor: 0, ..*old(self) }),
    {
        self.cursor = 0;
    }

    /// End: the last entry.
    pub fn move_end(&mut self)
        ensures
            *final(self) == (App {
                cursor: nav::last_of(old(self).cursor as int, old(self).entries@.len() as int) as usize,
                ..*old(self)
            }),
    {
        self.cursor = nav::last_position(self.cursor, self.entries.len());
    }

    /// Page Up.
    pub fn page_up(&mut self)
        ensures
            *final(self) == (App {
                cursor: nav::page_back_of(old(self).cursor as int, old(self).rows_per_col as int) as usize,
                ..*old(self)
            }),
    {
        self.cursor = nav::page_back(self.cursor, self.rows_per_col);
    }

    /// Page Down.
    pub fn page_down(&mut self)
        ensures
            *final(self) == (App {
                cursor: nav::page_forward_of(
                    old(self).cursor as int,
                    old(self).rows_per_col as int,
                    old(self).entries@.len() as int,
                ) as usize,
                ..*old(self)
            }),
    {
        self.cursor = nav::page_forward(self.cursor, self.rows_per_col, self.entries.len());
    }

    /// Space: selects or deselects the entry under the cursor and moves
    /// down; the parent entry cannot be selected.
    pub fn toggle_select(&mut self)
        ensures
            select_post(*old(self), *final(self)),
    {
        if self.cursor < self.entries.len() && self.entries[self.cursor].is_parent {
            return;
        }
        let cur = self.cursor;
        if self.selected_indices.contains(&cur) {
            self.selected_indices.remove(&cur);
        } else {
            self.selected_indices.insert(cur);
        }
        self.move_down();
    }
}


/// What Space does: nothing on the parent entry; else the entry under the
/// cursor leaves the selection if it was in it and joins it if not, and the
/// cursor moves down.
pub open spec fn select_post(old: App, new: App) -> bool {
    let c = old.cursor;
    if c < old.entries@.len() && old.entries@[c as int].is_parent {
        new == old
    } else {
        &&& new == (App {
            selected_indices: new.selected_indices,
            cursor: nav::down_of(c as int, old.entries@.len() as int) as usize,
            ..old
        })
        &&& new.selected_indices@ == (if old.selected_indices@.contains(c) {
            old.selected_indices@.remove(c)
        } else {
            old.selected_indices@.insert(c)
        })
    }
}

/// The prompt state for `purpose` with an empty field.
pub open spec fn empty_prompt(mode: AppMode, purpose: InputPurpose, prompt: Seq<char>) -> bool {
    mode matches AppMode::Input { purpose: p, buffer, prompt: pr, cursor_pos }
        && p == purpose && buffer@.len() == 0 && pr@ == prompt && cursor_pos == 0
}

/// `new` is `old` with the error message set to `m`.
pub open spec fn with_error(old: App, new: App, m: Seq<char>) -> bool {
    &&& new == (App { error_message: new.error_message, ..old })
    &&& new.error_message matches Some(x) && x@ == m
}

/// What C (`is_copy`) and M do: with nothing to work on, an error; else a
/// prompt for the destination, the current directory filled in and the
/// cursor at its end.
pub open spec fn transfer_post(old: App, new: App, is_copy: bool) -> bool {
    let n = target_count_of(old.entries@, old.selected_indices@, old.cursor as int);
    if n == 0 {
        with_error(old, new, if is_copy { "복사할 파일이 없습니다"@ } else { "이동할 파일이 없습니다"@ })
    } else {
        &&& new == (App { mode: new.mode, ..old })
        &&& new.mode matches AppMode::Input { purpose, buffer, prompt, cursor_pos }
            && purpose == (if is_copy { InputPurpose::Copy } else { InputPurpose::Move })
            && buffer@ == old.current_dir@
            && prompt@ == transfer_prompt(is_copy, n as nat)
            && cursor_pos == old.current_dir@.len()
    }
}

/// What D does: with nothing to delete, an error; else the question naming
/// what would go.
pub open spec fn delete_prompt_post(old: App, new: App) -> bool {
    if target_count_of(old.entries@, old.selected_indices@, old.cursor as int) == 0 {
        with_error(old, new, "삭제할 파일이 없습니다"@)
    } else {
        &&& new == (App { mode: new.mode, ..old })
        &&& new.mode matches AppMode::Confirm { message } && exists|names: Seq<Seq<char>>|
            delete_names_in_walk(old.entries@, old.selected_indices@, old.cursor as int, names)
                && message@ == delete_question(names)
    }
}

/// What R does: nothing without an entry under the cursor, an error on the
/// parent entry, else a prompt holding the entry's name with the cursor at
/// its end.
pub open spec fn rename_prompt_post(old: App, new: App) -> bool {
    let c = old.cursor as int;
    if c >= old.entries@.len() {
        new == old
    } else if old.entries@[c].is_parent {
        with_error(old, new, "'..'은 이름 변경할 수 없습니다"@)
    } else {
        let name = old.entries@[c].name@;
        &&& new == (App { mode: new.mode, ..old })
        &&& new.mode matches AppMode::Input { purpose, buffer, prompt, cursor_pos }
            && purpose == InputPurpose::Rename && buffer@ == name
            && prompt@ == "새 이름 ("@ + name + "→):"@ && cursor_pos == name.len()
    }
}

/// `new` is `old` with an empty prompt for `purpose` open.
pub open spec fn prompt_opened(old: App, new: App, purpose: InputPurpose, prompt: Seq<char>) -> bool {
    &&& new == (App { mode: new.mode, ..old })
    &&& empty_prompt(new.mode, purpose, prompt)
}

impl App {
    /// C: asks where to copy to.
    pub fn start_copy(&mut self)
        ensures
            transfer_post(*old(self), *final(self), true),
    {
        self.start_transfer(true);
    }

    /// M: asks where to move to.
    pub fn start_move(&mut self)
        ensures
            transfer_post(*old(self), *final(self), false),
    {
        self.start_transfer(false);
    }

    /// C and M: asks for the destination, the current directory filled in;
    /// with nothing to copy or move, says so instead.
    fn start_transfer(&mut self, is_copy: bool)
        ensures
            transfer_post(*old(self), *final(self), is_copy),
    {
        let count = self.target_count();
        if count == 0 {
            self.error_message = Some(string_of(if is_copy {
                "복사할 파일이 없습니다"
            } else {
                "이동할 파일이 없습니다"
            }));
            return;
        }
        let buffer = copy_string(&self.current_dir);
        let len = char_count(buffer.as_str());
        let mut prompt = string_of(if is_copy { "복사 대상 경로 (" } else { "이동 대상 경로 (" });
        push_decimal(&mut prompt, count as u128);
        append_str(&mut prompt, "개 파일):");
        proof {
            assert(prompt@ =~= transfer_prompt(is_copy, count as nat));
        }
        self.mode = AppMode::Input {
            purpose: if is_copy { InputPurpose::Copy } else { InputPurpose::Move },
            buffer,
            prompt,
            cursor_pos: len,
        };
    }

    /// D: asks for confirmation, naming what would go; with nothing to
    /// delete, says so instead.
    pub fn start_delete(&mut self)
        ensures
            delete_prompt_post(*old(self), *final(self)),
    {
        let count = self.target_count();
        if count == 0 {
            self.error_message = Some(string_of("삭제할 파일이 없습니다"));
            return;
        }
        let names = self.delete_names();
        let display = display_names(&names);
        let mut message = string_of("삭제하시겠습니까? [");
        append_str(&mut message, display.as_str());
        append_str(&mut message, "] (Y/N)");
        proof {
            assert(message@ =~= delete_question(names@.map_values(|s: String| s@)));
        }
        self.mode = AppMode::Confirm { message };
    }

    /// R: asks for the new name of the entry under the cursor, its name
    /// filled in; the parent entry cannot be renamed.
    pub fn start_rename(&mut self)
        ensures
            rename_prompt_post(*old(self), *final(self)),
    {
        if self.cursor >= self.entries.len() {
            return;
        }
        if self.entries[self.cursor].is_parent {
            self.error_message = Some(string_of("'..'은 이름 변경할 수 없습니다"));
            return;
        }
        let name = copy_string(&self.entries[self.cursor].name);
        let len = char_count(name.as_str());
        let mut prompt = string_of("새 이름 (");
        append_str(&mut prompt, name.as_str());
        append_str(&mut prompt, "→):");
        proof {
            assert(prompt@ =~= "새 이름 ("@ + name@ + "→):"@);
        }
        self.mode = AppMode::Input { purpose: InputPurpose::Rename, buffer: name, prompt, cursor_pos: len };
    }

    /// Opens an empty prompt.
    fn open_prompt(&mut self, purpose: InputPurpose, prompt: &str)
        ensures
            *final(self) == (App { mode: final(self).mode, ..*old(self) }),
            empty_prompt(final(self).mode, purpose, prompt@),
    {
        self.mode = AppMode::Input {
            purpose,
            buffer: String::new(),
            prompt: string_of(prompt),
            cursor_pos: 0,
        };
    }

    /// K: asks for the name of a new directory.
    pub fn start_mkdir(&mut self)
        ensures
            prompt_opened(*old(self), *final(self), InputPurpose::Mkdir, "새 디렉토리명:"@),
    {
        self.open_prompt(InputPurpose::Mkdir, "새 디렉토리명:");
    }

    /// N: asks for the name of a new file.
    pub fn start_new_file(&mut self)
        ensures
            prompt_opened(*old(self), *final(self), InputPurpose::NewFile, "새 파일명:"@),
    {
        self.open_prompt(InputPurpose::NewFile, "새 파일명:");
    }

    /// F: asks for a search pattern.
    pub fn start_file_search(&mut self)
        ensures
            prompt_opened(*old(self), *final(self), InputPurpose::FileSearch, "검색 패턴:"@),
    {
        self.open_prompt(InputPurpose::FileSearch, "검색 패턴:");
    }

    /// ?: the help screen, from the top.
    pub fn open_help(&mut self)
        ensures
            *final(self) == (App { mode: AppMode::Help { scroll: 0 }, ..*old(self) }),
    {
        self.mode = AppMode::Help { scroll: 0 };
    }
}


/// The name of the directory `dir` as the list names it: its last path
/// component, or the empty name.
pub open spec fn dir_name_of(dir: Seq<char>) -> Seq<char> {
    match path_file_name(dir) {
        Some(n) => n,
        None => Seq::empty(),
    }
}

/// `e` asks to read the entries of `dir`.
pub open spec fn reads_dir(e: Effect, dir: Seq<char>) -> bool {
    e matches Effect::ReadDir { path } && path@ == dir
}

/// What Backspace does outside search results: nothing at the root; else
/// to the parent directory, selection cleared, cursor and scroll at the
/// top, the name of the directory left kept to put the cursor on.
pub open spec fn go_parent_post(old: App, new: App, e: Effect) -> bool {
    match path_parent(old.current_dir@) {
        None => new == old && e is Idle,
        Some(p) => {
            &&& new == (App {
                previous_dir: new.previous_dir,
                current_dir: new.current_dir,
                cursor: 0,
                scroll_offset: 0,
                selected_indices: new.selected_indices,
                pending: Pending::Listing { focus: None },
                ..old
            })
            &&& new.previous_dir matches Some(d) && d@ == dir_name_of(old.current_dir@)
            &&& new.current_dir@ == p
            &&& new.selected_indices@.len() == 0
            &&& reads_dir(e, p)
        },
    }
}

/// What Enter does: on search results, `enter_result_post`; on a directory
/// or the parent entry, asks whether it can be read; else nothing.
pub open spec fn enter_post(old: App, new: App, e: Effect) -> bool {
    let c = old.cursor as int;
    if old.search_results {
        enter_result_post(old, new, e)
    } else if c < old.entries@.len() && (old.entries@[c].entry_type == EntryType::Directory
        || old.entries@[c].is_parent) {
        let entry = old.entries@[c];
        &&& new == (App { pending: new.pending, ..old })
        &&& new.pending matches Pending::EnterDir { target, from_parent }
            && target@ == entry.path@ && from_parent == entry.is_parent
        &&& e matches Effect::CheckDir { path } && path@ == entry.path@
    } else {
        new == old && e is Idle
    }
}

/// What H does: hidden entries flip, the selection is cleared and the
/// directory is listed again, the cursor to go back to the name under it.
pub open spec fn toggle_hidden_post(old: App, new: App, e: Effect) -> bool {
    &&& new == (App {
        show_hidden: !old.show_hidden,
        selected_indices: new.selected_indices,
        pending: new.pending,
        ..old
    })
    &&& new.selected_indices@.len() == 0
    &&& new.pending matches Pending::Listing { focus } && (if old.cursor < old.entries@.len() {
        focus matches Some(n) && n@ == old.entries@[old.cursor as int].name@
    } else {
        focus is None
    })
    &&& reads_dir(e, old.current_dir@)
}

/// What V does: nothing unless a file is under the cursor; an error for a
/// file over the size limit; else asks to read the file.
pub open spec fn open_viewer_post(old: App, new: App, e: Effect) -> bool {
    let c = old.cursor as int;
    let es = old.entries@;
    if c >= es.len() || es[c].entry_type == EntryType::Directory || es[c].is_parent {
        new == old && e is Idle
    } else if es[c].size > MAX_OPEN_SIZE {
        with_error(old, new, "파일이 너무 큽니다 (10MB 초과)"@) && e is Idle
    } else {
        &&& new == (App { pending: new.pending, ..old })
        &&& new.pending matches Pending::OpenViewer { name } && name@ == es[c].name@
        &&& e matches Effect::ReadFile { path } && path@ == es[c].path@
    }
}

/// What E does: nothing without an entry; an error on a directory or the
/// parent entry, or a file over the size limit; else asks to read the file.
pub open spec fn open_editor_post(old: App, new: App, e: Effect) -> bool {
    let c = old.cursor as int;
    let es = old.entries@;
    if c >= es.len() {
        new == old && e is Idle
    } else if es[c].entry_type == EntryType::Directory || es[c].is_parent {
        with_error(old, new, "디렉토리는 편집할 수 없습니다"@) && e is Idle
    } else if es[c].size > MAX_OPEN_SIZE {
        with_error(old, new, "파일이 너무 큽니다 (10MB 초과)"@) && e is Idle
    } else {
        &&& new == (App { pending: new.pending, ..old })
        &&& new.pending matches Pending::OpenEditor { path, name }
            && path@ == es[c].path@ && name@ == es[c].name@
        &&& e matches Effect::ReadFile { path } && path@ == es[c].path@
    }
}

/// What Backspace does on search results: back to the directory searched
/// from, selection cleared, listed again.
pub open spec fn exit_search_post(old: App, new: App, e: Effect) -> bool {
    if !old.search_results {
        new == old && e is Idle
    } else {
        &&& new == (App {
            current_dir: new.current_dir,
            search_original_dir: None,
            search_results: false,
            selected_indices: new.selected_indices,
            pending: Pending::Listing { focus: None },
            ..old
        })
        &&& new.current_dir@ == (match old.search_original_dir {
            Some(d) => d@,
            None => old.current_dir@,
        })
        &&& new.selected_indices@.len() == 0
        &&& reads_dir(e, new.current_dir@)
    }
}

impl App {
    fn clear_selection(&mut self)
        ensures
            *final(self) == (App { selected_indices: final(self).selected_indices, ..*old(self) }),
            final(self).selected_indices@.len() == 0,
    {
        self.selected_indices = HashSet::new();
    }

    fn dir_name(&self) -> (r: String)
        ensures
            r@ == dir_name_of(self.current_dir@),
    {
        match file_name_of(self.current_dir.as_str()) {
            Some(n) => n,
            None => String::new(),
        }
    }

    /// Backspace outside search results: to the parent directory, to be
    /// listed with the cursor on the directory left.
    pub fn go_parent(&mut self) -> (e: Effect)
        ensures
            go_parent_post(*old(self), *final(self), e),
    {
        match parent_of(self.current_dir.as_str()) {
            Some(parent) => {
                self.previous_dir = Some(self.dir_name());
                self.current_dir = parent;
                self.cursor = 0;
                self.scroll_offset = 0;
                self.clear_selection();
                self.load_directory()
            },
            None => Effect::Idle,
        }
    }

    /// Enter on a directory or the parent entry: asks whether it can be
    /// read before going there. On search results, goes to the result.
    pub fn enter(&mut self) -> (e: Effect)
        ensures
            enter_post(*old(self), *final(self), e),
    {
        if self.search_results {
            return self.enter_search_result();
        }
        if self.cursor < self.entries.len() {
            let is_parent = self.entries[self.cursor].is_parent;
            if self.entries[self.cursor].is_dir() || is_parent {
                let target = copy_string(&self.entries[self.cursor].path);
                let path = copy_string(&self.entries[self.cursor].path);
                self.pending = Pending::EnterDir { target, from_parent: is_parent };
                return Effect::CheckDir { path };
            }
        }
        Effect::Idle
    }

    /// H: shows or hides hidden entries and lists again, keeping the cursor
    /// on the same name if it is still listed.
    pub fn toggle_hidden(&mut self) -> (e: Effect)
        ensures
            toggle_hidden_post(*old(self), *final(self), e),
    {
        self.show_hidden = !self.show_hidden;
        let current_name = if self.cursor < self.entries.len() {
            Some(copy_string(&self.entries[self.cursor].name))
        } else {
            None
        };
        self.clear_selection();
        self.pending = Pending::Listing { focus: current_name };
        Effect::ReadDir { path: copy_string(&self.current_dir) }
    }

    /// V: asks to read the file under the cursor for the viewer.
    /// Directories are ignored; files over 10 MB are refused.
    pub fn open_viewer(&mut self) -> (e: Effect)
        ensures
            open_viewer_post(*old(self), *final(self), e),
    {
        if self.cursor >= self.entries.len() {
            return Effect::Idle;
        }
        let c = self.cursor;
        if self.entries[c].is_dir() || self.entries[c].is_parent {
            return Effect::Idle;
        }
        if self.entries[c].size > MAX_OPEN_SIZE {
            self.error_message = Some(string_of("파일이 너무 큽니다 (10MB 초과)"));
            return Effect::Idle;
        }
        self.pending = Pending::OpenViewer { name: copy_string(&self.entries[c].name) };
        Effect::ReadFile { path: copy_string(&self.entries[c].path) }
    }

    /// E: asks to read the file under the cursor for the editor.
    /// Directories and files over 10 MB are refused.
    pub fn open_editor(&mut self) -> (e: Effect)
        ensures
            open_editor_post(*old(self), *final(self), e),
    {
        if self.cursor >= self.entries.len() {
            return Effect::Idle;
        }
        let c = self.cursor;
        if self.entries[c].is_dir() || self.entries[c].is_parent {
            self.error_message = Some(string_of("디렉토리는 편집할 수 없습니다"));
            return Effect::Idle;
        }
        if self.entries[c].size > MAX_OPEN_SIZE {
            self.error_message = Some(string_of("파일이 너무 큽니다 (10MB 초과)"));
            return Effect::Idle;
        }
        self.pending = Pending::OpenEditor {
            path: copy_string(&self.entries[c].path),
            name: copy_string(&self.entries[c].name),
        };
        Effect::ReadFile { path: copy_string(&self.entries[c].path) }
    }

    /// Backspace on search results: back to the directory searched from.
    pub fn exit_search_results(&mut self) -> (e: Effect)
        ensures
            exit_search_post(*old(self), *final(self), e),
    {
        if !self.search_results {
            return Effect::Idle;
        }
        let orig = self.search_original_dir.take();
        if let Some(dir) = orig {
            self.current_dir = dir;
        }
        self.search_results = false;
        self.clear_selection();
        self.load_directory()
    }

    /// Enter on search results: to the directory of the result, to be listed
    /// with the cursor on it.
    pub fn enter_search_result(&mut self) -> (e: Effect)
        ensures
            enter_result_post(*old(self), *final(self), e),
    {
        if !self.search_results {
            return Effect::Idle;
        }
        if self.cursor >= self.entries.len() {
            return Effect::Idle;
        }
        match parent_of(self.entries[self.cursor].path.as_str()) {
            Some(parent) => {
                let target_name = copy_string(&self.entries[self.cursor].name);
                self.current_dir = parent;
                self.search_results = false;
                self.search_original_dir = None;
                self.clear_selection();
                self.pending = Pending::Listing { focus: Some(target_name) };
                Effect::ReadDir { path: copy_string(&self.current_dir) }
            },
            None => Effect::Idle,
        }
    }
}

/// What Enter does on search results: with a result under the cursor whose
/// path has a parent, to that directory, to be listed with the cursor on
/// the result; else nothing.
pub open spec fn enter_result_post(old: App, new: App, e: Effect) -> bool {
    let c = old.cursor as int;
    if !old.search_results || c >= old.entries@.len() || path_parent(old.entries@[c].path@) is None {
        new == old && e is Idle
    } else {
        &&& new == (App {
            current_dir: new.current_dir,
            search_results: false,
            search_original_dir: None,
            selected_indices: new.selected_indices,
            pending: new.pending,
            ..old
        })
        &&& new.current_dir@ == path_parent(old.entries@[c].path@)->0
        &&& new.selected_indices@.len() == 0
        &&& new.pending matches Pending::Listing { focus } && focus matches Some(n) && n@ == old.entries@[c].name@
        &&& reads_dir(e, new.current_dir@)
    }
}


/// The prompt after `a`, for the prompt with text `b` and cursor `c`: the
/// new text and cursor, or `None` when `a` leaves the prompt or is not a
/// prompt key.
pub open spec fn prompt_edit_of(b: Seq<char>, c: int, a: KeyAction) -> Option<(Seq<char>, int)> {
    match a {
        KeyAction::InputChar(ch) => Some(type_char_of(b, c, ch)),
        KeyAction::InputBackspace => Some(backspace_of(b, c)),
        KeyAction::InputDelete => Some((delete_of(b, c), c)),
        KeyAction::InputCursorLeft => Some((b, if c > 0 { c - 1 } else { c })),
        KeyAction::InputCursorRight => Some((b, cursor_right_of(b, c))),
        KeyAction::InputCursorHome => Some((b, 0)),
        KeyAction::InputCursorEnd => Some((b, b.len() as int)),
        _ => None,
    }
}

/// `new` is `old` with the prompt edited to text `b` and cursor `c`,
/// purpose and prompt text kept.
pub open spec fn prompt_edited(old: App, new: App, b: Seq<char>, c: int) -> bool {
    &&& new == (App { mode: new.mode, ..old })
    &&& old.mode matches AppMode::Input { purpose, prompt, .. }
    &&& new.mode matches AppMode::Input { purpose: p2, buffer: b2, prompt: pr2, cursor_pos: c2 }
    &&& p2 == purpose && pr2 == prompt && b2@ == b && c2 == c
}

/// `new` is `old` after the prompt editing key `a`.
pub open spec fn prompt_step(old: App, new: App, a: KeyAction) -> bool {
    &&& old.mode matches AppMode::Input { buffer, cursor_pos, .. }
        && prompt_edit_of(buffer@, cursor_pos as int, a) matches Some(r)
        && prompt_edited(old, new, r.0, r.1)
}

impl App {
    /// Editing keys in a prompt.
    fn edit_prompt(&mut self, action: KeyAction)
        requires
            old(self).wf(),
            old(self).mode is Input,
            prompt_edit_of(old(self).mode->Input_buffer@, old(self).mode->Input_cursor_pos as int, action) is Some,
        ensures
            prompt_step(*old(self), *final(self), action),
            final(self).wf(),
    {
        let mut m = AppMode::Normal;
        std::mem::swap(&mut m, &mut self.mode);
        match m {
            AppMode::Input { purpose, buffer, prompt, cursor_pos } => {
                let (b, c) = match action {
                    KeyAction::InputChar(ch) => crate::line_edit::type_char(&buffer, cursor_pos, ch),
                    KeyAction::InputBackspace => crate::line_edit::backspace(&buffer, cursor_pos),
                    KeyAction::InputDelete => (crate::line_edit::delete_at(&buffer, cursor_pos), cursor_pos),
                    KeyAction::InputCursorLeft => (buffer, if cursor_pos > 0 { cursor_pos - 1 } else { cursor_pos }),
                    KeyAction::InputCursorRight => {
                        let c = crate::line_edit::cursor_right(&buffer, cursor_pos);
                        (buffer, c)
                    },
                    KeyAction::InputCursorHome => (buffer, 0),
                    _ => {
                        let n = char_count(buffer.as_str());
                        (buffer, n)
                    },
                };
                proof {
                    crate::line_edit::law_cursor_stays_in_text(old(self).mode->Input_buffer@, cursor_pos as int, 'a');
                }
                self.mode = AppMode::Input { purpose, buffer: b, prompt, cursor_pos: c };
            },
            _ => {},
        }
    }
}


/// Most results a file search gathers.
pub const MAX_SEARCH_RESULTS: usize = 1000;

/// `op` copies (`is_copy`) or moves the entries at `sources` into `dest`.
pub open spec fn transfer_op(
    op: FileOp,
    is_copy: bool,
    entries: Seq<FileEntry>,
    sel: Set<usize>,
    cursor: int,
    dest: Seq<char>,
) -> bool {
    if is_copy {
        op matches FileOp::Copy { sources: s, dest: d } && targets_in_walk(
            entries,
            sel,
            cursor,
            s@.map_values(|x: String| x@),
        ) && d@ == dest
    } else {
        op matches FileOp::Move { sources: s, dest: d } && targets_in_walk(
            entries,
            sel,
            cursor,
            s@.map_values(|x: String| x@),
        ) && d@ == dest
    }
}

/// `new` is `old` back in the list, waiting for the file operation asked.
pub open spec fn op_requested(old: App, new: App) -> bool {
    new == (App { mode: AppMode::Normal, pending: Pending::InputOp, ..old })
}

/// What Enter does in a prompt: back to the list, and the prompt's work is
/// asked for: a search of the current directory, or a file operation on
/// the targets, the entry under the cursor or the current directory. An
/// empty search pattern, a rename without an entry, and a name that an
/// entry cannot have are reported instead.
pub open spec fn submit_post(old: App, new: App, e: Effect) -> bool {
    let back = App { mode: AppMode::Normal, ..old };
    let c = old.cursor as int;
    match old.mode {
        AppMode::Input { purpose, buffer, .. } => {
            let b = buffer@;
            match purpose {
                InputPurpose::FileSearch => if b.len() == 0 {
                    with_error(back, new, "검색어를 입력해주세요"@) && e is Idle
                } else {
                    &&& new == (App { mode: AppMode::Normal, pending: new.pending, ..old })
                    &&& new.pending matches Pending::FileSearch { pattern } && pattern@ == b
                    &&& e matches Effect::SearchFiles { dir, pattern, max_results }
                        && dir@ == old.current_dir@ && pattern@ == b && max_results == MAX_SEARCH_RESULTS
                },
                InputPurpose::Copy => op_requested(old, new) && (e matches Effect::RunFileOp(op)
                    && transfer_op(op, true, old.entries@, old.selected_indices@, c, b)),
                InputPurpose::Move => op_requested(old, new) && (e matches Effect::RunFileOp(op)
                    && transfer_op(op, false, old.entries@, old.selected_indices@, c, b)),
                InputPurpose::Rename => if c >= old.entries@.len() {
                    with_error(back, new, "이름 변경 대상이 없습니다"@) && e is Idle
                } else {
                    match name_problem(b, "새 이름이 비어있습니다"@) {
                        Some(m) => with_error(back, new, m) && e is Idle,
                        None => op_requested(old, new) && (e matches Effect::RunFileOp(FileOp::Rename { source, new_name })
                            && source@ == old.entries@[c].path@ && new_name@ == b),
                    }
                },
                InputPurpose::Mkdir => match name_problem(b, "디렉토리명이 비어있습니다"@) {
                    Some(m) => with_error(back, new, m) && e is Idle,
                    None => op_requested(old, new) && (e matches Effect::RunFileOp(FileOp::Mkdir { parent, name })
                        && parent@ == old.current_dir@ && name@ == b),
                },
                InputPurpose::NewFile => match name_problem(b, "파일명이 비어있습니다"@) {
                    Some(m) => with_error(back, new, m) && e is Idle,
                    None => op_requested(old, new) && (e matches Effect::RunFileOp(FileOp::NewFile { parent, name })
                        && parent@ == old.current_dir@ && name@ == b),
                },
            }
        },
        _ => new == old && e is Idle,
    }
}

/// What a key does in a prompt: the editing keys edit it, Enter submits
/// it, Esc closes it and clears the error; other keys do nothing.
pub open spec fn input_step(old: App, new: App, a: KeyAction, e: Effect) -> bool {
    match old.mode {
        AppMode::Input { buffer, cursor_pos, .. } => {
            if prompt_edit_of(buffer@, cursor_pos as int, a) is Some {
                prompt_step(old, new, a) && e is Idle
            } else if a is InputConfirm {
                submit_post(old, new, e)
            } else if a is InputCancel {
                new == (App { mode: AppMode::Normal, error_message: None, ..old }) && e is Idle
            } else {
                new == old && e is Idle
            }
        },
        _ => new == old && e is Idle,
    }
}

/// What a key does while a deletion waits for confirmation: Y asks to
/// delete the targets, N goes back and clears the error.
pub open spec fn confirm_step(old: App, new: App, a: KeyAction, e: Effect) -> bool {
    match a {
        KeyAction::ConfirmYes => {
            &&& new == (App { mode: AppMode::Normal, pending: Pending::DeleteOp, ..old })
            &&& e matches Effect::RunFileOp(FileOp::Delete { targets })
                && targets_in_walk(old.entries@, old.selected_indices@, old.cursor as int, targets@.map_values(|x: String| x@))
        },
        KeyAction::ConfirmNo => new == (App { mode: AppMode::Normal, error_message: None, ..old }) && e is Idle,
        _ => new == old && e is Idle,
    }
}

impl App {
    /// Enter in a prompt.
    fn submit_input(&mut self) -> (e: Effect)
        requires
            old(self).wf(),
            old(self).mode is Input,
        ensures
            submit_post(*old(self), *final(self), e),
            final(self).wf(),
    {
        let mut m = AppMode::Normal;
        std::mem::swap(&mut m, &mut self.mode);
        match m {
            AppMode::Input { purpose, buffer, .. } => {
                match purpose {
                    InputPurpose::FileSearch => {
                        if char_count(buffer.as_str()) == 0 {
                            self.error_message = Some(string_of("검색어를 입력해주세요"));
                            return Effect::Idle;
                        }
                        let dir = copy_string(&self.current_dir);
                        let pattern = copy_string(&buffer);
                        self.pending = Pending::FileSearch { pattern: buffer };
                        Effect::SearchFiles { dir, pattern, max_results: MAX_SEARCH_RESULTS }
                    },
                    InputPurpose::Copy => {
                        let sources = self.target_paths();
                        self.pending = Pending::InputOp;
                        Effect::RunFileOp(FileOp::Copy { sources, dest: buffer })
                    },
                    InputPurpose::Move => {
                        let sources = self.target_paths();
                        self.pending = Pending::InputOp;
                        Effect::RunFileOp(FileOp::Move { sources, dest: buffer })
                    },
                    InputPurpose::Rename => {
                        if self.cursor >= self.entries.len() {
                            self.error_message = Some(string_of("이름 변경 대상이 없습니다"));
                            return Effect::Idle;
                        }
                        match rename_check(buffer.as_str()) {
                            Err(msg) => {
                                self.error_message = Some(msg);
                                Effect::Idle
                            },
                            Ok(()) => {
                                let source = copy_string(&self.entries[self.cursor].path);
                                self.pending = Pending::InputOp;
                                Effect::RunFileOp(FileOp::Rename { source, new_name: buffer })
                            },
                        }
                    },
                    InputPurpose::Mkdir => {
                        match mkdir_check(buffer.as_str()) {
                            Err(msg) => {
                                self.error_message = Some(msg);
                                Effect::Idle
                            },
                            Ok(()) => {
                                let parent = copy_string(&self.current_dir);
                                self.pending = Pending::InputOp;
                                Effect::RunFileOp(FileOp::Mkdir { parent, name: buffer })
                            },
                        }
                    },
                    InputPurpose::NewFile => {
                        match new_file_check(buffer.as_str()) {
                            Err(msg) => {
                                self.error_message = Some(msg);
                                Effect::Idle
                            },
                            Ok(()) => {
                                let parent = copy_string(&self.current_dir);
                                self.pending = Pending::InputOp;
                                Effect::RunFileOp(FileOp::NewFile { parent, name: buffer })
                            },
                        }
                    },
                }
            },
            _ => {
                self.mode = m;
                Effect::Idle
            },
        }
    }

    /// A key in a prompt.
    fn handle_input_key(&mut self, action: KeyAction) -> (e: Effect)
        requires
            old(self).wf(),
            old(self).mode is Input,
        ensures
            input_step(*old(self), *final(self), action, e),
            final(self).wf(),
    {
        match action {
            KeyAction::InputChar(_) | KeyAction::InputBackspace | KeyAction::InputDelete
            | KeyAction::InputCursorLeft | KeyAction::InputCursorRight | KeyAction::InputCursorHome
            | KeyAction::InputCursorEnd => {
                self.edit_prompt(action);
                Effect::Idle
            },
            KeyAction::InputConfirm => self.submit_input(),
            KeyAction::InputCancel => {
                self.mode = AppMode::Normal;
                self.error_message = None;
                Effect::Idle
            },
            _ => Effect::Idle,
        }
    }

    /// A key while a deletion waits for confirmation.
    fn handle_confirm_key(&mut self, action: KeyAction) -> (e: Effect)
        requires
            old(self).wf(),
        ensures
            confirm_step(*old(self), *final(self), action, e),
            final(self).wf(),
    {
        match action {
            KeyAction::ConfirmYes => {
                let targets = self.target_paths();
                self.mode = AppMode::Normal;
                self.pending = Pending::DeleteOp;
                Effect::RunFileOp(FileOp::Delete { targets })
            },
            KeyAction::ConfirmNo => {
                self.mode = AppMode::Normal;
                self.error_message = None;
                Effect::Idle
            },
            _ => Effect::Idle,
        }
    }
}


/// What a key does in the list. The error shown is cleared first; the
/// arrows, Home, End and the page keys move the cursor; the letters start
/// their operation; Q quits.
pub open spec fn normal_step(old: App, new: App, a: KeyAction, e: Effect) -> bool {
    let o = App { error_message: None, ..old };
    let n = o.entries@.len() as int;
    let c = o.cursor as int;
    let rows = o.rows_per_col as int;
    match a {
        KeyAction::MoveUp => new == (App { cursor: nav::up_of(c) as usize, ..o }) && e is Idle,
        KeyAction::MoveDown => new == (App { cursor: nav::down_of(c, n) as usize, ..o }) && e is Idle,
        KeyAction::MoveLeft => new == (App { cursor: nav::left_of(c, rows) as usize, ..o }) && e is Idle,
        KeyAction::MoveRight => new == (App { cursor: nav::right_of(c, rows, n) as usize, ..o }) && e is Idle,
        KeyAction::Home => new == (App { cursor: 0, ..o }) && e is Idle,
        KeyAction::End => new == (App { cursor: nav::last_of(c, n) as usize, ..o }) && e is Idle,
        KeyAction::PageUp => new == (App { cursor: nav::page_back_of(c, rows) as usize, ..o }) && e is Idle,
        KeyAction::PageDown => new == (App { cursor: nav::page_forward_of(c, rows, n) as usize, ..o })
            && e is Idle,
        KeyAction::Enter => enter_post(o, new, e),
        KeyAction::Backspace => if o.search_results {
            exit_search_post(o, new, e)
        } else {
            go_parent_post(o, new, e)
        },
        KeyAction::ToggleHidden => toggle_hidden_post(o, new, e),
        KeyAction::Select => select_post(o, new) && e is Idle,
        KeyAction::Copy => transfer_post(o, new, true) && e is Idle,
        KeyAction::Move => transfer_post(o, new, false) && e is Idle,
        KeyAction::Delete => delete_prompt_post(o, new) && e is Idle,
        KeyAction::Rename => rename_prompt_post(o, new) && e is Idle,
        KeyAction::Mkdir => prompt_opened(o, new, InputPurpose::Mkdir, "새 디렉토리명:"@) && e is Idle,
        KeyAction::NewFile => prompt_opened(o, new, InputPurpose::NewFile, "새 파일명:"@) && e is Idle,
        KeyAction::Edit => open_editor_post(o, new, e),
        KeyAction::View => open_viewer_post(o, new, e),
        KeyAction::FileSearch => prompt_opened(o, new, InputPurpose::FileSearch, "검색 패턴:"@) && e is Idle,
        KeyAction::Help => new == (App { mode: AppMode::Help { scroll: 0 }, ..o }) && e is Idle,
        KeyAction::Quit => new == (App { should_quit: true, ..o }) && e is Idle,
        _ => new == o && e is Idle,
    }
}

impl App {
    /// A key in the list.
    fn handle_normal_key(&mut self, action: KeyAction) -> (e: Effect)
        requires
            old(self).wf(),
        ensures
            normal_step(*old(self), *final(self), action, e),
            final(self).wf(),
    {
        self.error_message = None;
        match action {
            KeyAction::MoveUp => {
                self.move_up();
                Effect::Idle
            },
            KeyAction::MoveDown => {
                self.move_down();
                Effect::Idle
            },
            KeyAction::MoveLeft => {
                self.move_left();
                Effect::Idle
            },
            KeyAction::MoveRight => {
                self.move_right();
                Effect::Idle
            },
            KeyAction::Home => {
                self.move_home();
                Effect::Idle
            },
            KeyAction::End => {
                self.move_end();
                Effect::Idle
            },
            KeyAction::PageUp => {
                self.page_up();
                Effect::Idle
            },
            KeyAction::PageDown => {
                self.page_down();
                Effect::Idle
            },
            KeyAction::Enter => self.enter(),
            KeyAction::Backspace => {
                if self.search_results {
                    self.exit_search_results()
                } else {
                    self.go_parent()
                }
            },
            KeyAction::ToggleHidden => self.toggle_hidden(),
            KeyAction::Select => {
                self.toggle_select();
                Effect::Idle
            },
            KeyAction::Copy => {
                self.start_copy();
                Effect::Idle
            },
            KeyAction::Move => {
                self.start_move();
                Effect::Idle
            },
            KeyAction::Delete => {
                self.start_delete();
                Effect::Idle
            },
            KeyAction::Rename => {
                self.start_rename();
                Effect::Idle
            },
            KeyAction::Mkdir => {
                self.start_mkdir();
                Effect::Idle
            },
            KeyAction::NewFile => {
                self.start_new_file();
                Effect::Idle
            },
            KeyAction::Edit => self.open_editor(),
            KeyAction::View => self.open_viewer(),
            KeyAction::FileSearch => {
                self.start_file_search();
                Effect::Idle
            },
            KeyAction::Help => {
                self.open_help();
                Effect::Idle
            },
            KeyAction::Quit => {
                self.should_quit = true;
                Effect::Idle
            },
            _ => Effect::Idle,
        }
    }
}


/// `new` is `old` with the viewer's scroll position set to `f` of the old
/// viewer, all else kept.
pub open spec fn viewer_scrolled(old: App, new: App, f: spec_fn(ViewerState) -> int) -> bool {
    &&& new == (App { viewer: new.viewer, ..old })
    &&& match old.viewer {
        None => new.viewer is None,
        Some(v) => new.viewer matches Some(w) && w.scroll == f(v) && w.only_scroll_changed(&v),
    }
}

/// `new` is `old` with the viewer moved to the match numbered `f` of the
/// old viewer, when there are matches.
pub open spec fn viewer_to_match(old: App, new: App, f: spec_fn(ViewerState) -> int) -> bool {
    &&& new == (App { viewer: new.viewer, ..old })
    &&& match old.viewer {
        None => new.viewer is None,
        Some(v) => if v.search_matches@.len() == 0 {
            new.viewer == Some(v)
        } else {
            &&& new.viewer matches Some(w)
            &&& w.current_match == f(v)
            &&& w.scroll == v.search_matches@[f(v)]
            &&& w.filename == v.filename && w.lines == v.lines
            &&& w.search_query == v.search_query && w.search_matches == v.search_matches
        },
    }
}

/// `w` is the viewer `v` after searching for `q`: an empty query clears the
/// search; otherwise the matches are the lines holding `q`, ignoring case,
/// and the view jumps to the first of them.
pub open spec fn searched(v: ViewerState, w: ViewerState, q: Seq<char>) -> bool {
    &&& w.filename == v.filename && w.lines == v.lines && w.current_match == 0
    &&& q.len() == 0 ==> w.search_query is None && w.search_matches@.len() == 0 && w.scroll == v.scroll
    &&& q.len() > 0 ==> {
        &&& w.search_query matches Some(x) && x@ == q
        &&& w.search_matches@ == hits(text_of(v.lines@), q)
        &&& w.scroll == (if w.search_matches@.len() > 0 { w.search_matches@[0] as int } else { v.scroll as int })
    }
}

/// What a key does in the viewer, whose window is the terminal height less
/// three lines.
pub open spec fn viewer_step(old: App, new: App, a: KeyAction, e: Effect) -> bool {
    let visible = nav::saturating_sub_of(old.terminal_height as int, 3);
    &&& e is Idle
    &&& match a {
        KeyAction::ViewerUp => viewer_scrolled(old, new, |v: ViewerState| nav::up_of(v.scroll as int)),
        KeyAction::ViewerDown => viewer_scrolled(old, new, |v: ViewerState|
            nav::scroll_down_of(v.scroll as int, visible, v.lines@.len() as int)),
        KeyAction::ViewerPageUp => viewer_scrolled(old, new, |v: ViewerState|
            nav::page_back_of(v.scroll as int, visible)),
        KeyAction::ViewerPageDown => viewer_scrolled(old, new, |v: ViewerState|
            nav::scroll_page_down_of(v.scroll as int, visible, v.lines@.len() as int)),
        KeyAction::ViewerHome => viewer_scrolled(old, new, |v: ViewerState| 0),
        KeyAction::ViewerEnd => viewer_scrolled(old, new, |v: ViewerState|
            nav::saturating_sub_of(v.lines@.len() as int, visible)),
        KeyAction::ViewerSearch => {
            &&& new == (App { mode: new.mode, ..old })
            &&& new.mode matches AppMode::ViewerSearch { buffer, cursor_pos } && buffer@.len() == 0 && cursor_pos == 0
        },
        KeyAction::ViewerNextMatch => viewer_to_match(old, new, |v: ViewerState|
            (v.current_match + 1) % (v.search_matches@.len() as int)),
        KeyAction::ViewerPrevMatch => viewer_to_match(old, new, |v: ViewerState|
            if v.current_match == 0 { v.search_matches@.len() - 1 } else { v.current_match - 1 }),
        KeyAction::ViewerClose => new == (App { viewer: None, mode: AppMode::Normal, ..old }),
        _ => new == old,
    }
}

/// `new` is `old` with the viewer's search field holding text `r.0` and its
/// cursor at `r.1`.
pub open spec fn search_field_is(old: App, new: App, r: (Seq<char>, int)) -> bool {
    &&& new == (App { mode: new.mode, ..old })
    &&& new.mode matches AppMode::ViewerSearch { buffer, cursor_pos } && buffer@ == r.0 && cursor_pos == r.1
}

/// What a key does while a viewer search is typed: characters and
/// Backspace edit the field, Enter searches and goes back to the viewer,
/// Esc goes back without searching.
pub open spec fn viewer_search_step(old: App, new: App, a: KeyAction, e: Effect) -> bool {
    &&& e is Idle
    &&& match old.mode {
        AppMode::ViewerSearch { buffer, cursor_pos } => match a {
            KeyAction::ViewerSearchChar(ch) => search_field_is(old, new, type_char_of(buffer@, cursor_pos as int, ch)),
            KeyAction::ViewerSearchBackspace => search_field_is(old, new, backspace_of(buffer@, cursor_pos as int)),
            KeyAction::ViewerSearchConfirm => {
                &&& new == (App { viewer: new.viewer, mode: AppMode::Viewer, ..old })
                &&& match old.viewer {
                    None => new.viewer is None,
                    Some(v) => new.viewer matches Some(w) && searched(v, w, buffer@),
                }
            },
            KeyAction::ViewerSearchCancel => new == (App { mode: AppMode::Viewer, ..old }),
            _ => new == old,
        },
        _ => new == old,
    }
}

/// `new` is `old` with the help screen scrolled to `s`.
pub open spec fn help_at(old: App, new: App, s: int) -> bool {
    new == (App { mode: AppMode::Help { scroll: s as usize }, ..old })
}

/// What a key does on the help screen, whose window is the terminal height
/// less four lines.
pub open spec fn help_step(old: App, new: App, a: KeyAction, e: Effect) -> bool {
    let total = HELP_LINE_COUNT as int;
    let visible = nav::saturating_sub_of(old.terminal_height as int, 4);
    &&& e is Idle
    &&& match old.mode {
        AppMode::Help { scroll } => match a {
            KeyAction::HelpUp => help_at(old, new, nav::up_of(scroll as int)),
            KeyAction::HelpDown => help_at(old, new, nav::scroll_down_of(scroll as int, visible, total)),
            KeyAction::HelpPageUp => help_at(old, new, nav::page_back_of(scroll as int, visible)),
            KeyAction::HelpPageDown => help_at(old, new, nav::scroll_page_down_of(scroll as int, visible, total)),
            KeyAction::HelpHome => help_at(old, new, 0),
            KeyAction::HelpEnd => help_at(old, new, nav::saturating_sub_of(total, visible)),
            KeyAction::HelpClose => new == (App { mode: AppMode::Normal, ..old }),
            _ => new == old,
        },
        _ => new == old,
    }
}

impl App {
    /// A key in the viewer.
    fn handle_viewer_key(&mut self, action: KeyAction) -> (e: Effect)
        requires
            old(self).wf(),
        ensures
            viewer_step(*old(self), *final(self), action, e),
            final(self).wf(),
    {
        let visible: usize = self.terminal_height.saturating_sub(3) as usize;
        match action {
            KeyAction::ViewerSearch => {
                self.mode = AppMode::ViewerSearch { buffer: String::new(), cursor_pos: 0 };
                return Effect::Idle;
            },
            KeyAction::ViewerClose => {
                self.viewer = None;
                self.mode = AppMode::Normal;
                return Effect::Idle;
            },
            _ => {},
        }
        match self.viewer.take() {
            None => {},
            Some(mut v) => {
                match action {
                    KeyAction::ViewerUp => v.scroll_up(),
                    KeyAction::ViewerDown => v.scroll_down(visible),
                    KeyAction::ViewerPageUp => v.page_up(visible),
                    KeyAction::ViewerPageDown => v.page_down(visible),
                    KeyAction::ViewerHome => v.scroll_home(),
                    KeyAction::ViewerEnd => v.scroll_end(visible),
                    KeyAction::ViewerNextMatch => v.next_match(),
                    KeyAction::ViewerPrevMatch => v.prev_match(),
                    _ => {},
                }
                self.viewer = Some(v);
            },
        }
        Effect::Idle
    }

    /// A key while a viewer search is typed.
    fn handle_viewer_search_key(&mut self, action: KeyAction) -> (e: Effect)
        requires
            old(self).wf(),
        ensures
            viewer_search_step(*old(self), *final(self), action, e),
            final(self).wf(),
    {
        let mut m = AppMode::Normal;
        std::mem::swap(&mut m, &mut self.mode);
        match m {
            AppMode::ViewerSearch { buffer, cursor_pos } => {
                match action {
                    KeyAction::ViewerSearchChar(ch) => {
                        let (b, c) = crate::line_edit::type_char(&buffer, cursor_pos, ch);
                        proof {
                            crate::line_edit::law_cursor_stays_in_text(buffer@, cursor_pos as int, ch);
                        }
                        self.mode = AppMode::ViewerSearch { buffer: b, cursor_pos: c };
                    },
                    KeyAction::ViewerSearchBackspace => {
                        let (b, c) = crate::line_edit::backspace(&buffer, cursor_pos);
                        proof {
                            crate::line_edit::law_cursor_stays_in_text(buffer@, cursor_pos as int, 'a');
                        }
                        self.mode = AppMode::ViewerSearch { buffer: b, cursor_pos: c };
                    },
                    KeyAction::ViewerSearchConfirm => {
                        match self.viewer.take() {
                            None => {},
                            Some(mut v) => {
                                v.search(buffer.as_str());
                                self.viewer = Some(v);
                            },
                        }
                        self.mode = AppMode::Viewer;
                    },
                    KeyAction::ViewerSearchCancel => {
                        self.mode = AppMode::Viewer;
                    },
                    _ => {
                        self.mode = AppMode::ViewerSearch { buffer, cursor_pos };
                    },
                }
            },
            _ => {
                self.mode = m;
            },
        }
        Effect::Idle
    }

    /// A key on the help screen.
    fn handle_help_key(&mut self, action: KeyAction) -> (e: Effect)
        requires
            old(self).wf(),
        ensures
            help_step(*old(self), *final(self), action, e),
            final(self).wf(),
    {
        let visible: usize = self.terminal_height.saturating_sub(4) as usize;
        let total: usize = HELP_LINE_COUNT;
        match self.mode {
            AppMode::Help { scroll } => {
                match action {
                    KeyAction::HelpUp => {
                        self.mode = AppMode::Help { scroll: nav::step_up(scroll) };
                    },
                    KeyAction::HelpDown => {
                        self.mode = AppMode::Help { scroll: nav::scroll_down_one(scroll, visible, total) };
                    },
                    KeyAction::HelpPageUp => {
                        self.mode = AppMode::Help { scroll: nav::page_back(scroll, visible) };
                    },
                    KeyAction::HelpPageDown => {
                        self.mode = AppMode::Help { scroll: nav::scroll_page_down(scroll, visible, total) };
                    },
                    KeyAction::HelpHome => {
                        self.mode = AppMode::Help { scroll: 0 };
                    },
                    KeyAction::HelpEnd => {
                        self.mode = AppMode::Help { scroll: nav::saturating_sub(total, visible) };
                    },
                    KeyAction::HelpClose => {
                        self.mode = AppMode::Normal;
                    },
                    _ => {},
                }
            },
            _ => {},
        }
        Effect::Idle
    }
}


/// The screen column of the cursor on line `r` at character `c`: the
/// display width of the text before it.
pub open spec fn cursor_column(t: Seq<Seq<char>>, r: int, c: int) -> int {
    if 0 <= r < t.len() {
        display_width(t[r].take(clip(c, t[r].len() as int))) as int
    } else {
        0
    }
}

/// `new` is `old` with the editor `ed` turned into one with contents and
/// cursor `v` and modified flag `m`, its scroll following the cursor in a
/// window of `rows` lines and `cols` columns.
pub open spec fn editor_edited(old: App, new: App, ed: EditorState, v: EditView, m: bool, rows: int, cols: int) -> bool {
    &&& new == (App { editor: new.editor, ..old })
    &&& new.editor matches Some(w) && {
        &&& w.view_of() == v
        &&& w.modified == m
        &&& w.filepath == ed.filepath && w.filename == ed.filename && w.message == ed.message
        &&& w.scroll_row == follow_of(ed.scroll_row as int, v.1, rows)
        &&& w.scroll_col == follow_of(ed.scroll_col as int, cursor_column(v.0, v.1, v.2), cols)
    }
}

/// What a key does in the editor, whose window is the terminal less four
/// lines and eight columns. The editor's message is cleared first. Saving
/// asks to write the lines, each ended by a line break; closing asks for
/// confirmation when there are unsaved changes, and else closes the editor
/// and lists the directory again.
pub open spec fn editor_step(old: App, new: App, a: KeyAction, e: Effect) -> bool {
    let rows = nav::saturating_sub_of(old.terminal_height as int, 4);
    let cols = nav::saturating_sub_of(old.terminal_width as int, 8);
    match old.editor {
        None => new == old && e is Idle,
        Some(ed0) => {
            let ed = EditorState { message: None, ..ed0 };
            let v = ed.view_of();
            match a {
                KeyAction::EditorChar(c) => editor_edited(old, new, ed, ed_insert_of(v, c), true, rows, cols) && e is Idle,
                KeyAction::EditorBackspace => editor_edited(old, new, ed, ed_backspace_of(v),
                    ed.modified || v.2 > 0 || v.1 > 0, rows, cols) && e is Idle,
                KeyAction::EditorDelete => {
                    &&& new == (App { editor: new.editor, ..old })
                    &&& new.editor matches Some(w) && w.view_of() == ed_delete_of(v)
                        && w.modified == (ed.modified || v.2 < v.0[v.1].len() || v.1 + 1 < v.0.len())
                        && w.keeps_rest(&ed)
                    &&& e is Idle
                },
                KeyAction::EditorEnter => editor_edited(old, new, ed, ed_enter_of(v), true, rows, cols) && e is Idle,
                KeyAction::EditorUp => editor_edited(old, new, ed, ed_up_of(v), ed.modified, rows, cols) && e is Idle,
                KeyAction::EditorDown => editor_edited(old, new, ed, ed_down_of(v), ed.modified, rows, cols) && e is Idle,
                KeyAction::EditorLeft => editor_edited(old, new, ed, ed_left_of(v), ed.modified, rows, cols) && e is Idle,
                KeyAction::EditorRight => editor_edited(old, new, ed, ed_right_of(v), ed.modified, rows, cols) && e is Idle,
                KeyAction::EditorHome => editor_edited(old, new, ed, (v.0, v.1, 0), ed.modified, rows, cols) && e is Idle,
                KeyAction::EditorEnd => editor_edited(old, new, ed, (v.0, v.1, v.0[v.1].len() as int), ed.modified,
                    rows, cols) && e is Idle,
                KeyAction::EditorPageUp => editor_edited(old, new, ed, ed_page_up_of(v, rows), ed.modified, rows, cols)
                    && e is Idle,
                KeyAction::EditorPageDown => editor_edited(old, new, ed, ed_page_down_of(v, rows), ed.modified, rows,
                    cols) && e is Idle,
                KeyAction::EditorSave => {
                    &&& new == (App { editor: Some(ed), pending: Pending::SaveEditor, ..old })
                    &&& e matches Effect::WriteFile { path, content } && path@ == ed.filepath@
                        && content@ == joined_lines(text_of(ed.lines@))
                },
                KeyAction::EditorClose => if ed.modified {
                    new == (App { editor: Some(ed), mode: AppMode::EditorConfirmClose, ..old }) && e is Idle
                } else {
                    &&& new == (App {
                        editor: None,
                        mode: AppMode::Normal,
                        pending: Pending::Listing { focus: None },
                        ..old
                    })
                    &&& reads_dir(e, old.current_dir@)
                },
                _ => new == (App { editor: Some(ed), ..old }) && e is Idle,
            }
        },
    }
}

/// What a key does while closing a changed editor waits for confirmation:
/// Y closes it, dropping the changes, and lists the directory again; N goes
/// back to the editor.
pub open spec fn editor_confirm_step(old: App, new: App, a: KeyAction, e: Effect) -> bool {
    match a {
        KeyAction::EditorConfirmYes => {
            &&& new == (App {
                editor: None,
                mode: AppMode::Normal,
                pending: Pending::Listing { focus: None },
                ..old
            })
            &&& reads_dir(e, old.current_dir@)
        },
        KeyAction::EditorConfirmNo => new == (App { mode: AppMode::Editor, ..old }) && e is Idle,
        _ => new == old && e is Idle,
    }
}

impl App {
    /// A key in the editor.
    fn handle_editor_key(&mut self, action: KeyAction) -> (e: Effect)
        requires
            old(self).wf(),
        ensures
            editor_step(*old(self), *final(self), action, e),
            final(self).wf(),
    {
        let rows: usize = self.terminal_height.saturating_sub(4) as usize;
        let cols: usize = self.terminal_width.saturating_sub(8) as usize;
        let mut ed = match self.editor.take() {
            None => {
                return Effect::Idle;
            },
            Some(ed) => ed,
        };
        ed.message = None;
        proof {
            crate::editor::law_editing_keeps_wf(ed.view_of(), 'a', rows as int);
            if let KeyAction::EditorChar(c) = action {
                crate::editor::law_editing_keeps_wf(ed.view_of(), c, rows as int);
            }
        }
        match action {
            KeyAction::EditorChar(c) => {
                ed.insert_char(c);
                ed.adjust_scroll(rows, cols);
            },
            KeyAction::EditorBackspace => {
                ed.backspace();
                ed.adjust_scroll(rows, cols);
            },
            KeyAction::EditorDelete => {
                ed.delete();
            },
            KeyAction::EditorEnter => {
                ed.enter();
                ed.adjust_scroll(rows, cols);
            },
            KeyAction::EditorUp => {
                ed.move_up();
                ed.adjust_scroll(rows, cols);
            },
            KeyAction::EditorDown => {
                ed.move_down();
                ed.adjust_scroll(rows, cols);
            },
            KeyAction::EditorLeft => {
                ed.move_left();
                ed.adjust_scroll(rows, cols);
            },
            KeyAction::EditorRight => {
                ed.move_right();
                ed.adjust_scroll(rows, cols);
            },
            KeyAction::EditorHome => {
                ed.move_home();
                ed.adjust_scroll(rows, cols);
            },
            KeyAction::EditorEnd => {
                ed.move_end();
                ed.adjust_scroll(rows, cols);
            },
            KeyAction::EditorPageUp => {
                ed.page_up(rows);
                ed.adjust_scroll(rows, cols);
            },
            KeyAction::EditorPageDown => {
                ed.page_down(rows);
                ed.adjust_scroll(rows, cols);
            },
            KeyAction::EditorSave => {
                let path = copy_string(&ed.filepath);
                let content = join_lines(&ed.lines);
                self.editor = Some(ed);
                self.pending = Pending::SaveEditor;
                return Effect::WriteFile { path, content };
            },
            KeyAction::EditorClose => {
                if ed.modified {
                    self.editor = Some(ed);
                    self.mode = AppMode::EditorConfirmClose;
                    return Effect::Idle;
                }
                self.mode = AppMode::Normal;
                return self.load_directory();
            },
            _ => {},
        }
        self.editor = Some(ed);
        Effect::Idle
    }

    /// A key while closing a changed editor waits for confirmation.
    fn handle_editor_confirm_key(&mut self, action: KeyAction) -> (e: Effect)
        requires
            old(self).wf(),
        ensures
            editor_confirm_step(*old(self), *final(self), action, e),
            final(self).wf(),
    {
        match action {
            KeyAction::EditorConfirmYes => {
                self.editor = None;
                self.mode = AppMode::Normal;
                self.load_directory()
            },
            KeyAction::EditorConfirmNo => {
                self.mode = AppMode::Editor;
                Effect::Idle
            },
            _ => Effect::Idle,
        }
    }
}


/// `new` is `old` moved into directory `target`, entered from its parent
/// entry when `from_parent`; the directory is to be listed.
pub open spec fn entered_dir(old: App, new: App, target: Seq<char>, from_parent: bool, e: Effect) -> bool {
    &&& new == (App {
        previous_dir: new.previous_dir,
        current_dir: new.current_dir,
        cursor: 0,
        scroll_offset: 0,
        selected_indices: new.selected_indices,
        pending: Pending::Listing { focus: None },
        ..old
    })
    &&& if from_parent {
        new.previous_dir matches Some(d) && d@ == dir_name_of(old.current_dir@)
    } else {
        new.previous_dir == old.previous_dir
    }
    &&& new.current_dir@ == target
    &&& new.selected_indices@.len() == 0
    &&& reads_dir(e, target)
}

/// The lines the editor opens a text with: those of the text, or one empty
/// line for an empty text.
pub open spec fn editor_lines(t: Seq<char>) -> Seq<Seq<char>> {
    if t.len() == 0 {
        seq![Seq::empty()]
    } else {
        lines_of(t)
    }
}

/// The message for a search without results.
pub open spec fn no_results_text(pattern: Seq<char>) -> Seq<char> {
    "'"@ + pattern + "' 검색 결과가 없습니다"@
}

/// What the result of outside work does, by the work that was waiting for
/// it. A result of another kind than the one waited for changes nothing.
pub open spec fn complete_step(old: App, new: App, o: Outcome, e: Effect) -> bool {
    let done = App { pending: Pending::Nothing, ..old };
    match old.pending {
        Pending::Nothing => new == old && e is Idle,
        Pending::Listing { focus } => match o {
            Outcome::Listing(res) => listing_applied(old, new, res, focus) && e is Idle,
            _ => new == old && e is Idle,
        },
        Pending::EnterDir { target, from_parent } => match o {
            Outcome::DirChecked(Ok(())) => entered_dir(done, new, target@, from_parent, e),
            Outcome::DirChecked(Err(m)) => with_error(done, new, "디렉토리 진입 실패: "@ + m@) && e is Idle,
            _ => new == old && e is Idle,
        },
        Pending::InputOp | Pending::DeleteOp => match o {
            Outcome::OpDone(Ok(())) => {
                &&& new == (App {
                    selected_indices: new.selected_indices,
                    pending: Pending::Listing { focus: None },
                    ..old
                })
                &&& new.selected_indices@.len() == 0
                &&& reads_dir(e, old.current_dir@)
            },
            Outcome::OpDone(Err(m)) => with_error(done, new, m@) && e is Idle,
            _ => new == old && e is Idle,
        },
        Pending::FileSearch { pattern } => match o {
            Outcome::Found(found) => if found@.len() == 0 {
                with_error(done, new, no_results_text(pattern@)) && e is Idle
            } else {
                &&& new == (App {
                    search_original_dir: new.search_original_dir,
                    search_results: true,
                    entries: new.entries,
                    cursor: 0,
                    selected_indices: new.selected_indices,
                    pending: Pending::Nothing,
                    ..old
                })
                &&& new.search_original_dir matches Some(d) && d@ == old.current_dir@
                &&& sorted_entries(new.entries@)
                &&& new.entries@.to_multiset() == found@.to_multiset()
                &&& exists|perm: Seq<int>| stable_arrangement(found@, new.entries@, perm)
                &&& new.selected_indices@.len() == 0
                &&& e is Idle
            },
            _ => new == old && e is Idle,
        },
        Pending::OpenViewer { name } => match o {
            Outcome::FileRead(Ok(bytes)) => if looks_binary(bytes@) {
                with_error(done, new, "바이너리 파일은 열 수 없습니다"@) && e is Idle
            } else {
                &&& new == (App { viewer: new.viewer, mode: AppMode::Viewer, pending: Pending::Nothing, ..old })
                &&& new.viewer matches Some(v) && {
                    &&& v.filename@ == name@
                    &&& text_of(v.lines@) == lines_of(lossy_text(bytes@))
                    &&& v.scroll == 0 && v.current_match == 0
                    &&& v.search_query is None && v.search_matches@.len() == 0
                }
                &&& e is Idle
            },
            Outcome::FileRead(Err(m)) => with_error(done, new, "파일 읽기 실패: "@ + m@) && e is Idle,
            _ => new == old && e is Idle,
        },
        Pending::OpenEditor { path, name } => match o {
            Outcome::FileRead(Ok(bytes)) => if looks_binary(bytes@) {
                with_error(done, new, "바이너리 파일은 편집할 수 없습니다"@) && e is Idle
            } else {
                &&& new == (App { editor: new.editor, mode: AppMode::Editor, pending: Pending::Nothing, ..old })
                &&& new.editor matches Some(ed) && {
                    &&& ed.filepath@ == path@ && ed.filename@ == name@
                    &&& text_of(ed.lines@) == editor_lines(lossy_text(bytes@))
                    &&& bytes@.len() == 0 ==> text_of(ed.lines@) == seq![Seq::<char>::empty()]
                    &&& ed.cursor_row == 0 && ed.cursor_col == 0
                    &&& ed.scroll_row == 0 && ed.scroll_col == 0
                    &&& !ed.modified && ed.message is None
                }
                &&& e is Idle
            },
            Outcome::FileRead(Err(m)) => with_error(done, new, "파일 읽기 실패: "@ + m@) && e is Idle,
            _ => new == old && e is Idle,
        },
        Pending::SaveEditor => match o {
            Outcome::Written(r) => {
                &&& new == (App { editor: new.editor, pending: Pending::Nothing, ..old })
                &&& match old.editor {
                    None => new.editor is None,
                    Some(ed) => new.editor matches Some(w) && {
                        &&& w == (EditorState {
                            modified: (if r is Ok { false } else { ed.modified }),
                            message: w.message,
                            ..ed
                        })
                        &&& w.message matches Some(m) && m@ == (match r {
                            Ok(_) => "저장 완료"@,
                            Err(x) => x@,
                        })
                    },
                }
                &&& e is Idle
            },
            _ => new == old && e is Idle,
        },
    }
}

/// What a key does, by the mode it comes in.
pub open spec fn key_step(old: App, new: App, a: KeyAction, e: Effect) -> bool {
    match old.mode {
        AppMode::Normal => normal_step(old, new, a, e),
        AppMode::Input { .. } => input_step(old, new, a, e),
        AppMode::Confirm { .. } => confirm_step(old, new, a, e),
        AppMode::Viewer => viewer_step(old, new, a, e),
        AppMode::ViewerSearch { .. } => viewer_search_step(old, new, a, e),
        AppMode::Editor => editor_step(old, new, a, e),
        AppMode::EditorConfirmClose => editor_confirm_step(old, new, a, e),
        AppMode::Help { .. } => help_step(old, new, a, e),
    }
}

/// `a` followed by `b` and `c`, as a new string.
fn concat3(a: &str, b: &str, c: &str) -> (r: String)
    ensures
        r@ == a@ + b@ + c@,
{
    let mut r = concat(a, b);
    append_str(&mut r, c);
    r
}

impl App {
    /// Handles one key: the state changes as the mode says, and the outside
    /// work to do, if any, is returned.
    pub fn handle_key(&mut self, action: KeyAction) -> (e: Effect)
        requires
            old(self).wf(),
        ensures
            key_step(*old(self), *final(self), action, e),
            final(self).wf(),
    {
        match self.input_mode() {
            InputMode::Normal => self.handle_normal_key(action),
            InputMode::Input => self.handle_input_key(action),
            InputMode::Confirm => self.handle_confirm_key(action),
            InputMode::Viewer => self.handle_viewer_key(action),
            InputMode::ViewerSearch => self.handle_viewer_search_key(action),
            InputMode::Editor => self.handle_editor_key(action),
            InputMode::EditorConfirmClose => self.handle_editor_confirm_key(action),
            InputMode::Help => self.handle_help_key(action),
        }
    }

    /// Takes in the result of the outside work asked for last; more work
    /// may follow.
    pub fn complete(&mut self, outcome: Outcome) -> (e: Effect)
        requires
            old(self).wf(),
        ensures
            complete_step(*old(self), *final(self), outcome, e),
            final(self).wf(),
    {
        let mut p = Pending::Nothing;
        std::mem::swap(&mut p, &mut self.pending);
        match p {
            Pending::Nothing => Effect::Idle,
            Pending::Listing { focus } => match outcome {
                Outcome::Listing(res) => {
                    self.apply_listing(res, focus);
                    Effect::Idle
                },
                _ => {
                    self.pending = Pending::Listing { focus };
                    Effect::Idle
                },
            },
            Pending::EnterDir { target, from_parent } => match outcome {
                Outcome::DirChecked(Ok(())) => {
                    if from_parent {
                        self.previous_dir = Some(self.dir_name());
                    }
                    self.current_dir = target;
                    self.cursor = 0;
                    self.scroll_offset = 0;
                    self.clear_selection();
                    self.load_directory()
                },
                Outcome::DirChecked(Err(m)) => {
                    self.error_message = Some(concat("디렉토리 진입 실패: ", m.as_str()));
                    Effect::Idle
                },
                _ => {
                    self.pending = Pending::EnterDir { target, from_parent };
                    Effect::Idle
                },
            },
            Pending::InputOp | Pending::DeleteOp => match outcome {
                Outcome::OpDone(Ok(())) => {
                    self.clear_selection();
                    self.load_directory()
                },
                Outcome::OpDone(Err(m)) => {
                    self.error_message = Some(m);
                    Effect::Idle
                },
                _ => {
                    self.pending = p;
                    Effect::Idle
                },
            },
            Pending::FileSearch { pattern } => match outcome {
                Outcome::Found(found) => {
                    if found.len() == 0 {
                        self.error_message = Some(concat3("'", pattern.as_str(), "' 검색 결과가 없습니다"));
                        return Effect::Idle;
                    }
                    let mut results = found;
                    sort_entries(&mut results);
                    self.search_original_dir = Some(copy_string(&self.current_dir));
                    self.search_results = true;
                    self.entries = results;
                    self.cursor = 0;
                    self.clear_selection();
                    Effect::Idle
                },
                _ => {
                    self.pending = Pending::FileSearch { pattern };
                    Effect::Idle
                },
            },
            Pending::OpenViewer { name } => match outcome {
                Outcome::FileRead(Ok(bytes)) => {
                    if is_binary(&bytes) {
                        self.error_message = Some(string_of("바이너리 파일은 열 수 없습니다"));
                        return Effect::Idle;
                    }
                    let text = decode_lossy(&bytes);
                    let lines = split_lines(text.as_str());
                    self.viewer = Some(ViewerState::new(name, lines));
                    self.mode = AppMode::Viewer;
                    Effect::Idle
                },
                Outcome::FileRead(Err(m)) => {
                    self.error_message = Some(concat("파일 읽기 실패: ", m.as_str()));
                    Effect::Idle
                },
                _ => {
                    self.pending = Pending::OpenViewer { name };
                    Effect::Idle
                },
            },
            Pending::OpenEditor { path, name } => match outcome {
                Outcome::FileRead(Ok(bytes)) => {
                    if is_binary(&bytes) {
                        self.error_message = Some(string_of("바이너리 파일은 편집할 수 없습니다"));
                        return Effect::Idle;
                    }
                    let text = decode_lossy(&bytes);
                    let lines = if char_count(text.as_str()) == 0 {
                        let mut one: Vec<String> = Vec::new();
                        one.push(String::new());
                        proof {
                            assert(text_of(one@) =~= seq![Seq::<char>::empty()]);
                        }
                        one
                    } else {
                        split_lines(text.as_str())
                    };
                    proof {
                        crate::content::lemma_nonempty_text_has_lines(text@);
                    }
                    self.editor = Some(EditorState::new(path, name, lines));
                    self.mode = AppMode::Editor;
                    Effect::Idle
                },
                Outcome::FileRead(Err(m)) => {
                    self.error_message = Some(concat("파일 읽기 실패: ", m.as_str()));
                    Effect::Idle
                },
                _ => {
                    self.pending = Pending::OpenEditor { path, name };
                    Effect::Idle
                },
            },
            Pending::SaveEditor => match outcome {
                Outcome::Written(r) => {
                    match self.editor.take() {
                        None => {},
                        Some(mut ed) => {
                            match r {
                                Ok(()) => {
                                    ed.modified = false;
                                    ed.message = Some(string_of("저장 완료"));
                                },
                                Err(m) => {
                                    ed.message = Some(m);
                                },
                            }
                            self.editor = Some(ed);
                        },
                    }
                    Effect::Idle
                },
                _ => {
                    self.pending = Pending::SaveEditor;
                    Effect::Idle
                },
            },
        }
    }
}


/// What a file search does with an entry named `name` that it meets below
/// the directory searched: whether it is a result, and whether the search
/// goes on below it. Hidden entries are passed over with everything below
/// them; a result matches the pattern; only directories are gone into.
pub fn search_step(name: &str, is_dir: bool, pattern: &str) -> (r: (bool, bool))
    ensures
        r.0 == (!(name@.len() > 0 && name@[0] == '.') && glob_spec(pattern@, name@)),
        r.1 == (!(name@.len() > 0 && name@[0] == '.') && is_dir),
{
    let chars = to_chars(name);
    if chars.len() > 0 && chars[0] == '.' {
        return (false, false);
    }
    (glob_match(pattern, name), is_dir)
}

/// Whether a file search has gathered all the results it may, and stops.
pub fn search_full(found: usize, max_results: usize) -> (r: bool)
    ensures
        r == (found >= max_results),
{
    found >= max_results
}

/// What a file search does next, having `found` results of at most
/// `max_results`, on meeting an entry: nothing more once it is full (`None`),
/// else what `search_step` decides for the entry.
pub fn search_visit(found: usize, max_results: usize, name: &str, is_dir: bool, pattern: &str) -> (r: Option<(bool, bool)>)
    ensures
        found >= max_results ==> r is None,
        found < max_results ==> (r matches Some(d) && d.0 == (!(name@.len() > 0 && name@[0] == '.') && glob_spec(
            pattern@,
            name@,
        )) && d.1 == (!(name@.len() > 0 && name@[0] == '.') && is_dir)),
{
    if search_full(found, max_results) {
        None
    } else {
        Some(search_step(name, is_dir, pattern))
    }
}

/// Used and total bytes of a file system with `blocks` blocks of
/// `block_size` bytes, `available` of them free to users.
pub fn disk_space(blocks: u64, available: u64, block_size: u64) -> (r: (u64, u64))
    requires
        blocks * block_size <= u64::MAX,
        available * block_size <= u64::MAX,
    ensures
        r.1 == blocks * block_size,
        r.0 == nav::saturating_sub_of(blocks * block_size, available * block_size),
{
    let total = blocks * block_size;
    let free = available * block_size;
    let used = if total >= free { total - free } else { 0 };
    (used, total)
}


/// What the editor saves for some lines it opens again as the same lines:
/// a read gives back what a write wrote, for lines with no line break in
/// them and none ending with a carriage return.
pub proof fn law_save_then_reopen(t: Seq<Seq<char>>)
    requires
        plain_lines(t),
        t.len() >= 1,
    ensures
        editor_lines(joined_lines(t)) == t,
{
    crate::content::law_saved_lines_read_back(t);
    assert(joined_lines(t).len() > 0) by {
        assert(joined_lines(t) == joined_lines(t.drop_last()) + t.last() + seq!['\n']);
    }
}

/// Space twice on the same entry leaves the selection as it was.
pub proof fn law_select_twice_restores(a0: App, a1: App, a2: App)
    requires
        select_post(a0, a1),
        select_post(App { cursor: a0.cursor, ..a1 }, a2),
    ensures
        a2.selected_indices@ == a0.selected_indices@,
        a2.entries == a0.entries,
{
    let c = a0.cursor;
    let s0 = a0.selected_indices@;
    if c < a0.entries@.len() && a0.entries@[c as int].is_parent {
    } else if s0.contains(c) {
        assert(!s0.remove(c).contains(c));
        assert(s0.remove(c).insert(c) =~= s0);
    } else {
        assert(s0.insert(c).contains(c));
        assert(s0.insert(c).remove(c) =~= s0);
    }
}


/// A listing puts the parent entry first, then the directories, then the
/// rest; in a directory that has a parent, the parent entry is listed.
pub proof fn law_listing_order(dir: Seq<char>, raw: Seq<FileEntry>, show_hidden: bool, e: Seq<FileEntry>)
    requires
        listing_of(dir, raw, show_hidden, e),
    ensures
        forall|i: int, j: int| 0 <= i < j < e.len() ==> rank(#[trigger] e[i]) <= rank(#[trigger] e[j]),
        path_parent(dir) is Some ==> e.len() >= 1 && e[0].is_parent,
{
    assert forall|i: int, j: int| 0 <= i < j < e.len() implies rank(#[trigger] e[i]) <= rank(#[trigger] e[j]) by {
        assert(!entry_before(e[j], e[i]));
    }
    if path_parent(dir) is Some {
        let m = choose|m: Seq<FileEntry>| members_of(dir, raw, show_hidden, m) && #[trigger] m.to_multiset() == e.to_multiset();
        let p = m[0];
        assert(m.contains(p)) by {
            assert(m[0] == p);
        }
        vstd::seq_lib::to_multiset_contains(m, p);
        vstd::seq_lib::to_multiset_contains(e, p);
        assert(e.contains(p));
        let k = choose|k: int| 0 <= k < e.len() && e[k] == p;
        assert(rank(p) == 0);
        if k > 0 {
            assert(rank(e[0]) <= rank(e[k]));
        }
    }
}

/// Nothing is deleted without confirmation: the only key that asks for a
/// deletion is Y while the deletion question is shown.
pub proof fn law_delete_needs_confirmation(a0: App, a1: App, k: KeyAction, e: Effect)
    requires
        key_step(a0, a1, k, e),
        e matches Effect::RunFileOp(op) && op is Delete,
    ensures
        a0.mode is Confirm,
        k is ConfirmYes,
{
}

/// An entry named `d` at `j` means there is a first one so named.
proof fn lemma_first_named_exists(entries: Seq<FileEntry>, d: Seq<char>, j: int)
    requires
        0 <= j < entries.len(),
        entries[j].name@ == d,
    ensures
        first_named(entries, d) matches Some(i) && 0 <= i < entries.len() && entries[i].name@ == d && forall|k: int|
            0 <= k < i ==> entries[k].name@ != d,
    decreases j,
{
    if exists|k: int| 0 <= k < j && #[trigger] entries[k].name@ == d {
        let k = choose|k: int| 0 <= k < j && #[trigger] entries[k].name@ == d;
        lemma_first_named_exists(entries, d, k);
    } else {
        assert(forall|k: int| 0 <= k < j ==> entries[k].name@ != d);
        assert(0 <= j < entries.len() && entries[j].name@ == d && forall|k: int| 0 <= k < j ==> entries[k].name@
            != d);
    }
}

/// Going back to the parent directory puts the cursor on the directory
/// just left, once the parent is listed and holds it.
pub proof fn law_back_to_parent_finds_left_dir(a0: App, a1: App, a2: App, e: Effect, raw: Vec<FileEntry>, j: int)
    requires
        go_parent_post(a0, a1, e),
        path_parent(a0.current_dir@) is Some,
        listing_applied(a1, a2, Ok(raw), None),
        0 <= j < a2.entries@.len(),
        a2.entries@[j].name@ == dir_name_of(a0.current_dir@),
    ensures
        a2.cursor < a2.entries@.len(),
        a2.entries@[a2.cursor as int].name@ == dir_name_of(a0.current_dir@),
        a2.current_dir@ == path_parent(a0.current_dir@)->0,
{
    let d = dir_name_of(a0.current_dir@);
    lemma_first_named_exists(a2.entries@, d, j);
    assert(a1.previous_dir matches Some(x) && x@ == d);
    assert(cursor_on(a2.entries@, d) == first_named(a2.entries@, d)->0);
}

/// In the viewer, `n` and then `N` come back to the match the viewer was at,
/// with that match's line on top.
pub proof fn law_next_then_prev_match(a0: App, a1: App, a2: App, e1: Effect, e2: Effect)
    requires
        a0.viewer is Some,
        a0.viewer->0.wf(),
        a0.viewer->0.search_matches@.len() > 0,
        viewer_step(a0, a1, KeyAction::ViewerNextMatch, e1),
        viewer_step(a1, a2, KeyAction::ViewerPrevMatch, e2),
    ensures
        ({
            let v = a0.viewer->0;
            a2.viewer matches Some(w) && w.current_match == v.current_match && w.scroll
                == v.search_matches@[v.current_match as int] && w.lines == v.lines && w.search_matches
                == v.search_matches
        }),
{
    let v = a0.viewer->0;
    crate::viewer::law_next_then_prev(v.search_matches@.len() as int, v.current_match as int);
}

/// The cursor is on an entry, or at the top of an empty list.
pub open spec fn cursor_in_list(a: App) -> bool {
    if a.entries@.len() == 0 {
        a.cursor == 0
    } else {
        a.cursor < a.entries@.len()
    }
}

/// The entry `cursor_on` picks is in the list, or the list is empty.
proof fn lemma_cursor_on_in_list(entries: Seq<FileEntry>, name: Seq<char>)
    ensures
        entries.len() == 0 ==> cursor_on(entries, name) == 0,
        entries.len() > 0 ==> 0 <= cursor_on(entries, name) < entries.len(),
{
    if first_named(entries, name) is Some {
        let j = choose|j: int| 0 <= j < entries.len() && #[trigger] entries[j].name@ == name;
        lemma_first_named_exists(entries, name, j);
    }
}

/// Whatever key comes, the cursor stays on an entry of the list, or at the
/// top of an empty list.
pub proof fn law_keys_keep_cursor_in_list(a0: App, a1: App, k: KeyAction, e: Effect)
    requires
        cursor_in_list(a0),
        key_step(a0, a1, k, e),
    ensures
        cursor_in_list(a1),
{
    let n = a0.entries@.len() as int;
    let rows = a0.rows_per_col as int;
    if n > 0 {
        crate::nav::law_moves_stay_in_list(a0.cursor as int, rows, n);
    }
}

/// Whatever outside work reports, the cursor stays on an entry of the
/// list, or at the top of an empty list.
pub proof fn law_results_keep_cursor_in_list(a0: App, a1: App, o: Outcome, e: Effect)
    requires
        cursor_in_list(a0),
        complete_step(a0, a1, o, e),
    ensures
        cursor_in_list(a1),
{
    match a0.pending {
        Pending::Listing { focus } => {
            if let Outcome::Listing(res) = o {
                match res {
                    Ok(raw) => {
                        match focus {
                            Some(f) => lemma_cursor_on_in_list(a1.entries@, f@),
                            None => match a0.previous_dir {
                                Some(p) => lemma_cursor_on_in_list(a1.entries@, p@),
                                None => {},
                            },
                        }
                    },
                    Err(_) => {
                        if let Some(f) = focus {
                            lemma_cursor_on_in_list(a0.entries@, f@);
                        }
                    },
                }
            }
        },
        _ => {},
    }
}

/// The prompt holds text `b` with the cursor at `p`.
pub open spec fn prompt_is(a: App, b: Seq<char>, p: int) -> bool {
    a.mode matches AppMode::Input { buffer, cursor_pos, .. } && buffer@ == b && cursor_pos == p
}

/// In a prompt, typing a character and then Backspace gives back the text
/// and the cursor from before, and nothing else changes.
pub proof fn law_prompt_type_then_backspace(a0: App, a1: App, a2: App, c: char, e1: Effect, e2: Effect)
    requires
        a0.wf(),
        a0.mode is Input,
        key_step(a0, a1, KeyAction::InputChar(c), e1),
        key_step(a1, a2, KeyAction::InputBackspace, e2),
    ensures
        a2 == (App { mode: a2.mode, ..a0 }),
        prompt_is(a2, a0.mode->Input_buffer@, a0.mode->Input_cursor_pos as int),
        a2.mode->Input_purpose == a0.mode->Input_purpose,
        a2.mode->Input_prompt == a0.mode->Input_prompt,
        e1 is Idle && e2 is Idle,
{
    crate::line_edit::law_type_then_backspace(a0.mode->Input_buffer@, a0.mode->Input_cursor_pos as int, c);
}

/// The editing keys of a prompt keep its cursor inside its text. At the
/// start, Backspace and Left change nothing; at the end, Delete and Right
/// change nothing; inside, Delete takes out the character under the cursor
/// and leaves the cursor; Home and End go to the ends.
pub proof fn law_prompt_edits_stay_in_text(a0: App, a1: App, k: KeyAction, e: Effect)
    requires
        a0.wf(),
        a0.mode is Input,
        key_step(a0, a1, k, e),
        prompt_edit_of(a0.mode->Input_buffer@, a0.mode->Input_cursor_pos as int, k) is Some,
    ensures
        ({
            let b = a0.mode->Input_buffer@;
            let p = a0.mode->Input_cursor_pos as int;
            &&& a1.mode matches AppMode::Input { buffer, cursor_pos, .. } && cursor_pos <= buffer@.len()
            &&& (k is InputBackspace || k is InputCursorLeft) && p == 0 ==> prompt_is(a1, b, 0)
            &&& (k is InputDelete || k is InputCursorRight) && p == b.len() ==> prompt_is(a1, b, p)
            &&& k is InputDelete && p < b.len() ==> prompt_is(a1, b.remove(p), p)
            &&& k is InputCursorHome ==> prompt_is(a1, b, 0)
            &&& k is InputCursorEnd ==> prompt_is(a1, b, b.len() as int)
        }),
{
    let b = a0.mode->Input_buffer@;
    let p = a0.mode->Input_cursor_pos as int;
    let c = match k {
        KeyAction::InputChar(x) => x,
        _ => 'a',
    };
    crate::line_edit::law_cursor_stays_in_text(b, p, c);
    if p < b.len() {
        assert(crate::line_edit::removed(b, p, p + 1) =~= b.remove(p));
    }
}

/// On the help screen, every key but the one that closes it keeps the
/// scroll position within the last position that still fills the window.
pub proof fn law_help_scroll_bounded(a0: App, a1: App, k: KeyAction, e: Effect)
    requires
        a0.mode is Help,
        a0.mode->scroll <= nav::saturating_sub_of(HELP_LINE_COUNT as int, nav::saturating_sub_of(
            a0.terminal_height as int,
            4,
        )),
        key_step(a0, a1, k, e),
        !(k is HelpClose),
    ensures
        a1.terminal_height == a0.terminal_height,
        a1.mode is Help,
        a1.mode->scroll <= nav::saturating_sub_of(HELP_LINE_COUNT as int, nav::saturating_sub_of(
            a1.terminal_height as int,
            4,
        )),
{
    let v = nav::saturating_sub_of(a0.terminal_height as int, 4);
    nav::law_scroll_bounded(a0.mode->scroll as int, v, HELP_LINE_COUNT as int);
}

/// Every key in the editor keeps the editor well-formed, marks it modified
/// whenever its lines change, and clears its message.
pub proof fn law_editor_keys_keep_editor(a0: App, a1: App, k: KeyAction, e: Effect)
    requires
        a0.mode is Editor,
        a0.editor is Some,
        a0.editor->0.wf(),
        key_step(a0, a1, k, e),
    ensures
        a1.editor matches Some(ed2) ==> {
            &&& ed2.wf()
            &&& text_of(ed2.lines@) != text_of(a0.editor->0.lines@) ==> ed2.modified
            &&& ed2.message is None
        },
{
    let ed = a0.editor->0;
    let rows = nav::saturating_sub_of(a0.terminal_height as int, 4);
    let c = match k {
        KeyAction::EditorChar(x) => x,
        _ => 'a',
    };
    crate::editor::law_editing_keeps_wf(ed.view_of(), c, rows);
}

/// In the editor, Enter and then Backspace give back the lines and the
/// cursor from before.
pub proof fn law_editor_enter_then_backspace(a0: App, a1: App, a2: App, e1: Effect, e2: Effect)
    requires
        a0.mode is Editor,
        a0.editor is Some,
        a0.editor->0.wf(),
        key_step(a0, a1, KeyAction::EditorEnter, e1),
        key_step(a1, a2, KeyAction::EditorBackspace, e2),
    ensures
        a2.editor matches Some(w) && w.view_of() == a0.editor->0.view_of(),
{
    crate::editor::law_enter_then_backspace(a0.editor->0.view_of());
}

/// Enter on a directory of the list, outside search results, asks whether
/// that directory can be entered, and nothing else changes but the message.
proof fn lemma_enter_asks(a0: App, a1: App, e1: Effect)
    requires
        a0.mode is Normal,
        !a0.search_results,
        a0.cursor < a0.entries@.len(),
        a0.entries@[a0.cursor as int].entry_type == EntryType::Directory,
        !a0.entries@[a0.cursor as int].is_parent,
        key_step(a0, a1, KeyAction::Enter, e1),
    ensures
        a1 == (App { pending: a1.pending, error_message: None, ..a0 }),
        a1.pending matches Pending::EnterDir { target, from_parent } && target@
            == a0.entries@[a0.cursor as int].path@ && !from_parent,
{
}

/// Entering a directory found readable makes it the current directory and
/// asks for its listing.
proof fn lemma_entered(a1: App, a2: App, e2: Effect)
    requires
        a1.pending matches Pending::EnterDir { from_parent, .. } && !from_parent,
        complete_step(a1, a2, Outcome::DirChecked(Ok(())), e2),
    ensures
        a2.current_dir@ == a1.pending->EnterDir_target@,
        a2.mode == a1.mode,
        a2.search_results == a1.search_results,
        a2.pending == (Pending::Listing { focus: None }),
{
}

/// A listing taken in keeps the mode, the directory and the search state,
/// and leaves nothing waiting.
proof fn lemma_listed(a2: App, a3: App, e3: Effect, raw: Vec<FileEntry>)
    requires
        a2.pending is Listing,
        complete_step(a2, a3, Outcome::Listing(Ok(raw)), e3),
    ensures
        a3.current_dir == a2.current_dir,
        a3.mode == a2.mode,
        a3.search_results == a2.search_results,
        a3.show_hidden == a2.show_hidden,
        a3.pending is Nothing,
        a3.selected_indices == a2.selected_indices,
        listing_of(a2.current_dir@, raw@, a2.show_hidden, a3.entries@),
        a3.cursor == cursor_after_listing(a3.entries@, a2.previous_dir, a2.pending->focus),
{
}

/// Entering a directory of the list and going back to the parent puts the
/// cursor on that directory again, once both directories are listed and
/// the parent still holds it.
#[verifier::rlimit(60)]
pub proof fn law_enter_then_back(
    a0: App,
    a1: App,
    a2: App,
    a3: App,
    a4: App,
    a5: App,
    e1: Effect,
    e2: Effect,
    e3: Effect,
    e4: Effect,
    e5: Effect,
    raw1: Vec<FileEntry>,
    raw2: Vec<FileEntry>,
    j: int,
)
    requires
        a0.mode is Normal,
        !a0.search_results,
        a0.cursor < a0.entries@.len(),
        a0.entries@[a0.cursor as int].entry_type == EntryType::Directory,
        !a0.entries@[a0.cursor as int].is_parent,
        path_parent(a0.entries@[a0.cursor as int].path@) == Some(a0.current_dir@),
        path_file_name(a0.entries@[a0.cursor as int].path@) == Some(a0.entries@[a0.cursor as int].name@),
        key_step(a0, a1, KeyAction::Enter, e1),
        complete_step(a1, a2, Outcome::DirChecked(Ok(())), e2),
        complete_step(a2, a3, Outcome::Listing(Ok(raw1)), e3),
        key_step(a3, a4, KeyAction::Backspace, e4),
        complete_step(a4, a5, Outcome::Listing(Ok(raw2)), e5),
        0 <= j < a5.entries@.len(),
        a5.entries@[j].name@ == a0.entries@[a0.cursor as int].name@,
    ensures
        a5.current_dir@ == a0.current_dir@,
        a5.cursor < a5.entries@.len(),
        a5.entries@[a5.cursor as int].name@ == a0.entries@[a0.cursor as int].name@,
        a5.selected_indices@.len() == 0,
{
    let entry = a0.entries@[a0.cursor as int];
    lemma_enter_asks(a0, a1, e1);
    lemma_entered(a1, a2, e2);
    lemma_listed(a2, a3, e3, raw1);
    assert(a3.current_dir@ == entry.path@);
    assert(dir_name_of(a3.current_dir@) == entry.name@);
    let o = App { error_message: None, ..a3 };
    assert(go_parent_post(o, a4, e4));
    law_back_to_parent_finds_left_dir(o, a4, a5, e4, raw2, j);
}

/// Lists whose names agree one by one have their first entry of a name at
/// the same place.
proof fn lemma_first_named_same(s1: Seq<FileEntry>, s2: Seq<FileEntry>, d: Seq<char>, j: int)
    requires
        same_entries(s1, s2),
        0 <= j < s1.len(),
        s1[j].name@ == d,
    ensures
        first_named(s1, d) == first_named(s2, d),
{
    assert(same_entry(s1[j], s2[j]));
    lemma_first_named_exists(s1, d, j);
    lemma_first_named_exists(s2, d, j);
    let x = first_named(s1, d)->0;
    let y = first_named(s2, d)->0;
    if x < y {
        assert(same_entry(s1[x], s2[x]));
    } else if y < x {
        assert(same_entry(s1[y], s2[y]));
    }
}

/// A directory read as the same entries lists the same way: two listings
/// of it agree entry by entry.
pub proof fn law_listing_unique(
    dir: Seq<char>,
    raw: Seq<FileEntry>,
    show_hidden: bool,
    e1: Seq<FileEntry>,
    e2: Seq<FileEntry>,
)
    requires
        listing_of(dir, raw, show_hidden, e1),
        listing_of(dir, raw, show_hidden, e2),
    ensures
        same_entries(e1, e2),
{
    let m1 = choose|m: Seq<FileEntry>|
        members_of(dir, raw, show_hidden, m) && #[trigger] m.to_multiset() == e1.to_multiset() && exists|
            perm: Seq<int>,
        | stable_arrangement(m, e1, perm);
    let m2 = choose|m: Seq<FileEntry>|
        members_of(dir, raw, show_hidden, m) && #[trigger] m.to_multiset() == e2.to_multiset() && exists|
            perm: Seq<int>,
        | stable_arrangement(m, e2, perm);
    let p1 = choose|perm: Seq<int>| stable_arrangement(m1, e1, perm);
    let p2 = choose|perm: Seq<int>| stable_arrangement(m2, e2, perm);
    assert(members_of(dir, raw, show_hidden, m1));
    assert(members_of(dir, raw, show_hidden, m2));
    assert(same_entries(m1, m2)) by {
        if path_parent(dir) is Some {
            assert(m1.len() == m1.skip(1).len() + 1);
            assert(m2.len() == m2.skip(1).len() + 1);
            assert forall|i: int| 0 <= i < m1.len() implies same_entry(#[trigger] m1[i], m2[i]) by {
                if i > 0 {
                    assert(m1[i] == m1.skip(1)[i - 1]);
                    assert(m2[i] == m2.skip(1)[i - 1]);
                }
            }
        } else {
            assert forall|i: int| 0 <= i < m1.len() implies same_entry(#[trigger] m1[i], m2[i]) by {
                assert(m1[i] == m2[i]);
            }
        }
    }
    law_stable_sort_unique(m1, m2, e1, e2, p1, p2);
}

/// The list after H, the listing, H again and the listing again, the
/// directory read the same both times.
proof fn lemma_toggle_twice_steps(
    a0: App,
    a1: App,
    a2: App,
    a3: App,
    a4: App,
    e1: Effect,
    e2: Effect,
    e3: Effect,
    e4: Effect,
    raw: Vec<FileEntry>,
)
    requires
        a0.mode is Normal,
        a0.cursor < a0.entries@.len(),
        key_step(a0, a1, KeyAction::ToggleHidden, e1),
        complete_step(a1, a2, Outcome::Listing(Ok(raw)), e2),
        key_step(a2, a3, KeyAction::ToggleHidden, e3),
        complete_step(a3, a4, Outcome::Listing(Ok(raw)), e4),
    ensures
        a4.show_hidden == a0.show_hidden,
        a4.current_dir == a0.current_dir,
        a2.show_hidden == !a0.show_hidden,
        listing_of(a0.current_dir@, raw@, !a0.show_hidden, a2.entries@),
        listing_of(a0.current_dir@, raw@, a0.show_hidden, a4.entries@),
        a2.cursor == cursor_on(a2.entries@, a0.entries@[a0.cursor as int].name@),
        a2.cursor < a2.entries@.len() ==> a4.cursor == cursor_on(a4.entries@, a2.entries@[a2.cursor as int].name@),
        a4.selected_indices@.len() == 0,
{
}

/// An entry of a listing without hidden entries has its name in the
/// listing of the same read with them.
proof fn lemma_shown_keeps_names(
    dir: Seq<char>,
    raw: Seq<FileEntry>,
    e0: Seq<FileEntry>,
    e2: Seq<FileEntry>,
    x: FileEntry,
)
    requires
        listing_of(dir, raw, false, e0),
        listing_of(dir, raw, true, e2),
        e0.contains(x),
    ensures
        exists|j: int| 0 <= j < e2.len() && #[trigger] e2[j].name@ == x.name@,
{
    let m0 = choose|m: Seq<FileEntry>|
        members_of(dir, raw, false, m) && #[trigger] m.to_multiset() == e0.to_multiset() && exists|
            perm: Seq<int>,
        | stable_arrangement(m, e0, perm);
    let m2 = choose|m: Seq<FileEntry>|
        members_of(dir, raw, true, m) && #[trigger] m.to_multiset() == e2.to_multiset() && exists|
            perm: Seq<int>,
        | stable_arrangement(m, e2, perm);
    assert(members_of(dir, raw, false, m0));
    assert(members_of(dir, raw, true, m2));
    vstd::seq_lib::to_multiset_contains(e0, x);
    vstd::seq_lib::to_multiset_contains(m0, x);
    let i = choose|i: int| 0 <= i < m0.len() && m0[i] == x;
    let has_parent = path_parent(dir) is Some;
    let y = if has_parent && i == 0 {
        m2[0]
    } else {
        x
    };
    if has_parent && i == 0 {
        assert(m2[0] == y);
    } else {
        let l0 = listed_upto(raw, false, raw.len() as int);
        if has_parent {
            assert(m0.skip(1)[i - 1] == x);
            assert(l0.contains(x));
        } else {
            assert(l0[i] == x);
        }
        lemma_listed_was_read(raw, false, raw.len() as int, x);
        let k = choose|k: int| 0 <= k < raw.len() && raw[k] == x;
        lemma_all_listed(raw, raw.len() as int, k);
        let l2 = listed_upto(raw, true, raw.len() as int);
        let j = choose|j: int| 0 <= j < l2.len() && l2[j] == x;
        if has_parent {
            assert(m2.skip(1)[j] == x);
            assert(m2[j + 1] == x);
        } else {
            assert(m2[j] == x);
        }
    }
    assert(m2.contains(y));
    assert(y.name@ == x.name@);
    vstd::seq_lib::to_multiset_contains(m2, y);
    vstd::seq_lib::to_multiset_contains(e2, y);
    let j = choose|j: int| 0 <= j < e2.len() && e2[j] == y;
    assert(e2[j].name@ == x.name@);
}

/// Showing hidden entries lists every entry read, and hiding them again,
/// the directory read the same way each time, gives back the list that was
/// shown, with the cursor on the first entry of the name it was on and
/// nothing selected.
pub proof fn law_toggle_hidden_twice(
    a0: App,
    a1: App,
    a2: App,
    a3: App,
    a4: App,
    e1: Effect,
    e2: Effect,
    e3: Effect,
    e4: Effect,
    raw: Vec<FileEntry>,
)
    requires
        a0.mode is Normal,
        !a0.show_hidden,
        a0.cursor < a0.entries@.len(),
        listing_of(a0.current_dir@, raw@, a0.show_hidden, a0.entries@),
        key_step(a0, a1, KeyAction::ToggleHidden, e1),
        complete_step(a1, a2, Outcome::Listing(Ok(raw)), e2),
        key_step(a2, a3, KeyAction::ToggleHidden, e3),
        complete_step(a3, a4, Outcome::Listing(Ok(raw)), e4),
    ensures
        a2.show_hidden,
        forall|k: int| 0 <= k < raw@.len() ==> a2.entries@.contains(#[trigger] raw@[k]),
        a2.entries@[a2.cursor as int].name@ == a0.entries@[a0.cursor as int].name@,
        a4.show_hidden == a0.show_hidden,
        a4.current_dir == a0.current_dir,
        same_entries(a4.entries@, a0.entries@),
        a4.cursor == cursor_on(a0.entries@, a0.entries@[a0.cursor as int].name@),
        a4.entries@[a4.cursor as int].name@ == a0.entries@[a0.cursor as int].name@,
        a4.selected_indices@.len() == 0,
{
    let n = a0.entries@[a0.cursor as int].name@;
    let dir = a0.current_dir@;
    lemma_toggle_twice_steps(a0, a1, a2, a3, a4, e1, e2, e3, e4, raw);
    assert(a0.entries@.contains(a0.entries@[a0.cursor as int]));
    lemma_shown_keeps_names(dir, raw@, a0.entries@, a2.entries@, a0.entries@[a0.cursor as int]);
    let j2 = choose|j: int| 0 <= j < a2.entries@.len() && #[trigger] a2.entries@[j].name@ == n;
    lemma_first_named_exists(a2.entries@, n, j2);
    assert(a2.entries@[a2.cursor as int].name@ == n);
    assert forall|k: int| 0 <= k < raw@.len() implies a2.entries@.contains(#[trigger] raw@[k]) by {
        lemma_read_is_shown(dir, raw@, a2.entries@, k);
    }
    law_listing_unique(dir, raw@, a0.show_hidden, a4.entries@, a0.entries@);
    assert(same_entries(a0.entries@, a4.entries@)) by {
        assert forall|i: int| 0 <= i < a0.entries@.len() implies same_entry(
            #[trigger] a0.entries@[i],
            a4.entries@[i],
        ) by {
            assert(same_entry(a4.entries@[i], a0.entries@[i]));
        }
    }
    lemma_first_named_same(a0.entries@, a4.entries@, n, a0.cursor as int);
    lemma_first_named_exists(a0.entries@, n, a0.cursor as int);
}

/// With hidden entries shown, every entry read is in the listing.
proof fn lemma_read_is_shown(dir: Seq<char>, raw: Seq<FileEntry>, e2: Seq<FileEntry>, k: int)
    requires
        listing_of(dir, raw, true, e2),
        0 <= k < raw.len(),
    ensures
        e2.contains(raw[k]),
{
    let m2 = choose|m: Seq<FileEntry>|
        members_of(dir, raw, true, m) && #[trigger] m.to_multiset() == e2.to_multiset() && exists|
            perm: Seq<int>,
        | stable_arrangement(m, e2, perm);
    assert(members_of(dir, raw, true, m2));
    lemma_all_listed(raw, raw.len() as int, k);
    let l2 = listed_upto(raw, true, raw.len() as int);
    let j = choose|j: int| 0 <= j < l2.len() && l2[j] == raw[k];
    if path_parent(dir) is Some {
        assert(m2.skip(1)[j] == raw[k]);
        assert(m2[j + 1] == raw[k]);
    } else {
        assert(m2[j] == raw[k]);
    }
    assert(m2.contains(raw[k]));
    vstd::seq_lib::to_multiset_contains(m2, raw[k]);
    vstd::seq_lib::to_multiset_contains(e2, raw[k]);
}

/// A file search and leaving its results returns to the directory searched
/// from, listed again, with the cursor at the top and nothing selected.
pub proof fn law_search_then_exit(
    a0: App,
    a1: App,
    a2: App,
    a3: App,
    a4: App,
    e1: Effect,
    e2: Effect,
    e3: Effect,
    e4: Effect,
    found: Vec<FileEntry>,
    raw: Vec<FileEntry>,
)
    requires
        a0.mode matches AppMode::Input { purpose, buffer, .. } && purpose == InputPurpose::FileSearch
            && buffer@.len() > 0,
        !a0.search_results,
        a0.previous_dir is None,
        key_step(a0, a1, KeyAction::InputConfirm, e1),
        complete_step(a1, a2, Outcome::Found(found), e2),
        found@.len() > 0,
        key_step(a2, a3, KeyAction::Backspace, e3),
        complete_step(a3, a4, Outcome::Listing(Ok(raw)), e4),
    ensures
        !a4.search_results,
        a4.current_dir@ == a0.current_dir@,
        listing_of(a0.current_dir@, raw@, a0.show_hidden, a4.entries@),
        a4.cursor == 0,
        a4.selected_indices@.len() == 0,
{
    assert(a2.search_results);
    assert(a2.search_original_dir matches Some(d) && d@ == a0.current_dir@);
}
} // verus!
