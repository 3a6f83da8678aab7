use std::collections::HashSet;
use mdir::app::{App, AppMode};
use mdir::file_entry::{listing_members, sort_entries, EntryType, FileEntry, LocalTime};
use mdir::screen::{confirm_line, help_status, info_line, input_bar, list_cell, list_title, page_start};
use mdir::screen::{screen_kind, status_line, viewer_row, viewer_status, viewer_title};
use mdir::screen::{CellMark, LineMark, ScreenKind};
use mdir::viewer::ViewerState;

fn entry(name: &str, entry_type: EntryType, size: u64) -> FileEntry {
    FileEntry {
        name: name.to_string(),
        path: format!("/w/{}", name),
        entry_type,
        size,
        modified: None,
        is_parent: false,
    }
}

fn listed_app() -> App {
    let mut app = App::new("/w".to_string());
    let raw = vec![
        entry("docs", EntryType::Directory, 4096),
        entry("notes.txt", EntryType::File, 2048),
        entry("run.sh", EntryType::File, 12),
    ];
    let mut entries = listing_members("/w", raw, false);
    sort_entries(&mut entries);
    app.entries = entries;
    app
}

fn viewer(lines: &[&str]) -> ViewerState {
    ViewerState::new("notes.txt".to_string(), lines.iter().map(|s| s.to_string()).collect())
}

#[test]
fn screens_by_mode_and_size() {
    assert_eq!(screen_kind(&AppMode::Normal, 39, 30), ScreenKind::TooSmall);
    assert_eq!(screen_kind(&AppMode::Viewer, 80, 9), ScreenKind::TooSmall);
    assert_eq!(screen_kind(&AppMode::Viewer, 80, 24), ScreenKind::Viewer);
    let search = AppMode::ViewerSearch { buffer: String::new(), cursor_pos: 0 };
    assert_eq!(screen_kind(&search, 80, 24), ScreenKind::Viewer);
    assert_eq!(screen_kind(&AppMode::Help { scroll: 3 }, 80, 24), ScreenKind::Help);
    assert_eq!(screen_kind(&AppMode::Editor, 80, 24), ScreenKind::FileList);
    assert_eq!(screen_kind(&AppMode::Normal, 40, 10), ScreenKind::FileList);
}

#[test]
fn list_titles() {
    let mut app = listed_app();
    assert_eq!(list_title(&app, 80), " /w ");
    app.current_dir = "/a/very/long/directory/name/here".to_string();
    assert_eq!(list_title(&app, 20), " ...tory/name/here ");
    app.search_results = true;
    assert_eq!(list_title(&app, 20), " 검색 결과: 4개 ");
}

#[test]
fn pages_of_the_list() {
    assert_eq!(page_start(0, 20, 2), 0);
    assert_eq!(page_start(39, 20, 2), 0);
    assert_eq!(page_start(40, 20, 2), 40);
    assert_eq!(page_start(95, 10, 3), 90);
}

#[test]
fn list_cells_carry_their_highlight() {
    let mut app = listed_app();
    app.selected_indices = HashSet::from([2]);
    app.cursor = 1;
    assert_eq!(list_cell(&app, 1, 20), Some((format!(" {:<10} {:>8}", "docs", "<DIR>"), CellMark::Cursor)));
    assert_eq!(list_cell(&app, 2, 20), Some((format!("*{:<10} {:>8}", "notes.txt", "2K"), CellMark::Selected)));
    assert_eq!(list_cell(&app, 3, 20), Some((format!(" {:<10} {:>8}", "run.sh", "12"), CellMark::Plain)));
    assert_eq!(list_cell(&app, 4, 20), None);
}

#[test]
fn status_line_describes_the_entry() {
    let mut app = listed_app();
    app.cursor = 2;
    app.entries[2].modified = Some(LocalTime { year: 2025, month: 1, day: 31, hour: 8, minute: 0 });
    assert_eq!(status_line(&app, Some(0o644)), " notes.txt │ 2K │ 2025-01-31 08:00 │ rw-r--r--");
    app.selected_indices = HashSet::from([2, 3]);
    assert_eq!(status_line(&app, Some(0o644)), " notes.txt │ 2K │ 2025-01-31 08:00 │ rw-r--r-- [2개 선택]");
    app.cursor = 9;
    assert_eq!(status_line(&app, None), " [2개 선택]");
    app.selected_indices.clear();
    assert_eq!(status_line(&app, None), "");
}

#[test]
fn info_line_variants() {
    let mut app = listed_app();
    assert_eq!(info_line(&app, None), " Dir:1 File:2 │ ? V F N C M D R K Q");
    assert_eq!(
        info_line(&app, Some((3_221_225_472, 10_737_418_240, 30))),
        " Dir:1 File:2 │ 디스크: 3.0G/10.0G (30%) │ ? V F N C M D R K Q"
    );
    app.search_results = true;
    assert_eq!(info_line(&app, None), " Enter:이동 │ Backspace:검색종료 │ Q:종료");
    app.error_message = Some("실패".to_string());
    assert_eq!(info_line(&app, None), " ⚠ 실패");
}

#[test]
fn input_bar_splits_at_the_cursor() {
    let parts = input_bar("새 파일명:", "가나다", 1);
    assert_eq!(parts, (" 새 파일명: ".to_string(), "가".to_string(), "나".to_string(), "다".to_string()));
    let end = input_bar("/", "ab", 2);
    assert_eq!(end, (" / ".to_string(), "ab".to_string(), " ".to_string(), String::new()));
    assert_eq!(confirm_line("삭제?"), " 삭제?");
}

#[test]
fn viewer_rows_and_title() {
    let mut v = viewer(&["apple", "banana", "apricot"]);
    assert_eq!(viewer_title(&v), " notes.txt (3 lines) ");
    v.search(&"ap".to_string());
    assert_eq!(viewer_row(&v, 0), ("   1 ".to_string(), "apple".to_string(), LineMark::CurrentMatch));
    assert_eq!(viewer_row(&v, 1), ("   2 ".to_string(), "banana".to_string(), LineMark::Plain));
    assert_eq!(viewer_row(&v, 2), ("   3 ".to_string(), "apricot".to_string(), LineMark::Match));
    assert_eq!(viewer_row(&v, 3), ("~".to_string(), String::new(), LineMark::Filler));
}

#[test]
fn viewer_status_lines() {
    let mut v = viewer(&["a", "b", "c", "d"]);
    assert_eq!(viewer_status(&v), " L1/4 (0%) │ ↑↓ PgUp/Dn / n/N Q");
    v.scroll = 3;
    v.search(&"zz".to_string());
    assert_eq!(viewer_status(&v), " L4/4 (75%) │ 'zz' 매치 없음 │ ↑↓ PgUp/Dn / n/N Q");
    v.search(&"c".to_string());
    assert_eq!(viewer_status(&v), " L3/4 (50%) │ 'c' 1/1 │ ↑↓ PgUp/Dn / n/N Q");
    let empty = viewer(&[]);
    assert_eq!(viewer_status(&empty), " L1/0 (0%) │ ↑↓ PgUp/Dn / n/N Q");
}

#[test]
fn help_status_line() {
    assert_eq!(help_status(0, 128), " 1/128 (0%) │ ↑↓ PgUp/Dn │ Q/Esc/? 닫기");
    assert_eq!(help_status(64, 128), " 65/128 (50%) │ ↑↓ PgUp/Dn │ Q/Esc/? 닫기");
}
