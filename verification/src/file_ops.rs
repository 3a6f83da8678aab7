//! The checks a new file or directory name must pass before the file system
//! is touched.

use vstd::prelude::*;
use crate::text::{to_chars, contains_char, append_str};

verus! {

/// The message for a name holding a path separator.
pub open spec fn separator_message() -> Seq<char> {
    "이름에 경로 구분자를 포함할 수 없습니다"@
}

/// What is wrong with `name` as the name of a new entry, if anything: it is
/// empty (reported as `empty_message`), or it holds `/` or `\`.
pub open spec fn name_problem(name: Seq<char>, empty_message: Seq<char>) -> Option<Seq<char>> {
    if name.len() == 0 {
        Some(empty_message)
    } else if name.contains('/') || name.contains('\\') {
        Some(separator_message())
    } else {
        None
    }
}

/// Checks a new name; the error is the message to show.
pub fn check_new_name(name: &str, empty_message: &str) -> (r: Result<(), String>)
    ensures
        match r {
            Ok(()) => name_problem(name@, empty_message@) is None,
            Err(m) => name_problem(name@, empty_message@) == Some(m@),
        },
{
    let chars = to_chars(name);
    if chars.len() == 0 {
        let mut m = String::new();
        append_str(&mut m, empty_message);
        return Err(m);
    }
    if contains_char(&chars, '/') || contains_char(&chars, '\\') {
        let mut m = String::new();
        append_str(&mut m, "이름에 경로 구분자를 포함할 수 없습니다");
        return Err(m);
    }
    Ok(())
}

/// Checks the new name of a renamed entry.
pub fn rename_check(new_name: &str) -> (r: Result<(), String>)
    ensures
        match r {
            Ok(()) => name_problem(new_name@, "새 이름이 비어있습니다"@) is None,
            Err(m) => name_problem(new_name@, "새 이름이 비어있습니다"@) == Some(m@),
        },
{
    check_new_name(new_name, "새 이름이 비어있습니다")
}

/// Checks the name of a new directory.
pub fn mkdir_check(name: &str) -> (r: Result<(), String>)
    ensures
        match r {
            Ok(()) => name_problem(name@, "디렉토리명이 비어있습니다"@) is None,
            Err(m) => name_problem(name@, "디렉토리명이 비어있습니다"@) == Some(m@),
        },
{
    check_new_name(name, "디렉토리명이 비어있습니다")
}

/// Checks the name of a new file.
pub fn new_file_check(name: &str) -> (r: Result<(), String>)
    ensures
        match r {
            Ok(()) => name_problem(name@, "파일명이 비어있습니다"@) is None,
            Err(m) => name_problem(name@, "파일명이 비어있습니다"@) == Some(m@),
        },
{
    check_new_name(name, "파일명이 비어있습니다")
}

} // verus!
