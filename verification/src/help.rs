//! The text shown by the help screen.

use vstd::prelude::*;

verus! {

/// Number of lines of the built-in help screen.
pub const HELP_LINE_COUNT: usize = 128;

/// The text of the built-in help screen, one entry per screen line.
pub const HELP_LINES: [&'static str; HELP_LINE_COUNT] = [
    "",
    "  ╔══════════════════════════════════════════════════════════════╗",
    "  ║              mdir 도움말  (MS-DOS Mdir 3.x 클론)           ║",
    "  ╚══════════════════════════════════════════════════════════════╝",
    "",
    "",
    "  [네비게이션]",
    "",
    "    ↑ / ↓              커서를 위/아래로 이동",
    "    ← / →              컬럼 간 이동 (멀티 컬럼 모드에서)",
    "    Enter              디렉토리 진입",
    "    Backspace          상위 디렉토리로 이동",
    "    Home / End         목록의 처음/끝으로 이동",
    "    PageUp / PageDown  페이지 단위로 이동",
    "",
    "",
    "  [파일 선택 및 CRUD]",
    "",
    "    Space              파일/디렉토리 선택 토글 (복수 선택 가능)",
    "    C                  선택한 항목을 다른 경로로 복사",
    "                       (선택 없으면 커서 위치 항목)",
    "    M                  선택한 항목을 다른 경로로 이동",
    "                       (선택 없으면 커서 위치 항목)",
    "    D                  선택한 항목 삭제 (Y/N 확인 후 실행)",
    "                       (선택 없으면 커서 위치 항목)",
    "    R                  커서 위치 파일/디렉토리 이름 변경",
    "    K                  현재 디렉토리에 새 폴더 생성",
    "    N                  현재 디렉토리에 새 빈 파일 생성",
    "",
    "",
    "  [내부 뷰어]  (V 키로 진입)",
    "",
    "    V                  텍스트 파일 내용 보기 (10MB 이하만 가능)",
    "                       바이너리 파일은 자동 감지되어 열리지 않음",
    "",
    "    뷰어 모드 단축키:",
    "      ↑ / ↓            한 줄 스크롤",
    "      PageUp / PageDown  페이지 단위 스크롤",
    "      Home / End       파일 처음/끝으로 이동",
    "      /                텍스트 검색 (검색어 입력 후 Enter)",
    "      n                다음 검색 매치로 이동",
    "      N                이전 검색 매치로 이동",
    "      Q / Esc          뷰어 닫기",
    "",
    "    검색 매치는 노란색으로, 현재 매치는 노란색 반전으로 강조",
    "",
    "",
    "  [내부 에디터]  (E 키로 진입)",
    "",
    "    E                  텍스트 파일 편집 (10MB 이하, 바이너리 제외)",
    "",
    "    에디터 모드 단축키:",
    "      ↑ / ↓            커서 위/아래 이동",
    "      ← / →            커서 좌/우 이동 (줄 경계 시 줄 이동)",
    "      Home / End       줄의 처음/끝으로 이동",
    "      PageUp / PageDown  페이지 단위 이동",
    "      Backspace        커서 앞 문자 삭제 (줄 시작이면 윗줄과 병합)",
    "      Delete           커서 위치 문자 삭제 (줄 끝이면 아랫줄과 병합)",
    "      Enter            현재 위치에서 줄 분할",
    "      Ctrl+S           파일 저장",
    "      Esc              에디터 닫기 (수정 시 저장 확인)",
    "",
    "    * 수정된 파일은 타이틀에 [*] 표시",
    "    * 한글 등 멀티바이트 문자 편집 지원",
    "",
    "",
    "  [파일 검색]  (F 키로 진입)",
    "",
    "    F                  현재 디렉토리 하위 재귀 검색",
    "                       패턴을 입력하면 하위 모든 파일을 탐색",
    "",
    "    패턴 예시:",
    "      *.rs             모든 Rust 소스 파일",
    "      test*            \"test\"로 시작하는 파일",
    "      *.tar.gz         모든 tar.gz 압축 파일",
    "      README?          README + 임의 한 글자",
    "      config           \"config\" 포함 파일 (부분 일치)",
    "",
    "    검색 결과에서:",
    "      Enter            해당 파일이 있는 디렉토리로 이동",
    "      Backspace        원래 위치로 복귀",
    "",
    "    * 패턴은 대소문자를 구분하지 않음",
    "    * 와일드카드 없이 입력하면 부분 일치로 검색",
    "",
    "",
    "  [입력 모드]  (이름변경, 폴더/파일 생성, 복사/이동 경로 입력 시)",
    "",
    "    ← / →              커서 좌/우 이동",
    "    Home / End         입력 시작/끝으로 이동",
    "    Delete             커서 위치 문자 삭제",
    "    Backspace          커서 앞 문자 삭제",
    "    Enter              입력 확인",
    "    Esc                입력 취소",
    "",
    "",
    "  [표시 설정]",
    "",
    "    H                  숨김 파일(. 시작) 표시/숨김 토글",
    "",
    "",
    "  [컬럼 레이아웃]",
    "",
    "    터미널 너비  80 미만    →  1컬럼",
    "    터미널 너비  80~119     →  2컬럼",
    "    터미널 너비 120 이상    →  3컬럼",
    "",
    "",
    "  [파일 타입별 색상]",
    "",
    "    디렉토리             하늘색 (굵게)",
    "    심볼릭 링크          보라색",
    "    압축 파일            노란색  (.tar.gz, .zip, .rar, .7z 등)",
    "    실행 파일            녹색",
    "    일반 파일            흰색",
    "",
    "    * 스타일 우선순위: 커서(흰 배경) > 선택(노란색) > 타입별 색상",
    "",
    "",
    "  [기타]",
    "",
    "    ?                  이 도움말 표시",
    "    Q / F10            프로그램 종료",
    "    Ctrl+C             프로그램 종료",
    "",
    "",
    "  Q, Esc, ? 키를 누르면 도움말을 닫습니다.",
    "",
];


/// The help screen as owned strings, in display order.
pub fn generate_help_lines() -> (lines: Vec<String>)
    ensures
        lines@.len() == HELP_LINE_COUNT,
        forall|i: int| 0 <= i < HELP_LINE_COUNT ==> #[trigger] lines@[i]@ == HELP_LINES@[i]@,
{
    broadcast use vstd::string::group_string_axioms;

    let mut lines: Vec<String> = Vec::new();
    let mut i: usize = 0;
    while i < HELP_LINE_COUNT
        invariant
            i <= HELP_LINE_COUNT,
            lines@.len() == i,
            forall|k: int| 0 <= k < i ==> #[trigger] lines@[k]@ == HELP_LINES@[k]@,
        decreases HELP_LINE_COUNT - i,
    {
        let line: &str = HELP_LINES[i];
        lines.push(line.to_string());
        i = i + 1;
    }
    lines
}

} // verus!
