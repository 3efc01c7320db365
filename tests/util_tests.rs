use rasp::util::{calculate_line_info, line_from_index, LineInfo};

#[test]
fn lines_of_two_line_text() {
    let info = calculate_line_info("ab\ncd");
    assert_eq!(
        info,
        vec![
            LineInfo { line: 0, source_start: 0, source_end: 2 },
            LineInfo { line: 1, source_start: 3, source_end: 4 }
        ]
    );
}

#[test]
fn lines_of_empty_text() {
    let info = calculate_line_info("");
    assert_eq!(info, vec![LineInfo { line: 0, source_start: 0, source_end: usize::MAX }]);
}

#[test]
fn trailing_newline_gives_an_empty_last_line() {
    let info = calculate_line_info("x\n");
    assert_eq!(
        info,
        vec![
            LineInfo { line: 0, source_start: 0, source_end: 1 },
            LineInfo { line: 1, source_start: 2, source_end: 1 }
        ]
    );
}

#[test]
fn line_lookup_by_index() {
    let info = calculate_line_info("ab\ncd\nef");
    assert_eq!(line_from_index(&info, 0), Some(0));
    assert_eq!(line_from_index(&info, 4), Some(1));
    assert_eq!(line_from_index(&info, 6), Some(2));
    assert_eq!(line_from_index(&info, 2), None);
}
