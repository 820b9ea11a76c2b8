use project_mouse::logs::{last_lines, lines_of};

#[test]
fn lines_split_at_newlines_and_crlf() {
    assert_eq!(lines_of("a\nb\r\nc"), vec!["a", "b", "c"]);
    assert_eq!(lines_of("a\nb\n"), vec!["a", "b"]);
    assert_eq!(lines_of(""), Vec::<String>::new());
    assert_eq!(lines_of("\n\n"), vec!["", ""]);
    assert_eq!(lines_of("x\r"), vec!["x\r"]);
    assert_eq!(lines_of("é\r\nü"), vec!["é", "ü"]);
}

#[test]
fn the_tail_is_the_newest_lines_oldest_first() {
    let log = "one\ntwo\nthree\nfour\n";
    assert_eq!(last_lines(log, 2), vec!["three", "four"]);
    assert_eq!(last_lines(log, 10), vec!["one", "two", "three", "four"]);
    assert_eq!(last_lines(log, 0), Vec::<String>::new());
    assert_eq!(last_lines("", 5), Vec::<String>::new());
}

#[test]
fn the_tail_agrees_with_std_lines() {
    let log = "2026-01-01 INFO started\r\n2026-01-01 WARN odd\n\nlast line";
    let expected: Vec<String> = log.lines().rev().take(3).map(str::to_string).collect::<Vec<_>>().into_iter().rev().collect();
    assert_eq!(last_lines(log, 3), expected);
}

#[test]
fn a_final_line_ending_is_optional() {
    assert_eq!(lines_of("a\nb"), lines_of("a\nb\n"));
    assert_eq!(lines_of("a\nb"), lines_of("a\nb\r\n"));
    assert_eq!(lines_of("x\r"), lines_of("x\r\r\n"));
    assert_ne!(lines_of("x\r"), lines_of("x\r\n"));
    assert_ne!(lines_of(""), lines_of("\n"));
}
