use gremp::contains_substr;
use gremp::lines_of;
use gremp::search;

#[test]
fn lines_split_at_newlines() {
    assert_eq!(lines_of("one\ntwo\nthree"), vec!["one", "two", "three"]);
}

#[test]
fn trailing_newline_opens_no_extra_line() {
    assert_eq!(lines_of("one\ntwo\n"), vec!["one", "two"]);
    assert_eq!(lines_of("\n"), vec![""]);
}

#[test]
fn crlf_is_a_single_terminator() {
    assert_eq!(lines_of("one\r\ntwo\r\n"), vec!["one", "two"]);
    assert_eq!(
        vec![(1, "one"), (2, "two")],
        search("", "one\r\ntwo\r\n")
    );
}

#[test]
fn lone_carriage_return_stays_in_its_line() {
    assert_eq!(lines_of("a\rb\nc"), vec!["a\rb", "c"]);
    assert_eq!(lines_of("tail\r"), vec!["tail\r"]);
}

#[test]
fn empty_contents_hold_no_lines() {
    assert_eq!(lines_of(""), Vec::<&str>::new());
}

#[test]
fn empty_lines_between_terminators_are_kept() {
    assert_eq!(lines_of("a\n\nb"), vec!["a", "", "b"]);
}

#[test]
fn containment_is_contiguous_and_exact() {
    assert!(contains_substr("productive", "duct"));
    assert!(contains_substr("anything", ""));
    assert!(contains_substr("", ""));
    assert!(!contains_substr("", "a"));
    assert!(!contains_substr("Duct", "duct"));
    assert!(!contains_substr("d-u-c-t", "duct"));
    assert!(contains_substr("héllo", "él"));
}
