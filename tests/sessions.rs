use fr::{Opts, RecordProcessor};
use regex_chunker::ByteChunker;

/// Splits `input` by the default delimiter and runs every record through a
/// processor for `opts`, as a session does.
fn run(opts: &Opts, input: &[u8]) -> Vec<u8> {
    let p = RecordProcessor::new(opts, b"\n").expect("valid options");
    let mut out = Vec::new();
    for chunk in ByteChunker::new(input, &opts.delimiter).expect("delimiter compiles") {
        let chunk = chunk.expect("in-memory read");
        out.extend_from_slice(&p.emit(&chunk));
    }
    out
}

fn opts(pattern: &str, template: Option<&str>, max: Option<usize>, extract: bool, simple: bool) -> Opts {
    Opts::new(
        pattern.to_string(),
        template.map(|t| t.to_string()),
        max,
        extract,
        simple,
        r"\r?\n".to_string(),
    )
}

#[test]
fn scenario_regex_replace_unbounded() {
    let o = opts("o", Some("0"), None, false, false);
    assert_eq!(run(&o, b"foo\nbar\n"), b"f00\nbar\n".to_vec());
}

#[test]
fn scenario_verbatim_replace_max_one() {
    let o = opts("a", Some("b"), Some(1), false, true);
    assert_eq!(run(&o, b"aaa\n"), b"baa\n".to_vec());
}

#[test]
fn scenario_regex_extract_no_template() {
    let o = opts("[0-9]+", None, None, false, false);
    assert_eq!(run(&o, b"x12y34\n"), b"1234\n".to_vec());
}

#[test]
fn scenario_verbatim_extract_max_two() {
    let o = opts("ab", None, Some(2), false, true);
    assert_eq!(run(&o, b"ababab\n"), b"abab\n".to_vec());
}

#[test]
fn scenario_regex_extract_nothing_matches() {
    let o = opts("z", None, None, false, false);
    assert_eq!(run(&o, b"hello\n"), Vec::<u8>::new());
}

#[test]
fn crlf_delimiter_and_missing_final_newline() {
    let o = opts("o", Some("0"), None, false, false);
    assert_eq!(run(&o, b"foo\r\nboo"), b"f00\nb00\n".to_vec());
}

#[test]
fn replace_without_match_keeps_record_in_both_modes() {
    let r = opts("z", Some("Q"), None, false, false);
    assert_eq!(run(&r, b"hello\n"), b"hello\n".to_vec());
    let v = opts("z", Some("Q"), None, false, true);
    assert_eq!(run(&v, b"hello\n"), b"hello\n".to_vec());
}

#[test]
fn zero_bound_replace_is_identity_in_both_modes() {
    let r = opts("l", Some("L"), Some(0), false, false);
    assert_eq!(run(&r, b"hello\n"), b"hello\n".to_vec());
    let v = opts("l", Some("L"), Some(0), false, true);
    assert_eq!(run(&v, b"hello\n"), b"hello\n".to_vec());
}

#[test]
fn zero_bound_extract_is_empty_in_both_modes() {
    let r = opts("l", None, Some(0), false, false);
    assert_eq!(run(&r, b"hello\nll\n"), Vec::<u8>::new());
    let v = opts("l", None, Some(0), false, true);
    assert_eq!(run(&v, b"hello\nll\n"), Vec::<u8>::new());
}

#[test]
fn bounded_replace_keeps_the_tail() {
    let r = opts("ab", Some("X"), Some(2), false, false);
    assert_eq!(run(&r, b"ababab-ab\n"), b"XXab-ab\n".to_vec());
    let v = opts("ab", Some("X"), Some(2), false, true);
    assert_eq!(run(&v, b"ababab-ab\n"), b"XXab-ab\n".to_vec());
}

#[test]
fn extract_two_matches_without_separator() {
    let r = opts("[a-c]+", None, None, false, false);
    assert_eq!(run(&r, b"ab--c\n"), b"abc\n".to_vec());
    let v = opts("xy", None, None, false, true);
    assert_eq!(run(&v, b"xy..xy.\n"), b"xyxy\n".to_vec());
}

#[test]
fn self_replacement_round_trip_verbatim() {
    let v = opts("ab", Some("ab"), None, false, true);
    assert_eq!(run(&v, b"abab-a-b-ab\nab\n"), b"abab-a-b-ab\nab\n".to_vec());
}

#[test]
fn extract_with_explicit_template() {
    let r = opts(r"(\w)(\w)", Some("$2$1"), None, true, false);
    assert_eq!(run(&r, b"abcd e\nxy\n"), b"badc\nyx\n".to_vec());
}

#[test]
fn empty_records_in_replace_mode_still_emit_terminator() {
    let r = opts("a", Some("b"), None, false, false);
    assert_eq!(run(&r, b"\n\na\n"), b"\n\nb\n".to_vec());
}
