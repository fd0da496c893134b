use fr::{
    find_subslice, regex_extract, regex_replace, static_extract, static_replace, FrErr, MatchMode, Opts,
    OutputMode, RecordProcessor, RegexMatcher,
};

fn matcher(p: &str) -> RegexMatcher {
    RegexMatcher::new(p).expect("pattern compiles")
}

#[test]
fn find_subslice_leftmost() {
    assert_eq!(find_subslice(b"abcabc", b"bc"), Some(1));
    assert_eq!(find_subslice(b"abcabc", b"cab"), Some(2));
    assert_eq!(find_subslice(b"abc", b"abc"), Some(0));
}

#[test]
fn find_subslice_absent_or_too_long() {
    assert_eq!(find_subslice(b"abc", b"abd"), None);
    assert_eq!(find_subslice(b"ab", b"abc"), None);
    assert_eq!(find_subslice(b"", b"a"), None);
}

#[test]
fn find_subslice_empty_needle() {
    assert_eq!(find_subslice(b"abc", b""), Some(0));
    assert_eq!(find_subslice(b"", b""), Some(0));
}

#[test]
fn static_replace_unbounded() {
    assert_eq!(static_replace(b"a-b-c", b"-", b"+", usize::MAX), b"a+b+c".to_vec());
}

#[test]
fn static_replace_bounded_leftmost_first() {
    assert_eq!(static_replace(b"aaa", b"a", b"b", 1), b"baa".to_vec());
    assert_eq!(static_replace(b"xaxaxa", b"xa", b"Y", 2), b"YYxa".to_vec());
}

#[test]
fn static_replace_keeps_record_without_match() {
    assert_eq!(static_replace(b"hello", b"z", b"Q", usize::MAX), b"hello".to_vec());
    assert_eq!(static_replace(b"", b"z", b"Q", usize::MAX), Vec::<u8>::new());
}

#[test]
fn static_replace_zero_bound() {
    assert_eq!(static_replace(b"aaa", b"a", b"b", 0), b"aaa".to_vec());
}

#[test]
fn static_replace_non_overlapping() {
    assert_eq!(static_replace(b"aaaa", b"aa", b"b", usize::MAX), b"bb".to_vec());
    assert_eq!(static_replace(b"aaa", b"aa", b"b", usize::MAX), b"ba".to_vec());
}

#[test]
fn static_replace_empty_pattern_moves_forward() {
    assert_eq!(static_replace(b"ab", b"", b"X", usize::MAX), b"XaXbX".to_vec());
    assert_eq!(static_replace(b"ab", b"", b"X", 2), b"XaXb".to_vec());
    assert_eq!(static_replace(b"", b"", b"X", usize::MAX), b"X".to_vec());
}

#[test]
fn static_replace_with_pattern_is_identity() {
    assert_eq!(static_replace(b"abcabcab", b"abc", b"abc", usize::MAX), b"abcabcab".to_vec());
}

#[test]
fn static_extract_bounded() {
    assert_eq!(static_extract(b"ababab", b"ab", b"ab", 2), b"abab".to_vec());
}

#[test]
fn static_extract_template_per_match() {
    assert_eq!(static_extract(b"a1a2a3", b"a", b"<>", usize::MAX), b"<><><>".to_vec());
}

#[test]
fn static_extract_advances_past_the_match() {
    // The template is longer than the pattern: the scan still resumes right
    // after each match, so no match is skipped.
    assert_eq!(static_extract(b"abab", b"a", b"xyz", usize::MAX), b"xyzxyz".to_vec());
}

#[test]
fn static_extract_nothing() {
    assert_eq!(static_extract(b"hello", b"z", b"z", usize::MAX), Vec::<u8>::new());
    assert_eq!(static_extract(b"zzz", b"z", b"z", 0), Vec::<u8>::new());
}

#[test]
fn regex_replace_all() {
    let re = matcher("o");
    assert_eq!(regex_replace(&re, b"foo", b"0", usize::MAX), b"f00".to_vec());
}

#[test]
fn regex_replace_bounded() {
    let re = matcher("a");
    assert_eq!(regex_replace(&re, b"aaaa", b"X", 2), b"XXaa".to_vec());
}

#[test]
fn regex_replace_zero_bound_is_identity() {
    let re = matcher("a");
    assert_eq!(regex_replace(&re, b"aaaa", b"X", 0), b"aaaa".to_vec());
}

#[test]
fn regex_replace_expands_groups() {
    let re = matcher(r"(\w+)=(\w+)");
    assert_eq!(regex_replace(&re, b"k=v; a=b", b"$2:$1", usize::MAX), b"v:k; b:a".to_vec());
}

#[test]
fn regex_replace_no_match() {
    let re = matcher("[0-9]");
    assert_eq!(regex_replace(&re, b"letters", b"#", usize::MAX), b"letters".to_vec());
}

#[test]
fn regex_replace_empty_matches() {
    let re = matcher("");
    assert_eq!(regex_replace(&re, b"ab", b"X", usize::MAX), b"XaXbX".to_vec());
}

#[test]
fn regex_extract_whole_match() {
    let re = matcher("[0-9]+");
    assert_eq!(regex_extract(&re, b"x12y34", b"$0", usize::MAX), b"1234".to_vec());
}

#[test]
fn regex_extract_template_and_bound() {
    let re = matcher(r"(\d)(\d)");
    assert_eq!(regex_extract(&re, b"12 34 56", b"[$2$1]", 2), b"[21][43]".to_vec());
}

#[test]
fn regex_extract_no_match() {
    let re = matcher("z");
    assert_eq!(regex_extract(&re, b"hello", b"$0", usize::MAX), Vec::<u8>::new());
}

#[test]
fn regex_matcher_rejects_bad_pattern() {
    assert!(RegexMatcher::new("foo(bar").is_err());
    assert!(RegexMatcher::new("foo(bar)").is_ok());
}

#[test]
fn opts_without_template_extracts() {
    let o = Opts::new("ab".to_string(), None, None, false, true, "x".to_string());
    assert_eq!(o.output_mode, OutputMode::Extract("ab".to_string()));
    assert_eq!(o.match_mode, MatchMode::Verbatim);
    assert_eq!(o.max, usize::MAX);
    assert_eq!(o.delimiter, "x");

    let o = Opts::new("a+".to_string(), None, Some(3), false, false, "x".to_string());
    assert_eq!(o.output_mode, OutputMode::Extract("$0".to_string()));
    assert_eq!(o.match_mode, MatchMode::Regex);
    assert_eq!(o.max, 3);
}

#[test]
fn opts_with_template() {
    let o = Opts::new("a".to_string(), Some("b".to_string()), None, false, false, "x".to_string());
    assert_eq!(o.output_mode, OutputMode::Replace("b".to_string()));
    let o = Opts::new("a".to_string(), Some("b".to_string()), None, true, false, "x".to_string());
    assert_eq!(o.output_mode, OutputMode::Extract("b".to_string()));
}

#[test]
fn processor_invalid_pattern_is_regex_error() {
    let o = Opts::new("(".to_string(), None, None, false, false, "\n".to_string());
    match RecordProcessor::new(&o, b"\n") {
        Err(FrErr::Regex(_)) => {}
        _ => panic!("expected a regex error"),
    }
}

#[test]
fn processor_verbatim_pattern_need_not_compile() {
    let o = Opts::new("(".to_string(), None, None, false, true, "\n".to_string());
    let p = RecordProcessor::new(&o, b"\n").expect("verbatim never fails");
    assert_eq!(p.emit(b"a(b("), b"((\n".to_vec());
}

#[test]
fn io_error_converts() {
    let e: FrErr = std::io::Error::new(std::io::ErrorKind::Other, "boom").into();
    assert!(matches!(e, FrErr::Io(_)));
}
