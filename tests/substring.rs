use substr_rs::pattern::text_between_matches;
use substr_rs::Substring;

#[test]
fn get_substring_between_chars() {
    let r = Substring::from("XKBLAYOUT=\"de\"", '"', '"');
    assert_eq!(r, Some("de".to_string()));
}

#[test]
fn get_substring_between_strings() {
    let r = Substring::from("SomeSubstringData", "Some", "Data");
    assert_eq!(r, Some("Substring".to_string()));
}

#[test]
fn get_substring_regex() {
    let result = Substring::from_regex(
        "<script id='main'>console.log('Hello, World!');</script>",
        "<script[^>]*>",
        "</script",
    )
    .unwrap();

    assert_eq!(result, "console.log('Hello, World!');");
}

#[test]
fn get_substring_index() {
    let r = Substring::from_index("SomeSubstringData", 4, 13);
    assert_eq!(r, Some("Substring".to_string()));
}

#[test]
fn chars_as_delimiters() {
    assert_eq!(Substring::from("SomeSubstringData", 'e', 'D'), Some("Substring".to_string()));
}

#[test]
fn owned_strings_as_delimiters() {
    let r = Substring::from("key=[value]", "[".to_string(), "]".to_string());
    assert_eq!(r, Some("value".to_string()));
}

#[test]
fn missing_start_gives_none() {
    assert_eq!(Substring::from("abcdef", "x", "f"), None);
}

#[test]
fn end_only_before_start_gives_none() {
    // The end delimiter occurs, but only before the start delimiter.
    assert_eq!(Substring::from("end ... start tail", "start", "end"), None);
}

#[test]
fn end_searched_after_start() {
    assert_eq!(Substring::from("b a x b y b", "a", "b"), Some(" x ".to_string()));
}

#[test]
fn same_delimiter_takes_first_two() {
    assert_eq!(Substring::from("|one|two|", '|', '|'), Some("one".to_string()));
}

#[test]
fn same_delimiter_adjacent_gives_empty() {
    assert_eq!(Substring::from("x''y", '\'', '\''), Some(String::new()));
}

#[test]
fn same_delimiter_without_second_gives_none() {
    assert_eq!(Substring::from("only \" one", '"', '"'), None);
}

#[test]
fn overlapping_delimiters_are_not_reused() {
    // The end must start at or after the end of the start delimiter.
    assert_eq!(Substring::from("aaa", "aa", "aa"), None);
}

#[test]
fn empty_delimiters_give_none() {
    assert_eq!(Substring::from("abc", "", ""), None);
}

#[test]
fn empty_start_and_end_at_front_gives_none() {
    assert_eq!(Substring::from("abc", "", "a"), None);
}

#[test]
fn empty_start_takes_prefix() {
    assert_eq!(Substring::from("abc", "", "c"), Some("ab".to_string()));
}

#[test]
fn empty_end_gives_empty_text() {
    assert_eq!(Substring::from("abc", "a", ""), Some(String::new()));
}

#[test]
fn empty_text_gives_none() {
    assert_eq!(Substring::from("", "a", "b"), None);
}

#[test]
fn multibyte_text_between_literals() {
    assert_eq!(Substring::from("«grüße»", '«', '»'), Some("grüße".to_string()));
}

#[test]
fn regex_invalid_start_pattern_gives_none() {
    assert_eq!(Substring::from_regex("abc(def)", "(", "\\)"), None);
}

#[test]
fn regex_invalid_end_pattern_gives_none() {
    assert_eq!(Substring::from_regex("abc(def)", "c", "["), None);
}

#[test]
fn regex_missing_start_gives_none() {
    assert_eq!(Substring::from_regex("abc", "x+", "c"), None);
}

#[test]
fn regex_end_only_before_start_gives_none() {
    assert_eq!(Substring::from_regex("</b> <b>", "<b>", "</b>"), None);
}

#[test]
fn regex_end_searched_after_start() {
    let r = Substring::from_regex("1 [2] 3 [4]", "\\[", "\\]");
    assert_eq!(r, Some("2".to_string()));
}

#[test]
fn regex_empty_match_at_start_gives_none() {
    // Both patterns match the empty string at offset 0.
    assert_eq!(Substring::from_regex("abc", "", ""), None);
}

#[test]
fn regex_multibyte_text() {
    let r = Substring::from_regex("ä=«wert»;", "«", "»");
    assert_eq!(r, Some("wert".to_string()));
}

#[test]
fn between_matches_exact_slice() {
    let r = text_between_matches("<b>bold</b>", 0, 3, 7);
    assert_eq!(r, Some("bold".to_string()));
}

#[test]
fn between_matches_end_not_after_start() {
    assert_eq!(text_between_matches("<b>bold</b>", 3, 3, 3), None);
}

#[test]
fn between_matches_empty_gap() {
    assert_eq!(text_between_matches("ab", 0, 1, 1), Some(String::new()));
}

#[test]
fn between_matches_off_boundary_gives_none() {
    // Byte 2 falls inside the two-byte encoding of 'é'.
    assert_eq!(text_between_matches("aé b", 0, 2, 3), None);
}

#[test]
fn index_start_not_before_end_gives_none() {
    assert_eq!(Substring::from_index("SomeSubstringData", 5, 5), None);
    assert_eq!(Substring::from_index("SomeSubstringData", 6, 2), None);
}

#[test]
fn index_end_past_length_gives_none() {
    assert_eq!(Substring::from_index("abc", 1, 4), None);
    assert_eq!(Substring::from_index("abc", 0, usize::MAX), None);
}

#[test]
fn index_whole_text() {
    assert_eq!(Substring::from_index("abc", 0, 3), Some("abc".to_string()));
}

#[test]
fn index_empty_text_gives_none() {
    assert_eq!(Substring::from_index("", 0, 0), None);
}

#[test]
fn index_inside_multibyte_char_gives_none() {
    // "é" takes bytes 1..3 of "aéb".
    assert_eq!(Substring::from_index("aéb", 0, 2), None);
    assert_eq!(Substring::from_index("aéb", 2, 4), None);
}

#[test]
fn index_on_multibyte_boundaries() {
    assert_eq!(Substring::from_index("aéb", 1, 3), Some("é".to_string()));
}

#[test]
fn repeated_calls_agree() {
    let a = Substring::from("k=\"v\"", '"', '"');
    let b = Substring::from("k=\"v\"", '"', '"');
    assert_eq!(a, b);
    let c = Substring::from_regex("x<1>y", "<", ">");
    let d = Substring::from_regex("x<1>y", "<", ">");
    assert_eq!(c, d);
    assert_eq!(Substring::from_index("hello", 1, 3), Substring::from_index("hello", 1, 3));
}
