use pj::text::{
    contains, decimal, equal, flatten, join, signed_decimal, split, starts_with, to_chars,
};

fn strings(parts: &[&str]) -> Vec<String> {
    parts.iter().map(|part| part.to_string()).collect()
}

#[test]
fn to_chars_keeps_every_character_in_order() {
    assert_eq!(to_chars("abc"), vec!['a', 'b', 'c']);
    assert_eq!(to_chars(""), Vec::<char>::new());
    assert_eq!(to_chars("päth/ü"), vec!['p', 'ä', 't', 'h', '/', 'ü']);
}

#[test]
fn equal_compares_whole_texts() {
    assert!(equal("web", "web"));
    assert!(equal("", ""));
    assert!(!equal("web", "web2"));
    assert!(!equal("web", "wEb"));
    assert!(!equal("web", ""));
}

#[test]
fn starts_with_looks_at_the_front_only() {
    assert!(starts_with("~/code", "~/"));
    assert!(starts_with("~/", "~/"));
    assert!(starts_with("anything", ""));
    assert!(!starts_with("~", "~/"));
    assert!(!starts_with("/~/", "~/"));
    assert!(!starts_with("", "~/"));
}

#[test]
fn contains_finds_a_pattern_anywhere() {
    assert!(contains("web: 2 windows", "web: "));
    assert!(contains("api: 1 windows\nweb: 2 windows", "web: "));
    assert!(contains("trailing web: ", "web: "));
    assert!(contains("abc", ""));
    assert!(contains("", ""));
    assert!(!contains("web:2", "web: "));
    assert!(!contains("we", "web"));
    assert!(!contains("", "a"));
}

#[test]
fn contains_handles_overlapping_starts() {
    assert!(contains("aaab", "aab"));
    assert!(contains("ababac", "abac"));
    assert!(!contains("ababab", "abac"));
}

#[test]
fn split_cuts_at_every_separator() {
    assert_eq!(split("a,b,,c", ','), strings(&["a", "b", "", "c"]));
    assert_eq!(split("%1,web", ','), strings(&["%1", "web"]));
    assert_eq!(split("one\ntwo\n", '\n'), strings(&["one", "two", ""]));
    assert_eq!(split(",", ','), strings(&["", ""]));
}

#[test]
fn split_without_separator_gives_the_text_itself() {
    assert_eq!(split("plain", ','), strings(&["plain"]));
    assert_eq!(split("", ','), strings(&[""]));
}

#[test]
fn split_counts_characters_not_bytes() {
    assert_eq!(split("ä,öü,", ','), strings(&["ä", "öü", ""]));
}

#[test]
fn join_puts_the_separator_between_neighbours() {
    assert_eq!(join(&strings(&["cd /x", "clear", "ls"]), " && "), "cd /x && clear && ls");
    assert_eq!(join(&strings(&["only"]), " && "), "only");
    assert_eq!(join(&strings(&[]), " && "), "");
    assert_eq!(join(&strings(&["", ""]), ","), ",");
}

#[test]
fn join_undoes_split() {
    for text in ["", "a", "a,b", ",a,,b,", "no separator", ",,,"] {
        assert_eq!(join(&split(text, ','), ","), text);
    }
}

#[test]
fn decimal_writes_numbers_without_leading_zeros() {
    assert_eq!(decimal(0), "0");
    assert_eq!(decimal(7), "7");
    assert_eq!(decimal(9), "9");
    assert_eq!(decimal(10), "10");
    assert_eq!(decimal(105), "105");
    assert_eq!(decimal(1234567890), "1234567890");
    assert_eq!(decimal(u64::MAX), "18446744073709551615");
}

#[test]
fn signed_decimal_puts_a_minus_before_negative_numbers() {
    assert_eq!(signed_decimal(0), "0");
    assert_eq!(signed_decimal(1), "1");
    assert_eq!(signed_decimal(-1), "-1");
    assert_eq!(signed_decimal(-127), "-127");
    assert_eq!(signed_decimal(i64::MAX), "9223372036854775807");
    assert_eq!(signed_decimal(i64::MIN), "-9223372036854775808");
}

#[test]
fn flatten_replaces_line_breaks_by_blanks() {
    assert_eq!(flatten("one\ntwo"), "one two");
    assert_eq!(flatten("one\n\ntwo\n"), "one  two ");
    assert_eq!(flatten("no break"), "no break");
    assert_eq!(flatten(""), "");
    assert!(!flatten("a\nb\nc\n").contains('\n'));
}
