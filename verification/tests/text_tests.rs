use modmod::text::{demote_headings, replace_all, to_tag, trim, usize_to_string};

#[test]
fn tag_of_simple_title() {
    assert_eq!(to_tag("Intro"), "intro");
}

#[test]
fn tag_of_mixed_title() {
    assert_eq!(to_tag("Hello World!"), "hello-world-");
}

#[test]
fn tag_of_digits_kept() {
    assert_eq!(to_tag("Unit 2"), "unit-2");
}

#[test]
fn tag_of_empty() {
    assert_eq!(to_tag(""), "");
}

#[test]
fn decimal_rendering() {
    assert_eq!(usize_to_string(0), "0");
    assert_eq!(usize_to_string(7), "7");
    assert_eq!(usize_to_string(42), "42");
    assert_eq!(usize_to_string(100), "100");
    assert_eq!(usize_to_string(90210), "90210");
}

#[test]
fn replace_simple() {
    assert_eq!(replace_all("a cat sat", "cat", "dog"), "a dog sat");
}

#[test]
fn replace_all_occurrences() {
    assert_eq!(replace_all("xx-xx-xx", "xx", "y"), "y-y-y");
}

#[test]
fn replace_scans_without_overlap() {
    assert_eq!(replace_all("aaa", "aa", "b"), "ba");
}

#[test]
fn replace_at_both_ends() {
    assert_eq!(replace_all("abcab", "ab", "Z"), "ZcZ");
}

#[test]
fn replace_absent_pattern() {
    assert_eq!(replace_all("hello", "xyz", "!"), "hello");
}

#[test]
fn replace_grows_text() {
    assert_eq!(replace_all("a.b", ".", "..."), "a...b");
}

#[test]
fn demote_leading_heading() {
    assert_eq!(demote_headings("# Title\nbody"), "### Title\nbody");
}

#[test]
fn demote_inner_heading_only_at_line_start() {
    assert_eq!(demote_headings("## x\n# y\nz # w"), "## x\n### y\nz # w");
}

#[test]
fn demote_needs_marker_space() {
    assert_eq!(demote_headings("#nospace\n#also"), "#nospace\n#also");
}

#[test]
fn trim_both_ends() {
    assert_eq!(trim("  \n\thello world \r\n"), "hello world");
}

#[test]
fn trim_all_whitespace() {
    assert_eq!(trim(" \t\r\n"), "");
}

#[test]
fn trim_keeps_inner_whitespace() {
    assert_eq!(trim(" a  b "), "a  b");
}
