use r_lsp::text::{count_leading_whitespaces, count_white_space_prefix, get_line_text, trim_white_space, Document};

fn doc(text: &str) -> Document {
    Document { contents: text.to_string() }
}

#[test]
fn lines_are_cut_at_line_feeds() {
    let d = doc("ab\r\ncd\n\nef");
    assert_eq!(get_line_text(&d, 0, None, None), "ab");
    assert_eq!(get_line_text(&d, 1, None, None), "cd");
    assert_eq!(get_line_text(&d, 2, None, None), "");
    assert_eq!(get_line_text(&d, 3, None, None), "ef");
}

#[test]
fn line_past_the_end_is_empty() {
    let d = doc("ab\ncd\n");
    assert_eq!(get_line_text(&d, 2, None, None), "");
    assert_eq!(get_line_text(&d, 100, None, None), "");
    assert_eq!(get_line_text(&doc(""), 0, None, None), "");
}

#[test]
fn lone_carriage_return_stays() {
    let d = doc("a\rb\nc\r");
    assert_eq!(get_line_text(&d, 0, None, None), "a\rb");
    assert_eq!(get_line_text(&d, 1, None, None), "c\r");
}

#[test]
fn byte_offsets_select_part_of_a_line() {
    let d = doc("hello world\nsecond");
    assert_eq!(get_line_text(&d, 0, Some(6), None), "world");
    assert_eq!(get_line_text(&d, 0, None, Some(5)), "hello");
    assert_eq!(get_line_text(&d, 1, Some(2), Some(100)), "cond");
    assert_eq!(get_line_text(&d, 1, Some(50), Some(60)), "");
}

#[test]
fn byte_offsets_count_bytes_not_characters() {
    let d = doc("é#x");
    assert_eq!(get_line_text(&d, 0, Some(2), None), "#x");
}

#[test]
fn leading_white_space_is_counted_per_line() {
    let d = doc("x\n    y\n\t z\n");
    assert_eq!(count_leading_whitespaces(&d, 0), 0);
    assert_eq!(count_leading_whitespaces(&d, 1), 4);
    assert_eq!(count_leading_whitespaces(&d, 2), 2);
    assert_eq!(count_leading_whitespaces(&d, 3), 0);
    assert_eq!(count_leading_whitespaces(&d, 9), 0);
}

#[test]
fn white_space_is_unicode_white_space() {
    assert_eq!(count_white_space_prefix("\u{3000}\u{a0} x"), 3);
    assert_eq!(count_white_space_prefix("\u{200b}x"), 0);
    assert_eq!(count_white_space_prefix("   "), 3);
}

#[test]
fn trim_removes_both_ends() {
    assert_eq!(trim_white_space("  a b \t"), "a b");
    assert_eq!(trim_white_space("   "), "");
    assert_eq!(trim_white_space("x"), "x");
    assert_eq!(trim_white_space(""), "");
    assert_eq!(trim_white_space(&trim_white_space(" \n q \n")), "q");
}
