use enforcer::text::{chars_of, line_end, push_range, string_of};

#[test]
fn chars_of_a_string_are_its_characters() {
    assert_eq!(chars_of(""), Vec::<char>::new());
    assert_eq!(chars_of("a\tb"), vec!['a', '\t', 'b']);
    assert_eq!(chars_of("gr\u{fc}n\u{1f600}"), vec!['g', 'r', '\u{fc}', 'n', '\u{1f600}']);
}

#[test]
fn string_of_a_range_holds_that_range() {
    let chars = chars_of("hello world");
    assert_eq!(string_of(&chars, 0, 5), "hello");
    assert_eq!(string_of(&chars, 6, 11), "world");
    assert_eq!(string_of(&chars, 3, 3), "");
    assert_eq!(string_of(&chars, 0, 11), "hello world");
}

#[test]
fn push_range_appends_to_what_is_there() {
    let chars = chars_of("abcdef");
    let mut out = String::from("x");
    push_range(&mut out, &chars, 1, 4);
    assert_eq!(out, "xbcd");
    push_range(&mut out, &chars, 4, 4);
    assert_eq!(out, "xbcd");
    push_range(&mut out, &chars, 5, 6);
    assert_eq!(out, "xbcdf");
}

#[test]
fn line_end_is_the_next_line_feed_or_the_end() {
    let chars = chars_of("ab\n\ncd");
    assert_eq!(line_end(&chars, 0), 2);
    assert_eq!(line_end(&chars, 1), 2);
    assert_eq!(line_end(&chars, 2), 2);
    assert_eq!(line_end(&chars, 3), 3);
    assert_eq!(line_end(&chars, 4), 6);
    assert_eq!(line_end(&chars, 6), 6);
    assert_eq!(line_end(&chars_of(""), 0), 0);
}
