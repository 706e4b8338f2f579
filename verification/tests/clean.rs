use enforcer::check::clean_string;

#[test]
fn test_clean_does_not_remove_trailing_newline() {
    let content = "1\n2\n3\n4\n5\n";
    let cleaned = clean_string(content);
    assert!(cleaned.eq(content));
}

#[test]
fn test_clean_trailing_whitespace() {
    let content = "1 \n2";
    let cleaned = clean_string(content);
    println!("{:?}", cleaned);
    assert!(cleaned.eq("1\n2"));
}

#[test]
fn clean_strips_spaces_and_tabs_of_every_line() {
    assert_eq!(clean_string("a \t \nb\t\n c \n"), "a\nb\n c\n");
}

#[test]
fn clean_keeps_leading_whitespace_and_tabs_inside_a_line() {
    assert_eq!(clean_string("\tif x {\n\t\ta\tb  \n\t}\n"), "\tif x {\n\t\ta\tb\n\t}\n");
}

#[test]
fn clean_keeps_blank_lines() {
    assert_eq!(clean_string("a\n\n\nb\n\n"), "a\n\n\nb\n\n");
    assert_eq!(clean_string("a\n \n\t\nb"), "a\n\n\nb");
}

#[test]
fn clean_of_empty_text_is_empty() {
    assert_eq!(clean_string(""), "");
}

#[test]
fn clean_of_blanks_only_is_empty() {
    assert_eq!(clean_string("  \t "), "");
}

#[test]
fn clean_of_line_feeds_only_is_unchanged() {
    assert_eq!(clean_string("\n"), "\n");
    assert_eq!(clean_string("\n\n\n"), "\n\n\n");
}

#[test]
fn clean_does_not_add_a_final_line_feed() {
    assert_eq!(clean_string("a\nb  "), "a\nb");
    assert_eq!(clean_string("a"), "a");
}

#[test]
fn clean_of_a_blank_last_line_leaves_the_line_feed_before_it() {
    assert_eq!(clean_string("a\n  "), "a\n");
}

#[test]
fn clean_leaves_carriage_returns_alone() {
    assert_eq!(clean_string("a \r\nb\r\n"), "a \r\nb\r\n");
}

#[test]
fn clean_keeps_other_whitespace() {
    assert_eq!(clean_string("a\u{a0}\nb\u{b}\n"), "a\u{a0}\nb\u{b}\n");
}

#[test]
fn clean_handles_text_beyond_ascii() {
    assert_eq!(clean_string("gr\u{fc}n \nbl\u{e4}u\t\n\u{1f600} "), "gr\u{fc}n\nbl\u{e4}u\n\u{1f600}");
}

#[test]
fn clean_is_idempotent() {
    let texts = [
        "",
        " ",
        "\n",
        "a \n b \n",
        "a\n  ",
        "x\t \t\n\n  y  \n\t",
        "no trailing blank\nhere\n",
        " \n \n \n",
    ];
    for text in texts {
        let once = clean_string(text);
        let twice = clean_string(&once);
        assert_eq!(twice, once);
    }
}

#[test]
fn clean_is_the_identity_on_clean_text() {
    let texts = ["", "\n", "a", "a\n", "a\nb", "  a\n\tb\n\n", "a\r\n", "\n\n a"];
    for text in texts {
        assert_eq!(clean_string(text), text);
    }
}

fn all_texts(alphabet: &[char], longest: usize) -> Vec<String> {
    let mut texts = vec![String::new()];
    let mut from = 0;
    for _ in 0..longest {
        let to = texts.len();
        for i in from..to {
            for c in alphabet {
                let mut text = texts[i].clone();
                text.push(*c);
                texts.push(text);
            }
        }
        from = to;
    }
    texts
}

fn cleaned_line_by_line(text: &str) -> String {
    let lines: Vec<&str> = text
        .split('\n')
        .map(|line| line.trim_end_matches(|c| c == ' ' || c == '\t'))
        .collect();
    lines.join("\n")
}

fn no_line_ends_blank(text: &str) -> bool {
    text.split('\n').all(|line| !line.ends_with(' ') && !line.ends_with('\t'))
}

#[test]
fn clean_strips_each_line_of_every_short_text() {
    for text in all_texts(&['a', ' ', '\t', '\n', '\r'], 6) {
        assert_eq!(clean_string(&text), cleaned_line_by_line(&text), "{:?}", text);
    }
}

#[test]
fn clean_is_idempotent_on_every_short_text() {
    for text in all_texts(&['a', ' ', '\t', '\n'], 6) {
        let once = clean_string(&text);
        assert_eq!(clean_string(&once), once, "{:?}", text);
    }
}

#[test]
fn clean_changes_exactly_the_short_texts_with_a_blank_line_end() {
    for text in all_texts(&['a', ' ', '\t', '\n'], 6) {
        let cleaned = clean_string(&text);
        assert_eq!(cleaned == text, no_line_ends_blank(&text), "{:?}", text);
        assert!(no_line_ends_blank(&cleaned), "{:?}", text);
    }
}

#[test]
fn clean_keeps_the_number_of_lines_and_the_final_line_feed() {
    for text in all_texts(&['a', ' ', '\t', '\n'], 6) {
        let cleaned = clean_string(&text);
        assert_eq!(cleaned.split('\n').count(), text.split('\n').count(), "{:?}", text);
        if text.ends_with('\n') {
            assert!(cleaned.ends_with('\n'), "{:?}", text);
        }
    }
}
