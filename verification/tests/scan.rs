use enforcer::check::{scan, ScanResult, HAS_ILLEGAL_CHARACTERS, HAS_TABS};

#[test]
fn scan_of_nothing_finds_nothing() {
    let found = scan(b"");
    assert_eq!(found, ScanResult { has_tabs: false, has_illegal_characters: false });
}

#[test]
fn scan_finds_a_tab_anywhere() {
    assert!(scan(b"\tabc").has_tabs);
    assert!(scan(b"a\tbc").has_tabs);
    assert!(scan(b"abc\t").has_tabs);
    assert!(scan(b"a\nb\n\tc\n").has_tabs);
    assert!(!scan(b"abc def\n").has_tabs);
}

#[test]
fn scan_accepts_printable_ascii_and_common_whitespace() {
    let mut bytes: Vec<u8> = (0x20..=0x7e).collect();
    bytes.extend_from_slice(b"\n\r");
    let found = scan(&bytes);
    assert_eq!(found, ScanResult { has_tabs: false, has_illegal_characters: false });
}

#[test]
fn scan_rejects_every_other_byte() {
    for byte in 0..=255u8 {
        let legal = (0x20..=0x7e).contains(&byte) || byte == 9 || byte == 10 || byte == 13;
        let found = scan(&[b'a', byte, b'b']);
        assert_eq!(found.has_illegal_characters, !legal, "byte {}", byte);
        assert_eq!(found.has_tabs, byte == 9, "byte {}", byte);
    }
}

#[test]
fn scan_rejects_the_bytes_next_to_the_legal_range() {
    assert!(scan(&[0x1f]).has_illegal_characters);
    assert!(!scan(&[0x20]).has_illegal_characters);
    assert!(!scan(&[0x7e]).has_illegal_characters);
    assert!(scan(&[0x7f]).has_illegal_characters);
    assert!(scan(&[0x80]).has_illegal_characters);
    assert!(scan(&[0x00]).has_illegal_characters);
}

#[test]
fn scan_rejects_text_beyond_ascii() {
    assert!(scan("gr\u{fc}n".as_bytes()).has_illegal_characters);
    assert!(scan(&[0xef, 0xbb, 0xbf, b'a']).has_illegal_characters);
}

#[test]
fn scan_findings_do_not_depend_on_each_other() {
    assert_eq!(scan(b"a b"), ScanResult { has_tabs: false, has_illegal_characters: false });
    assert_eq!(scan(b"a\tb"), ScanResult { has_tabs: true, has_illegal_characters: false });
    assert_eq!(scan(b"a\x01b"), ScanResult { has_tabs: false, has_illegal_characters: true });
    assert_eq!(scan(b"\x01a\tb"), ScanResult { has_tabs: true, has_illegal_characters: true });
    assert_eq!(scan(b"\ta\x01b"), ScanResult { has_tabs: true, has_illegal_characters: true });
}

#[test]
fn bits_of_findings() {
    assert_eq!(HAS_TABS, 1);
    assert_eq!(HAS_ILLEGAL_CHARACTERS, 2);
    assert_eq!(ScanResult { has_tabs: false, has_illegal_characters: false }.bits(), 0);
    assert_eq!(ScanResult { has_tabs: true, has_illegal_characters: false }.bits(), 1);
    assert_eq!(ScanResult { has_tabs: false, has_illegal_characters: true }.bits(), 2);
    assert_eq!(ScanResult { has_tabs: true, has_illegal_characters: true }.bits(), 3);
}

#[test]
fn bits_can_be_tested_with_the_flags() {
    let bits = scan(b"a\tb").bits();
    assert!((bits & HAS_TABS) > 0);
    assert!((bits & HAS_ILLEGAL_CHARACTERS) == 0);
    let bits = scan(b"a\x7fb").bits();
    assert!((bits & HAS_TABS) == 0);
    assert!((bits & HAS_ILLEGAL_CHARACTERS) > 0);
}
