use enforcer::check::{check_content, Report, ScanResult};

#[test]
fn findings_are_those_of_the_content_as_given() {
    let outcome = check_content("a\tb\t\nc\n", true);
    assert_eq!(outcome.findings, ScanResult { has_tabs: true, has_illegal_characters: false });
    assert_eq!(outcome.rewrite, Some(String::from("a\tb\nc\n")));
}

#[test]
fn a_trailing_tab_is_found_even_though_cleaning_removes_it() {
    let outcome = check_content("a\t\n", true);
    assert!(outcome.findings.has_tabs);
    assert_eq!(outcome.rewrite, Some(String::from("a\n")));
}

#[test]
fn nothing_is_rewritten_without_cleaning() {
    let outcome = check_content("a\tb\t\nc  \n", false);
    assert_eq!(outcome.findings, ScanResult { has_tabs: true, has_illegal_characters: false });
    assert_eq!(outcome.rewrite, None);
}

#[test]
fn clean_content_is_not_rewritten() {
    let outcome = check_content("a\n\tb\n", true);
    assert!(outcome.findings.has_tabs);
    assert_eq!(outcome.rewrite, None);
    let outcome = check_content("", true);
    assert_eq!(outcome.findings, ScanResult { has_tabs: false, has_illegal_characters: false });
    assert_eq!(outcome.rewrite, None);
}

#[test]
fn text_beyond_ascii_is_illegal_and_still_cleaned() {
    let outcome = check_content("gr\u{fc}n  \n", true);
    assert_eq!(outcome.findings, ScanResult { has_tabs: false, has_illegal_characters: true });
    assert_eq!(outcome.rewrite, Some(String::from("gr\u{fc}n\n")));
}

#[test]
fn two_files_one_with_a_tab() {
    let files = ["int\tx;\t\n", "int y;\n"];
    let mut report = Report::new();
    let mut rewritten = 0;
    for content in files {
        let outcome = check_content(content, false);
        assert!(report.has_room());
        report.record(&outcome.findings);
        if outcome.rewrite.is_some() {
            rewritten += 1;
        }
    }
    assert_eq!(report, Report { checked_files: 2, had_tabs: 1, had_illegals: 0 });
    assert_eq!(rewritten, 0);

    let first = check_content(files[0], true);
    assert!(first.findings.has_tabs);
    assert_eq!(first.rewrite, Some(String::from("int\tx;\n")));
    let second = check_content(files[1], true);
    assert!(!second.findings.has_tabs);
    assert_eq!(second.rewrite, None);
}

#[test]
fn a_new_report_is_empty() {
    assert_eq!(Report::new(), Report { checked_files: 0, had_tabs: 0, had_illegals: 0 });
    assert!(Report::new().has_room());
}

#[test]
fn a_report_counts_each_finding_on_its_own() {
    let mut report = Report::new();
    report.record(&ScanResult { has_tabs: false, has_illegal_characters: false });
    report.record(&ScanResult { has_tabs: true, has_illegal_characters: false });
    report.record(&ScanResult { has_tabs: false, has_illegal_characters: true });
    report.record(&ScanResult { has_tabs: true, has_illegal_characters: true });
    report.record(&ScanResult { has_tabs: true, has_illegal_characters: false });
    assert_eq!(report, Report { checked_files: 5, had_tabs: 3, had_illegals: 2 });
}

#[test]
fn a_full_report_has_no_room() {
    let report = Report { checked_files: u32::MAX, had_tabs: 0, had_illegals: 0 };
    assert!(!report.has_room());
    let report = Report { checked_files: u32::MAX - 1, had_tabs: 0, had_illegals: 0 };
    assert!(report.has_room());
}
