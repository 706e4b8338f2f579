use enforcer::check::{default_cfg, read_config, s, EnforcerCfg, ParseError};

const SIMPLE: &str = "ignore:\n  - .git\n  - .repo\nglobs:\n  - **/*.c\n  - **/*.cpp\n  - **/*.h\n";

const BROKEN: &str = "ignore:\n  - .git\n  .repo\nglobs:\n  - **/*.c\n  - **/*.cpp\n  - **/*.h\n";

#[test]
fn test_load_simple_config() {
    let c = SIMPLE;
    let cfg = read_config(c).unwrap();
    assert_eq!(cfg.ignore.len(), 2);
    let expected = EnforcerCfg {
        ignore: vec![s(".git"), s(".repo")],
        globs: vec![s("**/*.c"), s("**/*.cpp"), s("**/*.h")],
    };
    assert_eq!(expected.ignore, cfg.ignore);
    assert_eq!(expected, cfg);
}

#[test]
fn test_load_broken_config() {
    let c = BROKEN;
    let cfg = read_config(c).unwrap();
    let expected = EnforcerCfg {
        ignore: vec![s(".git"), s(".repo")],
        globs: vec![s("**/*.c"), s("**/*.cpp"), s("**/*.h")],
    };
    assert!(expected.ignore != cfg.ignore);
}

#[test]
fn a_spoilt_section_is_read_as_empty_and_the_other_is_kept() {
    let cfg = read_config(BROKEN).unwrap();
    assert_eq!(cfg.ignore, Vec::<String>::new());
    assert_eq!(cfg.globs, vec![s("**/*.c"), s("**/*.cpp"), s("**/*.h")]);
    let cfg = read_config("ignore:\n- a\nglobs:\n- b\nwhat\n- c\n").unwrap();
    assert_eq!(cfg.ignore, vec![s("a")]);
    assert_eq!(cfg.globs, Vec::<String>::new());
}

#[test]
fn a_dash_without_a_pattern_spoils_its_section() {
    let cfg = read_config("ignore:\n- a\n-\n- b\n").unwrap();
    assert_eq!(cfg.ignore, Vec::<String>::new());
    let cfg = read_config("ignore:\n- a\n-   \t\n").unwrap();
    assert_eq!(cfg.ignore, Vec::<String>::new());
}

#[test]
fn empty_text_is_an_empty_configuration() {
    let cfg = read_config("").unwrap();
    assert_eq!(cfg, EnforcerCfg { ignore: vec![], globs: vec![] });
    let cfg = read_config("\n  \n\t\r\n").unwrap();
    assert_eq!(cfg, EnforcerCfg { ignore: vec![], globs: vec![] });
}

#[test]
fn a_missing_section_gives_an_empty_list() {
    let cfg = read_config("globs:\n- *.rs\n").unwrap();
    assert_eq!(cfg, EnforcerCfg { ignore: vec![], globs: vec![s("*.rs")] });
    let cfg = read_config("ignore:\n- target\n").unwrap();
    assert_eq!(cfg, EnforcerCfg { ignore: vec![s("target")], globs: vec![] });
    let cfg = read_config("ignore:\nglobs:\n").unwrap();
    assert_eq!(cfg, EnforcerCfg { ignore: vec![], globs: vec![] });
}

#[test]
fn unknown_sections_are_skipped_with_all_their_lines() {
    let text = "colors:\n- red\nnot an entry\nignore:\n- .git\nIgnore:\n- .hg\nglobs:\n- *.c\nother:\n- x\n";
    let cfg = read_config(text).unwrap();
    assert_eq!(cfg, EnforcerCfg { ignore: vec![s(".git")], globs: vec![s("*.c")] });
}

#[test]
fn entries_keep_their_order_and_their_duplicates() {
    let cfg = read_config("ignore:\n- b\n- a\n- b\n- c\n").unwrap();
    assert_eq!(cfg.ignore, vec![s("b"), s("a"), s("b"), s("c")]);
}

#[test]
fn a_section_may_be_continued_later() {
    let cfg = read_config("ignore:\n- a\nglobs:\n- x\nignore:\n- b\n").unwrap();
    assert_eq!(cfg, EnforcerCfg { ignore: vec![s("a"), s("b")], globs: vec![s("x")] });
}

#[test]
fn spaces_around_lines_names_and_patterns_do_not_count() {
    let text = "  ignore :  \r\n\t-   .git\t\r\n-.repo\r\n\r\n globs:\r\n  -  src/**/* .c  \r\n";
    let cfg = read_config(text).unwrap();
    assert_eq!(cfg, EnforcerCfg { ignore: vec![s(".git"), s(".repo")], globs: vec![s("src/**/* .c")] });
}

#[test]
fn the_last_line_needs_no_line_feed() {
    let cfg = read_config("globs:\n- *.h").unwrap();
    assert_eq!(cfg.globs, vec![s("*.h")]);
}

#[test]
fn an_entry_may_look_like_a_header() {
    let cfg = read_config("ignore:\n- globs:\n- -x\n").unwrap();
    assert_eq!(cfg, EnforcerCfg { ignore: vec![s("globs:"), s("-x")], globs: vec![] });
}

#[test]
fn an_entry_before_the_first_header_is_an_error() {
    assert_eq!(read_config("- .git\nignore:\n"), Err(ParseError { line: 1 }));
    assert_eq!(read_config("\n\n  - .git\nignore:\n- a\n"), Err(ParseError { line: 3 }));
}

#[test]
fn a_malformed_line_before_the_first_header_is_an_error() {
    assert_eq!(read_config("ignore = [\".git\"]\n"), Err(ParseError { line: 1 }));
    assert_eq!(read_config("\nhello\nignore:\n"), Err(ParseError { line: 2 }));
    assert_eq!(read_config("-"), Err(ParseError { line: 1 }));
}

#[test]
fn the_first_offending_line_is_named() {
    assert_eq!(read_config("\r\nx\ny\n- z\n"), Err(ParseError { line: 2 }));
}

#[test]
fn default_configuration() {
    let cfg = default_cfg();
    assert_eq!(cfg.ignore, vec![s(".git"), s(".repo")]);
    assert_eq!(cfg.globs, vec![s("**/*.c"), s("**/*.cpp"), s("**/*.h")]);
}

#[test]
fn the_simple_configuration_is_the_default_one() {
    assert_eq!(read_config(SIMPLE).unwrap(), default_cfg());
}

#[test]
fn s_copies_its_argument() {
    assert_eq!(s("abc"), String::from("abc"));
    assert_eq!(s(""), String::new());
}

#[test]
fn given_globs_are_used_before_configured_ones() {
    assert_eq!(enforcer::check::choose_globs(vec![s("*.rs")], vec![s("*.c"), s("*.h")]), vec![s("*.rs")]);
    assert_eq!(enforcer::check::choose_globs(vec![], vec![s("*.c"), s("*.h")]), vec![s("*.c"), s("*.h")]);
    assert_eq!(enforcer::check::choose_globs(vec![], vec![]), Vec::<String>::new());
}
