use enforcer::check::{has_unwanted, is_unwanted, s, Component, EnforcerCfg};
use glob::Pattern;

fn normal(name: &str) -> Component {
    Component::Normal(s(name))
}

#[test]
fn test_glob() {
    assert!(Pattern::new("build_*").unwrap().matches("build_Debug"));
}

#[test]
fn test_is_unwanted() {
    let cfg = EnforcerCfg { ignore: vec![s("build_*"), s(".git")], globs: vec![] };
    assert!(is_unwanted(&normal("build_Debug"), &cfg.ignore));
    assert!(is_unwanted(&normal(".git"), &cfg.ignore));
    assert!(!is_unwanted(&normal("bla"), &cfg.ignore));
}

#[test]
fn literal_pattern_matches_itself_only() {
    let ignore = vec![s(".git")];
    assert!(is_unwanted(&normal(".git"), &ignore));
    assert!(!is_unwanted(&normal(".gi"), &ignore));
    assert!(!is_unwanted(&normal(".gitignore"), &ignore));
    assert!(!is_unwanted(&normal("x.git"), &ignore));
    assert!(!is_unwanted(&normal(".GIT"), &ignore));
    assert!(!is_unwanted(&normal(""), &ignore));
}

#[test]
fn empty_pattern_matches_the_empty_name_only() {
    let ignore = vec![s("")];
    assert!(is_unwanted(&normal(""), &ignore));
    assert!(!is_unwanted(&normal("a"), &ignore));
}

#[test]
fn nothing_is_unwanted_without_patterns() {
    let ignore: Vec<String> = vec![];
    assert!(!is_unwanted(&normal(".git"), &ignore));
    assert!(!has_unwanted(&vec![normal("a"), normal(".git")], &ignore));
}

#[test]
fn order_of_patterns_does_not_matter() {
    let one = vec![s("build_*"), s(".git"), s("*.tmp")];
    let other = vec![s("*.tmp"), s(".git"), s("build_*")];
    for name in ["build_Debug", ".git", "a.tmp", "bla", "build", ".gitx"] {
        assert_eq!(is_unwanted(&normal(name), &one), is_unwanted(&normal(name), &other));
    }
}

#[test]
fn wildcards_match_as_globs() {
    let ignore = vec![s("*.o"), s("t?p"), s("[ab]x")];
    assert!(is_unwanted(&normal("main.o"), &ignore));
    assert!(is_unwanted(&normal(".o"), &ignore));
    assert!(is_unwanted(&normal("tmp"), &ignore));
    assert!(is_unwanted(&normal("ax"), &ignore));
    assert!(!is_unwanted(&normal("main.c"), &ignore));
    assert!(!is_unwanted(&normal("tp"), &ignore));
    assert!(!is_unwanted(&normal("cx"), &ignore));
}

#[test]
fn a_pattern_that_is_no_glob_matches_nothing() {
    let ignore = vec![s("[")];
    assert!(!is_unwanted(&normal("["), &ignore));
    assert!(!is_unwanted(&normal("a"), &ignore));
    let ignore = vec![s("a***b"), s(".git")];
    assert!(!is_unwanted(&normal("ab"), &ignore));
    assert!(is_unwanted(&normal(".git"), &ignore));
}

#[test]
fn only_normal_components_can_be_unwanted() {
    let ignore = vec![s("*")];
    assert!(is_unwanted(&normal("anything"), &ignore));
    assert!(!is_unwanted(&Component::Prefix, &ignore));
    assert!(!is_unwanted(&Component::RootDir, &ignore));
    assert!(!is_unwanted(&Component::CurDir, &ignore));
    assert!(!is_unwanted(&Component::ParentDir, &ignore));
}

#[test]
fn one_unwanted_component_excludes_the_path() {
    let ignore = vec![s(".git"), s("build_*")];
    let path = vec![normal("a"), normal("b"), normal(".git"), normal("c")];
    assert!(has_unwanted(&path, &ignore));
    let path = vec![Component::RootDir, normal("src"), normal("build_Debug"), normal("x.c")];
    assert!(has_unwanted(&path, &ignore));
    let path = vec![normal(".git")];
    assert!(has_unwanted(&path, &ignore));
}

#[test]
fn a_path_without_unwanted_components_is_kept() {
    let ignore = vec![s(".git"), s("build_*")];
    let path = vec![Component::CurDir, normal("src"), normal("main.c")];
    assert!(!has_unwanted(&path, &ignore));
    let path = vec![Component::ParentDir, normal("git"), normal("build")];
    assert!(!has_unwanted(&path, &ignore));
    assert!(!has_unwanted(&vec![], &ignore));
}
