//! Which paths are left out.
//!
//! A path is left out if one of its components matches one of the ignore
//! patterns. The patterns are shell globs, and the `glob` crate decides what
//! each of them matches. Only a normal component, the name of a directory or
//! of a file, can match: the root, a prefix, `.` and `..` never do.

use vstd::prelude::*;

verus! {

/// One component of a path.
#[derive(Debug)]
pub enum Component {
    /// A drive or share prefix.
    Prefix,
    /// The root directory.
    RootDir,
    /// The current directory, `.`.
    CurDir,
    /// The parent directory, `..`.
    ParentDir,
    /// The name of a directory or of a file.
    Normal(String),
}

/// What the `glob` crate answers when `pattern` is compiled with
/// `glob::Pattern::new` and `text` is matched against it with
/// `glob::Pattern::matches`: `None` where it rejects the pattern, otherwise
/// whether the text matches.
pub uninterp spec fn glob_verdict(pattern: Seq<char>, text: Seq<char>) -> Option<bool>;

/// Whether `s` is free of slashes and backslashes. The `glob` crate asks
/// the platform which characters separate the components of a path, and
/// the platforms give different answers. They agree that no other
/// character does, so on such strings the crate's answer is the same
/// everywhere. The name of a file or of a directory is such a string.
pub open spec fn is_portable(s: Seq<char>) -> bool {
    forall|i: int| 0 <= i < s.len() ==> s[i] != '/' && s[i] != '\\'
}

/// Whether `pattern` is free of the characters that mean something else
/// than themselves in a glob: `?`, `*`, `[` and `]`.
pub open spec fn is_literal(pattern: Seq<char>) -> bool {
    forall|i: int|
        0 <= i < pattern.len() ==> pattern[i] != '?' && pattern[i] != '*' && pattern[i] != '['
            && pattern[i] != ']'
}

/// Whether `pattern` matches `text`. A literal pattern matches itself and
/// nothing else; what any other pattern matches is for `glob` to say, and a
/// pattern that `glob` rejects matches nothing.
pub open spec fn pattern_matches(pattern: Seq<char>, text: Seq<char>) -> bool {
    if is_literal(pattern) {
        pattern == text
    } else {
        glob_verdict(pattern, text) == Some(true)
    }
}

/// Whether `pattern` matches `text` on every platform.
pub open spec fn must_match(pattern: Seq<char>, text: Seq<char>) -> bool {
    is_portable(pattern) && is_portable(text) && pattern_matches(pattern, text)
}

/// Whether `pattern` matches `text` on some platform.
pub open spec fn may_match(pattern: Seq<char>, text: Seq<char>) -> bool {
    !(is_portable(pattern) && is_portable(text)) || pattern_matches(pattern, text)
}

/// Whether one of `patterns` matches `name` on every platform.
pub open spec fn must_match_any(name: Seq<char>, patterns: Seq<Seq<char>>) -> bool {
    exists|i: int| 0 <= i < patterns.len() && must_match(#[trigger] patterns[i], name)
}

/// Whether one of `patterns` matches `name` on some platform.
pub open spec fn may_match_any(name: Seq<char>, patterns: Seq<Seq<char>>) -> bool {
    exists|i: int| 0 <= i < patterns.len() && may_match(#[trigger] patterns[i], name)
}

/// Whether `comp` is unwanted on every platform: whether it is a normal
/// component whose name one of `patterns` matches on every platform.
pub open spec fn must_be_unwanted(comp: Component, patterns: Seq<Seq<char>>) -> bool {
    comp matches Component::Normal(name) && must_match_any(name@, patterns)
}

/// Whether `comp` is unwanted on some platform: whether it is a normal
/// component whose name one of `patterns` matches on some platform.
pub open spec fn may_be_unwanted(comp: Component, patterns: Seq<Seq<char>>) -> bool {
    comp matches Component::Normal(name) && may_match_any(name@, patterns)
}

/// Where no slash and no backslash is involved, what must match and what
/// may match are the same: the answer is the same on every platform.
pub proof fn lemma_portable_is_exact(name: Seq<char>, patterns: Seq<Seq<char>>)
    requires
        is_portable(name),
        forall|i: int| 0 <= i < patterns.len() ==> is_portable(#[trigger] patterns[i]),
    ensures
        must_match_any(name, patterns) == may_match_any(name, patterns),
{
    if may_match_any(name, patterns) {
        let i = choose|i: int| 0 <= i < patterns.len() && may_match(#[trigger] patterns[i], name);
        assert(must_match(patterns[i], name));
    }
    if must_match_any(name, patterns) {
        let i = choose|i: int| 0 <= i < patterns.len() && must_match(#[trigger] patterns[i], name);
        assert(may_match(patterns[i], name));
    }
}

/// A name that stands among the patterns as it is, and holds none of the
/// characters `?`, `*`, `[`, `]`, `/` and `\`, is matched, whatever the
/// other patterns are.
pub proof fn lemma_literal_pattern_matches(name: Seq<char>, patterns: Seq<Seq<char>>, i: int)
    requires
        0 <= i < patterns.len(),
        patterns[i] == name,
        is_literal(name),
        is_portable(name),
    ensures
        must_match_any(name, patterns),
{
    assert(must_match(patterns[i], name));
}

/// The order of the patterns, and how often each occurs, has no part in
/// what is matched.
pub proof fn lemma_order_is_irrelevant(
    name: Seq<char>,
    one: Seq<Seq<char>>,
    other: Seq<Seq<char>>,
)
    requires
        forall|pattern: Seq<char>| one.contains(pattern) <==> other.contains(pattern),
    ensures
        must_match_any(name, one) == must_match_any(name, other),
        may_match_any(name, one) == may_match_any(name, other),
{
    assert forall|a: Seq<Seq<char>>, b: Seq<Seq<char>>|
        (forall|pattern: Seq<char>| a.contains(pattern) ==> b.contains(pattern))
            && must_match_any(name, a) implies must_match_any(name, b) by {
        let i = choose|i: int| 0 <= i < a.len() && must_match(#[trigger] a[i], name);
        assert(a.contains(a[i]));
        let j = choose|j: int| 0 <= j < b.len() && b[j] == a[i];
        assert(must_match(b[j], name));
    }
    assert forall|a: Seq<Seq<char>>, b: Seq<Seq<char>>|
        (forall|pattern: Seq<char>| a.contains(pattern) ==> b.contains(pattern))
            && may_match_any(name, a) implies may_match_any(name, b) by {
        let i = choose|i: int| 0 <= i < a.len() && may_match(#[trigger] a[i], name);
        assert(a.contains(a[i]));
        let j = choose|j: int| 0 <= j < b.len() && b[j] == a[i];
        assert(may_match(b[j], name));
    }
}

/// Compiles `pattern` with `glob::Pattern::new` and matches `text` against
/// it with `glob::Pattern::matches`. The result is `None` where the pattern
/// does not compile. Claimed of strings without slashes and backslashes
/// only: that the result is the crate's verdict, and that a pattern without
/// `?`, `*`, `[` and `]` compiles and matches exactly the text that is equal
/// to it.
#[verifier::external_body]
fn glob_match(pattern: &str, text: &str) -> (verdict: Option<bool>)
    ensures
        is_portable(pattern@) && is_portable(text@) ==> verdict == glob_verdict(pattern@, text@),
        is_portable(pattern@) && is_portable(text@) && is_literal(pattern@) ==> verdict == Some(
            pattern@ == text@,
        ),
{
    match glob::Pattern::new(pattern) {
        Ok(compiled) => Some(compiled.matches(text)),
        Err(_) => None,
    }
}

/// Whether `pattern` matches `name`, as `glob` sees it. On strings without
/// slashes and backslashes the answer is `pattern_matches`.
pub fn matches_pattern(pattern: &str, name: &str) -> (matched: bool)
    ensures
        must_match(pattern@, name@) ==> matched,
        matched ==> may_match(pattern@, name@),
{
    match glob_match(pattern, name) {
        Some(matched) => matched,
        None => false,
    }
}

/// Whether one of the patterns `to_ignore` matches `name`.
pub fn matches_any(name: &str, to_ignore: &Vec<String>) -> (matched: bool)
    ensures
        must_match_any(name@, to_ignore.deep_view()) ==> matched,
        matched ==> may_match_any(name@, to_ignore.deep_view()),
{
    let mut i: usize = 0;
    while i < to_ignore.len()
        invariant
            i <= to_ignore.len(),
            forall|j: int|
                0 <= j < i ==> !must_match(#[trigger] to_ignore.deep_view()[j], name@),
        decreases to_ignore.len() - i,
    {
        if matches_pattern(to_ignore[i].as_str(), name) {
            assert(may_match(to_ignore.deep_view()[i as int], name@));
            return true;
        }
        i += 1;
    }
    false
}

/// Whether `comp` is matched by one of the patterns `to_ignore`. Only a
/// normal component can be. Where neither the name nor a pattern holds a
/// slash or a backslash the answer is exact: some pattern matches the
/// component's name. The order of the patterns has no part in it.
pub fn is_unwanted(comp: &Component, to_ignore: &Vec<String>) -> (unwanted: bool)
    ensures
        must_be_unwanted(*comp, to_ignore.deep_view()) ==> unwanted,
        unwanted ==> may_be_unwanted(*comp, to_ignore.deep_view()),
{
    match comp {
        Component::Normal(name) => matches_any(name.as_str(), to_ignore),
        _ => false,
    }
}

/// Whether a path with the given components is left out: whether one of
/// them is unwanted. One unwanted component is enough, whatever the others
/// are.
pub fn has_unwanted(components: &Vec<Component>, to_ignore: &Vec<String>) -> (unwanted: bool)
    ensures
        (exists|i: int|
            0 <= i < components.len() && must_be_unwanted(
                #[trigger] components[i],
                to_ignore.deep_view(),
            )) ==> unwanted,
        unwanted ==> exists|i: int|
            0 <= i < components.len() && may_be_unwanted(
                #[trigger] components[i],
                to_ignore.deep_view(),
            ),
{
    let mut i: usize = 0;
    while i < components.len()
        invariant
            i <= components.len(),
            forall|j: int|
                0 <= j < i ==> !must_be_unwanted(#[trigger] components[j], to_ignore.deep_view()),
        decreases components.len() - i,
    {
        if is_unwanted(&components[i], to_ignore) {
            return true;
        }
        i += 1;
    }
    false
}

} // verus!
