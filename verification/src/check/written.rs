//! What is known of every configuration text.
//!
//! Two things are shown here about reading a configuration. A section that
//! no header opens comes out empty. And every configuration can be written
//! down so that reading gives it back: a header for each of the two
//! sections, followed by one entry for each pattern.

use crate::check::config::{
    classify, globs_name, ignore_name, is_space, outcome, nothing_read, parse_config,
    read_lines, section_named, step, trim, trim_end, trim_start, Config, Line, Progress,
    Section,
};
use crate::text::{is_line, join, lemma_lines_join, lines};
use vstd::prelude::*;

verus! {

/// The entries that have been read for `section`.
pub open spec fn entries(read: Progress, section: Section) -> Seq<Seq<char>> {
    match section {
        Section::Ignore => read.ignore,
        Section::Globs => read.globs,
        _ => Seq::empty(),
    }
}

/// The line that opens the section called `name`.
pub open spec fn header_line(name: Seq<char>) -> Seq<char> {
    name.push(':')
}

/// The line that adds `pattern` to a section.
pub open spec fn entry_line(pattern: Seq<char>) -> Seq<char> {
    seq!['-', ' '] + pattern
}

/// The lines that add `patterns` to a section, one after the other.
pub open spec fn entry_lines(patterns: Seq<Seq<char>>) -> Seq<Seq<char>> {
    Seq::new(patterns.len(), |i: int| entry_line(patterns[i]))
}

/// The lines of `cfg` written down.
pub open spec fn written_lines(cfg: Config) -> Seq<Seq<char>> {
    seq![header_line(ignore_name())] + entry_lines(cfg.ignore) + seq![header_line(globs_name())]
        + entry_lines(cfg.globs)
}

/// `cfg` written down as a text.
pub open spec fn written(cfg: Config) -> Seq<char> {
    join(written_lines(cfg))
}

/// Whether `pattern` can stand in an entry as it is: it is not empty, holds
/// no line feed, and neither starts nor ends with a space.
pub open spec fn is_pattern(pattern: Seq<char>) -> bool {
    pattern.len() > 0 && is_line(pattern) && !is_space(pattern[0]) && !is_space(pattern.last())
}

/// Whether each of `patterns` can stand in an entry as it is.
pub open spec fn all_patterns(patterns: Seq<Seq<char>>) -> bool {
    forall|i: int| 0 <= i < patterns.len() ==> is_pattern(#[trigger] patterns[i])
}

/// What is known once `patterns` have been added to the section that
/// `so_far` stands in.
pub open spec fn with_entries(so_far: Progress, patterns: Seq<Seq<char>>) -> Progress {
    match so_far.section {
        Section::Ignore => Progress { ignore: so_far.ignore + patterns, ..so_far },
        Section::Globs => Progress { globs: so_far.globs + patterns, ..so_far },
        _ => so_far,
    }
}

/// A section that is not open, and that no later line opens, gets no entry.
proof fn lemma_unopened_section_stays_empty(
    rest: Seq<Seq<char>>,
    so_far: Progress,
    number: nat,
    section: Section,
)
    requires
        section is Ignore || section is Globs,
        so_far.section != section,
        entries(so_far, section).len() == 0,
        forall|i: int| 0 <= i < rest.len() ==> classify(#[trigger] rest[i]) != Line::Header(section),
    ensures
        read_lines(rest, so_far, number) matches Ok(read) ==> entries(read, section).len() == 0,
    decreases rest.len(),
{
    if rest.len() > 0 {
        assert(classify(rest[0]) != Line::Header(section));
        match step(so_far, classify(rest[0])) {
            None => {},
            Some(next) => {
                let later = rest.drop_first();
                assert forall|i: int| 0 <= i < later.len() implies classify(#[trigger] later[i])
                    != Line::Header(section) by {
                    assert(later[i] == rest[i + 1]);
                }
                lemma_unopened_section_stays_empty(later, next, number + 1, section);
            },
        }
    }
}

/// A text without a header for the paths to leave out has no such paths,
/// and a text without a header for the files to check has no such files.
pub proof fn lemma_missing_section_is_empty(text: Seq<char>, section: Section)
    requires
        section is Ignore || section is Globs,
        forall|i: int|
            0 <= i < lines(text).len() ==> classify(#[trigger] lines(text)[i]) != Line::Header(
                section,
            ),
    ensures
        parse_config(text) matches Ok(cfg) ==> {
            &&& section is Ignore ==> cfg.ignore.len() == 0
            &&& section is Globs ==> cfg.globs.len() == 0
        },
{
    lemma_unopened_section_stays_empty(lines(text), nothing_read(), 1, section);
}

/// A name without spaces around it and without a dash before it, followed
/// by a colon, is the header of the section of that name.
proof fn lemma_classify_header(name: Seq<char>)
    requires
        name.len() > 0,
        !is_space(name[0]),
        !is_space(name.last()),
        name[0] != '-',
    ensures
        classify(header_line(name)) == Line::Header(section_named(name)),
{
    let line = header_line(name);
    assert(line[0] == name[0]);
    assert(line.last() == ':');
    assert(trim_start(line) == line);
    assert(trim_end(line) == line);
    assert(line.drop_last() == name);
    assert(trim_start(name) == name);
    assert(trim_end(name) == name);
}

/// A dash, a space and a pattern are the entry of that pattern.
proof fn lemma_classify_entry(pattern: Seq<char>)
    requires
        is_pattern(pattern),
    ensures
        classify(entry_line(pattern)) == Line::Entry(pattern),
{
    let line = entry_line(pattern);
    assert(line[0] == '-');
    assert(line.last() == pattern.last());
    assert(trim_start(line) == line);
    assert(trim_end(line) == line);
    let behind = line.drop_first();
    assert(behind[0] == ' ');
    assert(behind.drop_first() == pattern);
    assert(trim_start(pattern) == pattern);
    assert(trim_start(behind) == pattern);
    assert(trim_end(pattern) == pattern);
    assert(trim(behind) == pattern);
}

/// Reading a header goes on in the section that it names.
proof fn lemma_read_header(name: Seq<char>, rest: Seq<Seq<char>>, so_far: Progress, number: nat)
    requires
        name.len() > 0,
        !is_space(name[0]),
        !is_space(name.last()),
        name[0] != '-',
    ensures
        read_lines(seq![header_line(name)] + rest, so_far, number) == read_lines(
            rest,
            Progress { section: section_named(name), ..so_far },
            number + 1,
        ),
{
    let all = seq![header_line(name)] + rest;
    lemma_classify_header(name);
    assert(all[0] == header_line(name));
    assert(all.drop_first() == rest);
}

/// Reading the entries of some patterns in one of the two sections adds
/// the patterns to that section, in their order.
proof fn lemma_read_entries(
    patterns: Seq<Seq<char>>,
    rest: Seq<Seq<char>>,
    so_far: Progress,
    number: nat,
)
    requires
        all_patterns(patterns),
        so_far.section is Ignore || so_far.section is Globs,
    ensures
        read_lines(entry_lines(patterns) + rest, so_far, number) == read_lines(
            rest,
            with_entries(so_far, patterns),
            number + patterns.len(),
        ),
    decreases patterns.len(),
{
    let all = entry_lines(patterns) + rest;
    if patterns.len() == 0 {
        assert(all == rest);
        assert(so_far.ignore + patterns == so_far.ignore);
        assert(so_far.globs + patterns == so_far.globs);
    } else {
        let first = patterns[0];
        let later = patterns.drop_first();
        assert(is_pattern(first));
        lemma_classify_entry(first);
        assert(all[0] == entry_line(first));
        assert(all.drop_first() == entry_lines(later) + rest);
        let next = step(so_far, Line::Entry(first)).unwrap();
        assert forall|i: int| 0 <= i < later.len() implies is_pattern(#[trigger] later[i]) by {
            assert(later[i] == patterns[i + 1]);
        }
        lemma_read_entries(later, rest, next, number + 1);
        assert(so_far.ignore.push(first) + later == so_far.ignore + patterns);
        assert(so_far.globs.push(first) + later == so_far.globs + patterns);
    }
}

/// Every configuration can be written down and read again: where each
/// pattern can stand in an entry as it is, reading the written text gives
/// the two lists back, each with its patterns in their order.
pub proof fn lemma_read_written(cfg: Config)
    requires
        all_patterns(cfg.ignore),
        all_patterns(cfg.globs),
    ensures
        parse_config(written(cfg)) == Ok::<Config, nat>(cfg),
{
    let all = written_lines(cfg);
    assert forall|i: int| 0 <= i < all.len() implies is_line(#[trigger] all[i]) by {
        let ignored = cfg.ignore.len() as int;
        if i == 0 {
            assert(all[i] == header_line(ignore_name()));
        } else if i <= ignored {
            assert(all[i] == entry_line(cfg.ignore[i - 1]));
            assert(is_pattern(cfg.ignore[i - 1]));
        } else if i == ignored + 1 {
            assert(all[i] == header_line(globs_name()));
        } else {
            assert(all[i] == entry_line(cfg.globs[i - ignored - 2]));
            assert(is_pattern(cfg.globs[i - ignored - 2]));
        }
    }
    lemma_lines_join(all);
    let globs_part = seq![header_line(globs_name())] + entry_lines(cfg.globs);
    let ignore_part = entry_lines(cfg.ignore) + globs_part;
    assert(all == seq![header_line(ignore_name())] + ignore_part);
    let empty = Seq::<Seq<char>>::empty();
    let none = Seq::<Seq<char>>::empty();
    lemma_read_header(ignore_name(), ignore_part, nothing_read(), 1);
    let in_ignore = Progress { section: Section::Ignore, ..nothing_read() };
    lemma_read_entries(cfg.ignore, globs_part, in_ignore, 2);
    let after_ignore = with_entries(in_ignore, cfg.ignore);
    assert(empty + cfg.ignore == cfg.ignore);
    lemma_read_header(globs_name(), entry_lines(cfg.globs), after_ignore, 2 + cfg.ignore.len());
    let in_globs = Progress { section: Section::Globs, ..after_ignore };
    assert(entry_lines(cfg.globs) + none == entry_lines(cfg.globs));
    lemma_read_entries(cfg.globs, none, in_globs, 3 + cfg.ignore.len());
    let read = with_entries(in_globs, cfg.globs);
    assert(empty + cfg.globs == cfg.globs);
    assert(read_lines(none, read, 3 + cfg.ignore.len() + cfg.globs.len()) == Ok::<Progress, nat>(
        read,
    ));
    assert(outcome(read).ignore == cfg.ignore);
    assert(outcome(read).globs == cfg.globs);
}

} // verus!
