//! The configuration: which paths to leave out and which files to check.
//!
//! A configuration is written as plain text, line by line:
//!
//! ```text
//! ignore:
//!   - .git
//!   - .repo
//! globs:
//!   - **/*.c
//! ```
//!
//! A line that ends in a colon is a header and opens a section. A line that
//! starts with a dash is an entry and adds the pattern behind the dash to the
//! section it stands in. Spaces, tabs and carriage returns around a line, a
//! header's name and a pattern do not count, and empty lines are skipped. The
//! sections `ignore` and `globs` are read; any other section is skipped with
//! all its lines. A line of the `ignore` or `globs` section that is neither a
//! header nor an entry spoils that section's list, which is then read as
//! empty. An entry or such a line before the first header has no section to
//! belong to: the text as a whole is rejected.

use crate::text::{chars_of, lemma_first_line_len, line_end, lines, string_of};
use vstd::prelude::*;

verus! {

/// Which paths to leave out and which files to check.
#[derive(Debug, Clone, PartialEq, Eq)]
pub struct EnforcerCfg {
    /// A path is left out if one of its components matches one of these.
    pub ignore: Vec<String>,
    /// The files to check.
    pub globs: Vec<String>,
}

/// A configuration as two sequences of patterns.
pub struct Config {
    /// The patterns of the paths to leave out.
    pub ignore: Seq<Seq<char>>,
    /// The patterns of the files to check.
    pub globs: Seq<Seq<char>>,
}

impl View for EnforcerCfg {
    type V = Config;

    open spec fn view(&self) -> Config {
        Config { ignore: self.ignore.deep_view(), globs: self.globs.deep_view() }
    }
}

/// Why a text is no configuration: the line with the given number, counted
/// from 1, is an entry or a malformed line before the first header.
#[derive(Debug, Clone, Copy, PartialEq, Eq, Structural)]
pub struct ParseError {
    /// The number of the offending line, counted from 1.
    pub line: usize,
}

/// The section that a line stands in.
#[derive(Debug, Clone, Copy, PartialEq, Eq, Structural)]
pub enum Section {
    /// Before the first header.
    Outside,
    /// Under the header `ignore`.
    Ignore,
    /// Under the header `globs`.
    Globs,
    /// Under any other header.
    Other,
}

/// What a line says.
pub enum Line {
    /// Nothing.
    Blank,
    /// That the given section starts.
    Header(Section),
    /// That the given pattern belongs to the section.
    Entry(Seq<char>),
    /// Nothing that can be read.
    Junk,
}

/// What is known after some lines have been read.
pub struct Progress {
    /// The section that the next line stands in.
    pub section: Section,
    /// The entries of the `ignore` section so far.
    pub ignore: Seq<Seq<char>>,
    /// The entries of the `globs` section so far.
    pub globs: Seq<Seq<char>>,
    /// Whether every line of the `ignore` section could be read.
    pub ignore_sound: bool,
    /// Whether every line of the `globs` section could be read.
    pub globs_sound: bool,
}

/// The characters that do not count around a line, a name and a pattern.
pub open spec fn is_space(c: char) -> bool {
    c == ' ' || c == '\t' || c == '\r'
}

/// `s` without the spaces at its start.
pub open spec fn trim_start(s: Seq<char>) -> Seq<char>
    decreases s.len(),
{
    if s.len() > 0 && is_space(s[0]) {
        trim_start(s.drop_first())
    } else {
        s
    }
}

/// `s` without the spaces at its end.
pub open spec fn trim_end(s: Seq<char>) -> Seq<char>
    decreases s.len(),
{
    if s.len() > 0 && is_space(s.last()) {
        trim_end(s.drop_last())
    } else {
        s
    }
}

/// `s` without the spaces at its start and at its end.
pub open spec fn trim(s: Seq<char>) -> Seq<char> {
    trim_end(trim_start(s))
}

/// The name of the section of the paths to leave out.
pub open spec fn ignore_name() -> Seq<char> {
    seq!['i', 'g', 'n', 'o', 'r', 'e']
}

/// The name of the section of the files to check.
pub open spec fn globs_name() -> Seq<char> {
    seq!['g', 'l', 'o', 'b', 's']
}

/// The section with the given name.
pub open spec fn section_named(name: Seq<char>) -> Section {
    if name == ignore_name() {
        Section::Ignore
    } else if name == globs_name() {
        Section::Globs
    } else {
        Section::Other
    }
}

/// What `line` says.
pub open spec fn classify(line: Seq<char>) -> Line {
    let content = trim(line);
    if content.len() == 0 {
        Line::Blank
    } else if content[0] == '-' {
        let pattern = trim(content.drop_first());
        if pattern.len() == 0 {
            Line::Junk
        } else {
            Line::Entry(pattern)
        }
    } else if content.last() == ':' {
        Line::Header(section_named(trim(content.drop_last())))
    } else {
        Line::Junk
    }
}

/// What is known before the first line.
pub open spec fn nothing_read() -> Progress {
    Progress {
        section: Section::Outside,
        ignore: Seq::empty(),
        globs: Seq::empty(),
        ignore_sound: true,
        globs_sound: true,
    }
}

/// What is known once `line` has been read after `so_far`, or `None` where
/// `line` has no section to belong to.
pub open spec fn step(so_far: Progress, line: Line) -> Option<Progress> {
    match line {
        Line::Blank => Some(so_far),
        Line::Header(section) => Some(Progress { section, ..so_far }),
        Line::Entry(pattern) => match so_far.section {
            Section::Outside => None,
            Section::Ignore => Some(Progress { ignore: so_far.ignore.push(pattern), ..so_far }),
            Section::Globs => Some(Progress { globs: so_far.globs.push(pattern), ..so_far }),
            Section::Other => Some(so_far),
        },
        Line::Junk => match so_far.section {
            Section::Outside => None,
            Section::Ignore => Some(Progress { ignore_sound: false, ..so_far }),
            Section::Globs => Some(Progress { globs_sound: false, ..so_far }),
            Section::Other => Some(so_far),
        },
    }
}

/// What is known once all of `rest` has been read after `so_far`, where the
/// first line of `rest` has the number `number`; or the number of the first
/// line that has no section to belong to.
pub open spec fn read_lines(rest: Seq<Seq<char>>, so_far: Progress, number: nat) -> Result<
    Progress,
    nat,
>
    decreases rest.len(),
{
    if rest.len() == 0 {
        Ok(so_far)
    } else {
        match step(so_far, classify(rest[0])) {
            None => Err(number),
            Some(next) => read_lines(rest.drop_first(), next, number + 1),
        }
    }
}

/// The configuration that was read: the entries of each section, or none
/// for a section with a line that could not be read.
pub open spec fn outcome(read: Progress) -> Config {
    Config {
        ignore: if read.ignore_sound {
            read.ignore
        } else {
            Seq::empty()
        },
        globs: if read.globs_sound {
            read.globs
        } else {
            Seq::empty()
        },
    }
}

/// The configuration that `text` holds, or the number of the first line
/// that stands before all headers and is neither empty nor a header.
pub open spec fn parse_config(text: Seq<char>) -> Result<Config, nat> {
    match read_lines(lines(text), nothing_read(), 1) {
        Ok(read) => Ok(outcome(read)),
        Err(number) => Err(number),
    }
}

/// The configuration that is used where none is given.
pub open spec fn default_config() -> Config {
    Config {
        ignore: seq![".git"@, ".repo"@],
        globs: seq!["**/*.c"@, "**/*.cpp"@, "**/*.h"@],
    }
}

/// What the parser holds while it reads.
struct Reader {
    section: Section,
    ignore: Vec<String>,
    globs: Vec<String>,
    ignore_sound: bool,
    globs_sound: bool,
}

impl View for Reader {
    type V = Progress;

    closed spec fn view(&self) -> Progress {
        Progress {
            section: self.section,
            ignore: self.ignore.deep_view(),
            globs: self.globs.deep_view(),
            ignore_sound: self.ignore_sound,
            globs_sound: self.globs_sound,
        }
    }
}

/// What a line says, with its pattern as a string.
enum Token {
    Blank,
    Header(Section),
    Entry(String),
    Junk,
}

impl View for Token {
    type V = Line;

    closed spec fn view(&self) -> Line {
        match self {
            Token::Blank => Line::Blank,
            Token::Header(section) => Line::Header(*section),
            Token::Entry(pattern) => Line::Entry(pattern@),
            Token::Junk => Line::Junk,
        }
    }
}

/// Whether `c` does not count around a line, a name and a pattern.
fn is_space_char(c: char) -> (space: bool)
    ensures
        space == is_space(c),
{
    c == ' ' || c == '\t' || c == '\r'
}

/// The bounds of `chars[from..to]` without the spaces at its start and at
/// its end.
fn trim_range(chars: &Vec<char>, from: usize, to: usize) -> (bounds: (usize, usize))
    requires
        from <= to <= chars.len(),
    ensures
        from <= bounds.0 <= bounds.1 <= to,
        chars@.subrange(bounds.0 as int, bounds.1 as int) == trim(
            chars@.subrange(from as int, to as int),
        ),
{
    let mut first: usize = from;
    while first < to && is_space_char(chars[first])
        invariant
            from <= first <= to <= chars.len(),
            trim_start(chars@.subrange(first as int, to as int)) == trim_start(
                chars@.subrange(from as int, to as int),
            ),
        decreases to - first,
    {
        proof {
            let piece = chars@.subrange(first as int, to as int);
            assert(piece[0] == chars@[first as int]);
            assert(piece.drop_first() == chars@.subrange(first + 1, to as int));
        }
        first += 1;
    }
    proof {
        let piece = chars@.subrange(first as int, to as int);
        if first < to {
            assert(piece[0] == chars@[first as int]);
        }
        assert(trim_start(piece) == piece);
    }
    let mut last: usize = to;
    while last > first && is_space_char(chars[last - 1])
        invariant
            first <= last <= to <= chars.len(),
            trim_end(chars@.subrange(first as int, last as int)) == trim_end(
                chars@.subrange(first as int, to as int),
            ),
        decreases last,
    {
        proof {
            let piece = chars@.subrange(first as int, last as int);
            assert(piece.last() == chars@[last - 1]);
            assert(piece.drop_last() == chars@.subrange(first as int, last - 1));
        }
        last -= 1;
    }
    proof {
        let piece = chars@.subrange(first as int, last as int);
        if last > first {
            assert(piece.last() == chars@[last - 1]);
        }
        assert(trim_end(piece) == piece);
    }
    (first, last)
}

/// Whether `chars[from..to]` spells `word`.
fn spells(chars: &Vec<char>, from: usize, to: usize, word: &str) -> (same: bool)
    requires
        from <= to <= chars.len(),
    ensures
        same == (chars@.subrange(from as int, to as int) == word@),
{
    let length = word.unicode_len();
    if to - from != length {
        return false;
    }
    let mut i: usize = 0;
    while i < length
        invariant
            i <= length,
            length == word@.len(),
            to - from == length,
            from <= to <= chars.len(),
            forall|j: int| 0 <= j < i ==> chars@[from + j] == word@[j],
        decreases length - i,
    {
        if chars[from + i] != word.get_char(i) {
            assert(chars@.subrange(from as int, to as int)[i as int] != word@[i as int]);
            return false;
        }
        i += 1;
    }
    assert(chars@.subrange(from as int, to as int) =~= word@);
    true
}

/// The section whose name is `chars[from..to]`.
fn section_of(chars: &Vec<char>, from: usize, to: usize) -> (section: Section)
    requires
        from <= to <= chars.len(),
    ensures
        section == section_named(chars@.subrange(from as int, to as int)),
{
    proof {
        reveal_strlit("ignore");
        reveal_strlit("globs");
        assert("ignore"@ =~= ignore_name());
        assert("globs"@ =~= globs_name());
    }
    if spells(chars, from, to, "ignore") {
        Section::Ignore
    } else if spells(chars, from, to, "globs") {
        Section::Globs
    } else {
        Section::Other
    }
}

/// What the line `chars[from..to]` says.
fn token_of(chars: &Vec<char>, from: usize, to: usize) -> (token: Token)
    requires
        from <= to <= chars.len(),
    ensures
        token@ == classify(chars@.subrange(from as int, to as int)),
{
    let (first, last) = trim_range(chars, from, to);
    let ghost content = chars@.subrange(first as int, last as int);
    if first == last {
        Token::Blank
    } else if chars[first] == '-' {
        assert(content[0] == chars@[first as int]);
        assert(content.drop_first() == chars@.subrange(first + 1, last as int));
        let (start, end) = trim_range(chars, first + 1, last);
        if start == end {
            Token::Junk
        } else {
            Token::Entry(string_of(chars, start, end))
        }
    } else if chars[last - 1] == ':' {
        assert(content[0] == chars@[first as int]);
        assert(content.last() == chars@[last - 1]);
        assert(content.drop_last() == chars@.subrange(first as int, last - 1));
        let (start, end) = trim_range(chars, first, last - 1);
        Token::Header(section_of(chars, start, end))
    } else {
        assert(content[0] == chars@[first as int]);
        assert(content.last() == chars@[last - 1]);
        Token::Junk
    }
}

impl Reader {
    /// A reader before the first line.
    fn new() -> (reader: Reader)
        ensures
            reader@ == nothing_read(),
    {
        let reader = Reader {
            section: Section::Outside,
            ignore: Vec::new(),
            globs: Vec::new(),
            ignore_sound: true,
            globs_sound: true,
        };
        assert(reader.ignore.deep_view() =~= Seq::empty());
        assert(reader.globs.deep_view() =~= Seq::empty());
        reader
    }

    /// Reads one line. Returns whether the line has a section to belong to;
    /// if it has none, nothing changes.
    fn read(&mut self, token: Token) -> (placed: bool)
        ensures
            placed == step(old(self)@, token@).is_some(),
            placed ==> final(self)@ == step(old(self)@, token@).unwrap(),
            !placed ==> *final(self) == *old(self),
    {
        match token {
            Token::Blank => true,
            Token::Header(section) => {
                self.section = section;
                true
            },
            Token::Entry(pattern) => match self.section {
                Section::Outside => false,
                Section::Ignore => {
                    self.ignore.push(pattern);
                    assert(self.ignore.deep_view() =~= old(self).ignore.deep_view().push(pattern@));
                    true
                },
                Section::Globs => {
                    self.globs.push(pattern);
                    assert(self.globs.deep_view() =~= old(self).globs.deep_view().push(pattern@));
                    true
                },
                Section::Other => true,
            },
            Token::Junk => match self.section {
                Section::Outside => false,
                Section::Ignore => {
                    self.ignore_sound = false;
                    true
                },
                Section::Globs => {
                    self.globs_sound = false;
                    true
                },
                Section::Other => true,
            },
        }
    }

    /// The configuration that was read.
    fn finish(self) -> (cfg: EnforcerCfg)
        ensures
            cfg@ == outcome(self@),
    {
        let ignore = if self.ignore_sound {
            self.ignore
        } else {
            Vec::new()
        };
        let globs = if self.globs_sound {
            self.globs
        } else {
            Vec::new()
        };
        assert(!self.ignore_sound ==> ignore.deep_view() =~= Seq::empty());
        assert(!self.globs_sound ==> globs.deep_view() =~= Seq::empty());
        EnforcerCfg { ignore, globs }
    }
}

/// Reads a configuration from `input`. The sections `ignore` and `globs`
/// give the two lists, each in the order of its entries; a section that is
/// missing gives an empty list, and so does one with a line that is neither
/// a header nor an entry. Other sections are skipped. The text is rejected
/// exactly if an entry or a malformed line stands before the first header,
/// and the error names the first such line.
pub fn read_config(input: &str) -> (result: Result<EnforcerCfg, ParseError>)
    ensures
        match result {
            Ok(cfg) => parse_config(input@) == Ok::<Config, nat>(cfg@),
            Err(error) => parse_config(input@) == Err::<Config, nat>(error.line as nat),
        },
{
    let chars = chars_of(input);
    let mut reader = Reader::new();
    let mut start: usize = 0;
    let mut index: usize = 0;
    assert(chars@.skip(0) == chars@);
    loop
        invariant_except_break
            read_lines(lines(chars@.skip(start as int)), reader@, (index + 1) as nat)
                == read_lines(lines(chars@), nothing_read(), 1),
        invariant
            index <= start <= chars.len(),
            chars@ == input@,
        ensures
            read_lines(lines(chars@), nothing_read(), 1) == Ok::<Progress, nat>(reader@),
        decreases chars.len() - start,
    {
        let end = line_end(&chars, start);
        let ghost rest = chars@.skip(start as int);
        proof {
            lemma_first_line_len(rest);
            assert(rest.take(end - start) == chars@.subrange(start as int, end as int));
            if end == chars.len() {
                assert(rest.take(end - start) == rest);
                assert(lines(rest) == seq![rest]);
                assert(lines(rest).drop_first() == Seq::<Seq<char>>::empty());
            } else {
                let tail = lines(chars@.skip(end + 1));
                assert(rest.skip(end - start + 1) == chars@.skip(end + 1));
                assert(lines(rest).drop_first() == tail);
            }
            assert(lines(rest)[0] == chars@.subrange(start as int, end as int));
        }
        let token = token_of(&chars, start, end);
        if !reader.read(token) {
            return Err(ParseError { line: index + 1 });
        }
        if end == chars.len() {
            proof {
                assert(read_lines(lines(rest).drop_first(), reader@, (index + 2) as nat) == Ok::<
                    Progress,
                    nat,
                >(reader@));
            }
            break ;
        }
        start = end + 1;
        index += 1;
    }
    Ok(reader.finish())
}

/// The patterns of the files to check: those that were given for this run
/// or, where none were given, those of the configuration.
pub fn choose_globs(given: Vec<String>, configured: Vec<String>) -> (globs: Vec<String>)
    ensures
        globs == if given.len() > 0 {
            given
        } else {
            configured
        },
{
    if given.len() > 0 {
        given
    } else {
        configured
    }
}

/// `x` as a string of its own.
pub fn s(x: &str) -> (owned: String)
    ensures
        owned@ == x@,
{
    x.to_owned()
}

/// The configuration that is used where none is given: the directories of
/// version control are left out, and C and C++ sources are checked.
pub fn default_cfg() -> (cfg: EnforcerCfg)
    ensures
        cfg@ == default_config(),
{
    let mut ignore: Vec<String> = Vec::new();
    ignore.push(s(".git"));
    ignore.push(s(".repo"));
    let mut globs: Vec<String> = Vec::new();
    globs.push(s("**/*.c"));
    globs.push(s("**/*.cpp"));
    globs.push(s("**/*.h"));
    assert(ignore.deep_view() =~= default_config().ignore);
    assert(globs.deep_view() =~= default_config().globs);
    EnforcerCfg { ignore, globs }
}

} // verus!
