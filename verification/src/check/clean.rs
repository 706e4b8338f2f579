//! Removing trailing whitespace.
//!
//! Cleaning works line by line: every line loses the spaces and tabs at its
//! end, and nothing else changes. The line feeds stay where they are, so a
//! text keeps its number of lines and its final line feed, if it has one.

use crate::text::{
    chars_of, ends_in_line_feed, first_line_len, is_line, join, lemma_final_line_feed,
    lemma_first_line_len, lemma_join_cons, lemma_join_lines, lemma_lines_are_lines,
    lemma_lines_join, line_end, lines, push_range,
};
use vstd::prelude::*;

verus! {

/// The characters that are removed from the end of a line: space and tab.
pub open spec fn is_blank(c: char) -> bool {
    c == ' ' || c == '\t'
}

/// `line` without the spaces and tabs at its end.
pub open spec fn strip_trailing(line: Seq<char>) -> Seq<char>
    decreases line.len(),
{
    if line.len() > 0 && is_blank(line.last()) {
        strip_trailing(line.drop_last())
    } else {
        line
    }
}

/// Each of the given lines without the spaces and tabs at its end.
pub open spec fn strip_each(ls: Seq<Seq<char>>) -> Seq<Seq<char>> {
    Seq::new(ls.len(), |i: int| strip_trailing(ls[i]))
}

/// `text` with every line stripped of its trailing spaces and tabs.
pub open spec fn clean_text(text: Seq<char>) -> Seq<char> {
    join(strip_each(lines(text)))
}

/// Whether no line of `text` ends in a space or a tab.
pub open spec fn is_clean(text: Seq<char>) -> bool {
    forall|i: int|
        0 <= i < lines(text).len() ==> {
            let line = #[trigger] lines(text)[i];
            line.len() == 0 || !is_blank(line.last())
        }
}

/// Stripping takes characters from the end only: what is left is a prefix
/// that does not end in a space or a tab, and what was taken is all blank.
pub proof fn lemma_strip_trailing(line: Seq<char>)
    ensures
        strip_trailing(line).len() <= line.len(),
        strip_trailing(line) == line.take(strip_trailing(line).len() as int),
        strip_trailing(line).len() == 0 || !is_blank(strip_trailing(line).last()),
        forall|i: int| strip_trailing(line).len() <= i < line.len() ==> is_blank(line[i]),
    decreases line.len(),
{
    if line.len() > 0 && is_blank(line.last()) {
        let shorter = line.drop_last();
        lemma_strip_trailing(shorter);
        let n = strip_trailing(line).len() as int;
        assert(shorter.take(n) == line.take(n));
        assert forall|i: int| n <= i < line.len() implies is_blank(line[i]) by {
            if i < shorter.len() {
                assert(shorter[i] == line[i]);
            }
        }
    } else {
        assert(line.take(line.len() as int) == line);
    }
}

/// Stripping a line twice is stripping it once.
pub proof fn lemma_strip_trailing_idempotent(line: Seq<char>)
    ensures
        strip_trailing(strip_trailing(line)) == strip_trailing(line),
{
    lemma_strip_trailing(line);
}

/// A stripped line holds no line feed if the line held none.
pub proof fn lemma_strip_trailing_is_line(line: Seq<char>)
    requires
        is_line(line),
    ensures
        is_line(strip_trailing(line)),
{
    lemma_strip_trailing(line);
}

/// Cleaning a text is stripping its first line and cleaning the rest.
pub proof fn lemma_clean_text_unfold(text: Seq<char>)
    ensures
        clean_text(text) == {
            let n = first_line_len(text) as int;
            if n >= text.len() {
                strip_trailing(text)
            } else {
                strip_trailing(text.take(n)) + seq!['\n'] + clean_text(text.skip(n + 1))
            }
        },
{
    lemma_first_line_len(text);
    let n = first_line_len(text) as int;
    if n >= text.len() {
        assert(strip_each(lines(text)) == seq![strip_trailing(text)]);
    } else {
        let rest = text.skip(n + 1);
        lemma_lines_are_lines(rest);
        assert(strip_each(lines(text)) == seq![strip_trailing(text.take(n))] + strip_each(
            lines(rest),
        ));
        lemma_join_cons(strip_trailing(text.take(n)), strip_each(lines(rest)));
    }
}

/// The lines of a cleaned text are the stripped lines of the text: cleaning
/// neither adds nor removes a line, and changes no line but at its end.
pub proof fn lemma_lines_of_clean_text(text: Seq<char>)
    ensures
        lines(clean_text(text)) == strip_each(lines(text)),
{
    lemma_lines_are_lines(text);
    let stripped = strip_each(lines(text));
    assert forall|i: int| 0 <= i < stripped.len() implies is_line(#[trigger] stripped[i]) by {
        lemma_strip_trailing_is_line(lines(text)[i]);
    }
    lemma_lines_join(stripped);
}

/// Cleaning is idempotent: a cleaned text is left as it is.
pub proof fn lemma_clean_idempotent(text: Seq<char>)
    ensures
        clean_text(clean_text(text)) == clean_text(text),
{
    lemma_lines_of_clean_text(text);
    let stripped = strip_each(lines(text));
    assert forall|i: int| 0 <= i < stripped.len() implies strip_trailing(stripped[i])
        == stripped[i] by {
        lemma_strip_trailing_idempotent(lines(text)[i]);
    }
    assert(strip_each(stripped) == stripped);
}

/// A text in which no line ends in a space or a tab is left as it is.
pub proof fn lemma_clean_identity(text: Seq<char>)
    requires
        is_clean(text),
    ensures
        clean_text(text) == text,
{
    assert forall|i: int| 0 <= i < lines(text).len() implies strip_trailing(lines(text)[i])
        == lines(text)[i] by {
        let line = lines(text)[i];
        assert(line.len() == 0 || !is_blank(line.last()));
    }
    assert(strip_each(lines(text)) == lines(text));
    lemma_join_lines(text);
}

/// No line of a cleaned text ends in a space or a tab.
pub proof fn lemma_clean_text_is_clean(text: Seq<char>)
    ensures
        is_clean(clean_text(text)),
{
    lemma_lines_of_clean_text(text);
    assert forall|i: int| 0 <= i < lines(clean_text(text)).len() implies {
        let line = #[trigger] lines(clean_text(text))[i];
        line.len() == 0 || !is_blank(line.last())
    } by {
        lemma_strip_trailing(lines(text)[i]);
    }
}

/// Cleaning changes a text exactly if one of its lines ends in a space or a
/// tab.
pub proof fn lemma_unchanged_iff_clean(text: Seq<char>)
    ensures
        (clean_text(text) == text) == is_clean(text),
{
    if is_clean(text) {
        lemma_clean_identity(text);
    }
    lemma_clean_text_is_clean(text);
}

/// Cleaning keeps the final line feed of a text that has one. It ends a text
/// in a line feed that did not end in one only where the last line held
/// nothing but spaces and tabs, which then go.
pub proof fn lemma_clean_final_line_feed(text: Seq<char>)
    ensures
        ends_in_line_feed(text) ==> ends_in_line_feed(clean_text(text)),
        ends_in_line_feed(clean_text(text)) <==> lines(text).len() >= 2 && strip_trailing(
            lines(text).last(),
        ).len() == 0,
{
    lemma_lines_of_clean_text(text);
    lemma_final_line_feed(text);
    lemma_final_line_feed(clean_text(text));
}

/// The position in `chars[start..end]` after which only spaces and tabs
/// follow.
fn stripped_end(chars: &Vec<char>, start: usize, end: usize) -> (keep: usize)
    requires
        start <= end <= chars.len(),
    ensures
        start <= keep <= end,
        chars@.subrange(start as int, keep as int) == strip_trailing(
            chars@.subrange(start as int, end as int),
        ),
{
    let mut keep: usize = end;
    while keep > start && (chars[keep - 1] == ' ' || chars[keep - 1] == '\t')
        invariant
            start <= keep <= end <= chars.len(),
            strip_trailing(chars@.subrange(start as int, keep as int)) == strip_trailing(
                chars@.subrange(start as int, end as int),
            ),
        decreases keep,
    {
        proof {
            let line = chars@.subrange(start as int, keep as int);
            assert(line.last() == chars@[keep - 1]);
            assert(line.drop_last() == chars@.subrange(start as int, keep - 1));
        }
        keep -= 1;
    }
    proof {
        let line = chars@.subrange(start as int, keep as int);
        if keep > start {
            assert(line.last() == chars@[keep - 1]);
        }
    }
    keep
}

/// The cleaned text of `chars`, and whether it differs from `chars`.
pub fn clean_chars(chars: &Vec<char>) -> (result: (String, bool))
    ensures
        result.0@ == clean_text(chars@),
        result.1 == (clean_text(chars@) != chars@),
{
    let mut cleaned = String::new();
    let mut changed = false;
    let mut start: usize = 0;
    assert(chars@.skip(0) == chars@);
    loop
        invariant_except_break
            cleaned@ + clean_text(chars@.skip(start as int)) == clean_text(chars@),
            !changed ==> cleaned@ == chars@.take(start as int),
            changed ==> cleaned@.len() < start,
        invariant
            start <= chars.len(),
        ensures
            cleaned@ == clean_text(chars@),
            changed == (cleaned@ != chars@),
        decreases chars.len() - start,
    {
        let end = line_end(chars, start);
        let keep = stripped_end(chars, start, end);
        let ghost before = cleaned@;
        let ghost rest = chars@.skip(start as int);
        proof {
            lemma_clean_text_unfold(rest);
            assert(rest.take(end - start) == chars@.subrange(start as int, end as int));
        }
        push_range(&mut cleaned, chars, start, keep);
        if keep < end {
            changed = true;
        }
        if end == chars.len() {
            proof {
                assert(rest.take(end - start) == rest);
                if !changed {
                    assert(cleaned@ == chars@);
                }
            }
            break ;
        }
        cleaned.push('\n');
        proof {
            assert(rest.skip(end - start + 1) == chars@.skip(end + 1));
            let line = chars@.subrange(start as int, keep as int);
            assert(cleaned@ + clean_text(chars@.skip(end + 1)) == before + (line + seq!['\n']
                + clean_text(chars@.skip(end + 1))));
            if !changed {
                lemma_first_line_len(rest);
                assert(rest[end - start] == chars@[end as int]);
                assert(cleaned@ == chars@.take(end + 1));
            }
        }
        start = end + 1;
    }
    (cleaned, changed)
}

/// Removes the spaces and tabs at the end of every line of `input`. Lines
/// end at line feeds, which stay in place: the result has the lines of
/// `input`, each without its trailing spaces and tabs, and ends in a line
/// feed if `input` does. A text in which no line ends in a space or a tab
/// comes back as it is, and so does every text that was cleaned before.
pub fn clean_string(input: &str) -> (cleaned: String)
    ensures
        cleaned@ == clean_text(input@),
        lines(cleaned@) == strip_each(lines(input@)),
        ends_in_line_feed(input@) ==> ends_in_line_feed(cleaned@),
        is_clean(input@) <==> cleaned@ == input@,
        is_clean(cleaned@),
        clean_text(cleaned@) == cleaned@,
{
    let chars = chars_of(input);
    let (cleaned, _) = clean_chars(&chars);
    proof {
        lemma_lines_of_clean_text(input@);
        lemma_clean_final_line_feed(input@);
        lemma_unchanged_iff_clean(input@);
        lemma_clean_text_is_clean(input@);
        lemma_clean_idempotent(input@);
    }
    cleaned
}

} // verus!
