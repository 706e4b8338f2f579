//! Text as a sequence of characters, and its division into lines.
//!
//! A text is modelled as a `Seq<char>`. Its lines are the pieces between line
//! feeds: a text with `n` line feeds has `n + 1` lines, the last of which is
//! empty when the text ends in a line feed. Dividing a text into lines and
//! joining the lines again with line feeds gives the text back, which is what
//! lets line-by-line transformations keep everything they do not touch.

use vstd::prelude::*;

verus! {

/// `String::push` appends the given character to the end of the string.
pub assume_specification[ String::push ](string: &mut String, ch: char)
    ensures
        final(string)@ == old(string)@.push(ch),
;

/// The number of characters before the first line feed of `text`, or the
/// length of `text` if it holds none.
pub open spec fn first_line_len(text: Seq<char>) -> nat
    decreases text.len(),
{
    if text.len() == 0 || text[0] == '\n' {
        0
    } else {
        1 + first_line_len(text.drop_first())
    }
}

/// The lines of `text`, in order, without their line feeds.
pub open spec fn lines(text: Seq<char>) -> Seq<Seq<char>>
    decreases text.len(),
{
    let n = first_line_len(text) as int;
    if n >= text.len() {
        seq![text]
    } else {
        seq![text.take(n)] + lines(text.skip(n + 1))
    }
}

/// The given lines with one line feed between each two neighbours.
pub open spec fn join(lines: Seq<Seq<char>>) -> Seq<char>
    decreases lines.len(),
{
    if lines.len() == 0 {
        Seq::empty()
    } else if lines.len() == 1 {
        lines[0]
    } else {
        lines[0] + seq!['\n'] + join(lines.drop_first())
    }
}

/// Whether `line` is free of line feeds.
pub open spec fn is_line(line: Seq<char>) -> bool {
    forall|i: int| 0 <= i < line.len() ==> line[i] != '\n'
}

/// The first line ends at the first line feed, and nowhere before it.
pub proof fn lemma_first_line_len(text: Seq<char>)
    ensures
        first_line_len(text) <= text.len(),
        is_line(text.take(first_line_len(text) as int)),
        first_line_len(text) < text.len() ==> text[first_line_len(text) as int] == '\n',
    decreases text.len(),
{
    if text.len() == 0 || text[0] == '\n' {
    } else {
        let rest = text.drop_first();
        lemma_first_line_len(rest);
        let n = first_line_len(text) as int;
        assert forall|i: int| 0 <= i < n implies text.take(n)[i] != '\n' by {
            if i > 0 {
                assert(rest.take(n - 1)[i - 1] == text[i]);
            }
        }
    }
}

/// A position that holds the first line feed, or the end of a text without
/// one, is where the first line ends.
pub proof fn lemma_first_line_len_is(text: Seq<char>, k: int)
    requires
        0 <= k <= text.len(),
        forall|i: int| 0 <= i < k ==> text[i] != '\n',
        k < text.len() ==> text[k] == '\n',
    ensures
        first_line_len(text) == k,
    decreases text.len(),
{
    if text.len() == 0 || text[0] == '\n' {
    } else {
        let rest = text.drop_first();
        assert forall|i: int| 0 <= i < k - 1 implies rest[i] != '\n' by {
            assert(rest[i] == text[i + 1]);
        }
        lemma_first_line_len_is(rest, k - 1);
    }
}

/// A text has at least one line, and no line holds a line feed.
pub proof fn lemma_lines_are_lines(text: Seq<char>)
    ensures
        lines(text).len() >= 1,
        forall|i: int| 0 <= i < lines(text).len() ==> is_line(#[trigger] lines(text)[i]),
    decreases text.len(),
{
    lemma_first_line_len(text);
    let n = first_line_len(text) as int;
    if n >= text.len() {
        assert(text.take(n) == text);
    } else {
        let rest = text.skip(n + 1);
        lemma_lines_are_lines(rest);
        assert forall|i: int| 0 <= i < lines(text).len() implies is_line(
            #[trigger] lines(text)[i],
        ) by {
            if i > 0 {
                assert(lines(text)[i] == lines(rest)[i - 1]);
            }
        }
    }
}

/// Joining puts the first line, a line feed and the joined rest in a row.
pub proof fn lemma_join_cons(first: Seq<char>, rest: Seq<Seq<char>>)
    requires
        rest.len() >= 1,
    ensures
        join(seq![first] + rest) == first + seq!['\n'] + join(rest),
{
    let all = seq![first] + rest;
    assert(all.drop_first() == rest);
}

/// Joining the lines of a text gives the text back.
pub proof fn lemma_join_lines(text: Seq<char>)
    ensures
        join(lines(text)) == text,
    decreases text.len(),
{
    lemma_first_line_len(text);
    let n = first_line_len(text) as int;
    if n >= text.len() {
    } else {
        let rest = text.skip(n + 1);
        lemma_join_lines(rest);
        lemma_lines_are_lines(rest);
        lemma_join_cons(text.take(n), lines(rest));
        assert(text.take(n) + seq!['\n'] + rest == text);
    }
}

/// Dividing joined lines gives the lines back, provided that there is at
/// least one and that none holds a line feed.
pub proof fn lemma_lines_join(ls: Seq<Seq<char>>)
    requires
        ls.len() >= 1,
        forall|i: int| 0 <= i < ls.len() ==> is_line(#[trigger] ls[i]),
    ensures
        lines(join(ls)) == ls,
    decreases ls.len(),
{
    let first = ls[0];
    assert(is_line(first));
    if ls.len() == 1 {
        lemma_first_line_len_is(first, first.len() as int);
        assert(ls == seq![first]);
    } else {
        let rest = ls.drop_first();
        assert forall|i: int| 0 <= i < rest.len() implies is_line(#[trigger] rest[i]) by {
            assert(rest[i] == ls[i + 1]);
        }
        lemma_lines_join(rest);
        let text = join(ls);
        assert(text == first + seq!['\n'] + join(rest));
        lemma_first_line_len_is(text, first.len() as int);
        assert(text.take(first.len() as int) == first);
        assert(text.skip(first.len() as int + 1) == join(rest));
        assert(seq![first] + rest == ls);
    }
}

/// Whether `text` ends in a line feed.
pub open spec fn ends_in_line_feed(text: Seq<char>) -> bool {
    text.len() > 0 && text.last() == '\n'
}

/// A text ends in a line feed exactly if it has more than one line and its
/// last line is empty.
pub proof fn lemma_final_line_feed(text: Seq<char>)
    ensures
        ends_in_line_feed(text) <==> lines(text).len() >= 2 && lines(text).last().len() == 0,
    decreases text.len(),
{
    lemma_first_line_len(text);
    let n = first_line_len(text) as int;
    if n >= text.len() {
        assert(text.take(n) == text);
        assert(lines(text).len() == 1);
        if text.len() > 0 {
            assert(text.take(n)[text.len() - 1] != '\n');
        }
    } else {
        let rest = text.skip(n + 1);
        lemma_final_line_feed(rest);
        lemma_lines_are_lines(rest);
        assert(lines(text).len() == 1 + lines(rest).len());
        assert(lines(text).last() == lines(rest).last());
        if rest.len() > 0 {
            assert(text.last() == rest.last());
            if lines(rest).len() == 1 {
                lemma_join_lines(rest);
                assert(lines(rest).last() == rest);
            }
        } else {
            assert(text.last() == text[n]);
            assert(lines(rest) == seq![rest]);
        }
    }
}

/// The characters of `s`, one element each.
pub fn chars_of(s: &str) -> (chars: Vec<char>)
    ensures
        chars@ == s@,
{
    let mut chars: Vec<char> = Vec::new();
    for c in it: s.chars()
        invariant
            it.seq() == s@,
            chars@ == it.seq().take(it.index() as int),
    {
        chars.push(c);
    }
    chars
}

/// Appends the characters `chars[from..to]` to `out`.
pub fn push_range(out: &mut String, chars: &Vec<char>, from: usize, to: usize)
    requires
        from <= to <= chars.len(),
    ensures
        final(out)@ == old(out)@ + chars@.subrange(from as int, to as int),
{
    let mut i: usize = from;
    while i < to
        invariant
            from <= i <= to <= chars.len(),
            out@ == old(out)@ + chars@.subrange(from as int, i as int),
        decreases to - i,
    {
        out.push(chars[i]);
        i += 1;
    }
}

/// The characters `chars[from..to]` as a string.
pub fn string_of(chars: &Vec<char>, from: usize, to: usize) -> (s: String)
    requires
        from <= to <= chars.len(),
    ensures
        s@ == chars@.subrange(from as int, to as int),
{
    let mut s = String::new();
    push_range(&mut s, chars, from, to);
    s
}

/// The end of the line that starts at `start`: the position of the next line
/// feed, or the end of the text.
pub fn line_end(chars: &Vec<char>, start: usize) -> (end: usize)
    requires
        start <= chars.len(),
    ensures
        start <= end <= chars.len(),
        end - start == first_line_len(chars@.skip(start as int)),
{
    let mut end: usize = start;
    while end < chars.len() && chars[end] != '\n'
        invariant
            start <= end <= chars.len(),
            forall|i: int| start <= i < end ==> chars@[i] != '\n',
        decreases chars.len() - end,
    {
        end += 1;
    }
    proof {
        lemma_first_line_len_is(chars@.skip(start as int), end - start);
    }
    end
}

} // verus!
