//! What a file's content holds.
//!
//! A file is scanned as bytes. Two findings are reported, each on its own:
//! whether a tab occurs, and whether a byte occurs that has no place in a
//! source file. The bytes that have a place are the printable ASCII
//! characters, space, tab, line feed and carriage return.

use vstd::prelude::*;
use vstd::utf8::{encode_scalar, encode_utf8};

verus! {

/// The bit that stands for a tab in a set of findings.
pub const HAS_TABS: u8 = 1;

/// The bit that stands for an illegal character in a set of findings.
pub const HAS_ILLEGAL_CHARACTERS: u8 = 2;

/// Whether `byte` may occur in a source file: printable ASCII, space, tab,
/// line feed or carriage return.
pub open spec fn is_legal(byte: u8) -> bool {
    (0x20 <= byte <= 0x7e) || byte == 0x09 || byte == 0x0a || byte == 0x0d
}

/// Whether a tab occurs in `bytes`.
pub open spec fn holds_tab(bytes: Seq<u8>) -> bool {
    exists|i: int| 0 <= i < bytes.len() && bytes[i] == 0x09
}

/// Whether a byte occurs in `bytes` that may not occur in a source file.
pub open spec fn holds_illegal(bytes: Seq<u8>) -> bool {
    exists|i: int| 0 <= i < bytes.len() && !is_legal(bytes[i])
}

/// Whether `c` may occur in a source file: whether it is an ASCII
/// character, and as such a byte of its own in UTF-8, and that byte is
/// legal.
pub open spec fn is_legal_char(c: char) -> bool {
    c as u32 <= 0x7f && is_legal(c as u8)
}

/// Whether a tab occurs in `text`.
pub open spec fn text_holds_tab(text: Seq<char>) -> bool {
    exists|i: int| 0 <= i < text.len() && text[i] == '\t'
}

/// Whether a character occurs in `text` that may not occur in a source
/// file.
pub open spec fn text_holds_illegal(text: Seq<char>) -> bool {
    exists|i: int| 0 <= i < text.len() && !is_legal_char(text[i])
}

/// The findings on one file's content.
#[derive(Clone, Copy, Debug, PartialEq, Eq, Structural)]
pub struct ScanResult {
    /// A tab occurs.
    pub has_tabs: bool,
    /// A character occurs that may not occur in a source file.
    pub has_illegal_characters: bool,
}

/// The findings on `bytes`.
pub open spec fn findings(bytes: Seq<u8>) -> ScanResult {
    ScanResult { has_tabs: holds_tab(bytes), has_illegal_characters: holds_illegal(bytes) }
}

impl ScanResult {
    /// The findings as a set of bits.
    pub open spec fn spec_bits(self) -> u8 {
        if self.has_tabs && self.has_illegal_characters {
            3
        } else if self.has_illegal_characters {
            2
        } else if self.has_tabs {
            1
        } else {
            0
        }
    }

    /// The findings as a set of bits: `HAS_TABS` is set exactly if a tab was
    /// found, `HAS_ILLEGAL_CHARACTERS` exactly if an illegal character was,
    /// and no other bit is set.
    pub fn bits(&self) -> (bits: u8)
        ensures
            bits == self.spec_bits(),
            (bits & HAS_TABS) > 0 <==> self.has_tabs,
            (bits & HAS_ILLEGAL_CHARACTERS) > 0 <==> self.has_illegal_characters,
            bits & !(HAS_TABS | HAS_ILLEGAL_CHARACTERS) == 0,
    {
        let mut bits: u8 = 0;
        if self.has_tabs {
            bits = bits | HAS_TABS;
        }
        if self.has_illegal_characters {
            bits = bits | HAS_ILLEGAL_CHARACTERS;
        }
        assert(0u8 | 1u8 == 1u8 && 0u8 | 2u8 == 2u8 && 1u8 | 2u8 == 3u8) by (bit_vector);
        assert(0u8 & 1u8 == 0u8 && 1u8 & 1u8 == 1u8 && 2u8 & 1u8 == 0u8 && 3u8 & 1u8 == 1u8)
            by (bit_vector);
        assert(0u8 & 2u8 == 0u8 && 1u8 & 2u8 == 0u8 && 2u8 & 2u8 == 2u8 && 3u8 & 2u8 == 2u8)
            by (bit_vector);
        assert(0u8 & !(1u8 | 2u8) == 0u8 && 1u8 & !(1u8 | 2u8) == 0u8 && 2u8 & !(1u8 | 2u8) == 0u8
            && 3u8 & !(1u8 | 2u8) == 0u8) by (bit_vector);
        bits
    }
}

/// The findings on the UTF-8 encoding of one character: a tab is found
/// exactly if the character is a tab, and an illegal character exactly if
/// the character is none of the legal ones.
proof fn lemma_findings_of_char(c: char, encoded: Seq<u8>)
    requires
        encoded == encode_scalar(c as u32),
    ensures
        holds_tab(encoded) == (c == '\t'),
        holds_illegal(encoded) == !is_legal_char(c),
{
    let v = c as u32;
    assert(v <= 0x7f ==> (v & 0x7F) as u8 == v as u8) by (bit_vector);
    assert(0xC0u8 | ((v >> 6) & 0x1F) as u8 >= 0x80) by (bit_vector);
    assert(0xE0u8 | ((v >> 12) & 0x0F) as u8 >= 0x80) by (bit_vector);
    assert(0xF0u8 | ((v >> 18) & 0x7) as u8 >= 0x80) by (bit_vector);
    assert(0x80u8 | (v & 0x3F) as u8 >= 0x80) by (bit_vector);
    assert(0x80u8 | ((v >> 6) & 0x3F) as u8 >= 0x80) by (bit_vector);
    assert(0x80u8 | ((v >> 12) & 0x3F) as u8 >= 0x80) by (bit_vector);
    assert('\t' as u32 == 0x09);
    if v <= 0x7f {
        assert(encoded == seq![c as u8]);
        assert(encoded[0] == c as u8);
        if c == '\t' {
            assert(encoded[0] == 0x09);
        }
        if v == 0x09 {
            vstd::utf8::char_u32_cast(c, 0x09u32);
            vstd::utf8::char_u32_cast('\t', 0x09u32);
        }
        if !is_legal_char(c) {
            assert(!is_legal(encoded[0]));
        }
    } else {
        assert(forall|j: int| 0 <= j < encoded.len() ==> #[trigger] encoded[j] >= 0x80);
        assert(!is_legal(encoded[0]));
    }
}

/// The findings on the UTF-8 encoding of a text are findings on the text:
/// a tab is found exactly if the text holds a tab, and an illegal character
/// exactly if it holds a character that is none of the legal ones. So
/// every character beyond ASCII is illegal.
pub proof fn lemma_findings_of_text(text: Seq<char>)
    ensures
        holds_tab(encode_utf8(text)) == text_holds_tab(text),
        holds_illegal(encode_utf8(text)) == text_holds_illegal(text),
    decreases text.len(),
{
    if text.len() > 0 {
        let c = text[0];
        let rest = text.drop_first();
        let head = encode_scalar(c as u32);
        let tail = encode_utf8(rest);
        let bytes = encode_utf8(text);
        lemma_findings_of_char(c, head);
        lemma_findings_of_text(rest);
        assert(bytes == head + tail);
        assert(forall|j: int| 0 <= j < head.len() ==> bytes[j] == head[j]);
        assert(forall|j: int| 0 <= j < tail.len() ==> bytes[head.len() + j] == tail[j]);
        assert(forall|i: int| 0 <= i < rest.len() ==> rest[i] == text[i + 1]);
        if holds_tab(bytes) {
            let j = choose|j: int| 0 <= j < bytes.len() && bytes[j] == 0x09;
            if j < head.len() {
                assert(head[j] == 0x09);
                assert(text[0] == '\t');
            } else {
                assert(tail[j - head.len()] == 0x09);
                let i = choose|i: int| 0 <= i < rest.len() && rest[i] == '\t';
                assert(text[i + 1] == '\t');
            }
        }
        if text_holds_tab(text) {
            let i = choose|i: int| 0 <= i < text.len() && text[i] == '\t';
            if i == 0 {
                let j = choose|j: int| 0 <= j < head.len() && head[j] == 0x09;
                assert(bytes[j] == 0x09);
            } else {
                assert(rest[i - 1] == '\t');
                let j = choose|j: int| 0 <= j < tail.len() && tail[j] == 0x09;
                assert(bytes[head.len() + j] == 0x09);
            }
        }
        if holds_illegal(bytes) {
            let j = choose|j: int| 0 <= j < bytes.len() && !is_legal(bytes[j]);
            if j < head.len() {
                assert(!is_legal(head[j]));
                assert(!is_legal_char(text[0]));
            } else {
                assert(!is_legal(tail[j - head.len()]));
                let i = choose|i: int| 0 <= i < rest.len() && !is_legal_char(rest[i]);
                assert(!is_legal_char(text[i + 1]));
            }
        }
        if text_holds_illegal(text) {
            let i = choose|i: int| 0 <= i < text.len() && !is_legal_char(text[i]);
            if i == 0 {
                let j = choose|j: int| 0 <= j < head.len() && !is_legal(head[j]);
                assert(!is_legal(bytes[j]));
            } else {
                assert(!is_legal_char(rest[i - 1]));
                let j = choose|j: int| 0 <= j < tail.len() && !is_legal(tail[j]);
                assert(!is_legal(bytes[head.len() + j]));
            }
        }
    }
}

/// Whether `byte` may occur in a source file.
pub fn is_legal_byte(byte: u8) -> (legal: bool)
    ensures
        legal == is_legal(byte),
{
    (0x20 <= byte && byte <= 0x7e) || byte == 0x09 || byte == 0x0a || byte == 0x0d
}

/// Scans `bytes` from end to end. A tab is reported exactly if the byte 9
/// occurs, an illegal character exactly if a byte occurs that `is_legal`
/// rejects; neither finding has a part in the other.
pub fn scan(bytes: &[u8]) -> (found: ScanResult)
    ensures
        found == findings(bytes@),
        found.has_tabs <==> holds_tab(bytes@),
        found.has_illegal_characters <==> holds_illegal(bytes@),
{
    let mut has_tabs = false;
    let mut has_illegal_characters = false;
    let mut i: usize = 0;
    while i < bytes.len()
        invariant
            i <= bytes.len(),
            has_tabs <==> exists|j: int| 0 <= j < i && bytes@[j] == 0x09,
            has_illegal_characters <==> exists|j: int| 0 <= j < i && !is_legal(bytes@[j]),
        decreases bytes.len() - i,
    {
        let byte = bytes[i];
        if byte == 0x09 {
            has_tabs = true;
        }
        if !is_legal_byte(byte) {
            has_illegal_characters = true;
        }
        i += 1;
    }
    ScanResult { has_tabs, has_illegal_characters }
}

} // verus!
