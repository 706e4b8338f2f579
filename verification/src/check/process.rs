//! Checking one file, and keeping count over many.
//!
//! A file that has been read is scanned as it is, so that the findings tell
//! what the file held, whether or not it is cleaned afterwards. If cleaning
//! is asked for and changes the text, the cleaned text is handed back to be
//! written in place of the file; otherwise the file stays as it is.

use crate::check::clean::{clean_chars, clean_text};
use crate::check::scan::{
    findings, lemma_findings_of_text, scan, text_holds_illegal, text_holds_tab, ScanResult,
};
use crate::text::chars_of;
use vstd::prelude::*;
use vstd::string::StringSliceAdditionalSpecFns;

verus! {

/// What checking one file's content came to.
#[derive(Debug)]
pub struct Outcome {
    /// What the content held before any cleaning.
    pub findings: ScanResult,
    /// The text to write in place of the content, if it is to change.
    pub rewrite: Option<String>,
}

/// The text to write in place of `text`: the cleaned text where cleaning is
/// asked for and changes `text`, otherwise none.
pub open spec fn rewrite_of(text: Seq<char>, clean: bool) -> Option<Seq<char>> {
    if clean && clean_text(text) != text {
        Some(clean_text(text))
    } else {
        None
    }
}

/// Checks the content of one file. The findings are those of the bytes of
/// `content` as it was given: a tab is found exactly if the text holds one,
/// and an illegal character exactly if it holds a character that is not
/// legal. A text to write back is returned exactly if `clean` is set and
/// cleaning changes the content, and it is the cleaned content.
pub fn check_content(content: &str, clean: bool) -> (outcome: Outcome)
    ensures
        outcome.findings == findings(content.spec_bytes()),
        outcome.findings.has_tabs == text_holds_tab(content@),
        outcome.findings.has_illegal_characters == text_holds_illegal(content@),
        match outcome.rewrite {
            Some(text) => rewrite_of(content@, clean) == Some(text@),
            None => rewrite_of(content@, clean).is_none(),
        },
        !clean ==> outcome.rewrite.is_none(),
{
    let found = scan(content.as_bytes());
    proof {
        lemma_findings_of_text(content@);
    }
    if !clean {
        return Outcome { findings: found, rewrite: None };
    }
    let chars = chars_of(content);
    let (cleaned, changed) = clean_chars(&chars);
    if changed {
        Outcome { findings: found, rewrite: Some(cleaned) }
    } else {
        Outcome { findings: found, rewrite: None }
    }
}

/// The counts over the files checked so far.
#[derive(Debug, Clone, Copy, PartialEq, Eq, Structural)]
pub struct Report {
    /// The number of files checked.
    pub checked_files: u32,
    /// The number of files that held a tab.
    pub had_tabs: u32,
    /// The number of files that held an illegal character.
    pub had_illegals: u32,
}

impl Report {
    /// Whether the counts can be those of a run: no finding is counted more
    /// often than there were files.
    pub open spec fn consistent(self) -> bool {
        self.had_tabs <= self.checked_files && self.had_illegals <= self.checked_files
    }

    /// The report of a run that has checked no file yet.
    pub fn new() -> (report: Report)
        ensures
            report == (Report { checked_files: 0, had_tabs: 0, had_illegals: 0 }),
            report.consistent(),
    {
        Report { checked_files: 0, had_tabs: 0, had_illegals: 0 }
    }

    /// Whether one more file can be counted.
    pub fn has_room(&self) -> (room: bool)
        ensures
            room == (self.checked_files < u32::MAX),
    {
        self.checked_files < u32::MAX
    }

    /// Counts one more file with the given findings.
    pub fn record(&mut self, found: &ScanResult)
        requires
            old(self).consistent(),
            old(self).checked_files < u32::MAX,
        ensures
            final(self).consistent(),
            final(self).checked_files == old(self).checked_files + 1,
            final(self).had_tabs == old(self).had_tabs + if found.has_tabs {
                1int
            } else {
                0int
            },
            final(self).had_illegals == old(self).had_illegals + if found.has_illegal_characters {
                1int
            } else {
                0int
            },
    {
        self.checked_files += 1;
        if found.has_tabs {
            self.had_tabs += 1;
        }
        if found.has_illegal_characters {
            self.had_illegals += 1;
        }
    }
}

} // verus!
