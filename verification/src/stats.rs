//! The summary sink the classifier reports to, and its standard
//! implementation.

use vstd::prelude::*;
use crate::counts::{counts_zero, spec_postprocess, Counts};

verus! {

/// An accumulator of per-file line counts. The classifier reports every
/// line to exactly one of the three line methods, and calls `postprocess`
/// once after the last line; `unprocessed_lines` records a whole batch as
/// code for languages with no comment syntax.
pub trait LanguageSummary: Sized {
    /// The counts recorded so far.
    spec fn counts(&self) -> Counts;

    /// The identity of the file being summarised.
    spec fn path(&self) -> Seq<char>;

    /// A fresh summary for the file named `name`.
    fn new(name: String) -> (r: Self)
        ensures
            r.counts() == counts_zero(),
            r.path() == name@;

    /// Record every line of the batch as a line of code.
    fn unprocessed_lines(&mut self, lines: &Vec<Vec<u8>>)
        requires
            old(self).counts().code + lines@.len() <= usize::MAX,
            old(self).counts().lines + lines@.len() <= usize::MAX,
        ensures
            final(self).counts() == (Counts {
                lines: old(self).counts().lines + lines@.len(),
                code: old(self).counts().code + lines@.len(),
                ..old(self).counts()
            }),
            final(self).path() == old(self).path();

    /// Record one line of code.
    fn code_line(&mut self, line: &Vec<u8>)
        requires
            old(self).counts().code < usize::MAX,
        ensures
            final(self).counts() == (Counts {
                code: old(self).counts().code + 1,
                ..old(self).counts()
            }),
            final(self).path() == old(self).path();

    /// Record one comment line.
    fn comment_line(&mut self, line: &Vec<u8>)
        requires
            old(self).counts().comments < usize::MAX,
        ensures
            final(self).counts() == (Counts {
                comments: old(self).counts().comments + 1,
                ..old(self).counts()
            }),
            final(self).path() == old(self).path();

    /// Record one blank line.
    fn blank_line(&mut self, line: &Vec<u8>)
        requires
            old(self).counts().blanks < usize::MAX,
        ensures
            final(self).counts() == (Counts {
                blanks: old(self).counts().blanks + 1,
                ..old(self).counts()
            }),
            final(self).path() == old(self).path();

    /// Derive the total line count from the per-kind counters.
    fn postprocess(&mut self)
        requires
            old(self).counts().code + old(self).counts().comments + old(self).counts().blanks
                <= usize::MAX,
        ensures
            final(self).counts() == spec_postprocess(old(self).counts()),
            final(self).path() == old(self).path();
}

/// The standard summary: four counters and the file's name.
pub struct Stats {
    pub name: String,
    pub lines: usize,
    pub code: usize,
    pub comments: usize,
    pub blanks: usize,
}

impl Stats {
    /// A fresh all-zero summary for the file named `name`.
    pub fn new(name: String) -> (r: Stats)
        ensures
            r.counts() == counts_zero(),
            r.path() == name@,
    {
        Stats { name, lines: 0, code: 0, comments: 0, blanks: 0 }
    }
}

impl LanguageSummary for Stats {
    open spec fn counts(&self) -> Counts {
        Counts {
            lines: self.lines as nat,
            code: self.code as nat,
            comments: self.comments as nat,
            blanks: self.blanks as nat,
        }
    }

    open spec fn path(&self) -> Seq<char> {
        self.name@
    }

    fn new(name: String) -> (r: Self) {
        Stats::new(name)
    }

    fn unprocessed_lines(&mut self, lines: &Vec<Vec<u8>>) {
        let count = lines.len();
        self.code = self.code + count;
        self.lines = self.lines + count;
    }

    fn code_line(&mut self, _line: &Vec<u8>) {
        self.code = self.code + 1;
    }

    fn comment_line(&mut self, _line: &Vec<u8>) {
        self.comments = self.comments + 1;
    }

    fn blank_line(&mut self, _line: &Vec<u8>) {
        self.blanks = self.blanks + 1;
    }

    fn postprocess(&mut self) {
        self.lines = self.blanks + self.code + self.comments;
    }
}

} // verus!
