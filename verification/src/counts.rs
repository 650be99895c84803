//! The mathematical model of a file's per-line counts.

use vstd::prelude::*;

verus! {

/// What the classifier decides about a single line.
pub enum LineKind {
    Code,
    Comment,
    Blank,
}

/// The counts a summary accumulates for one file: total lines, code lines,
/// comment lines and blank lines.
pub struct Counts {
    pub lines: nat,
    pub code: nat,
    pub comments: nat,
    pub blanks: nat,
}

/// Counts before any line has been recorded.
pub open spec fn counts_zero() -> Counts {
    Counts { lines: 0, code: 0, comments: 0, blanks: 0 }
}

/// Record one line of the given kind; the running `lines` total is not
/// maintained incrementally, only the per-kind counters move.
pub open spec fn counts_inc(c: Counts, k: LineKind) -> Counts {
    match k {
        LineKind::Code => Counts { code: c.code + 1, ..c },
        LineKind::Comment => Counts { comments: c.comments + 1, ..c },
        LineKind::Blank => Counts { blanks: c.blanks + 1, ..c },
    }
}

/// Component-wise sum of two counts.
pub open spec fn counts_add(a: Counts, b: Counts) -> Counts {
    Counts {
        lines: a.lines + b.lines,
        code: a.code + b.code,
        comments: a.comments + b.comments,
        blanks: a.blanks + b.blanks,
    }
}

/// The post-processing step: derive the total from the per-kind counters.
pub open spec fn spec_postprocess(c: Counts) -> Counts {
    Counts { lines: c.code + c.comments + c.blanks, ..c }
}

} // verus!
