//! The per-line classifier: the fast path, the full byte-window scan of a
//! whole file, and the public parsing entry points.

use vstd::prelude::*;
use vstd::string::StringSliceAdditionalSpecFns;
use crate::config::{doc_strings_as_comments, Config};
use crate::counts::{counts_inc, counts_zero, spec_postprocess, Counts, LineKind};
use crate::language::{important_markers, seqs_view, spec_rules, LanguageType, SyntaxRules};
use crate::lines::{spec_split_lines, spec_trim, split_lines, trim};
use crate::stats::LanguageSummary;
use crate::syntax::{
    contains_marker, contains_marker_exec, first_marker, first_marker_exec, first_match,
    first_match_exec, initial_state, lemma_first_match_found, scan_from, starts_with_at, step_to,
    ScanModel, SyntaxCounter,
};

verus! {

/// The classification rule for one non-blank line, given the state the line
/// started in (summarised by `had_multi`: a block comment was open), the
/// state `after` the scan, whether the scan's last action closed a construct
/// or hit a line comment (`ended`), and the scanned window `line` (trimmed
/// unless the language is column sensitive). The line is a comment when it
/// continues or finishes a block comment open at its start, when it starts
/// with a comment marker outside any quote, or when it is part of a doc
/// string while doc strings count as comments.
pub open spec fn is_comment_line(
    ru: SyntaxRules,
    doc_cfg: bool,
    had_multi: bool,
    after: ScanModel,
    ended: bool,
    line: Seq<u8>,
) -> bool {
    ||| ((after.stack.len() > 0 || ended) && had_multi)
    ||| ((first_marker(ru.line_comments, line, 0, 0) is Some || first_match(
        ru.multi_line_comments,
        line,
        0,
        0,
    ) is Some) && after.quote is None)
    ||| ((after.quote is Some || first_match(ru.doc_quotes, line, 0, 0) is Some) && doc_cfg
        && after.quote_is_doc)
}

/// The window the byte-window scan walks: the raw line for a
/// column-sensitive language (comment recognition depends on the column),
/// the trimmed line otherwise.
pub open spec fn scanned_window(ru: SyntaxRules, raw: Seq<u8>) -> Seq<u8> {
    if ru.column_sensitive {
        raw
    } else {
        spec_trim(raw)
    }
}

/// What one raw line does to the scan state, and how it is classified: a
/// whitespace-only line is blank and leaves the state alone; otherwise the
/// byte-window scan runs over the (possibly trimmed) line and the
/// classification rule decides between comment and code.
pub open spec fn classify_line(ru: SyntaxRules, doc_cfg: bool, s: ScanModel, raw: Seq<u8>) -> (
    ScanModel,
    LineKind,
) {
    if spec_trim(raw).len() == 0 {
        (s, LineKind::Blank)
    } else {
        let line = scanned_window(ru, raw);
        let p = scan_from(ru, s, false, line, 0);
        (
            p.0,
            if is_comment_line(ru, doc_cfg, s.stack.len() > 0, p.0, p.1, line) {
                LineKind::Comment
            } else {
                LineKind::Code
            },
        )
    }
}

/// The counts after classifying `lines[k..]` starting from scan state `s`
/// with `acc` already recorded.
pub open spec fn run_from(
    ru: SyntaxRules,
    doc_cfg: bool,
    s: ScanModel,
    lines: Seq<Seq<u8>>,
    k: nat,
    acc: Counts,
) -> Counts
    decreases lines.len() - k,
{
    if k >= lines.len() {
        acc
    } else {
        let p = classify_line(ru, doc_cfg, s, lines[k as int]);
        run_from(ru, doc_cfg, p.0, lines, k + 1, counts_inc(acc, p.1))
    }
}

/// The counts of a whole byte buffer: its lines are split off, a language
/// with no comment syntax counts every line as code, and any other language
/// runs the per-line classifier from a fresh scan state, followed by the
/// post-processing step that derives the total.
pub open spec fn spec_count(l: LanguageType, doc_cfg: bool, text: Seq<u8>) -> Counts {
    let ls = spec_split_lines(text);
    if spec_rules(l).blank {
        Counts { lines: ls.len(), code: ls.len(), comments: 0, blanks: 0 }
    } else {
        spec_postprocess(run_from(spec_rules(l), doc_cfg, initial_state(), ls, 0, counts_zero()))
    }
}

/// When the fast path takes effect: no quote is open, no block comment is
/// open, and none of the language's fast-path markers occurs anywhere in
/// the line.
pub open spec fn fast_path_eligible(ru: SyntaxRules, s: ScanModel, line: Seq<u8>) -> bool {
    &&& s.quote is None
    &&& s.stack.len() == 0
    &&& !(exists|k: int|
        0 <= k < important_markers(ru).len() && contains_marker(
            line,
            #[trigger] important_markers(ru)[k],
        ))
}

/// When no fast-path marker of the language occurs anywhere in the line,
/// no quote and no block comment can open at any offset.
proof fn lemma_no_marker_here(ru: SyntaxRules, line: Seq<u8>, i: int)
    requires
        forall|k: int|
            0 <= k < important_markers(ru).len() ==> !contains_marker(
                line,
                #[trigger] important_markers(ru)[k],
            ),
    ensures
        first_match(ru.doc_quotes, line, i, 0) is None,
        first_match(ru.quotes, line, i, 0) is None,
        first_match(ru.multi_line_comments, line, i, 0) is None,
{
    let imp = important_markers(ru);
    let dn = ru.doc_quotes.len() as int;
    let qn = ru.quotes.len() as int;
    let mn = ru.multi_line_comments.len() as int;
    assert(imp.len() == dn + qn + mn + mn);
    if first_match(ru.doc_quotes, line, i, 0) is Some {
        lemma_first_match_found(ru.doc_quotes, line, i, 0);
        let k = first_match(ru.doc_quotes, line, i, 0).unwrap();
        assert(imp[k] == ru.doc_quotes[k].0);
        assert(starts_with_at(line, i, imp[k]));
        assert(false);
    }
    if first_match(ru.quotes, line, i, 0) is Some {
        lemma_first_match_found(ru.quotes, line, i, 0);
        let k = first_match(ru.quotes, line, i, 0).unwrap();
        assert(imp[dn + k] == ru.quotes[k].0);
        assert(starts_with_at(line, i, imp[dn + k]));
        assert(false);
    }
    if first_match(ru.multi_line_comments, line, i, 0) is Some {
        lemma_first_match_found(ru.multi_line_comments, line, i, 0);
        let k = first_match(ru.multi_line_comments, line, i, 0).unwrap();
        assert(imp[dn + qn + k] == ru.multi_line_comments[k].0);
        assert(starts_with_at(line, i, imp[dn + qn + k]));
        assert(false);
    }
}

/// The fast path is sound: with nothing open and none of the language's
/// fast-path markers anywhere in the line, the byte-window scan cannot
/// change the scan state.
proof fn lemma_fast_path_scan(ru: SyntaxRules, s: ScanModel, ended: bool, line: Seq<u8>, i: nat)
    requires
        s.quote is None,
        s.stack.len() == 0,
        forall|k: int|
            0 <= k < important_markers(ru).len() ==> !contains_marker(
                line,
                #[trigger] important_markers(ru)[k],
            ),
    ensures
        scan_from(ru, s, ended, line, i).0 == s,
    decreases line.len() + 2 - i,
{
    if i >= line.len() {
    } else {
        lemma_no_marker_here(ru, line, i as int);
        if first_marker(ru.line_comments, line, i as int, 0) is Some {
        } else {
            lemma_fast_path_scan(ru, s, false, line, step_to(line, i, 1));
        }
    }
}

/// Exec check of [`is_comment_line`] against the state after the scan.
fn is_comment_decision(
    syntax: &SyntaxCounter,
    config: &Config,
    had_multi: bool,
    ended: bool,
    line: &Vec<u8>,
) -> (r: bool)
    requires
        syntax.wf(),
    ensures
        r == is_comment_line(
            spec_rules(syntax.language),
            doc_strings_as_comments(config),
            had_multi,
            syntax@,
            ended,
            line@,
        ),
{
    proof {
        assert(syntax@.stack.len() == seqs_view(syntax.stack@).len());
    }
    if (syntax.stack.len() > 0 || ended) && had_multi {
        return true;
    }
    let starts_comment = first_marker_exec(&syntax.line_comments, line, 0).is_some()
        || first_match_exec(&syntax.multi_line_comments, line, 0).is_some();
    if starts_comment && syntax.quote.is_none() {
        return true;
    }
    let in_doc = syntax.quote.is_some() || first_match_exec(&syntax.doc_quotes, line, 0).is_some();
    if in_doc && config.doc_strings_on() && syntax.quote_is_doc_quote {
        return true;
    }
    false
}

/// Whether any of the markers occurs somewhere in the line.
fn contains_any_exec(line: &Vec<u8>, ms: &Vec<Vec<u8>>) -> (r: bool)
    ensures
        r == (exists|k: int|
            0 <= k < ms@.len() && contains_marker(line@, #[trigger] seqs_view(ms@)[k])),
{
    let n = ms.len();
    let mut k: usize = 0;
    while k < n
        invariant
            k <= n,
            n == ms@.len(),
            forall|t: int| 0 <= t < k ==> !contains_marker(line@, #[trigger] seqs_view(ms@)[t]),
        decreases n - k,
    {
        proof {
            assert(seqs_view(ms@)[k as int] == ms@[k as int]@);
        }
        if contains_marker_exec(line, &ms[k]) {
            return true;
        }
        k = k + 1;
    }
    false
}

impl LanguageType {
    /// The fast path: when nothing is open and none of the language's
    /// fast-path markers occurs in the line, the line is a comment exactly
    /// when it starts with a line-comment marker, with no scan state change;
    /// the full byte-window scan would conclude the same. Takes effect on
    /// exactly the eligible lines: it reports the line and returns true if
    /// and only if [`fast_path_eligible`] holds, and reports nothing
    /// otherwise.
    pub fn parse_basic<T: LanguageSummary>(
        self,
        syntax: &SyntaxCounter,
        raw_line: &Vec<u8>,
        line: &Vec<u8>,
        stats: &mut T,
    ) -> (r: bool)
        requires
            syntax.wf(),
            syntax.language == self,
            old(stats).counts().code < usize::MAX,
            old(stats).counts().comments < usize::MAX,
            spec_trim(raw_line@).len() > 0,
            line@ == (if spec_rules(self).column_sensitive {
                raw_line@
            } else {
                spec_trim(raw_line@)
            }),
        ensures
            r == fast_path_eligible(spec_rules(self), syntax@, line@),
            !r ==> *final(stats) == *old(stats),
            final(stats).path() == old(stats).path(),
            r ==> forall|cfg: bool|
                (#[trigger] classify_line(spec_rules(self), cfg, syntax@, raw_line@)).0 == syntax@
                    && final(stats).counts() == counts_inc(
                    old(stats).counts(),
                    classify_line(spec_rules(self), cfg, syntax@, raw_line@).1,
                ),
    {
        proof {
            assert(syntax@.stack.len() == seqs_view(syntax.stack@).len());
        }
        if syntax.quote.is_some() || syntax.stack.len() > 0 || contains_any_exec(
            line,
            &syntax.important,
        ) {
            return false;
        }
        let ghost ru = spec_rules(self);
        let lc = first_marker_exec(&syntax.line_comments, line, 0);
        let is_com = lc.is_some();
        proof {
            assert(syntax@.stack.len() == seqs_view(syntax.stack@).len());
            assert(forall|k: int|
                0 <= k < important_markers(ru).len() ==> !contains_marker(
                    line@,
                    #[trigger] important_markers(ru)[k],
                ));
            lemma_no_marker_here(ru, line@, 0);
            lemma_fast_path_scan(ru, syntax@, false, line@, 0);
            assert forall|cfg: bool|
                (#[trigger] classify_line(ru, cfg, syntax@, raw_line@)) == (
                    syntax@,
                    if is_com {
                        LineKind::Comment
                    } else {
                        LineKind::Code
                    },
                ) by {
                let p = scan_from(ru, syntax@, false, line@, 0);
                assert(p.0 == syntax@);
                assert(!((p.0.stack.len() > 0 || p.1) && syntax@.stack.len() > 0));
                assert(is_comment_line(ru, cfg, syntax@.stack.len() > 0, p.0, p.1, line@) == (
                first_marker(ru.line_comments, line@, 0, 0) is Some));
            }
        }
        if is_com {
            stats.comment_line(raw_line);
        } else {
            stats.code_line(raw_line);
        }
        true
    }

    /// Classify every line of `lines`, carrying the scan state across them,
    /// report each to the summary, and post-process the totals.
    pub fn parse_lines<T: LanguageSummary>(
        self,
        config: &Config,
        lines: Vec<Vec<u8>>,
        stats: T,
    ) -> (r: T)
        requires
            stats.counts() == counts_zero(),
        ensures
            r.counts() == spec_postprocess(
                run_from(
                    spec_rules(self),
                    doc_strings_as_comments(config),
                    initial_state(),
                    seqs_view(lines@),
                    0,
                    counts_zero(),
                ),
            ),
            r.path() == stats.path(),
    {
        let ghost ru = spec_rules(self);
        let ghost cfg = doc_strings_as_comments(config);
        let ghost lseq = seqs_view(lines@);
        let ghost p0 = stats.path();
        let mut stats = stats;
        let mut syntax = SyntaxCounter::new(self);
        let n = lines.len();
        let mut k: usize = 0;
        while k < n
            invariant
                k <= n,
                n == lines@.len(),
                lseq == seqs_view(lines@),
                lseq.len() == n,
                ru == spec_rules(self),
                cfg == doc_strings_as_comments(config),
                syntax.wf(),
                syntax.language == self,
                stats.path() == p0,
                stats.counts().lines == 0,
                stats.counts().code + stats.counts().comments + stats.counts().blanks <= k,
                run_from(ru, cfg, initial_state(), lseq, 0, counts_zero()) == run_from(
                    ru,
                    cfg,
                    syntax@,
                    lseq,
                    k as nat,
                    stats.counts(),
                ),
            decreases n - k,
        {
            let raw_line = &lines[k];
            proof {
                assert(lseq[k as int] == raw_line@);
            }
            let ghost pre_model = syntax@;
            let ghost pre_counts = stats.counts();
            let trimmed = trim(raw_line);
            if trimmed.len() == 0 {
                stats.blank_line(raw_line);
                proof {
                    assert(classify_line(ru, cfg, pre_model, lseq[k as int]) == (
                        pre_model,
                        LineKind::Blank,
                    ));
                    assert(run_from(ru, cfg, pre_model, lseq, k as nat, pre_counts) == run_from(
                        ru,
                        cfg,
                        syntax@,
                        lseq,
                        (k + 1) as nat,
                        stats.counts(),
                    ));
                }
            } else {
                let line: &Vec<u8> = if syntax.column_sensitive {
                    raw_line
                } else {
                    &trimmed
                };
                if self.parse_basic(&syntax, raw_line, line, &mut stats) {
                    proof {
                        assert(classify_line(ru, cfg, pre_model, lseq[k as int]).0 == syntax@);
                        assert(run_from(ru, cfg, pre_model, lseq, k as nat, pre_counts)
                            == run_from(ru, cfg, syntax@, lseq, (k + 1) as nat, stats.counts()));
                    }
                } else {
                    let had_multi = syntax.stack.len() > 0;
                    proof {
                        assert(pre_model.stack.len() == seqs_view(syntax.stack@).len());
                    }
                    let ended = syntax.scan_line(line);
                    let is_com = is_comment_decision(&syntax, config, had_multi, ended, line);
                    if is_com {
                        stats.comment_line(raw_line);
                    } else {
                        stats.code_line(raw_line);
                    }
                    proof {
                        assert(classify_line(ru, cfg, pre_model, lseq[k as int]) == (
                            syntax@,
                            if is_com {
                                LineKind::Comment
                            } else {
                                LineKind::Code
                            },
                        ));
                        assert(run_from(ru, cfg, pre_model, lseq, k as nat, pre_counts)
                            == run_from(ru, cfg, syntax@, lseq, (k + 1) as nat, stats.counts()));
                    }
                }
            }
            k = k + 1;
        }
        proof {
            assert(run_from(ru, cfg, syntax@, lseq, k as nat, stats.counts()) == stats.counts());
        }
        stats.postprocess();
        stats
    }

    /// Classify a whole in-memory byte buffer and return the populated
    /// summary. Splits the buffer into lines at newline bytes; a language
    /// with no comment syntax records every line as code in one batch. On
    /// either path the summary's post-processing runs exactly once, after
    /// the last line.
    pub fn parse_from_slice<T: LanguageSummary>(
        self,
        path: String,
        text: &[u8],
        config: &Config,
    ) -> (r: T)
        ensures
            r.counts() == spec_count(self, doc_strings_as_comments(config), text@),
            r.path() == path@,
    {
        let lines = split_lines(text);
        let _line_count = lines.len();
        let mut summary: T = T::new(path);
        if self.is_blank() {
            proof {
                assert(lines@.len() == seqs_view(lines@).len());
            }
            summary.unprocessed_lines(&lines);
            summary.postprocess();
            summary
        } else {
            self.parse_lines(config, lines, summary)
        }
    }

    /// Classify text that is already known to be valid UTF-8.
    pub fn parse_from_str<T: LanguageSummary>(
        self,
        path: String,
        text: &str,
        config: &Config,
    ) -> (r: T)
        ensures
            r.counts() == spec_count(self, doc_strings_as_comments(config), text.spec_bytes()),
            r.path() == path@,
    {
        self.parse_from_slice(path, text.as_bytes(), config)
    }
}

} // verus!
