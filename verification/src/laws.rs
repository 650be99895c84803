//! Laws the classifier obeys, stated over the same spec functions its
//! contracts use.

use vstd::prelude::*;
use crate::counts::{counts_add, counts_inc, counts_zero, Counts, LineKind};
use crate::language::{spec_rules, LanguageType, SyntaxRules};
use crate::lines::{is_ws, spec_trim};
use crate::parse::{classify_line, run_from, scanned_window, spec_count};
use crate::counts::spec_postprocess;
use crate::syntax::{
    first_marker, first_match, initial_state, lemma_first_marker_found, lemma_first_match_found,
    scan_from, step_to, ScanModel,
};

verus! {

/// For every file of a language with no comment syntax, every line is code:
/// the code count equals the line count and no comments or blanks are
/// recorded.
pub proof fn lemma_blank_language_all_code(l: LanguageType, doc_cfg: bool, text: Seq<u8>)
    requires
        spec_rules(l).blank,
    ensures
        spec_count(l, doc_cfg, text).code == spec_count(l, doc_cfg, text).lines,
        spec_count(l, doc_cfg, text).comments == 0,
        spec_count(l, doc_cfg, text).blanks == 0,
{
}

/// For every input, the total equals code plus comments plus blanks once
/// post-processing has run.
pub proof fn lemma_total_is_sum(l: LanguageType, doc_cfg: bool, text: Seq<u8>)
    ensures
        ({
            let c = spec_count(l, doc_cfg, text);
            c.lines == c.code + c.comments + c.blanks
        }),
{
}

/// Classifying the same bytes twice, each time from a fresh scan state,
/// yields identical counts: the result is a function of the language, the
/// configuration and the bytes alone, which is what the parsing entry
/// points' contracts pin their results to.
pub proof fn lemma_classification_deterministic(
    c1: Counts,
    c2: Counts,
    l: LanguageType,
    doc_cfg: bool,
    text: Seq<u8>,
)
    requires
        c1 == spec_count(l, doc_cfg, text),
        c2 == spec_count(l, doc_cfg, text),
    ensures
        c1 == c2,
{
}

/// A non-blank line that starts inside an open block comment and still ends
/// inside one (no closing marker took effect) is classified as a comment.
pub proof fn lemma_line_in_open_comment_is_comment(
    ru: SyntaxRules,
    doc_cfg: bool,
    s: ScanModel,
    raw: Seq<u8>,
)
    requires
        s.stack.len() > 0,
        spec_trim(raw).len() > 0,
        classify_line(ru, doc_cfg, s, raw).0.stack.len() > 0,
    ensures
        classify_line(ru, doc_cfg, s, raw).1 == LineKind::Comment,
{
}

/// No marker that can open a construct (or start a comment) begins with a
/// whitespace byte, and none is empty.
pub open spec fn no_marker_opens_on_ws(ru: SyntaxRules) -> bool {
    &&& forall|k: int|
        0 <= k < ru.line_comments.len() ==> (#[trigger] ru.line_comments[k].len() >= 1 && !is_ws(
            ru.line_comments[k][0],
        ))
    &&& forall|k: int|
        0 <= k < ru.doc_quotes.len() ==> (#[trigger] ru.doc_quotes[k].0.len() >= 1 && !is_ws(
            ru.doc_quotes[k].0[0],
        ))
    &&& forall|k: int|
        0 <= k < ru.quotes.len() ==> (#[trigger] ru.quotes[k].0.len() >= 1 && !is_ws(
            ru.quotes[k].0[0],
        ))
    &&& forall|k: int|
        0 <= k < ru.multi_line_comments.len() ==> (#[trigger] ru.multi_line_comments[k].0.len()
            >= 1 && !is_ws(ru.multi_line_comments[k].0[0]))
}

/// Every language of the rule table satisfies [`no_marker_opens_on_ws`].
pub proof fn lemma_no_table_marker_opens_on_ws(l: LanguageType)
    ensures
        no_marker_opens_on_ws(spec_rules(l)),
{
}

/// Over a whitespace prefix nothing can match, so a scan that starts before
/// a line-comment marker sitting at the first non-whitespace column (with
/// no quote or block-comment delimiter there) stops at that marker with the
/// state unchanged.
proof fn lemma_scan_stops_at_indented_marker(
    ru: SyntaxRules,
    s: ScanModel,
    raw: Seq<u8>,
    i: nat,
    t: nat,
)
    requires
        no_marker_opens_on_ws(ru),
        s.quote is None,
        s.stack.len() == 0,
        i <= t,
        t < raw.len(),
        forall|j: int| 0 <= j < t ==> is_ws(#[trigger] raw[j]),
        first_marker(ru.line_comments, raw, t as int, 0) is Some,
        first_match(ru.doc_quotes, raw, t as int, 0) is None,
        first_match(ru.quotes, raw, t as int, 0) is None,
        first_match(ru.multi_line_comments, raw, t as int, 0) is None,
    ensures
        scan_from(ru, s, false, raw, i) == (s, true),
    decreases t - i,
{
    if i == t {
    } else {
        if first_match(ru.doc_quotes, raw, i as int, 0) is Some {
            lemma_first_match_found(ru.doc_quotes, raw, i as int, 0);
            let k = first_match(ru.doc_quotes, raw, i as int, 0).unwrap();
            assert(raw.subrange(i as int, i as int + ru.doc_quotes[k].0.len() as int)[0] == raw[i as int]);
            assert(false);
        }
        if first_match(ru.quotes, raw, i as int, 0) is Some {
            lemma_first_match_found(ru.quotes, raw, i as int, 0);
            let k = first_match(ru.quotes, raw, i as int, 0).unwrap();
            assert(raw.subrange(i as int, i as int + ru.quotes[k].0.len() as int)[0] == raw[i as int]);
            assert(false);
        }
        if first_match(ru.multi_line_comments, raw, i as int, 0) is Some {
            lemma_first_match_found(ru.multi_line_comments, raw, i as int, 0);
            let k = first_match(ru.multi_line_comments, raw, i as int, 0).unwrap();
            assert(raw.subrange(i as int, i as int + ru.multi_line_comments[k].0.len() as int)[0] == raw[i as int]);
            assert(false);
        }
        if first_marker(ru.line_comments, raw, i as int, 0) is Some {
            lemma_first_marker_found(ru.line_comments, raw, i as int, 0);
            let k = first_marker(ru.line_comments, raw, i as int, 0).unwrap();
            assert(raw.subrange(i as int, i as int + ru.line_comments[k].len() as int)[0] == raw[i as int]);
            assert(false);
        }
        assert(step_to(raw, i, 1) == i + 1);
        lemma_scan_stops_at_indented_marker(ru, s, raw, i + 1, t);
    }
}

/// In a column-sensitive language, a line-comment marker that sits at the
/// start of the trimmed line but not at column 0 of the raw line (no quote
/// or block-comment delimiter sits there instead, and no quote or block
/// comment is open from earlier lines) does not make the line a comment:
/// the line is classified as code.
pub proof fn lemma_column_sensitive_indented_marker_is_code(
    ru: SyntaxRules,
    doc_cfg: bool,
    s: ScanModel,
    raw: Seq<u8>,
    t: nat,
)
    requires
        ru.column_sensitive,
        no_marker_opens_on_ws(ru),
        s.quote is None,
        s.stack.len() == 0,
        0 < t < raw.len(),
        forall|j: int| 0 <= j < t ==> is_ws(#[trigger] raw[j]),
        first_marker(ru.line_comments, raw, t as int, 0) is Some,
        first_match(ru.doc_quotes, raw, t as int, 0) is None,
        first_match(ru.quotes, raw, t as int, 0) is None,
        first_match(ru.multi_line_comments, raw, t as int, 0) is None,
        spec_trim(raw).len() > 0,
    ensures
        classify_line(ru, doc_cfg, s, raw).1 == LineKind::Code,
{
    lemma_scan_stops_at_indented_marker(ru, s, raw, 0, t);
    if first_marker(ru.line_comments, raw, 0, 0) is Some {
        lemma_first_marker_found(ru.line_comments, raw, 0, 0);
        let k = first_marker(ru.line_comments, raw, 0, 0).unwrap();
        assert(raw.subrange(0, ru.line_comments[k].len() as int)[0] == raw[0]);
        assert(false);
    }
    if first_match(ru.multi_line_comments, raw, 0, 0) is Some {
        lemma_first_match_found(ru.multi_line_comments, raw, 0, 0);
        let k = first_match(ru.multi_line_comments, raw, 0, 0).unwrap();
        assert(raw.subrange(0, ru.multi_line_comments[k].0.len() as int)[0] == raw[0]);
        assert(false);
    }
    if first_match(ru.doc_quotes, raw, 0, 0) is Some {
        lemma_first_match_found(ru.doc_quotes, raw, 0, 0);
        let k = first_match(ru.doc_quotes, raw, 0, 0).unwrap();
        assert(raw.subrange(0, ru.doc_quotes[k].0.len() as int)[0] == raw[0]);
        assert(false);
    }
}

/// With the doc-string toggle active, a non-blank line that ends inside an
/// open documentation string is classified as a comment.
pub proof fn lemma_doc_string_line_is_comment_when_active(
    ru: SyntaxRules,
    s: ScanModel,
    raw: Seq<u8>,
)
    requires
        spec_trim(raw).len() > 0,
        classify_line(ru, true, s, raw).0.quote is Some,
        classify_line(ru, true, s, raw).0.quote_is_doc,
    ensures
        classify_line(ru, true, s, raw).1 == LineKind::Comment,
{
}

/// With the doc-string toggle off, doc strings never make a line a comment:
/// a line that starts outside any block comment and does not begin with a
/// line-comment or block-comment start marker is classified as code.
pub proof fn lemma_doc_string_line_is_code_when_inactive(
    ru: SyntaxRules,
    s: ScanModel,
    raw: Seq<u8>,
)
    requires
        spec_trim(raw).len() > 0,
        s.stack.len() == 0,
        first_marker(ru.line_comments, scanned_window(ru, raw), 0, 0) is None,
        first_match(ru.multi_line_comments, scanned_window(ru, raw), 0, 0) is None,
    ensures
        classify_line(ru, false, s, raw).1 == LineKind::Code,
{
}

/// A line of nothing but whitespace is always blank, whatever quote or
/// comment state is open, and never changes the scan state.
pub proof fn lemma_whitespace_line_is_blank(
    ru: SyntaxRules,
    doc_cfg: bool,
    s: ScanModel,
    raw: Seq<u8>,
)
    requires
        spec_trim(raw).len() == 0,
    ensures
        classify_line(ru, doc_cfg, s, raw) == (s, LineKind::Blank),
{
}

/// The classifier's fold is linear in its accumulator: what a run adds on
/// top of `acc` is what it would add on top of zero.
proof fn lemma_run_from_acc(
    ru: SyntaxRules,
    doc_cfg: bool,
    s: ScanModel,
    lines: Seq<Seq<u8>>,
    k: nat,
    acc: Counts,
)
    ensures
        run_from(ru, doc_cfg, s, lines, k, acc) == counts_add(
            acc,
            run_from(ru, doc_cfg, s, lines, k, counts_zero()),
        ),
    decreases lines.len() - k,
{
    if k >= lines.len() {
        assert(counts_add(acc, counts_zero()) == acc);
    } else {
        let p = classify_line(ru, doc_cfg, s, lines[k as int]);
        lemma_run_from_acc(ru, doc_cfg, p.0, lines, (k + 1) as nat, counts_inc(acc, p.1));
        lemma_run_from_acc(ru, doc_cfg, p.0, lines, (k + 1) as nat, counts_inc(counts_zero(), p.1));
        let rest = run_from(ru, doc_cfg, p.0, lines, (k + 1) as nat, counts_zero());
        assert(counts_add(counts_inc(acc, p.1), rest) == counts_add(
            acc,
            counts_add(counts_inc(counts_zero(), p.1), rest),
        ));
    }
}

/// Classification of the lines after an inserted line proceeds exactly as
/// it would have from the same state without the insertion.
proof fn lemma_run_from_insert_suffix(
    ru: SyntaxRules,
    doc_cfg: bool,
    s: ScanModel,
    lines: Seq<Seq<u8>>,
    w: Seq<u8>,
    p: int,
    j: nat,
    acc: Counts,
)
    requires
        0 <= p <= lines.len(),
        p <= j <= lines.len(),
    ensures
        run_from(ru, doc_cfg, s, lines.insert(p, w), (j + 1) as nat, acc) == run_from(
            ru,
            doc_cfg,
            s,
            lines,
            j,
            acc,
        ),
    decreases lines.len() - j,
{
    lines.insert_ensures(p, w);
    let lines2 = lines.insert(p, w);
    if j == lines.len() {
    } else {
        assert(lines2[(j + 1) as int] == lines[j as int]);
        let cl = classify_line(ru, doc_cfg, s, lines[j as int]);
        lemma_run_from_insert_suffix(
            ru,
            doc_cfg,
            cl.0,
            lines,
            w,
            p,
            (j + 1) as nat,
            counts_inc(acc, cl.1),
        );
    }
}

proof fn lemma_blank_insertion_from(
    ru: SyntaxRules,
    doc_cfg: bool,
    s: ScanModel,
    lines: Seq<Seq<u8>>,
    w: Seq<u8>,
    p: int,
    k: nat,
    acc: Counts,
)
    requires
        spec_trim(w).len() == 0,
        k as int <= p <= lines.len(),
    ensures
        ({
            let c1 = run_from(ru, doc_cfg, s, lines, k, acc);
            run_from(ru, doc_cfg, s, lines.insert(p, w), k, acc) == (Counts {
                blanks: c1.blanks + 1,
                ..c1
            })
        }),
    decreases lines.len() - k,
{
    lines.insert_ensures(p, w);
    let lines2 = lines.insert(p, w);
    if k as int == p {
        assert(lines2[p] == w);
        assert(classify_line(ru, doc_cfg, s, w) == (s, LineKind::Blank));
        lemma_run_from_insert_suffix(
            ru,
            doc_cfg,
            s,
            lines,
            w,
            p,
            k,
            counts_inc(acc, LineKind::Blank),
        );
        lemma_run_from_acc(ru, doc_cfg, s, lines, k, counts_inc(acc, LineKind::Blank));
        lemma_run_from_acc(ru, doc_cfg, s, lines, k, acc);
    } else {
        assert(lines2[k as int] == lines[k as int]);
        let cl = classify_line(ru, doc_cfg, s, lines[k as int]);
        lemma_blank_insertion_from(
            ru,
            doc_cfg,
            cl.0,
            lines,
            w,
            p,
            (k + 1) as nat,
            counts_inc(acc, cl.1),
        );
    }
}

/// Inserting a whitespace-only line anywhere in a file adds exactly one to
/// the blank count (and so one to the total) and changes nothing else: a
/// blank line never mutates the scan state, so every other line keeps its
/// classification.
pub proof fn lemma_blank_line_insertion(
    l: LanguageType,
    doc_cfg: bool,
    lines: Seq<Seq<u8>>,
    w: Seq<u8>,
    p: int,
)
    requires
        spec_trim(w).len() == 0,
        0 <= p <= lines.len(),
    ensures
        ({
            let ru = spec_rules(l);
            let c1 = spec_postprocess(
                run_from(ru, doc_cfg, initial_state(), lines, 0, counts_zero()),
            );
            let c2 = spec_postprocess(
                run_from(ru, doc_cfg, initial_state(), lines.insert(p, w), 0, counts_zero()),
            );
            c2 == (Counts { lines: c1.lines + 1, blanks: c1.blanks + 1, ..c1 })
        }),
{
    lemma_blank_insertion_from(
        spec_rules(l),
        doc_cfg,
        initial_state(),
        lines,
        w,
        p,
        0,
        counts_zero(),
    );
}

} // verus!
