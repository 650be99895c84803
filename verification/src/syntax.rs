//! The scan state: open quotes and (possibly nested) block comments, with the
//! transition functions that advance it over a byte window, and the full
//! byte-window scan of one line.

use vstd::prelude::*;
use crate::language::{
    important_markers, pairs_view, rules_wf, seqs_view, spec_rules, LanguageType, SyntaxRules,
    BACKSLASH,
};

verus! {

/// The mathematical value of a scan state: the closing marker of the open
/// quote (if any), whether that quote was a documentation string, and the
/// closing markers of the open block comments, innermost last.
pub struct ScanModel {
    pub quote: Option<Seq<u8>>,
    pub quote_is_doc: bool,
    pub stack: Seq<Seq<u8>>,
}

/// The scan state at the start of a file: nothing open.
pub open spec fn initial_state() -> ScanModel {
    ScanModel { quote: None, quote_is_doc: false, stack: Seq::empty() }
}

/// Internal consistency of a scan state: a quote can only be open outside
/// any block comment, and every stored closing marker is non-empty.
pub open spec fn model_wf(m: ScanModel) -> bool {
    &&& (m.quote is Some ==> m.stack.len() == 0)
    &&& (m.quote is Some ==> m.quote.unwrap().len() >= 1)
    &&& forall|k: int| 0 <= k < m.stack.len() ==> #[trigger] m.stack[k].len() >= 1
}

/// `line` holds marker `m` starting at offset `i`.
pub open spec fn starts_with_at(line: Seq<u8>, i: int, m: Seq<u8>) -> bool {
    0 <= i && i + m.len() <= line.len() && line.subrange(i, i + m.len()) == m
}

/// Marker `m` occurs somewhere in `line`.
pub open spec fn contains_marker(line: Seq<u8>, m: Seq<u8>) -> bool {
    exists|j: int| starts_with_at(line, j, m)
}

/// Index of the first delimiter pair (from `k` on) whose opening marker
/// matches `line` at offset `i`.
pub open spec fn first_match(
    pairs: Seq<(Seq<u8>, Seq<u8>)>,
    line: Seq<u8>,
    i: int,
    k: int,
) -> Option<int>
    decreases pairs.len() - k,
{
    if k < 0 || k >= pairs.len() {
        None
    } else if starts_with_at(line, i, pairs[k].0) {
        Some(k)
    } else {
        first_match(pairs, line, i, k + 1)
    }
}

/// Index of the first marker (from `k` on) that matches `line` at offset `i`.
pub open spec fn first_marker(ms: Seq<Seq<u8>>, line: Seq<u8>, i: int, k: int) -> Option<int>
    decreases ms.len() - k,
{
    if k < 0 || k >= ms.len() {
        None
    } else if starts_with_at(line, i, ms[k]) {
        Some(k)
    } else {
        first_marker(ms, line, i, k + 1)
    }
}

/// How far a matched marker advances the scan; an empty marker still
/// advances one byte so the scan always makes progress.
pub open spec fn adv(n: nat) -> nat {
    if n == 0 {
        1
    } else {
        n
    }
}

/// The next scan offset after consuming `n` bytes at `i`, clamped to the
/// line's end (past the end the scan is over either way).
pub open spec fn step_to(line: Seq<u8>, i: nat, n: nat) -> nat {
    if i + adv(n) >= line.len() {
        line.len()
    } else {
        i + adv(n)
    }
}

/// One full byte-window scan of `line` from offset `i`, carrying the flag
/// that tells whether the most recent action closed a quote or a comment
/// (or hit a line comment). Returns the state after the line together with
/// that flag. The branch order is the tie-break rule: closing an open quote
/// or comment is tried before opening a new one, and a line-comment marker
/// counts only once no quote and no block comment is open.
pub open spec fn scan_from(
    ru: SyntaxRules,
    s: ScanModel,
    ended: bool,
    line: Seq<u8>,
    i: nat,
) -> (ScanModel, bool)
    decreases line.len() + 2 - i,
{
    if i >= line.len() {
        (s, ended)
    } else {
        match s.quote {
            Some(closer) => {
                if starts_with_at(line, i as int, closer) {
                    scan_from(
                        ru,
                        ScanModel { quote: None, ..s },
                        true,
                        line,
                        step_to(line, i, closer.len()),
                    )
                } else if line[i as int] == BACKSLASH {
                    scan_from(ru, s, false, line, step_to(line, i, 2))
                } else {
                    scan_from(ru, s, false, line, step_to(line, i, 1))
                }
            },
            None => {
                if s.stack.len() > 0 && starts_with_at(line, i as int, s.stack.last()) {
                    scan_from(
                        ru,
                        ScanModel { stack: s.stack.drop_last(), ..s },
                        true,
                        line,
                        step_to(line, i, s.stack.last().len()),
                    )
                } else if s.stack.len() == 0 {
                    match first_match(ru.doc_quotes, line, i as int, 0) {
                        Some(k) => scan_from(
                            ru,
                            ScanModel { quote: Some(ru.doc_quotes[k].1), quote_is_doc: true, ..s },
                            false,
                            line,
                            step_to(line, i, ru.doc_quotes[k].0.len()),
                        ),
                        None => match first_match(ru.quotes, line, i as int, 0) {
                            Some(k) => scan_from(
                                ru,
                                ScanModel { quote: Some(ru.quotes[k].1), quote_is_doc: false, ..s },
                                false,
                                line,
                                step_to(line, i, ru.quotes[k].0.len()),
                            ),
                            None => match first_match(ru.multi_line_comments, line, i as int, 0) {
                                Some(k) => scan_from(
                                    ru,
                                    ScanModel {
                                        stack: s.stack.push(ru.multi_line_comments[k].1),
                                        ..s
                                    },
                                    false,
                                    line,
                                    step_to(line, i, ru.multi_line_comments[k].0.len()),
                                ),
                                None => if first_marker(ru.line_comments, line, i as int, 0) is Some {
                                    (s, true)
                                } else {
                                    scan_from(ru, s, false, line, step_to(line, i, 1))
                                },
                            },
                        },
                    }
                } else if ru.nested {
                    match first_match(ru.multi_line_comments, line, i as int, 0) {
                        Some(k) => scan_from(
                            ru,
                            ScanModel { stack: s.stack.push(ru.multi_line_comments[k].1), ..s },
                            false,
                            line,
                            step_to(line, i, ru.multi_line_comments[k].0.len()),
                        ),
                        None => scan_from(ru, s, false, line, step_to(line, i, 1)),
                    }
                } else {
                    scan_from(ru, s, false, line, step_to(line, i, 1))
                }
            },
        }
    }
}

/// Exec check of [`starts_with_at`].
pub fn starts_with_at_exec(line: &Vec<u8>, i: usize, m: &Vec<u8>) -> (r: bool)
    requires
        i <= line@.len(),
    ensures
        r == starts_with_at(line@, i as int, m@),
{
    let n = line.len();
    if m.len() > n - i {
        return false;
    }
    let mut j: usize = 0;
    while j < m.len()
        invariant
            j <= m@.len(),
            n == line@.len(),
            i + m@.len() <= n,
            forall|t: int| 0 <= t < j ==> line@[i + t] == #[trigger] m@[t],
        decreases m@.len() - j,
    {
        if line[i + j] != m[j] {
            proof {
                assert(line@.subrange(i as int, i + m@.len())[j as int] == line@[i + j]);
            }
            return false;
        }
        j = j + 1;
    }
    proof {
        assert(line@.subrange(i as int, i + m@.len()) =~= m@);
    }
    true
}

/// Exec check of [`contains_marker`].
pub fn contains_marker_exec(line: &Vec<u8>, m: &Vec<u8>) -> (r: bool)
    ensures
        r == contains_marker(line@, m@),
{
    let n = line.len();
    let mut j: usize = 0;
    while j < n
        invariant
            j <= n,
            n == line@.len(),
            forall|t: int| 0 <= t < j ==> !starts_with_at(line@, t, m@),
        decreases n - j,
    {
        if starts_with_at_exec(line, j, m) {
            return true;
        }
        j = j + 1;
    }
    if starts_with_at_exec(line, n, m) {
        return true;
    }
    proof {
        assert forall|t: int| !starts_with_at(line@, t, m@) by {
            if 0 <= t < n {
            } else if t == n {
            } else {
            }
        }
    }
    false
}

/// Exec check of [`first_match`] from index 0; returns the matching index.
pub fn first_match_exec(pairs: &Vec<(Vec<u8>, Vec<u8>)>, line: &Vec<u8>, i: usize) -> (r: Option<
    usize,
>)
    requires
        i <= line@.len(),
    ensures
        match r {
            Some(k) => 0 <= k < pairs@.len() && first_match(pairs_view(pairs@), line@, i as int, 0)
                == Some(k as int),
            None => first_match(pairs_view(pairs@), line@, i as int, 0) == None::<int>,
        },
{
    let n = pairs.len();
    let mut k: usize = 0;
    while k < n
        invariant
            k <= n,
            n == pairs@.len(),
            i <= line@.len(),
            first_match(pairs_view(pairs@), line@, i as int, 0) == first_match(
                pairs_view(pairs@),
                line@,
                i as int,
                k as int,
            ),
        decreases n - k,
    {
        proof {
            assert(pairs_view(pairs@)[k as int] == (pairs@[k as int].0@, pairs@[k as int].1@));
        }
        if starts_with_at_exec(line, i, &pairs[k].0) {
            return Some(k);
        }
        k = k + 1;
    }
    None
}

/// Exec check of [`first_marker`] from index 0; returns the matching index.
pub fn first_marker_exec(ms: &Vec<Vec<u8>>, line: &Vec<u8>, i: usize) -> (r: Option<usize>)
    requires
        i <= line@.len(),
    ensures
        match r {
            Some(k) => 0 <= k < ms@.len() && first_marker(seqs_view(ms@), line@, i as int, 0)
                == Some(k as int),
            None => first_marker(seqs_view(ms@), line@, i as int, 0) == None::<int>,
        },
{
    let n = ms.len();
    let mut k: usize = 0;
    while k < n
        invariant
            k <= n,
            n == ms@.len(),
            i <= line@.len(),
            first_marker(seqs_view(ms@), line@, i as int, 0) == first_marker(
                seqs_view(ms@),
                line@,
                i as int,
                k as int,
            ),
        decreases n - k,
    {
        proof {
            assert(seqs_view(ms@)[k as int] == ms@[k as int]@);
        }
        if starts_with_at_exec(line, i, &ms[k]) {
            return Some(k);
        }
        k = k + 1;
    }
    None
}

/// Copy of a byte vector.
fn copy_bytes(v: &Vec<u8>) -> (r: Vec<u8>)
    ensures
        r@ == v@,
{
    let mut r: Vec<u8> = Vec::new();
    let mut j: usize = 0;
    while j < v.len()
        invariant
            j <= v@.len(),
            r@ == v@.subrange(0, j as int),
        decreases v@.len() - j,
    {
        r.push(v[j]);
        proof {
            assert(r@ =~= v@.subrange(0, j + 1));
        }
        j = j + 1;
    }
    proof {
        assert(r@ =~= v@);
    }
    r
}

proof fn lemma_seqs_view_push(s: Seq<Vec<u8>>, v: Vec<u8>)
    ensures
        seqs_view(s.push(v)) == seqs_view(s).push(v@),
{
    assert(seqs_view(s.push(v)) =~= seqs_view(s).push(v@));
}

proof fn lemma_seqs_view_drop_last(s: Seq<Vec<u8>>)
    requires
        s.len() > 0,
    ensures
        seqs_view(s.drop_last()) == seqs_view(s).drop_last(),
        seqs_view(s).last() == s.last()@,
{
    assert(seqs_view(s.drop_last()) =~= seqs_view(s).drop_last());
}

/// The per-file scan state, carrying the language's rule tables alongside
/// the open-quote and open-comment records.
pub struct SyntaxCounter {
    pub language: LanguageType,
    /// Closing marker of the currently open quote, if any.
    pub quote: Option<Vec<u8>>,
    /// Whether the open (or most recently open) quote was a doc string.
    pub quote_is_doc_quote: bool,
    /// Closing markers of the open block comments, innermost last.
    pub stack: Vec<Vec<u8>>,
    pub line_comments: Vec<Vec<u8>>,
    pub multi_line_comments: Vec<(Vec<u8>, Vec<u8>)>,
    pub quotes: Vec<(Vec<u8>, Vec<u8>)>,
    pub doc_quotes: Vec<(Vec<u8>, Vec<u8>)>,
    pub important: Vec<Vec<u8>>,
    pub nested: bool,
    pub column_sensitive: bool,
}

impl View for SyntaxCounter {
    type V = ScanModel;

    open spec fn view(&self) -> ScanModel {
        ScanModel {
            quote: match self.quote {
                Some(q) => Some(q@),
                None => None,
            },
            quote_is_doc: self.quote_is_doc_quote,
            stack: seqs_view(self.stack@),
        }
    }
}

impl SyntaxCounter {
    /// The rule tables carried in the fields are those of the language, and
    /// the open-quote/open-comment records are internally consistent.
    pub open spec fn wf(&self) -> bool {
        &&& seqs_view(self.line_comments@) == spec_rules(self.language).line_comments
        &&& pairs_view(self.multi_line_comments@) == spec_rules(self.language).multi_line_comments
        &&& pairs_view(self.quotes@) == spec_rules(self.language).quotes
        &&& pairs_view(self.doc_quotes@) == spec_rules(self.language).doc_quotes
        &&& seqs_view(self.important@) == important_markers(spec_rules(self.language))
        &&& self.nested == spec_rules(self.language).nested
        &&& self.column_sensitive == spec_rules(self.language).column_sensitive
        &&& model_wf(self@)
    }

    /// A fresh scan state for one file of the given language.
    pub fn new(language: LanguageType) -> (r: SyntaxCounter)
        ensures
            r.wf(),
            r.language == language,
            r@ == initial_state(),
    {
        let r = SyntaxCounter {
            language,
            quote: None,
            quote_is_doc_quote: false,
            stack: Vec::new(),
            line_comments: language.line_comments(),
            multi_line_comments: language.multi_line_comments(),
            quotes: language.quotes(),
            doc_quotes: language.doc_quotes(),
            important: language.important_syntax(),
            nested: language.allows_nested(),
            column_sensitive: language.is_column_sensitive(),
        };
        proof {
            assert(seqs_view(r.stack@) =~= Seq::<Seq<u8>>::empty());
        }
        r
    }

    /// Number of block comments currently open.
    pub fn open_comment_depth(&self) -> (r: usize)
        ensures
            r as nat == self@.stack.len(),
    {
        self.stack.len()
    }

    /// Whether a quote is currently open.
    pub fn has_open_quote(&self) -> (r: bool)
        ensures
            r == (self@.quote is Some),
    {
        self.quote.is_some()
    }

    /// If a quote is open and its closing marker (not escaped handling;
    /// escapes are consumed by the caller before this offset is reached)
    /// starts at `i`, close it and return the marker length.
    pub fn parse_end_of_quote(&mut self, line: &Vec<u8>, i: usize) -> (r: Option<usize>)
        requires
            old(self).wf(),
            i < line@.len(),
        ensures
            final(self).wf(),
            final(self).language == old(self).language,
            match old(self)@.quote {
                Some(c) => {
                    if starts_with_at(line@, i as int, c) {
                        (r matches Some(n) && n as nat == c.len()) && final(self)@ == (ScanModel {
                            quote: None,
                            ..old(self)@
                        })
                    } else {
                        r is None && final(self)@ == old(self)@
                    }
                },
                None => r is None && final(self)@ == old(self)@,
            },
    {
        let mut res: Option<usize> = None;
        match &self.quote {
            Some(c) => {
                if starts_with_at_exec(line, i, c) {
                    res = Some(c.len());
                }
            },
            None => {},
        }
        if res.is_some() {
            self.quote = None;
        }
        res
    }

    /// If block comments are open and the innermost one's closing marker
    /// starts at `i`, pop it and return the marker length.
    pub fn parse_end_of_multi_line(&mut self, line: &Vec<u8>, i: usize) -> (r: Option<usize>)
        requires
            old(self).wf(),
            i < line@.len(),
            old(self)@.quote is None,
        ensures
            final(self).wf(),
            final(self).language == old(self).language,
            if old(self)@.stack.len() > 0 && starts_with_at(
                line@,
                i as int,
                old(self)@.stack.last(),
            ) {
                (r matches Some(n) && n as nat == old(self)@.stack.last().len()) && final(self)@
                    == (ScanModel { stack: old(self)@.stack.drop_last(), ..old(self)@ })
            } else {
                r is None && final(self)@ == old(self)@
            },
    {
        let len_s = self.stack.len();
        if len_s == 0 {
            return None;
        }
        proof {
            lemma_seqs_view_drop_last(self.stack@);
        }
        let matched = starts_with_at_exec(line, i, &self.stack[len_s - 1]);
        if matched {
            let top = self.stack.pop().unwrap();
            proof {
                assert(seqs_view(self.stack@) =~= seqs_view(old(self).stack@).drop_last());
            }
            Some(top.len())
        } else {
            None
        }
    }

    /// If no quote and no block comment is open and a doc-quote or quote
    /// opening marker starts at `i`, open it (doc quotes take precedence)
    /// and return the marker length.
    pub fn parse_quote(&mut self, line: &Vec<u8>, i: usize) -> (r: Option<usize>)
        requires
            old(self).wf(),
            i < line@.len(),
            old(self)@.quote is None,
        ensures
            final(self).wf(),
            final(self).language == old(self).language,
            ({
                let ru = spec_rules(old(self).language);
                if old(self)@.stack.len() == 0 {
                    match first_match(ru.doc_quotes, line@, i as int, 0) {
                        Some(k) => (r matches Some(n) && n as nat == ru.doc_quotes[k].0.len())
                            && final(self)@ == (ScanModel {
                            quote: Some(ru.doc_quotes[k].1),
                            quote_is_doc: true,
                            ..old(self)@
                        }),
                        None => match first_match(ru.quotes, line@, i as int, 0) {
                            Some(k) => (r matches Some(n) && n as nat == ru.quotes[k].0.len())
                                && final(self)@ == (ScanModel {
                                quote: Some(ru.quotes[k].1),
                                quote_is_doc: false,
                                ..old(self)@
                            }),
                            None => r is None && final(self)@ == old(self)@,
                        },
                    }
                } else {
                    r is None && final(self)@ == old(self)@
                }
            }),
    {
        if self.stack.len() > 0 {
            return None;
        }
        proof {
            lemma_rules_wf_here(self.language);
        }
        if let Some(k) = first_match_exec(&self.doc_quotes, line, i) {
            proof {
                assert(pairs_view(self.doc_quotes@)[k as int] == (
                    self.doc_quotes@[k as int].0@,
                    self.doc_quotes@[k as int].1@,
                ));
            }
            let n = self.doc_quotes[k].0.len();
            let closer = copy_bytes(&self.doc_quotes[k].1);
            self.quote = Some(closer);
            self.quote_is_doc_quote = true;
            return Some(n);
        }
        if let Some(k) = first_match_exec(&self.quotes, line, i) {
            proof {
                assert(pairs_view(self.quotes@)[k as int] == (
                    self.quotes@[k as int].0@,
                    self.quotes@[k as int].1@,
                ));
            }
            let n = self.quotes[k].0.len();
            let closer = copy_bytes(&self.quotes[k].1);
            self.quote = Some(closer);
            self.quote_is_doc_quote = false;
            return Some(n);
        }
        None
    }

    /// If a block-comment start marker begins at `i` and either nothing is
    /// open yet or the language nests comments, push its closing marker and
    /// return the start marker's length.
    pub fn parse_multi_line_comment(&mut self, line: &Vec<u8>, i: usize) -> (r: Option<usize>)
        requires
            old(self).wf(),
            i < line@.len(),
            old(self)@.quote is None,
        ensures
            final(self).wf(),
            final(self).language == old(self).language,
            ({
                let ru = spec_rules(old(self).language);
                if old(self)@.stack.len() == 0 || ru.nested {
                    match first_match(ru.multi_line_comments, line@, i as int, 0) {
                        Some(k) => (r matches Some(n) && n as nat
                            == ru.multi_line_comments[k].0.len()) && final(self)@ == (ScanModel {
                            stack: old(self)@.stack.push(ru.multi_line_comments[k].1),
                            ..old(self)@
                        }),
                        None => r is None && final(self)@ == old(self)@,
                    }
                } else {
                    r is None && final(self)@ == old(self)@
                }
            }),
    {
        if !(self.stack.len() == 0 || self.nested) {
            return None;
        }
        proof {
            lemma_rules_wf_here(self.language);
        }
        if let Some(k) = first_match_exec(&self.multi_line_comments, line, i) {
            proof {
                assert(pairs_view(self.multi_line_comments@)[k as int] == (
                    self.multi_line_comments@[k as int].0@,
                    self.multi_line_comments@[k as int].1@,
                ));
            }
            let n = self.multi_line_comments[k].0.len();
            let closer = copy_bytes(&self.multi_line_comments[k].1);
            proof {
                lemma_seqs_view_push(self.stack@, closer);
            }
            self.stack.push(closer);
            Some(n)
        } else {
            None
        }
    }

    /// Whether a line comment starts at `i`: only outside any quote and any
    /// block comment. The state does not change.
    pub fn parse_line_comment(&self, line: &Vec<u8>, i: usize) -> (r: bool)
        requires
            self.wf(),
            i < line@.len(),
        ensures
            r == (self@.quote is None && self@.stack.len() == 0 && first_marker(
                spec_rules(self.language).line_comments,
                line@,
                i as int,
                0,
            ) is Some),
    {
        self.quote.is_none() && self.stack.len() == 0 && first_marker_exec(
            &self.line_comments,
            line,
            i,
        ).is_some()
    }

    /// The full byte-window scan of one line: walk the offsets, at each one
    /// trying, in tie-break order, close-quote, close-comment, open-quote,
    /// open-comment, line-comment. Returns whether the scan's last action
    /// closed a construct or hit a line comment.
    pub fn scan_line(&mut self, line: &Vec<u8>) -> (ended: bool)
        requires
            old(self).wf(),
        ensures
            final(self).wf(),
            final(self).language == old(self).language,
            (final(self)@, ended) == scan_from(
                spec_rules(old(self).language),
                old(self)@,
                false,
                line@,
                0,
            ),
    {
        let ghost ru = spec_rules(self.language);
        let ghost s0 = self@;
        let n = line.len();
        let mut i: usize = 0;
        let mut ended: bool = false;
        while i < n
            invariant
                i <= n,
                n == line@.len(),
                self.wf(),
                self.language == old(self).language,
                ru == spec_rules(old(self).language),
                s0 == old(self)@,
                scan_from(ru, s0, false, line@, 0) == scan_from(ru, self@, ended, line@, i as nat),
            decreases n - i,
        {
            let ghost pre = self@;
            let ghost pre_e = ended;
            let ghost pre_i = i as nat;
            proof {
                lemma_rules_wf_here(old(self).language);
            }
            if self.quote.is_some() {
                if let Some(adv_n) = self.parse_end_of_quote(line, i) {
                    ended = true;
                    proof {
                        assert(pre.quote matches Some(c) && adv_n as nat == c.len() && adv(c.len())
                            == c.len() && pre_i + c.len() <= n);
                    }
                    i = i + adv_n;
                } else if line[i] == BACKSLASH {
                    ended = false;
                    if i + 1 < n {
                        i = i + 2;
                    } else {
                        i = n;
                    }
                    proof {
                        assert(i as nat == step_to(line@, pre_i, 2));
                    }
                } else {
                    ended = false;
                    i = i + 1;
                }
            } else if self.stack.len() > 0 {
                proof {
                    assert(pre.stack.len() == seqs_view(self.stack@).len());
                    assert(pre.stack.last() == pre.stack[pre.stack.len() - 1]);
                }
                if let Some(adv_n) = self.parse_end_of_multi_line(line, i) {
                    ended = true;
                    proof {
                        assert(adv(pre.stack.last().len()) == pre.stack.last().len());
                        assert(pre_i + pre.stack.last().len() <= n);
                    }
                    i = i + adv_n;
                } else if let Some(adv_n) = self.parse_multi_line_comment(line, i) {
                    ended = false;
                    proof {
                        lemma_first_match_found(ru.multi_line_comments, line@, pre_i as int, 0);
                        let k = first_match(ru.multi_line_comments, line@, pre_i as int, 0).unwrap();
                        assert(adv(ru.multi_line_comments[k].0.len())
                            == ru.multi_line_comments[k].0.len());
                        assert(pre_i + ru.multi_line_comments[k].0.len() <= n);
                    }
                    i = i + adv_n;
                } else {
                    ended = false;
                    i = i + 1;
                }
            } else {
                if let Some(adv_n) = self.parse_quote(line, i) {
                    ended = false;
                    proof {
                        if first_match(ru.doc_quotes, line@, pre_i as int, 0) is Some {
                            lemma_first_match_found(ru.doc_quotes, line@, pre_i as int, 0);
                            let k = first_match(ru.doc_quotes, line@, pre_i as int, 0).unwrap();
                            assert(adv(ru.doc_quotes[k].0.len()) == ru.doc_quotes[k].0.len());
                            assert(pre_i + ru.doc_quotes[k].0.len() <= n);
                        } else {
                            lemma_first_match_found(ru.quotes, line@, pre_i as int, 0);
                            let k = first_match(ru.quotes, line@, pre_i as int, 0).unwrap();
                            assert(adv(ru.quotes[k].0.len()) == ru.quotes[k].0.len());
                            assert(pre_i + ru.quotes[k].0.len() <= n);
                        }
                    }
                    i = i + adv_n;
                } else if let Some(adv_n) = self.parse_multi_line_comment(line, i) {
                    ended = false;
                    proof {
                        lemma_first_match_found(ru.multi_line_comments, line@, pre_i as int, 0);
                        let k = first_match(ru.multi_line_comments, line@, pre_i as int, 0).unwrap();
                        assert(adv(ru.multi_line_comments[k].0.len())
                            == ru.multi_line_comments[k].0.len());
                        assert(pre_i + ru.multi_line_comments[k].0.len() <= n);
                    }
                    i = i + adv_n;
                } else if self.parse_line_comment(line, i) {
                    proof {
                        assert(scan_from(ru, pre, pre_e, line@, pre_i) == (pre, true));
                    }
                    return true;
                } else {
                    ended = false;
                    i = i + 1;
                }
            }
            proof {
                assert(scan_from(ru, s0, false, line@, 0) == scan_from(
                    ru,
                    self@,
                    ended,
                    line@,
                    i as nat,
                ));
            }
        }
        proof {
            assert(scan_from(ru, self@, ended, line@, i as nat) == (self@, ended));
        }
        ended
    }
}

/// A matched first delimiter pair's opening marker indeed starts at `i`
/// (and so fits inside the line).
pub proof fn lemma_first_match_found(pairs: Seq<(Seq<u8>, Seq<u8>)>, line: Seq<u8>, i: int, k: int)
    ensures
        first_match(pairs, line, i, k) matches Some(j) ==> k <= j < pairs.len() && starts_with_at(
            line,
            i,
            pairs[j].0,
        ),
    decreases pairs.len() - k,
{
    if k < 0 || k >= pairs.len() {
    } else if starts_with_at(line, i, pairs[k].0) {
    } else {
        lemma_first_match_found(pairs, line, i, k + 1);
    }
}

/// A matched first marker indeed starts at `i` (and so fits inside the
/// line).
pub proof fn lemma_first_marker_found(ms: Seq<Seq<u8>>, line: Seq<u8>, i: int, k: int)
    ensures
        first_marker(ms, line, i, k) matches Some(j) ==> k <= j < ms.len() && starts_with_at(
            line,
            i,
            ms[j],
        ),
    decreases ms.len() - k,
{
    if k < 0 || k >= ms.len() {
    } else if starts_with_at(line, i, ms[k]) {
    } else {
        lemma_first_marker_found(ms, line, i, k + 1);
    }
}

proof fn lemma_rules_wf_here(l: LanguageType)
    ensures
        rules_wf(spec_rules(l)),
{
    crate::language::lemma_rules_wf(l);
}

} // verus!
