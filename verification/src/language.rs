//! Language identities and the per-language syntax rule table.

use vstd::prelude::*;

verus! {

/// Bytes the rule table is written with.
pub const QUOTE: u8 = 34;
pub const APOSTROPHE: u8 = 39;
pub const SLASH: u8 = 47;
pub const STAR: u8 = 42;
pub const HASH: u8 = 35;
pub const BANG: u8 = 33;
pub const BACKSLASH: u8 = 92;
pub const NEWLINE: u8 = 10;

/// One supported grammar. Each language carries, through [`spec_rules`] and
/// the executable accessors below, the markers and flags the scanner needs.
#[derive(Clone, Copy, PartialEq, Eq, Structural, Debug)]
pub enum LanguageType {
    C,
    FortranModern,
    Python,
    Rust,
    Text,
}

/// The syntax rule table entry of one language, as mathematical sequences.
/// Quote and block-comment markers come as (opening, closing) pairs; the
/// comment stack of the scanner stores closing markers.
pub struct SyntaxRules {
    /// Byte sequences that start a comment running to the end of the line.
    pub line_comments: Seq<Seq<u8>>,
    /// (start, end) pairs of multi-line comment delimiters.
    pub multi_line_comments: Seq<(Seq<u8>, Seq<u8>)>,
    /// Whether a fresh start marker inside an open block comment nests.
    pub nested: bool,
    /// (open, close) pairs of string/char literal delimiters.
    pub quotes: Seq<(Seq<u8>, Seq<u8>)>,
    /// (open, close) pairs of documentation-string delimiters.
    pub doc_quotes: Seq<(Seq<u8>, Seq<u8>)>,
    /// Comment markers count only in the very first column.
    pub column_sensitive: bool,
    /// The language has no comment syntax; every line is code.
    pub blank: bool,
}

/// The rule table: what each language's markers and flags are.
pub open spec fn spec_rules(l: LanguageType) -> SyntaxRules {
    match l {
        LanguageType::C => SyntaxRules {
            line_comments: seq![seq![SLASH, SLASH]],
            multi_line_comments: seq![(seq![SLASH, STAR], seq![STAR, SLASH])],
            nested: false,
            quotes: seq![(seq![QUOTE], seq![QUOTE])],
            doc_quotes: seq![],
            column_sensitive: false,
            blank: false,
        },
        LanguageType::FortranModern => SyntaxRules {
            line_comments: seq![seq![BANG]],
            multi_line_comments: seq![],
            nested: false,
            quotes: seq![(seq![QUOTE], seq![QUOTE]), (seq![APOSTROPHE], seq![APOSTROPHE])],
            doc_quotes: seq![],
            column_sensitive: true,
            blank: false,
        },
        LanguageType::Python => SyntaxRules {
            line_comments: seq![seq![HASH]],
            multi_line_comments: seq![],
            nested: false,
            quotes: seq![(seq![QUOTE], seq![QUOTE]), (seq![APOSTROPHE], seq![APOSTROPHE])],
            doc_quotes: seq![
                (seq![QUOTE, QUOTE, QUOTE], seq![QUOTE, QUOTE, QUOTE]),
                (seq![APOSTROPHE, APOSTROPHE, APOSTROPHE], seq![APOSTROPHE, APOSTROPHE, APOSTROPHE]),
            ],
            column_sensitive: false,
            blank: false,
        },
        LanguageType::Rust => SyntaxRules {
            line_comments: seq![seq![SLASH, SLASH]],
            multi_line_comments: seq![(seq![SLASH, STAR], seq![STAR, SLASH])],
            nested: true,
            quotes: seq![(seq![QUOTE], seq![QUOTE])],
            doc_quotes: seq![],
            column_sensitive: false,
            blank: false,
        },
        LanguageType::Text => SyntaxRules {
            line_comments: seq![],
            multi_line_comments: seq![],
            nested: false,
            quotes: seq![],
            doc_quotes: seq![],
            column_sensitive: false,
            blank: true,
        },
    }
}

/// The substrings whose absence lets the fast path skip the byte-window scan:
/// every quote, doc-quote and block-comment delimiter (line-comment markers
/// are left out on purpose; a line-comment hit with no open construct cannot
/// change the scan state).
pub open spec fn important_markers(r: SyntaxRules) -> Seq<Seq<u8>> {
    r.doc_quotes.map_values(|p: (Seq<u8>, Seq<u8>)| p.0)
        + r.quotes.map_values(|p: (Seq<u8>, Seq<u8>)| p.0)
        + r.multi_line_comments.map_values(|p: (Seq<u8>, Seq<u8>)| p.0)
        + r.multi_line_comments.map_values(|p: (Seq<u8>, Seq<u8>)| p.1)
}

/// Well-formedness of a rule table entry: no marker is empty.
pub open spec fn rules_wf(r: SyntaxRules) -> bool {
    &&& forall|k: int| 0 <= k < r.line_comments.len() ==> #[trigger] r.line_comments[k].len() >= 1
    &&& forall|k: int| 0 <= k < r.multi_line_comments.len()
        ==> (#[trigger] r.multi_line_comments[k].0.len() >= 1 && r.multi_line_comments[k].1.len() >= 1)
    &&& forall|k: int| 0 <= k < r.quotes.len()
        ==> (#[trigger] r.quotes[k].0.len() >= 1 && r.quotes[k].1.len() >= 1)
    &&& forall|k: int| 0 <= k < r.doc_quotes.len()
        ==> (#[trigger] r.doc_quotes[k].0.len() >= 1 && r.doc_quotes[k].1.len() >= 1)
}

/// Every language's rule table entry is well formed.
pub proof fn lemma_rules_wf(l: LanguageType)
    ensures
        rules_wf(spec_rules(l)),
{
}

// Builders for the executable copies of the table's markers.

fn marker1(a: u8) -> (r: Vec<u8>)
    ensures
        r@ == seq![a],
{
    let mut v: Vec<u8> = Vec::new();
    v.push(a);
    proof {
        assert(v@ =~= seq![a]);
    }
    v
}

fn marker2(a: u8, b: u8) -> (r: Vec<u8>)
    ensures
        r@ == seq![a, b],
{
    let mut v: Vec<u8> = Vec::new();
    v.push(a);
    v.push(b);
    proof {
        assert(v@ =~= seq![a, b]);
    }
    v
}

fn marker3(a: u8, b: u8, c: u8) -> (r: Vec<u8>)
    ensures
        r@ == seq![a, b, c],
{
    let mut v: Vec<u8> = Vec::new();
    v.push(a);
    v.push(b);
    v.push(c);
    proof {
        assert(v@ =~= seq![a, b, c]);
    }
    v
}

/// The views of a sequence of byte vectors.
pub open spec fn seqs_view(v: Seq<Vec<u8>>) -> Seq<Seq<u8>> {
    v.map_values(|x: Vec<u8>| x@)
}

/// The views of a sequence of byte-vector pairs.
pub open spec fn pairs_view(v: Seq<(Vec<u8>, Vec<u8>)>) -> Seq<(Seq<u8>, Seq<u8>)> {
    v.map_values(|p: (Vec<u8>, Vec<u8>)| (p.0@, p.1@))
}

impl LanguageType {
    /// Whether a second start marker inside an open block comment nests.
    pub fn allows_nested(self) -> (r: bool)
        ensures
            r == spec_rules(self).nested,
    {
        matches!(self, LanguageType::Rust)
    }

    /// Whether the language has no comment syntax at all.
    pub fn is_blank(self) -> (r: bool)
        ensures
            r == spec_rules(self).blank,
    {
        matches!(self, LanguageType::Text)
    }

    /// Whether comment markers count only in the very first column.
    pub fn is_column_sensitive(self) -> (r: bool)
        ensures
            r == spec_rules(self).column_sensitive,
    {
        matches!(self, LanguageType::FortranModern)
    }

    /// The language's line-comment markers.
    pub fn line_comments(self) -> (r: Vec<Vec<u8>>)
        ensures
            seqs_view(r@) == spec_rules(self).line_comments,
    {
        let mut v: Vec<Vec<u8>> = Vec::new();
        match self {
            LanguageType::C | LanguageType::Rust => { v.push(marker2(SLASH, SLASH)); },
            LanguageType::FortranModern => { v.push(marker1(BANG)); },
            LanguageType::Python => { v.push(marker1(HASH)); },
            LanguageType::Text => {},
        }
        proof {
            assert(seqs_view(v@) =~= spec_rules(self).line_comments);
        }
        v
    }

    /// The language's (start, end) block-comment delimiter pairs.
    pub fn multi_line_comments(self) -> (r: Vec<(Vec<u8>, Vec<u8>)>)
        ensures
            pairs_view(r@) == spec_rules(self).multi_line_comments,
    {
        let mut v: Vec<(Vec<u8>, Vec<u8>)> = Vec::new();
        match self {
            LanguageType::C | LanguageType::Rust => {
                v.push((marker2(SLASH, STAR), marker2(STAR, SLASH)));
            },
            _ => {},
        }
        proof {
            assert(pairs_view(v@) =~= spec_rules(self).multi_line_comments);
        }
        v
    }

    /// The language's (open, close) quote delimiter pairs.
    pub fn quotes(self) -> (r: Vec<(Vec<u8>, Vec<u8>)>)
        ensures
            pairs_view(r@) == spec_rules(self).quotes,
    {
        let mut v: Vec<(Vec<u8>, Vec<u8>)> = Vec::new();
        match self {
            LanguageType::C | LanguageType::Rust => {
                v.push((marker1(QUOTE), marker1(QUOTE)));
            },
            LanguageType::FortranModern | LanguageType::Python => {
                v.push((marker1(QUOTE), marker1(QUOTE)));
                v.push((marker1(APOSTROPHE), marker1(APOSTROPHE)));
            },
            LanguageType::Text => {},
        }
        proof {
            assert(pairs_view(v@) =~= spec_rules(self).quotes);
        }
        v
    }

    /// The language's (open, close) documentation-string delimiter pairs.
    pub fn doc_quotes(self) -> (r: Vec<(Vec<u8>, Vec<u8>)>)
        ensures
            pairs_view(r@) == spec_rules(self).doc_quotes,
    {
        let mut v: Vec<(Vec<u8>, Vec<u8>)> = Vec::new();
        match self {
            LanguageType::Python => {
                v.push((marker3(QUOTE, QUOTE, QUOTE), marker3(QUOTE, QUOTE, QUOTE)));
                v.push((
                    marker3(APOSTROPHE, APOSTROPHE, APOSTROPHE),
                    marker3(APOSTROPHE, APOSTROPHE, APOSTROPHE),
                ));
            },
            _ => {},
        }
        proof {
            assert(pairs_view(v@) =~= spec_rules(self).doc_quotes);
        }
        v
    }

    /// The precomputed fast-path marker set of the language.
    pub fn important_syntax(self) -> (r: Vec<Vec<u8>>)
        ensures
            seqs_view(r@) == important_markers(spec_rules(self)),
    {
        let mut v: Vec<Vec<u8>> = Vec::new();
        match self {
            LanguageType::C | LanguageType::Rust => {
                v.push(marker1(QUOTE));
                v.push(marker2(SLASH, STAR));
                v.push(marker2(STAR, SLASH));
            },
            LanguageType::FortranModern => {
                v.push(marker1(QUOTE));
                v.push(marker1(APOSTROPHE));
            },
            LanguageType::Python => {
                v.push(marker3(QUOTE, QUOTE, QUOTE));
                v.push(marker3(APOSTROPHE, APOSTROPHE, APOSTROPHE));
                v.push(marker1(QUOTE));
                v.push(marker1(APOSTROPHE));
            },
            LanguageType::Text => {},
        }
        proof {
            assert(seqs_view(v@) =~= important_markers(spec_rules(self)));
        }
        v
    }
}

} // verus!
