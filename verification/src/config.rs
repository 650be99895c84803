//! The configuration surface the classifier reads.

use vstd::prelude::*;

verus! {

/// Options that influence classification. Only `Some(true)` activates the
/// doc-string-as-comment rule; `None` and `Some(false)` leave doc strings
/// counted as code.
pub struct Config {
    pub treat_doc_strings_as_comments: Option<bool>,
}

/// Whether the configuration asks for doc strings to count as comments.
pub open spec fn doc_strings_as_comments(c: &Config) -> bool {
    c.treat_doc_strings_as_comments == Some(true)
}

impl Config {
    /// Exec mirror of `doc_strings_as_comments`.
    pub fn doc_strings_on(&self) -> (r: bool)
        ensures
            r == doc_strings_as_comments(self),
    {
        matches!(self.treat_doc_strings_as_comments, Some(true))
    }
}

impl Default for Config {
    fn default() -> (r: Self)
        ensures
            r.treat_doc_strings_as_comments is None,
    {
        Config { treat_doc_strings_as_comments: None }
    }
}

} // verus!
