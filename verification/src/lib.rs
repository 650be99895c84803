//! Line-classification engine for source-line counting.
//!
//! Given the raw bytes of a file and the identity of the language it is
//! written in, the library classifies every line as code, comment or blank,
//! tracking open string literals, (possibly nested) block comments and
//! documentation strings across lines in a single forward scan.

pub mod config;
pub mod counts;
pub mod language;
pub mod laws;
pub mod lines;
pub mod parse;
pub mod stats;
pub mod syntax;

pub use config::Config;
pub use counts::Counts;
pub use counts::LineKind;
pub use language::LanguageType;
pub use stats::LanguageSummary;
pub use stats::Stats;
pub use syntax::SyntaxCounter;
