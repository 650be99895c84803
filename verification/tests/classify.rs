use locscan::{Config, LanguageType, Stats, SyntaxCounter};

fn no_doc() -> Config {
    Config { treat_doc_strings_as_comments: None }
}

fn doc_on() -> Config {
    Config { treat_doc_strings_as_comments: Some(true) }
}

fn count(lang: LanguageType, text: &[u8], config: &Config) -> Stats {
    lang.parse_from_slice::<Stats>(String::from("test-input"), text, config)
}

#[test]
fn rust_allows_nested() {
    assert!(LanguageType::Rust.allows_nested());
}

#[test]
fn quote_hides_line_comment_marker() {
    let s = count(LanguageType::Rust, b"x = \"a // b\"\n", &no_doc());
    assert_eq!(s.lines, 1);
    assert_eq!(s.code, 1);
    assert_eq!(s.comments, 0);
    assert_eq!(s.blanks, 0);
}

#[test]
fn nested_block_comment_is_one_comment_line() {
    let s = count(LanguageType::Rust, b"/* outer /* inner */ still comment */\n", &no_doc());
    assert_eq!(s.lines, 1);
    assert_eq!(s.comments, 1);
    assert_eq!(s.code, 0);
}

#[test]
fn nested_block_comment_leaves_stack_empty() {
    let mut syntax = SyntaxCounter::new(LanguageType::Rust);
    let line: Vec<u8> = b"/* outer /* inner */ still comment */".to_vec();
    syntax.scan_line(&line);
    assert_eq!(syntax.open_comment_depth(), 0);
    assert!(!syntax.has_open_quote());
}

#[test]
fn non_nesting_language_closes_at_first_end_marker() {
    let mut syntax = SyntaxCounter::new(LanguageType::C);
    let line: Vec<u8> = b"/* outer /* inner */ text".to_vec();
    syntax.scan_line(&line);
    assert_eq!(syntax.open_comment_depth(), 0);
}

#[test]
fn doc_string_toggle_comment_when_active() {
    let s = count(LanguageType::Python, b"\"\"\"docstring\"\"\"\n", &doc_on());
    assert_eq!(s.lines, 1);
    assert_eq!(s.comments, 1);
    assert_eq!(s.code, 0);
}

#[test]
fn doc_string_toggle_code_when_inactive() {
    let s = count(LanguageType::Python, b"\"\"\"docstring\"\"\"\n", &no_doc());
    assert_eq!(s.lines, 1);
    assert_eq!(s.code, 1);
    assert_eq!(s.comments, 0);
}

#[test]
fn multi_line_doc_string_follows_toggle() {
    let text = b"\"\"\"\ndoc text\n\"\"\"\n";
    let s = count(LanguageType::Python, text, &doc_on());
    assert_eq!(s.lines, 3);
    assert_eq!(s.comments, 3);
    assert_eq!(s.code, 0);
    let s = count(LanguageType::Python, text, &no_doc());
    assert_eq!(s.lines, 3);
    assert_eq!(s.code, 3);
    assert_eq!(s.comments, 0);
}

#[test]
fn column_sensitive_marker_not_in_first_column_is_code() {
    let s = count(LanguageType::FortranModern, b"  ! note\n", &no_doc());
    assert_eq!(s.lines, 1);
    assert_eq!(s.code, 1);
    assert_eq!(s.comments, 0);
}

#[test]
fn column_sensitive_marker_in_first_column_is_comment() {
    let s = count(LanguageType::FortranModern, b"! note\n", &no_doc());
    assert_eq!(s.lines, 1);
    assert_eq!(s.comments, 1);
    assert_eq!(s.code, 0);
}

#[test]
fn fortran_quote_hides_marker() {
    let s = count(LanguageType::FortranModern, b"s = \"a ! b\"\n", &no_doc());
    assert_eq!(s.code, 1);
    assert_eq!(s.comments, 0);
}

#[test]
fn unterminated_block_comment_lines_stay_comments() {
    let s = count(LanguageType::C, b"/* open\nstill inside\n", &no_doc());
    assert_eq!(s.lines, 2);
    assert_eq!(s.comments, 2);
    assert_eq!(s.code, 0);
    assert_eq!(s.blanks, 0);
}

#[test]
fn blank_language_counts_everything_as_code() {
    let s = count(LanguageType::Text, b"a\n\nb\n", &no_doc());
    assert_eq!(s.lines, 3);
    assert_eq!(s.code, 3);
    assert_eq!(s.comments, 0);
    assert_eq!(s.blanks, 0);
}

#[test]
fn totals_are_the_sum_of_the_kinds() {
    let s = count(LanguageType::Rust, b"// hi\n\nfn main() {}\n", &no_doc());
    assert_eq!(s.comments, 1);
    assert_eq!(s.blanks, 1);
    assert_eq!(s.code, 1);
    assert_eq!(s.lines, 3);
    assert_eq!(s.lines, s.code + s.comments + s.blanks);
}

#[test]
fn classification_is_idempotent() {
    let text = b"/* a\n */ x\n\"s // t\"\n\n// end\n";
    let a = count(LanguageType::Rust, text, &no_doc());
    let b = count(LanguageType::Rust, text, &no_doc());
    assert_eq!(a.lines, b.lines);
    assert_eq!(a.code, b.code);
    assert_eq!(a.comments, b.comments);
    assert_eq!(a.blanks, b.blanks);
    assert_eq!(a.lines, a.code + a.comments + a.blanks);
}

#[test]
fn whitespace_line_is_blank_even_inside_open_comment() {
    let s = count(LanguageType::C, b"/* open\n   \n*/ done();\n", &no_doc());
    assert_eq!(s.lines, 3);
    assert_eq!(s.comments, 1);
    assert_eq!(s.blanks, 1);
    assert_eq!(s.code, 1);
}

#[test]
fn whitespace_line_does_not_change_scan_state() {
    let mut syntax = SyntaxCounter::new(LanguageType::C);
    let open: Vec<u8> = b"/* open".to_vec();
    syntax.scan_line(&open);
    assert_eq!(syntax.open_comment_depth(), 1);
    let s = count(LanguageType::C, b"/* open\n   \n", &no_doc());
    assert_eq!(s.blanks, 1);
    assert_eq!(s.comments, 1);
}

#[test]
fn escaped_quote_does_not_close_the_literal() {
    let s = count(LanguageType::Rust, b"x = \"a\\\"b // c\"\n", &no_doc());
    assert_eq!(s.code, 1);
    assert_eq!(s.comments, 0);
}

#[test]
fn empty_input_counts_nothing() {
    let s = count(LanguageType::Rust, b"", &no_doc());
    assert_eq!(s.lines, 0);
    assert_eq!(s.code, 0);
    assert_eq!(s.comments, 0);
    assert_eq!(s.blanks, 0);
}

#[test]
fn final_line_without_newline_is_counted() {
    let s = count(LanguageType::Rust, b"fn x() {}", &no_doc());
    assert_eq!(s.lines, 1);
    assert_eq!(s.code, 1);
}

#[test]
fn hash_comment_language() {
    let s = count(LanguageType::Python, b"# hi\nx = 1\n", &no_doc());
    assert_eq!(s.comments, 1);
    assert_eq!(s.code, 1);
    assert_eq!(s.lines, 2);
}

#[test]
fn comment_after_code_keeps_line_code() {
    let s = count(LanguageType::Rust, b"let y = 1; // trailing\n", &no_doc());
    assert_eq!(s.code, 1);
    assert_eq!(s.comments, 0);
}

#[test]
fn inserting_a_blank_line_only_adds_a_blank() {
    let base = count(LanguageType::Rust, b"// a\nfn f() {}\n/* c */\n", &no_doc());
    let more = count(LanguageType::Rust, b"// a\n   \nfn f() {}\n/* c */\n", &no_doc());
    assert_eq!(more.blanks, base.blanks + 1);
    assert_eq!(more.lines, base.lines + 1);
    assert_eq!(more.code, base.code);
    assert_eq!(more.comments, base.comments);
}

#[test]
fn crlf_and_lf_line_endings_agree() {
    let lf = count(LanguageType::Rust, b"// a\nfn f() {}\n\n", &no_doc());
    let crlf = count(LanguageType::Rust, b"// a\r\nfn f() {}\r\n\r\n", &no_doc());
    assert_eq!(lf.lines, crlf.lines);
    assert_eq!(lf.code, crlf.code);
    assert_eq!(lf.comments, crlf.comments);
    assert_eq!(lf.blanks, crlf.blanks);
}

#[test]
fn blank_language_postprocess_totals_hold() {
    let s = count(LanguageType::Text, b"one\ntwo\n", &no_doc());
    assert_eq!(s.lines, s.code + s.comments + s.blanks);
    assert_eq!(s.lines, 2);
}

#[test]
fn summary_keeps_the_file_name() {
    let s = LanguageType::Rust.parse_from_slice::<Stats>(
        String::from("src/point.rs"),
        b"// a\n",
        &no_doc(),
    );
    assert_eq!(s.name, "src/point.rs");
}

#[test]
fn parse_from_str_matches_slice_parsing() {
    let a = LanguageType::Rust.parse_from_str::<Stats>(
        String::from("m.rs"),
        "// a\nfn b() {}\n",
        &no_doc(),
    );
    assert_eq!(a.comments, 1);
    assert_eq!(a.code, 1);
    assert_eq!(a.lines, 2);
}
