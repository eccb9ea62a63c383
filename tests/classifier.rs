use codewalker::language::LanguageType;
use codewalker::syntax::{Delims, SyntaxRules};
use codewalker::classify::scan_lines;

fn parse(l: LanguageType, text: &str) -> (codewalker::stats::CodeStats, bool) {
    l.parse_from_slice(text.as_bytes(), false)
}

#[test]
fn whitespace_only_file_is_all_blank() {
    let (s, inaccurate) = parse(LanguageType::Rust, "  \n\t\n   \n \r\n  ");
    assert_eq!((s.code, s.comments, s.blanks), (0, 0, 5));
    assert!(!inaccurate);
}

#[test]
fn empty_file_has_no_lines() {
    let (s, _) = parse(LanguageType::Rust, "");
    assert_eq!((s.code, s.comments, s.blanks), (0, 0, 0));
}

#[test]
fn comment_only_lines_are_comments() {
    let (s, _) = parse(LanguageType::Rust, "// a\n// b\n// c\n// d");
    assert_eq!((s.code, s.comments, s.blanks), (0, 4, 0));
    let (p, _) = parse(LanguageType::Python, "# one\n# two\n");
    assert_eq!((p.code, p.comments, p.blanks), (0, 2, 0));
}

#[test]
fn trailing_comment_line_counts_once_as_code() {
    let (s, _) = parse(LanguageType::Rust, "let x = 1; // one\n    y(); /* two */\n");
    assert_eq!((s.code, s.comments, s.blanks), (2, 0, 0));
}

#[test]
fn comment_then_code_on_one_line_is_code() {
    let (s, _) = parse(LanguageType::C, "/* a */ int x; // b\n");
    assert_eq!((s.code, s.comments, s.blanks), (1, 0, 0));
}

#[test]
fn rescanning_gives_identical_stats() {
    let text = "fn main() {\n    // hi\n\n    let s = \"/* no */\";\n}\n";
    let (a, ia) = parse(LanguageType::Rust, text);
    let (b, ib) = parse(LanguageType::Rust, text);
    assert_eq!((a.code, a.comments, a.blanks), (b.code, b.comments, b.blanks));
    assert_eq!(a.blobs, b.blobs);
    assert_eq!(ia, ib);
    assert_eq!((a.code, a.comments, a.blanks), (3, 1, 1));
}

#[test]
fn unterminated_comment_is_inaccurate_and_counted() {
    let (s, inaccurate) = parse(LanguageType::Rust, "let a = 1;\n/* open\nstill comment\nmore");
    assert!(inaccurate);
    assert_eq!((s.code, s.comments, s.blanks), (1, 3, 0));
}

#[test]
fn unterminated_string_is_inaccurate() {
    let (s, inaccurate) = parse(LanguageType::C, "char *s = \"abc\n");
    assert!(inaccurate);
    assert_eq!(s.code, 1);
}

fn plus_rules(nested: bool) -> SyntaxRules {
    SyntaxRules {
        line_comments: vec![],
        block_comments: vec![Delims { start: b"/+".to_vec(), end: b"+/".to_vec() }],
        plain_blocks: 1,
        nested,
        quotes: vec![],
        verbatim_quotes: vec![],
        doc_quotes: vec![],
        fences: vec![],
        doc_as_comments: false,
        literate: false,
        contexts: vec![],
    }
}

#[test]
fn nested_comment_consumes_to_final_close() {
    let s = scan_lines(&plus_rules(true), b"/+ a /+ b +/ c +/");
    assert_eq!((s.code, s.comments, s.blanks), (0, 1, 0));
}

#[test]
fn unnested_comment_closes_at_first_close() {
    let s = scan_lines(&plus_rules(false), b"/+ a /+ b +/ c +/");
    assert_eq!((s.code, s.comments, s.blanks), (1, 0, 0));
}

#[test]
fn d_nested_comments_nest() {
    let (s, inaccurate) = parse(LanguageType::D, "/+ a /+ b +/ c +/\nint x;\n");
    assert_eq!((s.code, s.comments, s.blanks), (1, 1, 0));
    assert!(!inaccurate);
}

#[test]
fn script_block_is_a_separate_blob() {
    let html = "<html>\n<script>\nvar a = 1;\nvar b = 2;\nvar c = 3;\n</script>\n</html>\n";
    let (s, inaccurate) = parse(LanguageType::Html, html);
    assert!(!inaccurate);
    assert_eq!(s.blobs.len(), 1);
    assert_eq!(s.blobs[0].0, LanguageType::JavaScript);
    assert_eq!((s.blobs[0].1.code, s.blobs[0].1.comments, s.blobs[0].1.blanks), (3, 0, 0));
    assert_eq!((s.code, s.comments, s.blanks), (4, 0, 0));
}

#[test]
fn blobs_of_one_language_are_merged() {
    let html = "<style>\na { }\n</style>\n<script>\n// c\nx();\n</script>\n<script>\n\ny();\n</script>\n";
    let (s, _) = parse(LanguageType::Html, html);
    assert_eq!(s.blobs.len(), 2);
    assert_eq!(s.blobs[0].0, LanguageType::Css);
    assert_eq!((s.blobs[0].1.code, s.blobs[0].1.comments, s.blobs[0].1.blanks), (1, 0, 0));
    assert_eq!(s.blobs[1].0, LanguageType::JavaScript);
    assert_eq!((s.blobs[1].1.code, s.blobs[1].1.comments, s.blobs[1].1.blanks), (2, 1, 1));
    assert_eq!((s.code, s.comments, s.blanks), (6, 0, 0));
    let sum = s.summarise();
    assert_eq!((sum.code, sum.comments, sum.blanks), (9, 1, 1));
}

#[test]
fn doc_strings_count_as_comments_when_asked() {
    let text = "\"\"\"doc\nmore\"\"\"\nx = 1\n";
    let (c, _) = LanguageType::Python.parse_from_slice(text.as_bytes(), true);
    assert_eq!((c.code, c.comments, c.blanks), (1, 2, 0));
    let (d, _) = LanguageType::Python.parse_from_slice(text.as_bytes(), false);
    assert_eq!((d.code, d.comments, d.blanks), (3, 0, 0));
}

#[test]
fn comment_markers_inside_strings_are_code() {
    let (s, _) = parse(LanguageType::Rust, "let s = \"// no\";\n\"a\\\"b // c\";\n");
    assert_eq!((s.code, s.comments, s.blanks), (2, 0, 0));
}

#[test]
fn verbatim_string_ignores_backslash() {
    let (s, inaccurate) = parse(LanguageType::CSharp, "var p = @\"c:\\\";\n// done\n");
    assert!(!inaccurate);
    assert_eq!((s.code, s.comments, s.blanks), (1, 1, 0));
}

#[test]
fn literate_text_is_comment_outside_fences() {
    let (s, inaccurate) = parse(LanguageType::Markdown, "# Title\n\n```\ncode\n```\ntext\n");
    assert!(!inaccurate);
    assert_eq!((s.code, s.comments, s.blanks), (3, 2, 1));
}

#[test]
fn unclosed_comment_from_start_is_all_comment_lines() {
    let (s, inaccurate) = parse(LanguageType::C, "/* a\nb\n  c\nd");
    assert!(inaccurate);
    assert_eq!((s.code, s.comments, s.blanks), (0, 4, 0));
}
