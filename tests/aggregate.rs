use codewalker::colors::ColorFinder;
use codewalker::format::{NumberFormatStyle, Printer};
use codewalker::language::LanguageType;
use codewalker::models::statistics;
use codewalker::report::{Language, Languages, Report};
use codewalker::stats::LineCounts;

fn report(name: &str, code: usize, comments: usize, blanks: usize) -> Report {
    let mut r = Report::new(name.to_string());
    r.stats.code = code;
    r.stats.comments = comments;
    r.stats.blanks = blanks;
    r
}

#[test]
fn summarise_adds_reports_field_by_field() {
    let mut l = Language::new();
    l.add_report(report("a.rs", 3, 2, 1));
    l.add_report(report("b.rs", 10, 0, 4));
    let s = l.summarise();
    assert_eq!((s.code, s.comments, s.blanks), (13, 2, 5));
    assert_eq!(s.lines(), 20);
}

#[test]
fn add_report_collects_children_and_inaccuracy() {
    let mut l = Language::new();
    let mut r = report("a.html", 4, 0, 0);
    r.stats.blobs.push((LanguageType::JavaScript, LineCounts { code: 3, comments: 0, blanks: 0 }));
    r.inaccurate = true;
    l.add_report(report("b.html", 1, 0, 0));
    assert!(!l.inaccurate);
    l.add_report(r);
    assert!(l.inaccurate);
    assert_eq!(l.children, vec![(LanguageType::JavaScript, LineCounts { code: 3, comments: 0, blanks: 0 })]);
    let s = l.summarise();
    assert_eq!((s.code, s.comments, s.blanks), (5, 0, 0));
}

#[test]
fn total_counts_every_report_once() {
    let mut ls = Languages::new();
    ls.add_report(LanguageType::Rust, report("a.rs", 1, 1, 1));
    ls.add_report(LanguageType::Python, report("b.py", 2, 0, 0));
    ls.add_report(LanguageType::Rust, report("c.rs", 5, 0, 2));
    assert_eq!(ls.entries.len(), 2);
    assert_eq!(ls.entries[0].0, LanguageType::Rust);
    assert_eq!(ls.entries[0].1.reports.len(), 2);
    let t = ls.total();
    assert_eq!(t.reports.len(), 3);
    let s = t.summarise();
    assert_eq!((s.code, s.comments, s.blanks), (8, 1, 3));
}

#[test]
fn end_to_end_one_known_file_one_unknown() {
    let rs = "// header\nfn main() {\n    let a = 1;\n\n    // note\n    let b = 2;\n    println!(\"{}\", a + b);\n}\n";
    let mut ls = Languages::new();
    assert_eq!(ls.add_file("proj/src/main.rs", rs.as_bytes(), false), Some(LanguageType::Rust));
    assert_eq!(ls.add_file("proj/data.qqq", b"whatever\n", false), None);
    let colors = ColorFinder::init("Rust: #dea584\n");
    let stats = statistics(&ls, &colors, 0, 0);
    assert_eq!(stats.languages.len(), 1);
    assert_eq!(stats.totalFileTypesCount, 1);
    assert_eq!(stats.languages[0].name, "Rust");
    assert_eq!(stats.languages[0].color, "#dea584");
    assert_eq!(stats.languages[0].filesCount, 1);
    assert_eq!(stats.languages[0].totalLinesCount, 8);
    assert_eq!(stats.languages[0].codeLinesCount, 5);
    assert_eq!(stats.languages[0].commentLinesCount, 2);
    assert_eq!(stats.languages[0].blankLinesCount, 1);
    assert_eq!(stats.totalFilesCount, 1);
    assert_eq!(stats.totalCodeLinesCount, 5);
}

#[test]
fn number_styles_group_digits() {
    assert_eq!(NumberFormatStyle::Commas.format(1234567), "1,234,567");
    assert_eq!(NumberFormatStyle::Dots.format(1000), "1.000");
    assert_eq!(NumberFormatStyle::Underscores.format(999), "999");
    assert_eq!(NumberFormatStyle::Plain.format(1234567), "1234567");
    assert_eq!(NumberFormatStyle::Commas.format(0), "0");
    assert_eq!(NumberFormatStyle::Commas.format(1002003), "1,002,003");
}

#[test]
fn number_style_names() {
    assert_eq!(NumberFormatStyle::from_str("dots"), Ok(NumberFormatStyle::Dots));
    assert_eq!(NumberFormatStyle::from_str("plain"), Ok(NumberFormatStyle::Plain));
    assert_eq!(
        NumberFormatStyle::from_str("bogus"),
        Err("Expected 'plain', 'commas', 'underscores', or 'dots' for num-format, but got 'bogus'".to_string())
    );
    assert_eq!(NumberFormatStyle::all(), vec!["commas", "dots", "plain", "underscores"]);
    assert_eq!(NumberFormatStyle::default(), NumberFormatStyle::Plain);
}

#[test]
fn language_name_is_truncated_with_marker() {
    let mut p = Printer::new(70, false, NumberFormatStyle::Plain);
    p.print_language_name(false, "ShortName", "");
    assert_eq!(p.output, " ShortName");
    let mut q = Printer::new(70, false, NumberFormatStyle::Plain);
    q.print_language_name(true, "VeryLongLanguageName", "");
    assert_eq!(q.output, " VeryL|(!)");
}

#[test]
fn language_row_has_fixed_columns() {
    let mut l = Language::new();
    l.add_report(report("a.rs", 1200, 30, 4));
    let mut p = Printer::new(80, false, NumberFormatStyle::Commas);
    p.print_language(&l, "Rust");
    let expected = format!(
        " {:<19} {:>6} {:>12} {:>12} {:>12} {:>12}\n",
        "Rust", "1", "1,234", "1,200", "30", "4"
    );
    assert_eq!(p.output, expected);
}

#[test]
fn long_paths_keep_their_tail() {
    let mut p = Printer::new(67, false, NumberFormatStyle::Plain);
    let c = LineCounts { code: 1, comments: 0, blanks: 0 };
    p.print_report_with_name("abcdefghijklmnopqrstuvwxyz", c);
    let expected = format!(" {} {:>12} {:>12} {:>12} {:>12}\n", "|opqrstuvwxyz", "1", "1", "0", "0");
    assert_eq!(p.output, expected);
}

#[test]
fn total_row_sums_all_languages() {
    let mut ls = Languages::new();
    ls.add_report(LanguageType::Rust, report("a.rs", 1, 1, 1));
    ls.add_report(LanguageType::Python, report("b.py", 2, 0, 0));
    let mut p = Printer::new(80, false, NumberFormatStyle::Plain);
    p.print_total(&ls);
    let row = "━".repeat(80);
    let expected = format!(
        "{}\n {:<19} {:>6} {:>12} {:>12} {:>12} {:>12}\n{}\n",
        row, "Total", "2", "5", "3", "1", "1", row
    );
    assert_eq!(p.output, expected);
}

#[test]
fn header_and_warning() {
    let mut p = Printer::new(79, false, NumberFormatStyle::Plain);
    p.print_header();
    assert!(p.output.contains(" Language     "));
    assert!(p.output.starts_with("━"));
    let mut q = Printer::new(79, false, NumberFormatStyle::Plain);
    q.print_inaccuracy_warning();
    assert_eq!(q.output, "Note: results can be inaccurate for languages marked with '(!)'\n");
}
