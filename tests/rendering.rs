use codewalker::colors::ColorFinder;
use codewalker::format::{NumberFormatStyle, Printer};
use codewalker::language::LanguageType;
use codewalker::models::statistics;
use codewalker::report::{Language, Languages, Report};
use codewalker::stats::LineCounts;

#[test]
fn colors_are_found_by_name_without_case() {
    let colors = ColorFinder::init("Rust: #dea584\n  Python :#3572A5 \nno colon here\nrust: #000000\n");
    assert_eq!(colors.get_color_by_lang_name("Python"), "#3572A5");
    assert_eq!(colors.get_color_by_lang_name("  PYTHON "), "#3572A5");
    assert_eq!(colors.get_color_by_lang_name("Rust"), "#000000");
    assert_eq!(colors.get_color_by_lang_name("Cobol"), "#EDEDED");
}

#[test]
fn statistics_take_colors_from_the_table() {
    let mut ls = Languages::new();
    ls.add_file("a.py", b"x = 1\n", false);
    ls.add_file("b.go", b"package b\n", false);
    let colors = ColorFinder::init("Python: #3572A5\n");
    let s = statistics(&ls, &colors, 42, 7);
    assert_eq!(s.languages.len(), 2);
    assert_eq!(s.languages[0].color, "#3572A5");
    assert_eq!(s.languages[1].color, "#EDEDED");
    assert_eq!(s.sizeOnDisk, 42);
    assert_eq!(s.lastUpdateTime, 7);
    assert_eq!(s.totalFilesCount, 2);
}

fn html_language() -> Language {
    let html = "<html>\n<script>\nvar a = 1;\n</script>\n<style>\np { }\nq { }\n</style>\n</html>\n";
    let (stats, inaccurate) = LanguageType::Html.parse_from_slice(html.as_bytes(), false);
    let mut r = Report::new("index.html".to_string());
    r.stats = stats;
    r.inaccurate = inaccurate;
    let mut l = Language::new();
    l.add_report(r);
    l
}

#[test]
fn language_total_lists_children_then_roll_up() {
    let l = html_language();
    let mut p = Printer::new(80, false, NumberFormatStyle::Plain);
    p.print_language_total(&l);
    let expected = format!(
        " |- {:<16} {:>6} {:>12} {:>12} {:>12} {:>12}\n |- {:<16} {:>6} {:>12} {:>12} {:>12} {:>12}\n {:<26} {:>12} {:>12} {:>12} {:>12}\n",
        "JavaScript", "1", "1", "1", "0", "0",
        "CSS", "1", "2", "2", "0", "0",
        "(Total)", "9", "9", "0", "0"
    );
    assert_eq!(p.output, expected);
}

#[test]
fn report_total_lists_blobs_of_a_file() {
    let l = html_language();
    let mut p = Printer::new(80, false, NumberFormatStyle::Plain);
    p.print_report_total(&l.reports[0], false);
    assert!(p.output.contains(" |- JavaScript"));
    assert!(p.output.contains("|- (Total)"));
    let mut q = Printer::new(80, false, NumberFormatStyle::Plain);
    let mut r = Report::new("plain.rs".to_string());
    r.stats.code = 1;
    q.print_report_total(&r, false);
    assert_eq!(q.output, "");
}

#[test]
fn results_put_languages_with_children_last() {
    let mut ls = Languages::new();
    let (stats, _) = LanguageType::Html.parse_from_slice(b"<script>\nx();\n</script>\n", false);
    let mut r = Report::new("i.html".to_string());
    r.stats = stats;
    ls.add_report(LanguageType::Html, r);
    let mut rs = Report::new("m.rs".to_string());
    rs.stats.code = 2;
    ls.add_report(LanguageType::Rust, rs);
    ls.add_report(LanguageType::Python, Report::new("empty.py".to_string()));
    ls.entries[2].1.reports.clear();
    let mut p = Printer::new(80, false, NumberFormatStyle::Plain);
    p.print_results(&ls, false);
    let rust_at = p.output.find(" Rust").unwrap();
    let html_at = p.output.find(" HTML").unwrap();
    assert!(rust_at < html_at);
    assert!(p.output.contains("(Total)"));
    assert!(!p.output.contains("Python"));
    let mut c = Printer::new(80, true, NumberFormatStyle::Plain);
    c.print_results(&ls, true);
    assert!(c.output.find(" HTML").unwrap() < c.output.find(" Rust").unwrap());
    assert!(c.output.contains(" m.rs"));
    assert!(!c.output.contains("(Total)"));
}

#[test]
fn report_row_pads_short_names() {
    let mut p = Printer::new(80, false, NumberFormatStyle::Underscores);
    p.print_report_with_name("a.rs", LineCounts { code: 1234, comments: 0, blanks: 0 });
    let expected = format!(" {:<26} {:>12} {:>12} {:>12} {:>12}\n", "a.rs", "1_234", "1_234", "0", "0");
    assert_eq!(p.output, expected);
}

fn blob_report(name: &str) -> Report {
    let (stats, _) = LanguageType::Html.parse_from_slice(b"<script>\nx();\n</script>\n", false);
    let mut r = Report::new(name.to_string());
    r.stats = stats;
    r
}

#[test]
fn listing_puts_files_without_blobs_first() {
    let mut ls = Languages::new();
    ls.add_report(LanguageType::Html, blob_report("a.html"));
    let mut plain = Report::new("b.html".to_string());
    plain.stats.code = 3;
    ls.add_report(LanguageType::Html, plain);
    let mut p = Printer::new(80, true, NumberFormatStyle::Plain);
    p.print_results(&ls, false);
    let out = p.output;
    let plain_at = out.find(" b.html").unwrap();
    let heading = format!("-- a.html {}\n", "-".repeat(80 - 4 - 6));
    let heading_at = out.find(&heading).unwrap();
    assert!(plain_at < heading_at);
    let sub = format!(" |- {:<23} {:>12} {:>12} {:>12} {:>12}\n", "HTML", "2", "2", "0", "0");
    assert!(out[heading_at..].starts_with(&format!("{}{}", heading, sub)));
    assert!(out.contains("|- (Total)"));
}

#[test]
fn listing_of_blob_files_alone_starts_with_bare_name() {
    let mut ls = Languages::new();
    ls.add_report(LanguageType::Html, blob_report("a.html"));
    ls.add_report(LanguageType::Html, blob_report("c.html"));
    let mut p = Printer::new(80, true, NumberFormatStyle::Plain);
    p.print_results(&ls, false);
    assert!(p.output.contains("\n a.html\n |- HTML"));
    assert!(p.output.contains(&format!("-- c.html {}\n |- HTML", "-".repeat(70))));
}
