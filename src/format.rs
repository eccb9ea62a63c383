//! Rendering results as a fixed-width table: right-aligned number columns
//! with optional digit grouping, names truncated to their column.
use vstd::prelude::*;
use vstd::string::StringExecFns;
use vstd::string::StrSliceExecFns;
use crate::language::LanguageType;
use crate::report::{sum_blanks, sum_code, sum_comments, Language, Languages, Report};
use crate::stats::{add_all, LineCounts};
use crate::text::{bytes_of, str_eq};

verus! {

pub const FALLBACK_ROW_LEN: usize = 79;

pub const NO_LANG_HEADER_ROW_LEN: usize = 67;

pub const NO_LANG_ROW_LEN: usize = 61;

pub const NO_LANG_ROW_LEN_NO_SPACES: usize = 54;

pub const IDENT_INACCURATE: &'static str = "(!)";

/// How the digits of a number are grouped.
#[derive(Clone, Copy, Debug, PartialEq, Eq, Structural)]
#[non_exhaustive]
pub enum NumberFormatStyle {
    /// 1234
    Plain,
    /// 1,234
    Commas,
    /// 1.234
    Dots,
    /// 1_234
    Underscores,
}

/// The decimal digit for `d`, below ten.
pub open spec fn digit(d: nat) -> char {
    if d == 0 { '0' } else if d == 1 { '1' } else if d == 2 { '2' } else if d == 3 { '3' } else if d == 4 { '4' }
    else if d == 5 { '5' } else if d == 6 { '6' } else if d == 7 { '7' } else if d == 8 { '8' } else { '9' }
}

/// `n` in decimal digits.
pub open spec fn decimal(n: nat) -> Seq<char>
    decreases n,
{
    if n < 10 {
        seq![digit(n)]
    } else {
        decimal(n / 10).push(digit(n % 10))
    }
}

/// `n` below a thousand, in exactly three digits.
pub open spec fn three_digits(n: nat) -> Seq<char> {
    seq![digit(n / 100), digit((n / 10) % 10), digit(n % 10)]
}

/// `n` in decimal digits, with `sep` between groups of three counted from the right.
pub open spec fn grouped(n: nat, sep: Seq<char>) -> Seq<char>
    decreases n,
{
    if n < 1000 {
        decimal(n)
    } else {
        grouped(n / 1000, sep) + sep + three_digits(n % 1000)
    }
}

/// Relies on num_format's `CustomFormat` with `Grouping::Standard` and the
/// separator `sep`, and on `ToFormattedString::to_formatted_string` for `usize`:
/// the digits of `n`, with `sep` between groups of three from the right.
/// Building the format fails only for a separator over 8 bytes, which two
/// characters never reach.
#[verifier::external_body]
fn format_grouped(n: usize, sep: &str) -> (r: String)
    requires
        sep@.len() <= 2,
    ensures
        r@ == grouped(n as nat, sep@),
{
    let format = num_format::CustomFormat::builder()
        .grouping(num_format::Grouping::Standard)
        .separator(sep)
        .build()
        .unwrap();
    num_format::ToFormattedString::to_formatted_string(&n, &format)
}

/// The style that a name selects.
pub open spec fn style_named(b: Seq<u8>) -> Option<NumberFormatStyle> {
    if b == bytes_of("plain") {
        Some(NumberFormatStyle::Plain)
    } else if b == bytes_of("commas") {
        Some(NumberFormatStyle::Commas)
    } else if b == bytes_of("dots") {
        Some(NumberFormatStyle::Dots)
    } else if b == bytes_of("underscores") {
        Some(NumberFormatStyle::Underscores)
    } else {
        None
    }
}

impl NumberFormatStyle {
    pub open spec fn spec_separator(self) -> &'static str {
        match self {
            NumberFormatStyle::Plain => "",
            NumberFormatStyle::Commas => ",",
            NumberFormatStyle::Dots => ".",
            NumberFormatStyle::Underscores => "_",
        }
    }

    /// The string put between groups of digits.
    pub fn separator(self) -> (r: &'static str)
        ensures
            r == self.spec_separator(),
            r@.len() <= 1,
    {
        proof {
            reveal_strlit("");
            reveal_strlit(",");
            reveal_strlit(".");
            reveal_strlit("_");
        }
        match self {
            NumberFormatStyle::Plain => "",
            NumberFormatStyle::Commas => ",",
            NumberFormatStyle::Dots => ".",
            NumberFormatStyle::Underscores => "_",
        }
    }

    /// The names that `from_str` accepts.
    pub fn all() -> (r: Vec<&'static str>)
        ensures
            r@ == seq!["commas", "dots", "plain", "underscores"],
    {
        vec!["commas", "dots", "plain", "underscores"]
    }

    /// The style named `s`; any other name is an error that quotes it.
    pub fn from_str(s: &str) -> (r: Result<NumberFormatStyle, String>)
        ensures
            r is Ok <==> style_named(bytes_of(s)) is Some,
            r is Ok ==> r->Ok_0 == style_named(bytes_of(s))->0,
            r is Err ==> r->Err_0@ == "Expected 'plain', 'commas', 'underscores', or 'dots' for num-format, but got '"@ + s@ + "'"@,
    {
        if str_eq(s, "plain") {
            Ok(NumberFormatStyle::Plain)
        } else if str_eq(s, "commas") {
            Ok(NumberFormatStyle::Commas)
        } else if str_eq(s, "dots") {
            Ok(NumberFormatStyle::Dots)
        } else if str_eq(s, "underscores") {
            Ok(NumberFormatStyle::Underscores)
        } else {
            let mut m = String::from_str("Expected 'plain', 'commas', 'underscores', or 'dots' for num-format, but got '");
            m.append(s);
            m.append("'");
            Err(m)
        }
    }

    /// `n` written in this style.
    pub fn format(self, n: usize) -> (r: String)
        ensures
            r@ == grouped(n as nat, self.spec_separator()@),
    {
        format_grouped(n, self.separator())
    }
}

impl Default for NumberFormatStyle {
    fn default() -> (r: NumberFormatStyle)
        ensures
            r == NumberFormatStyle::Plain,
    {
        NumberFormatStyle::Plain
    }
}

/// `s` written `n` times.
pub open spec fn repeat(s: Seq<char>, n: nat) -> Seq<char>
    decreases n,
{
    if n == 0 {
        seq![]
    } else {
        repeat(s, (n - 1) as nat) + s
    }
}

/// `s` right-aligned in `w` columns.
pub open spec fn pad_left(s: Seq<char>, w: nat) -> Seq<char> {
    if s.len() < w {
        repeat(" "@, (w - s.len()) as nat) + s
    } else {
        s
    }
}

/// `s` left-aligned in `w` columns.
pub open spec fn pad_right(s: Seq<char>, w: nat) -> Seq<char> {
    if s.len() < w {
        s + repeat(" "@, (w - s.len()) as nat)
    } else {
        s
    }
}

fn push_repeat(out: &mut String, s: &str, n: usize)
    ensures
        final(out)@ == old(out)@ + repeat(s@, n as nat),
{
    let mut k: usize = 0;
    while k < n
        invariant
            k <= n,
            out@ == old(out)@ + repeat(s@, k as nat),
        decreases n - k,
    {
        out.append(s);
        k += 1;
        assert(out@ =~= old(out)@ + repeat(s@, k as nat));
    }
}

fn push_left(out: &mut String, s: &str, w: usize)
    ensures
        final(out)@ == old(out)@ + pad_left(s@, w as nat),
{
    let n = s.unicode_len();
    if n < w {
        push_repeat(out, " ", w - n);
    }
    out.append(s);
    assert(out@ =~= old(out)@ + pad_left(s@, w as nat));
}

fn push_right(out: &mut String, s: &str, w: usize)
    ensures
        final(out)@ == old(out)@ + pad_right(s@, w as nat),
{
    let n = s.unicode_len();
    out.append(s);
    if n < w {
        push_repeat(out, " ", w - n);
    }
    assert(out@ =~= old(out)@ + pad_right(s@, w as nat));
}

/// The name column of a row: the name left-aligned in `len` columns, or cut to
/// `len - 1` characters and a `|` when it is longer.
pub open spec fn name_cell(name: Seq<char>, len: nat) -> Seq<char> {
    if len < name.len() {
        " "@ + name.subrange(0, len - 1) + "|"@
    } else {
        " "@ + pad_right(name, len)
    }
}

/// The width left for a language name.
pub open spec fn name_width(columns: nat, inaccurate: bool, prefix: Seq<char>) -> int {
    columns - NO_LANG_ROW_LEN - prefix.len() - if inaccurate {
        3int
    } else {
        0int
    }
}

/// The name part of a language row.
#[verifier::opaque]
pub open spec fn language_name_text(columns: nat, inaccurate: bool, name: Seq<char>, prefix: Seq<char>) -> Seq<char> {
    prefix + name_cell(name, name_width(columns, inaccurate, prefix) as nat) + if inaccurate {
        IDENT_INACCURATE@
    } else {
        seq![]
    }
}

/// All lines of `c`, stopping at `usize::MAX`.
pub open spec fn total_lines(c: LineCounts) -> usize {
    c.code.saturating_add(c.comments).saturating_add(c.blanks)
}

/// The four line columns of a row, each right-aligned in twelve.
#[verifier::opaque]
pub open spec fn line_cells(c: LineCounts, sep: Seq<char>) -> Seq<char> {
    " "@ + pad_left(grouped(total_lines(c) as nat, sep), 12) + " "@ + pad_left(grouped(c.code as nat, sep), 12) + " "@
        + pad_left(grouped(c.comments as nat, sep), 12) + " "@ + pad_left(grouped(c.blanks as nat, sep), 12)
}

/// A row's numbers: the file column right-aligned in six, then the line columns.
#[verifier::opaque]
pub open spec fn number_cells(files: Seq<char>, c: LineCounts, sep: Seq<char>) -> Seq<char> {
    pad_left(files, 6) + line_cells(c, sep) + "\n"@
}

/// A report row's name: kept whole when it fits in `len` columns, else a `|`
/// and its last `len - 1` characters.
pub open spec fn path_cell(name: Seq<char>, len: nat) -> Seq<char> {
    if name.len() > len && len >= 1 {
        pad_right("|"@ + name.subrange(name.len() - (len - 1), name.len() as int), len)
    } else {
        pad_right(name, len)
    }
}

#[verifier::opaque]
pub open spec fn report_row(name: Seq<char>, len: nat, c: LineCounts, sep: Seq<char>) -> Seq<char> {
    " "@ + path_cell(name, len) + line_cells(c, sep) + "\n"@
}

/// The children of `cs` written in `l`, in order.
pub open spec fn of_language(cs: Seq<(LanguageType, LineCounts)>, l: LanguageType) -> Seq<(LanguageType, LineCounts)>
    decreases cs.len(),
{
    if cs.len() == 0 {
        seq![]
    } else if cs.last().0 == l {
        of_language(cs.drop_last(), l).push(cs.last())
    } else {
        of_language(cs.drop_last(), l)
    }
}

/// The languages of `cs`, each once, in the order they first appear.
pub open spec fn child_languages(cs: Seq<(LanguageType, LineCounts)>) -> Seq<LanguageType>
    decreases cs.len(),
{
    if cs.len() == 0 {
        seq![]
    } else if child_languages(cs.drop_last()).contains(cs.last().0) {
        child_languages(cs.drop_last())
    } else {
        child_languages(cs.drop_last()).push(cs.last().0)
    }
}

pub open spec fn zero_counts() -> LineCounts {
    LineCounts { code: 0, comments: 0, blanks: 0 }
}

/// The sub-row of the embedded language `l` under a language row: how many
/// regions are written in it, and their counts added up.
pub open spec fn code_stats_text(columns: nat, l: LanguageType, cs: Seq<(LanguageType, LineCounts)>, sep: Seq<char>) -> Seq<char> {
    let mine = of_language(cs, l);
    language_name_text(columns, false, l.spec_name()@, " |-"@) + " "@ + number_cells(
        grouped(mine.len(), sep),
        add_all(zero_counts(), mine),
        sep,
    )
}

/// The sub-rows of the languages `ls`, in order.
pub open spec fn children_text(columns: nat, ls: Seq<LanguageType>, cs: Seq<(LanguageType, LineCounts)>, sep: Seq<char>) -> Seq<char>
    decreases ls.len(),
{
    if ls.len() == 0 {
        seq![]
    } else {
        children_text(columns, ls.drop_last(), cs, sep) + code_stats_text(columns, ls.last(), cs, sep)
    }
}

/// The sub-rows of the blobs `bs` of one file, in order.
pub open spec fn blob_rows(columns: nat, inaccurate: bool, bs: Seq<(LanguageType, LineCounts)>, sep: Seq<char>) -> Seq<char>
    decreases bs.len(),
{
    if bs.len() == 0 {
        seq![]
    } else {
        blob_rows(columns, inaccurate, bs.drop_last(), sep) + language_name_text(
            columns,
            inaccurate,
            bs.last().0.spec_name()@,
            " |-"@,
        ) + " "@ + number_cells(" "@, bs.last().1, sep)
    }
}

/// The own counts of the reports of `language`.
pub open spec fn own_counts(language: Language) -> LineCounts {
    LineCounts {
        code: sum_code(language.reports@) as usize,
        comments: sum_comments(language.reports@) as usize,
        blanks: sum_blanks(language.reports@) as usize,
    }
}

fn distinct_languages(cs: &Vec<(LanguageType, LineCounts)>) -> (r: Vec<LanguageType>)
    ensures
        r@ == child_languages(cs@),
{
    let mut r: Vec<LanguageType> = Vec::new();
    let mut k: usize = 0;
    while k < cs.len()
        invariant
            k <= cs@.len(),
            r@ == child_languages(cs@.subrange(0, k as int)),
        decreases cs@.len() - k,
    {
        let l = cs[k].0;
        let mut found = false;
        let mut j: usize = 0;
        while j < r.len()
            invariant
                j <= r@.len(),
                found == exists|i: int| 0 <= i < j && r@[i] == l,
            decreases r@.len() - j,
        {
            if r[j] == l {
                found = true;
            }
            j += 1;
        }
        proof {
            assert(cs@.subrange(0, k + 1).drop_last() =~= cs@.subrange(0, k as int));
            assert(found == r@.contains(l));
        }
        if !found {
            r.push(l);
        }
        k += 1;
    }
    assert(cs@.subrange(0, cs@.len() as int) =~= cs@);
    r
}

fn summary_of(cs: &Vec<(LanguageType, LineCounts)>, l: LanguageType) -> (r: (usize, LineCounts))
    ensures
        r.0 == of_language(cs@, l).len(),
        r.1 == add_all(zero_counts(), of_language(cs@, l)),
{
    let mut n: usize = 0;
    let mut c = LineCounts::zero();
    let mut k: usize = 0;
    while k < cs.len()
        invariant
            k <= cs@.len(),
            n == of_language(cs@.subrange(0, k as int), l).len(),
            n <= k,
            c == add_all(zero_counts(), of_language(cs@.subrange(0, k as int), l)),
        decreases cs@.len() - k,
    {
        proof {
            assert(cs@.subrange(0, k + 1).drop_last() =~= cs@.subrange(0, k as int));
            let p = of_language(cs@.subrange(0, k as int), l);
            assert(p.push(cs@[k as int]).drop_last() =~= p);
        }
        if cs[k].0 == l {
            n = n + 1;
            c = LineCounts {
                code: c.code.saturating_add(cs[k].1.code),
                comments: c.comments.saturating_add(cs[k].1.comments),
                blanks: c.blanks.saturating_add(cs[k].1.blanks),
            };
        }
        k += 1;
    }
    assert(cs@.subrange(0, cs@.len() as int) =~= cs@);
    (n, c)
}

/// The parts of a printer that decide how rows look.
pub ghost struct Layout {
    pub columns: nat,
    pub path_length: nat,
    pub list_files: bool,
    pub sep: Seq<char>,
}

pub open spec fn subrow_text(t: Layout) -> Seq<char> {
    repeat("─"@, t.columns) + "\n"@
}

/// The own counts of one report.
pub open spec fn report_counts(r: Report) -> LineCounts {
    LineCounts { code: r.stats.code, comments: r.stats.comments, blanks: r.stats.blanks }
}

/// The sub-rows under a file's row: one per blob, then the file's roll-up;
/// nothing for a file without blobs.
#[verifier::opaque]
pub open spec fn report_total_text(t: Layout, r: Report, inaccurate: bool) -> Seq<char> {
    if r.stats.blobs@.len() == 0 {
        seq![]
    } else {
        blob_rows(t.columns, inaccurate, r.stats.blobs@, t.sep) + report_row(
            "|- (Total)"@,
            t.path_length,
            add_all(report_counts(r), r.stats.blobs@),
            t.sep,
        )
    }
}

/// The file has regions written in other languages.
pub open spec fn has_blobs(r: Report) -> bool {
    r.stats.blobs@.len() > 0
}

/// How many of the files `rs` have no blobs.
pub open spec fn count_plain(rs: Seq<Report>) -> nat
    decreases rs.len(),
{
    if rs.len() == 0 {
        0
    } else {
        count_plain(rs.drop_last()) + if has_blobs(rs.last()) {
            0nat
        } else {
            1nat
        }
    }
}

/// How many of the files `rs` have blobs.
pub open spec fn count_blobbed(rs: Seq<Report>) -> nat
    decreases rs.len(),
{
    if rs.len() == 0 {
        0
    } else {
        count_blobbed(rs.drop_last()) + if has_blobs(rs.last()) {
            1nat
        } else {
            0nat
        }
    }
}

/// The row of one file: its name fitted to the path column, then its own counts.
pub open spec fn file_row(t: Layout, r: Report) -> Seq<char> {
    report_row(r.name@, t.path_length, report_counts(r), t.sep)
}

/// The rows of all files `rs`, in order.
pub open spec fn compact_rows(t: Layout, rs: Seq<Report>) -> Seq<char>
    decreases rs.len(),
{
    if rs.len() == 0 {
        seq![]
    } else {
        compact_rows(t, rs.drop_last()) + file_row(t, rs.last())
    }
}

/// The rows of the files of `rs` without blobs, in order.
pub open spec fn plain_rows(t: Layout, rs: Seq<Report>) -> Seq<char>
    decreases rs.len(),
{
    if rs.len() == 0 {
        seq![]
    } else {
        plain_rows(t, rs.drop_last()) + if has_blobs(rs.last()) {
            seq![]
        } else {
            file_row(t, rs.last())
        }
    }
}

/// How many dashes follow a file name in its heading so that the heading
/// fills the row; none where the name is too long.
pub open spec fn dash_count(t: Layout, name: Seq<char>) -> nat {
    if name.len() + 4 <= t.columns {
        (t.columns - 4 - name.len()) as nat
    } else {
        0
    }
}

/// The heading of a file with blobs: the bare name when it is the only kind
/// of file listed and comes first, else the name set in a rule of dashes.
#[verifier::opaque]
pub open spec fn blob_heading(t: Layout, name: Seq<char>, alone: bool) -> Seq<char> {
    if alone {
        " "@ + name + "\n"@
    } else {
        "-- "@ + name + " "@ + repeat("-"@, dash_count(t, name)) + "\n"@
    }
}

/// A file with blobs: its heading, its own counts under the language's name,
/// then one sub-row per blob and the file's roll-up.
#[verifier::opaque]
pub open spec fn blobbed_text(t: Layout, lname: Seq<char>, r: Report, inaccurate: bool, alone: bool) -> Seq<char> {
    blob_heading(t, r.name@, alone) + " |-"@ + report_row(lname, (t.path_length - 3) as nat, report_counts(r), t.sep)
        + report_total_text(t, r, inaccurate)
}

/// The blocks of the files of `rs` with blobs, in order; `no_plain` says that
/// no file without blobs is listed.
pub open spec fn blobbed_rows(t: Layout, lname: Seq<char>, rs: Seq<Report>, inaccurate: bool, no_plain: bool) -> Seq<char>
    decreases rs.len(),
{
    if rs.len() == 0 {
        seq![]
    } else {
        blobbed_rows(t, lname, rs.drop_last(), inaccurate, no_plain) + if has_blobs(rs.last()) {
            blobbed_text(t, lname, rs.last(), inaccurate, no_plain && count_blobbed(rs.drop_last()) == 0)
        } else {
            seq![]
        }
    }
}

/// The file listing of a language named `lname`: in `compact` mode one row per
/// file in order; else first the files without blobs, then those with blobs,
/// each with its heading and sub-rows.
#[verifier::opaque]
pub open spec fn files_text(t: Layout, lname: Seq<char>, rs: Seq<Report>, inaccurate: bool, compact: bool) -> Seq<char> {
    if compact {
        compact_rows(t, rs)
    } else {
        plain_rows(t, rs) + blobbed_rows(t, lname, rs, inaccurate, count_plain(rs) == 0)
    }
}

/// The block of one language: a light rule unless it comes first (and only
/// where children or files follow), its row, its children's rows with their
/// roll-up, and its files' rows.
#[verifier::opaque]
pub open spec fn language_block(t: Layout, l: LanguageType, language: Language, compact: bool, first: bool) -> Seq<char> {
    let has_children = !(compact || language.children@.len() == 0);
    let rule = if first {
        seq![]
    } else if has_children || t.list_files {
        subrow_text(t)
    } else {
        seq![]
    };
    let children = if has_children {
        children_text(t.columns, child_languages(language.children@), language.children@, t.sep) + report_row(
            "(Total)"@,
            t.path_length,
            add_all(own_counts(language), language.children@),
            t.sep,
        )
    } else {
        seq![]
    };
    let files = if t.list_files {
        subrow_text(t) + files_text(t, l.spec_name()@, language.reports@, language.inaccurate, compact)
    } else {
        seq![]
    };
    rule + language_name_text(t.columns, language.inaccurate, l.spec_name()@, ""@) + " "@ + number_cells(
        grouped(language.reports@.len(), t.sep),
        own_counts(language),
        t.sep,
    ) + children + files
}

/// Whether a language is printed in the given pass: it has files, and it is
/// printed in the first pass when it shows no children.
pub open spec fn selected(language: Language, compact: bool, pass: nat) -> bool {
    language.reports@.len() > 0 && ((compact || language.children@.len() == 0) == (pass == 0))
}

/// The blocks of the first `n` languages of `es` in one pass, and whether no
/// block has been printed yet.
pub open spec fn pass_text(t: Layout, es: Seq<(LanguageType, Language)>, n: int, compact: bool, pass: nat, first: bool) -> (Seq<char>, bool)
    decreases n,
{
    if n <= 0 {
        (seq![], first)
    } else {
        let prev = pass_text(t, es, n - 1, compact, pass, first);
        if selected(es[n - 1].1, compact, pass) {
            (prev.0 + language_block(t, es[n - 1].0, es[n - 1].1, compact, prev.1), false)
        } else {
            prev
        }
    }
}

/// The body of a result table.
pub open spec fn results_text(t: Layout, es: Seq<(LanguageType, Language)>, compact: bool) -> Seq<char> {
    let a = pass_text(t, es, es.len() as int, compact, 0, true);
    let b = pass_text(t, es, es.len() as int, compact, 1, a.1);
    a.0 + b.0
}

/// Writes result tables into `output`.
pub struct Printer {
    pub columns: usize,
    pub path_length: usize,
    pub list_files: bool,
    pub number_format: NumberFormatStyle,
    pub output: String,
}

impl Printer {
    pub open spec fn wf(&self) -> bool {
        &&& self.columns >= NO_LANG_HEADER_ROW_LEN
        &&& self.path_length == self.columns - NO_LANG_ROW_LEN_NO_SPACES
    }

    pub open spec fn sep(&self) -> Seq<char> {
        self.number_format.spec_separator()@
    }

    pub open spec fn layout(&self) -> Layout {
        Layout {
            columns: self.columns as nat,
            path_length: self.path_length as nat,
            list_files: self.list_files,
            sep: self.sep(),
        }
    }

    /// A printer for rows `columns` wide, at least as wide as the fixed columns.
    pub fn new(columns: usize, list_files: bool, number_format: NumberFormatStyle) -> (r: Printer)
        requires
            columns >= NO_LANG_HEADER_ROW_LEN,
        ensures
            r.wf(),
            r.columns == columns,
            r.list_files == list_files,
            r.number_format == number_format,
            r.output@.len() == 0,
    {
        Printer {
            columns,
            path_length: columns - NO_LANG_ROW_LEN_NO_SPACES,
            list_files,
            number_format,
            output: String::new(),
        }
    }

    /// A heavy rule across the whole width.
    pub fn print_row(&mut self)
        ensures
            final(self).output@ == old(self).output@ + repeat("━"@, old(self).columns as nat) + "\n"@,
            final(self).columns == old(self).columns && final(self).path_length == old(self).path_length,
            final(self).number_format == old(self).number_format && final(self).list_files == old(self).list_files,
    {
        push_repeat(&mut self.output, "━", self.columns);
        self.output.append("\n");
    }

    /// A light rule across the whole width.
    pub fn print_subrow(&mut self)
        ensures
            final(self).output@ == old(self).output@ + repeat("─"@, old(self).columns as nat) + "\n"@,
            final(self).columns == old(self).columns && final(self).path_length == old(self).path_length,
            final(self).number_format == old(self).number_format && final(self).list_files == old(self).list_files,
    {
        push_repeat(&mut self.output, "─", self.columns);
        self.output.append("\n");
    }

    /// The column titles between two heavy rules.
    pub fn print_header(&mut self)
        requires
            old(self).wf(),
        ensures
            final(self).wf(),
            final(self).columns == old(self).columns && final(self).number_format == old(self).number_format,
            final(self).list_files == old(self).list_files,
            final(self).output@ == old(self).output@ + repeat("━"@, old(self).columns as nat) + "\n"@ + " "@
                + pad_right("Language"@, (old(self).columns - NO_LANG_HEADER_ROW_LEN) as nat) + " "@ + pad_left("Files"@, 12)
                + " "@ + pad_left("Lines"@, 12) + " "@ + pad_left("Code"@, 12) + " "@ + pad_left("Comments"@, 12) + " "@
                + pad_left("Blanks"@, 12) + "\n"@ + repeat("━"@, old(self).columns as nat) + "\n"@,
    {
        self.print_row();
        self.output.append(" ");
        push_right(&mut self.output, "Language", self.columns - NO_LANG_HEADER_ROW_LEN);
        self.output.append(" ");
        push_left(&mut self.output, "Files", 12);
        self.output.append(" ");
        push_left(&mut self.output, "Lines", 12);
        self.output.append(" ");
        push_left(&mut self.output, "Code", 12);
        self.output.append(" ");
        push_left(&mut self.output, "Comments", 12);
        self.output.append(" ");
        push_left(&mut self.output, "Blanks", 12);
        self.output.append("\n");
        self.print_row();
    }

    /// The note that explains the inaccuracy marker.
    pub fn print_inaccuracy_warning(&mut self)
        ensures
            final(self).output@ == old(self).output@ + "Note: results can be inaccurate for languages marked with '"@
                + IDENT_INACCURATE@ + "'\n"@,
            final(self).columns == old(self).columns && final(self).path_length == old(self).path_length,
            final(self).number_format == old(self).number_format && final(self).list_files == old(self).list_files,
    {
        self.output.append("Note: results can be inaccurate for languages marked with '");
        self.output.append(IDENT_INACCURATE);
        self.output.append("'\n");
    }

    /// The name part of a row: the prefix, the name fitted to its column, and
    /// the inaccuracy marker where `inaccurate` holds.
    pub fn print_language_name(&mut self, inaccurate: bool, name: &str, prefix: &str)
        requires
            old(self).wf(),
            name_width(old(self).columns as nat, inaccurate, prefix@) >= 1,
        ensures
            final(self).output@ == old(self).output@ + language_name_text(old(self).columns as nat, inaccurate, name@, prefix@),
            final(self).columns == old(self).columns && final(self).path_length == old(self).path_length,
            final(self).number_format == old(self).number_format && final(self).list_files == old(self).list_files,
    {
        let p = prefix.unicode_len();
        let mut len = self.columns - NO_LANG_ROW_LEN - p;
        if inaccurate {
            len = len - 3;
        }
        self.output.append(prefix);
        let n = name.unicode_len();
        if len < n {
            self.output.append(" ");
            self.output.append(name.substring_char(0, len - 1));
            self.output.append("|");
        } else {
            self.output.append(" ");
            push_right(&mut self.output, name, len);
        }
        if inaccurate {
            self.output.append(IDENT_INACCURATE);
        }
        proof {
            reveal_strlit("(!)");
            reveal(language_name_text);
        }
        assert(self.output@ =~= old(self).output@ + language_name_text(old(self).columns as nat, inaccurate, name@, prefix@));
    }

    fn push_number(&mut self, n: usize, w: usize)
        ensures
            final(self).output@ == old(self).output@ + pad_left(grouped(n as nat, old(self).sep()), w as nat),
            final(self).columns == old(self).columns && final(self).path_length == old(self).path_length,
            final(self).number_format == old(self).number_format && final(self).list_files == old(self).list_files,
    {
        let s = self.number_format.format(n);
        push_left(&mut self.output, s.as_str(), w);
    }

    #[verifier::spinoff_prover]
    fn push_line_cells(&mut self, c: LineCounts)
        ensures
            final(self).output@ == old(self).output@ + line_cells(c, old(self).sep()),
            final(self).columns == old(self).columns && final(self).path_length == old(self).path_length,
            final(self).number_format == old(self).number_format && final(self).list_files == old(self).list_files,
    {
        self.output.append(" ");
        self.push_number(c.code.saturating_add(c.comments).saturating_add(c.blanks), 12);
        self.output.append(" ");
        self.push_number(c.code, 12);
        self.output.append(" ");
        self.push_number(c.comments, 12);
        self.output.append(" ");
        self.push_number(c.blanks, 12);
        reveal(line_cells);
        assert(self.output@ =~= old(self).output@ + line_cells(c, old(self).sep()));
    }

    #[verifier::spinoff_prover]
    fn push_number_cells(&mut self, files: &str, c: LineCounts)
        ensures
            final(self).output@ == old(self).output@ + number_cells(files@, c, old(self).sep()),
            final(self).columns == old(self).columns && final(self).path_length == old(self).path_length,
            final(self).number_format == old(self).number_format && final(self).list_files == old(self).list_files,
    {
        push_left(&mut self.output, files, 6);
        self.push_line_cells(c);
        self.output.append("\n");
        reveal(number_cells);
        assert(self.output@ =~= old(self).output@ + number_cells(files@, c, old(self).sep()));
    }

    /// The row of a language: its name, its file count and its summed counts.
    pub fn print_language(&mut self, language: &Language, name: &str)
        requires
            old(self).wf(),
            name_width(old(self).columns as nat, language.inaccurate, ""@) >= 1,
            sum_code(language.reports@) + sum_comments(language.reports@) + sum_blanks(language.reports@) <= usize::MAX,
        ensures
            final(self).wf(),
            final(self).columns == old(self).columns && final(self).number_format == old(self).number_format,
            final(self).list_files == old(self).list_files,
            final(self).output@ == old(self).output@ + language_name_text(old(self).columns as nat, language.inaccurate, name@, ""@)
                + " "@ + number_cells(
                grouped(language.reports@.len() as nat, old(self).sep()),
                LineCounts {
                    code: sum_code(language.reports@) as usize,
                    comments: sum_comments(language.reports@) as usize,
                    blanks: sum_blanks(language.reports@) as usize,
                },
                old(self).sep(),
            ),
    {
        self.print_language_name(language.inaccurate, name, "");
        self.output.append(" ");
        proof {
            crate::report::lemma_sums_nonneg(language.reports@);
        }
        let c = language.summarise();
        let files = self.number_format.format(language.reports.len());
        self.push_number_cells(files.as_str(), c);
    }

    /// A report row: the name fitted to the path column, then its counts.
    pub fn print_report_with_name(&mut self, name: &str, c: LineCounts)
        requires
            old(self).wf(),
        ensures
            final(self).wf(),
            final(self).columns == old(self).columns && final(self).number_format == old(self).number_format,
            final(self).list_files == old(self).list_files,
            final(self).output@ == old(self).output@ + report_row(name@, old(self).path_length as nat, c, old(self).sep()),
    {
        let w = self.path_length;
        self.push_report_row(name, w, c);
    }

    #[verifier::spinoff_prover]
    fn push_report_row(&mut self, name: &str, width: usize, c: LineCounts)
        ensures
            final(self).columns == old(self).columns && final(self).number_format == old(self).number_format,
            final(self).list_files == old(self).list_files && final(self).path_length == old(self).path_length,
            final(self).output@ == old(self).output@ + report_row(name@, width as nat, c, old(self).sep()),
    {
        let n = name.unicode_len();
        self.output.append(" ");
        if n > width && width >= 1 {
            let mut cut = String::from_str("|");
            cut.append(name.substring_char(n - (width - 1), n));
            push_right(&mut self.output, cut.as_str(), width);
        } else {
            push_right(&mut self.output, name, width);
        }
        self.push_line_cells(c);
        self.output.append("\n");
        reveal(report_row);
        assert(self.output@ =~= old(self).output@ + report_row(name@, width as nat, c, old(self).sep()));
    }

    /// The row of one embedded language of a file, under the file's row.
    pub fn print_report(&mut self, language_type: LanguageType, c: LineCounts, inaccurate: bool)
        requires
            old(self).wf(),
            name_width(old(self).columns as nat, inaccurate, " |-"@) >= 1,
        ensures
            final(self).wf(),
            final(self).columns == old(self).columns && final(self).number_format == old(self).number_format,
            final(self).list_files == old(self).list_files,
            final(self).output@ == old(self).output@ + language_name_text(
                old(self).columns as nat,
                inaccurate,
                language_type.spec_name()@,
                " |-"@,
            ) + " "@ + number_cells(" "@, c, old(self).sep()),
    {
        self.print_language_name(inaccurate, language_type.name(), " |-");
        self.output.append(" ");
        self.push_number_cells(" ", c);
    }

    fn print_code_stats(&mut self, l: LanguageType, n: usize, c: LineCounts)
        requires
            old(self).wf(),
        ensures
            final(self).wf(),
            final(self).columns == old(self).columns && final(self).number_format == old(self).number_format,
            final(self).list_files == old(self).list_files,
            final(self).output@ == old(self).output@ + language_name_text(old(self).columns as nat, false, l.spec_name()@, " |-"@)
                + " "@ + number_cells(grouped(n as nat, old(self).sep()), c, old(self).sep()),
    {
        proof {
            reveal_strlit(" |-");
        }
        self.print_language_name(false, l.name(), " |-");
        self.output.append(" ");
        let files = self.number_format.format(n);
        self.push_number_cells(files.as_str(), c);
    }

    /// Under a language row: one sub-row per embedded language found in its
    /// files, then a `(Total)` row with its own counts and theirs added up.
    #[verifier::spinoff_prover]
    pub fn print_language_total(&mut self, parent: &Language)
        requires
            old(self).wf(),
            sum_code(parent.reports@) <= usize::MAX,
            sum_comments(parent.reports@) <= usize::MAX,
            sum_blanks(parent.reports@) <= usize::MAX,
        ensures
            final(self).wf(),
            final(self).columns == old(self).columns && final(self).number_format == old(self).number_format,
            final(self).list_files == old(self).list_files,
            final(self).output@ == old(self).output@ + children_text(
                old(self).columns as nat,
                child_languages(parent.children@),
                parent.children@,
                old(self).sep(),
            ) + report_row("(Total)"@, old(self).path_length as nat, add_all(own_counts(*parent), parent.children@), old(self).sep()),
    {
        let ls = distinct_languages(&parent.children);
        let mut k: usize = 0;
        while k < ls.len()
            invariant
                self.wf(),
                k <= ls@.len(),
                self.columns == old(self).columns && self.number_format == old(self).number_format,
                self.path_length == old(self).path_length,
                self.list_files == old(self).list_files,
                self.output@ == old(self).output@ + children_text(
                    old(self).columns as nat,
                    ls@.subrange(0, k as int),
                    parent.children@,
                    old(self).sep(),
                ),
            decreases ls@.len() - k,
        {
            let (n, c) = summary_of(&parent.children, ls[k]);
            let ghost prev = self.output@;
            self.print_code_stats(ls[k], n, c);
            proof {
                let cols = old(self).columns as nat;
                let sep = old(self).sep();
                assert(ls@.subrange(0, k + 1).drop_last() =~= ls@.subrange(0, k as int));
                let cst = code_stats_text(cols, ls@[k as int], parent.children@, sep);
                assert(self.output@ == prev + cst);
                assert(children_text(cols, ls@.subrange(0, k + 1), parent.children@, sep) == children_text(
                    cols,
                    ls@.subrange(0, k as int),
                    parent.children@,
                    sep,
                ) + cst);
                assert(self.output@ =~= old(self).output@ + children_text(cols, ls@.subrange(0, k + 1), parent.children@, sep));
            }
            k += 1;
        }
        assert(ls@.subrange(0, ls@.len() as int) =~= ls@);
        let own = parent.summarise();
        let mut total = own;
        let mut j: usize = 0;
        while j < parent.children.len()
            invariant
                j <= parent.children@.len(),
                own == own_counts(*parent),
                total == add_all(own, parent.children@.subrange(0, j as int)),
            decreases parent.children@.len() - j,
        {
            proof {
                assert(parent.children@.subrange(0, j + 1).drop_last() =~= parent.children@.subrange(0, j as int));
            }
            total = LineCounts {
                code: total.code.saturating_add(parent.children[j].1.code),
                comments: total.comments.saturating_add(parent.children[j].1.comments),
                blanks: total.blanks.saturating_add(parent.children[j].1.blanks),
            };
            j += 1;
        }
        assert(parent.children@.subrange(0, parent.children@.len() as int) =~= parent.children@);
        self.print_report_with_name("(Total)", total);
    }

    /// Under a file's row: one sub-row per embedded language of the file, then a
    /// `|- (Total)` row with its own counts and theirs added up. Nothing for a
    /// file without embedded regions.
    #[verifier::spinoff_prover]
    pub fn print_report_total(&mut self, report: &Report, inaccurate: bool)
        requires
            old(self).wf(),
            name_width(old(self).columns as nat, inaccurate, " |-"@) >= 1,
        ensures
            final(self).wf(),
            final(self).columns == old(self).columns && final(self).number_format == old(self).number_format,
            final(self).list_files == old(self).list_files,
            report.stats.blobs@.len() == 0 ==> final(self).output@ == old(self).output@,
            report.stats.blobs@.len() > 0 ==> final(self).output@ == old(self).output@ + blob_rows(
                old(self).columns as nat,
                inaccurate,
                report.stats.blobs@,
                old(self).sep(),
            ) + report_row(
                "|- (Total)"@,
                old(self).path_length as nat,
                add_all(
                    LineCounts { code: report.stats.code, comments: report.stats.comments, blanks: report.stats.blanks },
                    report.stats.blobs@,
                ),
                old(self).sep(),
            ),
    {
        if report.stats.blobs.len() == 0 {
            return;
        }
        let bs = &report.stats.blobs;
        let mut k: usize = 0;
        while k < bs.len()
            invariant
                self.wf(),
                k <= bs@.len(),
                name_width(old(self).columns as nat, inaccurate, " |-"@) >= 1,
                self.columns == old(self).columns && self.number_format == old(self).number_format,
                self.path_length == old(self).path_length,
                self.list_files == old(self).list_files,
                self.output@ == old(self).output@ + blob_rows(old(self).columns as nat, inaccurate, bs@.subrange(0, k as int), old(self).sep()),
            decreases bs@.len() - k,
        {
            let ghost prev = self.output@;
            self.print_report(bs[k].0, bs[k].1, inaccurate);
            proof {
                let cols = old(self).columns as nat;
                let sep = old(self).sep();
                let sub = bs@.subrange(0, k + 1);
                assert(sub.drop_last() =~= bs@.subrange(0, k as int));
                let row = language_name_text(cols, inaccurate, bs@[k as int].0.spec_name()@, " |-"@) + " "@ + number_cells(
                    " "@,
                    bs@[k as int].1,
                    sep,
                );
                assert(self.output@ =~= prev + row);
                assert(blob_rows(cols, inaccurate, sub, sep) == blob_rows(cols, inaccurate, bs@.subrange(0, k as int), sep) + row);
                assert(self.output@ =~= old(self).output@ + blob_rows(cols, inaccurate, sub, sep));
            }
            k += 1;
        }
        assert(bs@.subrange(0, bs@.len() as int) =~= bs@);
        let total = report.stats.summarise();
        self.print_report_with_name("|- (Total)", total);
    }

    #[verifier::spinoff_prover]
    fn print_heading(&mut self, name: &str, alone: bool)
        requires
            old(self).wf(),
        ensures
            final(self).wf(),
            final(self).layout() == old(self).layout(),
            final(self).number_format == old(self).number_format,
            final(self).output@ == old(self).output@ + blob_heading(old(self).layout(), name@, alone),
    {
        if alone {
            self.output.append(" ");
            self.output.append(name);
            self.output.append("\n");
        } else {
            self.output.append("-- ");
            self.output.append(name);
            self.output.append(" ");
            let n = name.unicode_len();
            if n <= self.columns - 4 {
                push_repeat(&mut self.output, "-", self.columns - 4 - n);
            } else {
                push_repeat(&mut self.output, "-", 0);
            }
            self.output.append("\n");
        }
        reveal(blob_heading);
        assert(self.output@ =~= old(self).output@ + blob_heading(old(self).layout(), name@, alone));
    }

    #[verifier::spinoff_prover]
    fn print_files(&mut self, language: &Language, compact: bool, lname: &str)
        requires
            old(self).wf(),
            old(self).columns >= NO_LANG_HEADER_ROW_LEN + 1,
        ensures
            final(self).wf(),
            final(self).layout() == old(self).layout(),
            final(self).number_format == old(self).number_format,
            final(self).output@ == old(self).output@ + files_text(
                old(self).layout(),
                lname@,
                language.reports@,
                language.inaccurate,
                compact,
            ),
    {
        let ghost t = self.layout();
        let rs = &language.reports;
        if compact {
            let mut j: usize = 0;
            while j < rs.len()
                invariant
                    self.wf(),
                    j <= rs@.len(),
                    self.layout() == t,
                    self.number_format == old(self).number_format,
                    t == old(self).layout(),
                    self.output@ == old(self).output@ + compact_rows(t, rs@.subrange(0, j as int)),
                decreases rs@.len() - j,
            {
                let rep = &rs[j];
                self.print_report_with_name(rep.name.as_str(), rep.stats.own());
                proof {
                    assert(rs@.subrange(0, j + 1).drop_last() =~= rs@.subrange(0, j as int));
                }
                j += 1;
            }
            assert(rs@.subrange(0, rs@.len() as int) =~= rs@);
            reveal(files_text);
            return;
        }
        let mut plain: usize = 0;
        let mut j: usize = 0;
        while j < rs.len()
            invariant
                self.wf(),
                j <= rs@.len(),
                plain <= j,
                plain == count_plain(rs@.subrange(0, j as int)),
                self.layout() == t,
                self.number_format == old(self).number_format,
                t == old(self).layout(),
                self.output@ == old(self).output@ + plain_rows(t, rs@.subrange(0, j as int)),
            decreases rs@.len() - j,
        {
            let rep = &rs[j];
            let ghost prev = self.output@;
            if rep.stats.blobs.len() == 0 {
                self.print_report_with_name(rep.name.as_str(), rep.stats.own());
                plain += 1;
            }
            proof {
                assert(rs@.subrange(0, j + 1).drop_last() =~= rs@.subrange(0, j as int));
                assert(rs@.subrange(0, j + 1).last() == rs@[j as int]);
            }
            j += 1;
        }
        assert(rs@.subrange(0, rs@.len() as int) =~= rs@);
        let ghost mid = self.output@;
        let no_plain = plain == 0;
        let mut seen: usize = 0;
        let mut j: usize = 0;
        while j < rs.len()
            invariant
                self.wf(),
                self.columns >= NO_LANG_HEADER_ROW_LEN + 1,
                j <= rs@.len(),
                seen <= j,
                seen == count_blobbed(rs@.subrange(0, j as int)),
                self.layout() == t,
                self.number_format == old(self).number_format,
                t == old(self).layout(),
                self.output@ == mid + blobbed_rows(t, lname@, rs@.subrange(0, j as int), language.inaccurate, no_plain),
            decreases rs@.len() - j,
        {
            proof {
                reveal_strlit(" |-");
            }
            let rep = &rs[j];
            let ghost prev = self.output@;
            if rep.stats.blobs.len() > 0 {
                self.print_blobbed(rep, lname, language.inaccurate, no_plain && seen == 0);
                seen += 1;
            }
            proof {
                assert(rs@.subrange(0, j + 1).drop_last() =~= rs@.subrange(0, j as int));
                assert(rs@.subrange(0, j + 1).last() == rs@[j as int]);
            }
            j += 1;
        }
        assert(rs@.subrange(0, rs@.len() as int) =~= rs@);
        reveal(files_text);
        assert(self.output@ =~= old(self).output@ + files_text(t, lname@, rs@, language.inaccurate, compact));
    }

    #[verifier::spinoff_prover]
    fn print_blobbed(&mut self, rep: &Report, lname: &str, inaccurate: bool, alone: bool)
        requires
            old(self).wf(),
            old(self).columns >= NO_LANG_HEADER_ROW_LEN + 1,
        ensures
            final(self).wf(),
            final(self).layout() == old(self).layout(),
            final(self).number_format == old(self).number_format,
            final(self).output@ == old(self).output@ + blobbed_text(old(self).layout(), lname@, *rep, inaccurate, alone),
    {
        proof {
            reveal_strlit(" |-");
        }
        let ghost t = self.layout();
        self.print_heading(rep.name.as_str(), alone);
        let ghost o1 = self.output@;
        self.output.append(" |-");
        let w = self.path_length - 3;
        self.push_report_row(lname, w, rep.stats.own());
        let ghost o2 = self.output@;
        self.print_report_total(rep, inaccurate);
        proof {
            reveal(report_total_text);
            reveal(blobbed_text);
            assert(self.output@ =~= o2 + report_total_text(t, *rep, inaccurate));
            assert(self.output@ =~= old(self).output@ + blobbed_text(t, lname@, *rep, inaccurate, alone));
        }
    }

    #[verifier::spinoff_prover]
    #[verifier::rlimit(60)]
    fn print_block(&mut self, l: LanguageType, language: &Language, compact: bool, first: bool)
        requires
            old(self).wf(),
            old(self).columns >= NO_LANG_HEADER_ROW_LEN + 1,
            sum_code(language.reports@) + sum_comments(language.reports@) + sum_blanks(language.reports@) <= usize::MAX,
        ensures
            final(self).wf(),
            final(self).layout() == old(self).layout(),
            final(self).number_format == old(self).number_format,
            final(self).output@ == old(self).output@ + language_block(old(self).layout(), l, *language, compact, first),
    {
        proof {
            reveal_strlit("");
            crate::report::lemma_sums_nonneg(language.reports@);
        }
        let ghost t = self.layout();
        let ghost o0 = self.output@;
        let has_children = !(compact || language.children.len() == 0);
        if first {
        } else if has_children || self.list_files {
            self.print_subrow();
        }
        let ghost rule = if first {
            Seq::<char>::empty()
        } else if has_children || t.list_files {
            subrow_text(t)
        } else {
            Seq::<char>::empty()
        };
        assert(self.output@ == o0 + rule);
        let ghost o1 = self.output@;
        self.print_language(language, l.name());
        let ghost row = language_name_text(t.columns, language.inaccurate, l.spec_name()@, ""@) + " "@ + number_cells(
            grouped(language.reports@.len(), t.sep),
            own_counts(*language),
            t.sep,
        );
        assert(self.output@ =~= o1 + row);
        let ghost o2 = self.output@;
        if has_children {
            self.print_language_total(language);
        }
        let ghost ch = if has_children {
            children_text(t.columns, child_languages(language.children@), language.children@, t.sep) + report_row(
                "(Total)"@,
                t.path_length,
                add_all(own_counts(*language), language.children@),
                t.sep,
            )
        } else {
            Seq::<char>::empty()
        };
        assert(self.output@ =~= o2 + ch);
        let ghost o3 = self.output@;
        if self.list_files {
            self.print_subrow();
            self.print_files(language, compact, l.name());
        }
        let ghost fl = if t.list_files {
            subrow_text(t) + files_text(t, l.spec_name()@, language.reports@, language.inaccurate, compact)
        } else {
            Seq::<char>::empty()
        };
        assert(self.output@ =~= o3 + fl);
        proof {
            reveal(language_block);
            assert(language_block(t, l, *language, compact, first) == rule + row + ch + fl);
        }
        assert(self.output@ =~= o0 + language_block(t, l, *language, compact, first));
    }

    /// The body of the table: a block per language that has files, those
    /// showing no embedded languages first (all of them in `compact` mode).
    #[verifier::spinoff_prover]
    pub fn print_results(&mut self, languages: &Languages, compact: bool)
        requires
            old(self).wf(),
            old(self).columns >= NO_LANG_HEADER_ROW_LEN + 1,
            languages.wf(),
            crate::report::code_of(languages.entries@) + crate::report::comments_of(languages.entries@)
                + crate::report::blanks_of(languages.entries@) <= usize::MAX,
        ensures
            final(self).wf(),
            final(self).layout() == old(self).layout(),
            final(self).number_format == old(self).number_format,
            final(self).output@ == old(self).output@ + results_text(old(self).layout(), languages.entries@, compact),
    {
        let ghost t = self.layout();
        let es = &languages.entries;
        let mut first = true;
        let ghost mut done: Seq<char> = Seq::empty();
        let ghost mut first_at: bool = true;
        let mut pass: usize = 0;
        while pass < 2
            invariant
                self.wf(),
                self.columns >= NO_LANG_HEADER_ROW_LEN + 1,
                self.layout() == t,
                t == old(self).layout(),
                self.number_format == old(self).number_format,
                es@ == languages.entries@,
                crate::report::code_of(es@) + crate::report::comments_of(es@) + crate::report::blanks_of(es@) <= usize::MAX,
                pass <= 2,
                pass == 0 ==> done == Seq::<char>::empty() && first,
                pass == 1 ==> done == pass_text(t, es@, es@.len() as int, compact, 0, true).0
                    && first == pass_text(t, es@, es@.len() as int, compact, 0, true).1,
                pass == 2 ==> done == results_text(t, es@, compact),
                self.output@ == old(self).output@ + done,
            decreases 2 - pass,
        {
            let ghost start = self.output@;
            let ghost first0 = first;
            let mut k: usize = 0;
            while k < es.len()
                invariant
                    self.wf(),
                    self.columns >= NO_LANG_HEADER_ROW_LEN + 1,
                    self.layout() == t,
                    self.number_format == old(self).number_format,
                    k <= es@.len(),
                    pass < 2,
                    es@ == languages.entries@,
                    crate::report::code_of(es@) + crate::report::comments_of(es@) + crate::report::blanks_of(es@) <= usize::MAX,
                    self.output@ == start + pass_text(t, es@, k as int, compact, pass as nat, first0).0,
                    first == pass_text(t, es@, k as int, compact, pass as nat, first0).1,
                decreases es@.len() - k,
            {
                let ghost before = self.output@;
                let (l, language) = (es[k].0, &es[k].1);
                let plain = compact || language.children.len() == 0;
                if !language.is_empty() && (plain == (pass == 0)) {
                    proof {
                        crate::report::lemma_entries_prefix(es@, k + 1);
                        crate::report::lemma_entries_prefix(es@, k as int);
                        assert(es@.subrange(0, k + 1).drop_last() =~= es@.subrange(0, k as int));
                        crate::report::lemma_sums_nonneg(language.reports@);
                    }
                    self.print_block(l, language, compact, first);
                    first = false;
                }
                proof {
                    assert(selected(es@[k as int].1, compact, pass as nat) == (language.reports@.len() > 0 && (plain == (pass == 0))));
                    assert(self.output@ =~= start + pass_text(t, es@, k + 1, compact, pass as nat, first0).0);
                }
                k += 1;
            }
            proof {
                done = done + pass_text(t, es@, es@.len() as int, compact, pass as nat, first0).0;
                assert(self.output@ =~= old(self).output@ + done);
            }
            pass += 1;
        }
    }

    /// The grand total row of a run, between two heavy rules.
    pub fn print_total(&mut self, languages: &Languages)
        requires
            old(self).wf(),
            languages.wf(),
            crate::report::code_of(languages.entries@) + crate::report::comments_of(languages.entries@)
                + crate::report::blanks_of(languages.entries@) <= usize::MAX,
        ensures
            final(self).wf(),
            final(self).columns == old(self).columns && final(self).number_format == old(self).number_format,
            final(self).output@ == old(self).output@ + repeat("━"@, old(self).columns as nat) + "\n"@
                + language_name_text(old(self).columns as nat, crate::report::entries_inaccurate(languages.entries@), "Total"@, ""@)
                + " "@ + number_cells(
                grouped(crate::report::files_of(languages.entries@) as nat, old(self).sep()),
                LineCounts {
                    code: crate::report::code_of(languages.entries@) as usize,
                    comments: crate::report::comments_of(languages.entries@) as usize,
                    blanks: crate::report::blanks_of(languages.entries@) as usize,
                },
                old(self).sep(),
            ) + repeat("━"@, old(self).columns as nat) + "\n"@,
    {
        let total = languages.total();
        proof {
            reveal_strlit("");
        }
        self.print_row();
        self.print_language(&total, "Total");
        self.print_row();
    }
}

} // verus!
