//! What holds of every classification.
use vstd::prelude::*;
use crate::classify::{advance, classify, escapes, finish, first_marker, initial, nests, open_at_end, openers, quote_list, run, starts, Mode, Region, ScanView};
use crate::language::LanguageType;
use crate::stats::{embedded_rules, file_stats_ok};
use crate::syntax::rules_of;
use crate::stats::CodeStats;
use crate::syntax::RulesView;
use crate::text::{is_newline, is_ws, opens_at};

verus! {

/// The number of line breaks in `t`.
pub open spec fn newlines(t: Seq<u8>) -> nat
    decreases t.len(),
{
    if t.len() == 0 {
        0
    } else {
        newlines(t.drop_last()) + if is_newline(t.last()) {
            1nat
        } else {
            0nat
        }
    }
}

/// The number of physical lines of `t`: one per line break, and one more for
/// a last line that has none.
pub open spec fn line_count(t: Seq<u8>) -> nat {
    newlines(t) + if t.len() > 0 && !is_newline(t.last()) {
        1nat
    } else {
        0nat
    }
}

/// No string, doc string, fence or comment opens at `i`, nor an embedded region.
pub open spec fn nothing_opens(r: RulesView, t: Seq<u8>, i: int) -> bool {
    &&& first_marker(t, i, starts(r.doc), 0) is None
    &&& first_marker(t, i, starts(r.verbatim), 0) is None
    &&& first_marker(t, i, starts(r.quotes), 0) is None
    &&& first_marker(t, i, starts(r.fences), 0) is None
    &&& first_marker(t, i, r.line, 0) is None
    &&& first_marker(t, i, starts(r.block), 0) is None
    &&& first_marker(t, i, openers(r.contexts), 0) is None
}

/// A line comment opens at `i`, and no string opens there first.
pub open spec fn line_comment_opens(r: RulesView, t: Seq<u8>, i: int) -> bool {
    &&& first_marker(t, i, starts(r.doc), 0) is None
    &&& first_marker(t, i, starts(r.verbatim), 0) is None
    &&& first_marker(t, i, starts(r.quotes), 0) is None
    &&& first_marker(t, i, starts(r.fences), 0) is None
    &&& first_marker(t, i, r.line, 0) is Some
}

/// Position `p` starts a line of `t`.
pub open spec fn line_start_at(t: Seq<u8>, p: int) -> bool {
    0 <= p < t.len() && (p == 0 || is_newline(t[p - 1]))
}

proof fn lemma_first_marker(t: Seq<u8>, i: int, ms: Seq<Seq<u8>>, k: int)
    requires
        0 <= k,
    ensures
        first_marker(t, i, ms, k) is Some ==> {
            let m = first_marker(t, i, ms, k)->0 as int;
            &&& k <= m < ms.len()
            &&& opens_at(t, i, ms[m])
        },
    decreases ms.len() - k,
{
    if k < ms.len() && !opens_at(t, i, ms[k]) {
        lemma_first_marker(t, i, ms, k + 1);
    }
}

proof fn lemma_nothing_at_ws(t: Seq<u8>, i: int, ms: Seq<Seq<u8>>, k: int)
    requires
        0 <= i < t.len(),
        is_ws(t[i]),
        0 <= k,
    ensures
        first_marker(t, i, ms, k) is None,
    decreases ms.len() - k,
{
    if k < ms.len() {
        if opens_at(t, i, ms[k]) {
            assert(t.subrange(i, i + ms[k].len())[0] == t[i]);
        }
        lemma_nothing_at_ws(t, i, ms, k + 1);
    }
}

proof fn lemma_nothing_opens_at_ws(r: RulesView, t: Seq<u8>, i: int)
    requires
        0 <= i < t.len(),
        is_ws(t[i]),
    ensures
        nothing_opens(r, t, i),
{
    lemma_nothing_at_ws(t, i, starts(r.doc), 0);
    lemma_nothing_at_ws(t, i, starts(r.verbatim), 0);
    lemma_nothing_at_ws(t, i, starts(r.quotes), 0);
    lemma_nothing_at_ws(t, i, starts(r.fences), 0);
    lemma_nothing_at_ws(t, i, r.line, 0);
    lemma_nothing_at_ws(t, i, starts(r.block), 0);
    lemma_nothing_at_ws(t, i, openers(r.contexts), 0);
}

proof fn lemma_newlines_step(t: Seq<u8>, i: int)
    requires
        0 <= i < t.len(),
    ensures
        newlines(t.subrange(0, i + 1)) == newlines(t.subrange(0, i)) + if is_newline(t[i]) {
            1nat
        } else {
            0nat
        },
{
    assert(t.subrange(0, i + 1).drop_last() =~= t.subrange(0, i));
}

/// Bytes `i..j` of `t` hold no line break.
pub open spec fn no_break(t: Seq<u8>, i: int, j: int) -> bool {
    forall|k: int| i <= k < j ==> !is_newline(#[trigger] t[k])
}

proof fn lemma_newlines_same(t: Seq<u8>, i: int, j: int)
    requires
        0 <= i <= j <= t.len(),
        no_break(t, i, j),
    ensures
        newlines(t.subrange(0, j)) == newlines(t.subrange(0, i)),
    decreases j - i,
{
    if j > i {
        lemma_newlines_same(t, i, j - 1);
        lemma_newlines_step(t, j - 1);
    }
}

proof fn lemma_delim_no_break(t: Seq<u8>, i: int, d: Seq<u8>)
    requires
        opens_at(t, i, d),
    ensures
        no_break(t, i, i + d.len()),
        i + 1 <= i + d.len() <= t.len(),
{
    assert forall|k: int| i <= k < i + d.len() implies !is_newline(#[trigger] t[k]) by {
        assert(t.subrange(i, i + d.len())[k - i] == t[k]);
    }
}

/// Every transition moves forward, and only a transition on a line break
/// crosses one.
#[verifier::spinoff_prover]
proof fn lemma_advance_progress(r: RulesView, t: Seq<u8>, i: int, s: ScanView)
    requires
        0 <= i < t.len(),
    ensures
        ({
            let (j, s2) = advance(r, t, i, s);
            &&& i < j <= t.len()
            &&& is_newline(t[i]) ==> j == i + 1
            &&& !is_newline(t[i]) ==> no_break(t, i, j)
        }),
{
    lemma_first_marker(t, i, starts(r.doc), 0);
    lemma_first_marker(t, i, starts(r.verbatim), 0);
    lemma_first_marker(t, i, starts(r.quotes), 0);
    lemma_first_marker(t, i, starts(r.fences), 0);
    lemma_first_marker(t, i, r.line, 0);
    lemma_first_marker(t, i, starts(r.block), 0);
    lemma_first_marker(t, i, openers(r.contexts), 0);
    let (j, s2) = advance(r, t, i, s);
    if !is_newline(t[i]) {
        assert forall|k: int| i <= k < j implies !is_newline(#[trigger] t[k]) by {
            match s.mode {
                Mode::Code => {
                    let doc = first_marker(t, i, starts(r.doc), 0);
                    let verbatim = first_marker(t, i, starts(r.verbatim), 0);
                    let quote = first_marker(t, i, starts(r.quotes), 0);
                    let fence = first_marker(t, i, starts(r.fences), 0);
                    let line = first_marker(t, i, r.line, 0);
                    let block = first_marker(t, i, starts(r.block), 0);
                    let context = first_marker(t, i, openers(r.contexts), 0);
                    if doc is Some {
                        lemma_delim_no_break(t, i, starts(r.doc)[doc->0 as int]);
                    } else if verbatim is Some {
                        lemma_delim_no_break(t, i, starts(r.verbatim)[verbatim->0 as int]);
                    } else if quote is Some {
                        lemma_delim_no_break(t, i, starts(r.quotes)[quote->0 as int]);
                    } else if r.literate && fence is Some {
                        lemma_delim_no_break(t, i, starts(r.fences)[fence->0 as int]);
                    } else if line is Some {
                        lemma_delim_no_break(t, i, r.line[line->0 as int]);
                    } else if block is Some {
                        lemma_delim_no_break(t, i, starts(r.block)[block->0 as int]);
                    } else if context is Some {
                        lemma_delim_no_break(t, i, openers(r.contexts)[context->0 as int]);
                    }
                },
                Mode::Block { pair, depth } => {
                    let d = r.block[pair as int];
                    if opens_at(t, i, d.1) {
                        lemma_delim_no_break(t, i, d.1);
                    } else if nests(r, pair as int) && opens_at(t, i, d.0) {
                        lemma_delim_no_break(t, i, d.0);
                    }
                },
                Mode::Quoted { kind, pair } => {
                    let d = quote_list(r, kind)[pair as int];
                    if opens_at(t, i, d.1) {
                        lemma_delim_no_break(t, i, d.1);
                    }
                },
                Mode::Opening { context } => {
                    if opens_at(t, i, r.contexts[context as int].1) {
                        lemma_delim_no_break(t, i, r.contexts[context as int].1);
                    }
                },
                Mode::Embedded { context, start } => {
                    if opens_at(t, i, r.contexts[context as int].1) {
                        lemma_delim_no_break(t, i, r.contexts[context as int].1);
                    }
                },
                _ => {},
            }
        }
    }
    match s.mode {
        Mode::Code => {
            let doc = first_marker(t, i, starts(r.doc), 0);
            let verbatim = first_marker(t, i, starts(r.verbatim), 0);
            let quote = first_marker(t, i, starts(r.quotes), 0);
            let fence = first_marker(t, i, starts(r.fences), 0);
            let line = first_marker(t, i, r.line, 0);
            let block = first_marker(t, i, starts(r.block), 0);
            let context = first_marker(t, i, openers(r.contexts), 0);
            if is_newline(t[i]) {
            } else if doc is Some {
                lemma_delim_no_break(t, i, starts(r.doc)[doc->0 as int]);
            } else if verbatim is Some {
                lemma_delim_no_break(t, i, starts(r.verbatim)[verbatim->0 as int]);
            } else if quote is Some {
                lemma_delim_no_break(t, i, starts(r.quotes)[quote->0 as int]);
            } else if r.literate && fence is Some {
                lemma_delim_no_break(t, i, starts(r.fences)[fence->0 as int]);
            } else if line is Some {
                lemma_delim_no_break(t, i, r.line[line->0 as int]);
            } else if block is Some {
                lemma_delim_no_break(t, i, starts(r.block)[block->0 as int]);
            } else if context is Some {
                lemma_delim_no_break(t, i, openers(r.contexts)[context->0 as int]);
            }
        },
        Mode::Block { pair, depth } => {
            let d = r.block[pair as int];
            if is_newline(t[i]) {
            } else if opens_at(t, i, d.1) {
                lemma_delim_no_break(t, i, d.1);
            } else if nests(r, pair as int) && opens_at(t, i, d.0) {
                lemma_delim_no_break(t, i, d.0);
            }
        },
        Mode::Quoted { kind, pair } => {
            let d = quote_list(r, kind)[pair as int];
            if is_newline(t[i]) {
            } else if escapes(kind) && t[i] == 92u8 && i + 1 < t.len() && !is_newline(t[i + 1]) {
            } else if opens_at(t, i, d.1) {
                lemma_delim_no_break(t, i, d.1);
            }
        },
        Mode::Opening { context } => {
            if !is_newline(t[i]) && opens_at(t, i, r.contexts[context as int].1) {
                lemma_delim_no_break(t, i, r.contexts[context as int].1);
            }
        },
        Mode::Embedded { context, start } => {
            if opens_at(t, i, r.contexts[context as int].1) {
                lemma_delim_no_break(t, i, r.contexts[context as int].1);
            }
        },
        _ => {},
    }
}

/// The counts of a state agree with the line breaks before position `i`, and
/// its current line starts where the last of them left off.
pub open spec fn lines_so_far(t: Seq<u8>, i: int, s: ScanView) -> bool {
    &&& s.code + s.comments + s.blanks == newlines(t.subrange(0, i))
    &&& (i == 0 || is_newline(t[i - 1])) ==> s.line_start == i
    &&& (i > 0 && !is_newline(t[i - 1])) ==> s.line_start < i
}

#[verifier::spinoff_prover]
proof fn lemma_run_lines(r: RulesView, t: Seq<u8>, i: int, s: ScanView)
    requires
        r.contexts.len() == 0,
        0 <= i <= t.len(),
        lines_so_far(t, i, s),
        !(s.mode is Opening),
        !(s.mode is Embedded),
    ensures
        lines_so_far(t, t.len() as int, run(r, t, i, s)),
        !(run(r, t, i, s).mode is Embedded),
    decreases t.len() - i,
{
    if i < t.len() {
        lemma_advance_progress(r, t, i, s);
        lemma_first_marker(t, i, openers(r.contexts), 0);
        let (j, s2) = advance(r, t, i, s);
        if is_newline(t[i]) {
            lemma_newlines_step(t, i);
        } else {
            lemma_newlines_same(t, i, j);
        }
        lemma_run_lines(r, t, j, s2);
    }
}

/// Where no region is written in another language, every physical line is
/// counted exactly once: as code, as comment or as blank.
pub proof fn lemma_every_line_counted(r: RulesView, t: Seq<u8>)
    requires
        r.contexts.len() == 0,
    ensures
        classify(r, t).code + classify(r, t).comments + classify(r, t).blanks == line_count(t),
{
    assert(t.subrange(0, 0) =~= Seq::<u8>::empty());
    lemma_run_lines(r, t, 0, initial());
    assert(t.subrange(0, t.len() as int) =~= t);
}

/// A text that ends inside a multi-line comment is reported as unfinished, and
/// none of its lines is dropped: those of the open comment are counted too.
pub proof fn lemma_unterminated_comment(r: RulesView, t: Seq<u8>)
    requires
        r.contexts.len() == 0,
        run(r, t, 0, initial()).mode is Block,
    ensures
        open_at_end(r, t),
        classify(r, t).code + classify(r, t).comments + classify(r, t).blanks == line_count(t),
{
    lemma_every_line_counted(r, t);
}

/// Every byte of `t` is whitespace.
pub open spec fn all_whitespace(t: Seq<u8>) -> bool {
    forall|k: int| 0 <= k < t.len() ==> is_ws(#[trigger] t[k])
}

proof fn lemma_blank_run(r: RulesView, t: Seq<u8>, i: int, s: ScanView)
    requires
        all_whitespace(t),
        0 <= i <= t.len(),
        lines_so_far(t, i, s),
        s.mode is Code,
        !s.code_seen && !s.comment_seen,
        s.code == 0 && s.comments == 0,
    ensures
        ({
            let v = run(r, t, i, s);
            &&& lines_so_far(t, t.len() as int, v)
            &&& v.mode is Code
            &&& !v.code_seen && !v.comment_seen
            &&& v.code == 0 && v.comments == 0
        }),
    decreases t.len() - i,
{
    if i < t.len() {
        lemma_nothing_opens_at_ws(r, t, i);
        lemma_newlines_step(t, i);
        let (j, s2) = advance(r, t, i, s);
        assert(j == i + 1);
        lemma_blank_run(r, t, j, s2);
    }
}

/// A text of whitespace alone has no code and no comment: each of its lines is blank.
pub proof fn lemma_blank_text(r: RulesView, t: Seq<u8>)
    requires
        all_whitespace(t),
    ensures
        classify(r, t).code == 0,
        classify(r, t).comments == 0,
        classify(r, t).blanks == line_count(t),
{
    assert(t.subrange(0, 0) =~= Seq::<u8>::empty());
    lemma_blank_run(r, t, 0, initial());
    assert(t.subrange(0, t.len() as int) =~= t);
}

/// Every line of `t` begins with a line comment marker.
pub open spec fn every_line_commented(r: RulesView, t: Seq<u8>) -> bool {
    forall|p: int| line_start_at(t, p) ==> #[trigger] line_comment_opens(r, t, p)
}

#[verifier::spinoff_prover]
proof fn lemma_comment_run(r: RulesView, t: Seq<u8>, i: int, s: ScanView)
    requires
        every_line_commented(r, t),
        0 <= i <= t.len(),
        lines_so_far(t, i, s),
        s.code == 0 && s.blanks == 0,
        !s.code_seen,
        (s.mode is Code && s.line_start == i && !s.comment_seen) || (s.mode is LineComment && s.comment_seen),
    ensures
        ({
            let v = run(r, t, i, s);
            &&& lines_so_far(t, t.len() as int, v)
            &&& v.code == 0 && v.blanks == 0
            &&& !v.code_seen
            &&& (v.mode is Code && v.line_start == t.len()) || (v.mode is LineComment && v.comment_seen)
        }),
    decreases t.len() - i,
{
    if i < t.len() {
        lemma_advance_progress(r, t, i, s);
        let (j, s2) = advance(r, t, i, s);
        if s.mode is Code {
            assert(line_start_at(t, i));
            assert(line_comment_opens(r, t, i));
            lemma_first_marker(t, i, r.line, 0);
            let m = r.line[first_marker(t, i, r.line, 0)->0 as int];
            assert(t.subrange(i, i + m.len())[0] == t[i]);
            assert(!is_newline(t[i]));
        }
        if is_newline(t[i]) {
            lemma_newlines_step(t, i);
        } else {
            lemma_newlines_same(t, i, j);
        }
        lemma_comment_run(r, t, j, s2);
    }
}

/// A text whose every line begins with a line comment marker counts each of
/// its lines as a comment, and none as code or blank.
pub proof fn lemma_comment_lines(r: RulesView, t: Seq<u8>)
    requires
        every_line_commented(r, t),
    ensures
        classify(r, t).comments == line_count(t),
        classify(r, t).code == 0,
        classify(r, t).blanks == 0,
{
    assert(t.subrange(0, 0) =~= Seq::<u8>::empty());
    lemma_comment_run(r, t, 0, initial());
    assert(t.subrange(0, t.len() as int) =~= t);
}

/// `t` is one line: a line break, if any, comes last.
pub open spec fn single_line(t: Seq<u8>) -> bool {
    no_break(t, 0, t.len() - 1)
}

/// The line `t` starts with whitespace and then, at `p`, a byte of code: one
/// that opens no string, comment or region, in a language that is not literate.
pub open spec fn code_at(r: RulesView, t: Seq<u8>, p: int) -> bool {
    &&& 0 <= p < t.len()
    &&& !r.literate
    &&& forall|k: int| 0 <= k < p ==> is_ws(#[trigger] t[k]) && !is_newline(t[k])
    &&& !is_ws(t[p])
    &&& nothing_opens(r, t, p)
}

proof fn lemma_leading_space(r: RulesView, t: Seq<u8>, p: int, i: int)
    requires
        code_at(r, t, p),
        0 <= i <= p,
    ensures
        run(r, t, i, initial()) == run(r, t, p, initial()),
    decreases p - i,
{
    if i < p {
        lemma_nothing_opens_at_ws(r, t, i);
        let (j, s2) = advance(r, t, i, initial());
        assert(j == i + 1 && s2 == initial());
        lemma_leading_space(r, t, p, i + 1);
    }
}

#[verifier::spinoff_prover]
proof fn lemma_code_rest(r: RulesView, t: Seq<u8>, i: int, s: ScanView)
    requires
        single_line(t),
        1 <= i <= t.len(),
        s.code_seen,
        s.code == 0 && s.comments == 0 && s.blanks == 0,
        s.line_start == 0,
        !(s.mode is Embedded),
    ensures
        finish(t, run(r, t, i, s)).code == 1,
        finish(t, run(r, t, i, s)).comments == 0,
        finish(t, run(r, t, i, s)).blanks == 0,
    decreases t.len() - i,
{
    if i < t.len() {
        lemma_advance_progress(r, t, i, s);
        let (j, s2) = advance(r, t, i, s);
        if is_newline(t[i]) {
            assert(i == t.len() - 1);
            assert(run(r, t, j, s2) == s2);
        } else {
            lemma_code_rest(r, t, j, s2);
        }
    }
}

/// A line that holds code is counted once, as code, whatever follows the code
/// on it: a trailing line comment makes it neither a comment line nor a second line.
pub proof fn lemma_code_with_trailing_comment(r: RulesView, t: Seq<u8>, p: int)
    requires
        code_at(r, t, p),
        single_line(t),
    ensures
        classify(r, t).code == 1,
        classify(r, t).comments == 0,
        classify(r, t).blanks == 0,
{
    lemma_leading_space(r, t, p, 0);
    let (j, s2) = advance(r, t, p, initial());
    assert(j == p + 1);
    lemma_code_rest(r, t, j, s2);
}

/// Scanning the same bytes twice gives the same counts: the counts of a file
/// are a function of its language, its bytes and the doc string option.
pub proof fn lemma_scan_deterministic(a: CodeStats, b: CodeStats, l: LanguageType, t: Seq<u8>, doc_as_comments: bool)
    requires
        file_stats_ok(a, l, t, doc_as_comments),
        file_stats_ok(b, l, t, doc_as_comments),
    ensures
        a.code == b.code,
        a.comments == b.comments,
        a.blanks == b.blanks,
        a.blobs@ == b.blobs@,
{
}

/// Line breaks in `t[a..b]`.
pub open spec fn newlines_in(t: Seq<u8>, a: int, b: int) -> nat {
    newlines(t.subrange(a, b))
}

proof fn lemma_newlines_in_step(t: Seq<u8>, a: int, b: int)
    requires
        0 <= a <= b < t.len(),
    ensures
        newlines_in(t, a, b + 1) == newlines_in(t, a, b) + if is_newline(t[b]) {
            1nat
        } else {
            0nat
        },
{
    assert(t.subrange(a, b + 1).drop_last() =~= t.subrange(a, b));
}

proof fn lemma_newlines_split(t: Seq<u8>, a: int, b: int, c: int)
    requires
        0 <= a <= b <= c <= t.len(),
    ensures
        newlines_in(t, a, c) == newlines_in(t, a, b) + newlines_in(t, b, c),
    decreases c - b,
{
    if c == b {
        assert(t.subrange(b, b) =~= Seq::<u8>::empty());
    } else {
        lemma_newlines_split(t, a, b, c - 1);
        lemma_newlines_in_step(t, a, c - 1);
        lemma_newlines_in_step(t, b, c - 1);
    }
}

proof fn lemma_newlines_in_same(t: Seq<u8>, a: int, i: int, j: int)
    requires
        0 <= a <= i <= j <= t.len(),
        no_break(t, i, j),
    ensures
        newlines_in(t, a, j) == newlines_in(t, a, i),
    decreases j - i,
{
    if j > i {
        lemma_newlines_in_same(t, a, i, j - 1);
        lemma_newlines_in_step(t, a, j - 1);
    }
}

/// Position `p` starts a line of `t`, or is the end of a text whose last line is finished.
pub open spec fn starts_line(t: Seq<u8>, p: int) -> bool {
    p == 0 || (0 < p <= t.len() && is_newline(t[p - 1]))
}

/// The physical lines of the regions `gs` of `t`.
pub open spec fn region_lines(t: Seq<u8>, gs: Seq<Region>) -> int
    decreases gs.len(),
{
    if gs.len() == 0 {
        0
    } else {
        region_lines(t, gs.drop_last()) + line_count(t.subrange(gs.last().start as int, gs.last().end as int))
    }
}

/// The lines counted so far, in the file and in its regions, are the lines
/// before position `i`.
pub open spec fn lines_with_regions(t: Seq<u8>, i: int, s: ScanView) -> bool {
    &&& 0 <= s.line_start <= i <= t.len()
    &&& starts_line(t, s.line_start)
    &&& no_break(t, s.line_start, i)
    &&& forall|k: int|
        0 <= k < s.regions.len() ==> (#[trigger] s.regions[k]).start <= s.regions[k].end <= i && starts_line(
            t,
            s.regions[k].end as int,
        ) && starts_line(t, s.regions[k].start as int)
    &&& match s.mode {
        Mode::Embedded { context, start } => start <= s.line_start && starts_line(t, start as int),
        _ => true,
    }
    &&& s.code + s.comments + s.blanks + region_lines(t, s.regions) + match s.mode {
        Mode::Embedded { context, start } => newlines_in(t, start as int, i) as int,
        _ => 0int,
    } == newlines_in(t, 0, i)
}

proof fn lemma_line_count_whole(t: Seq<u8>, a: int, b: int)
    requires
        0 <= a <= b <= t.len(),
        b == a || starts_line(t, b),
    ensures
        line_count(t.subrange(a, b)) == newlines_in(t, a, b),
{
    if b > a {
        assert(t.subrange(a, b).last() == t[b - 1]);
    }
}

/// The transition from `i` keeps the line accounting of `lines_with_regions`.
#[verifier::spinoff_prover]
#[verifier::rlimit(80)]
proof fn lemma_step_regions(r: RulesView, t: Seq<u8>, i: int, s: ScanView)
    requires
        t.len() <= usize::MAX,
        i < t.len(),
        lines_with_regions(t, i, s),
    ensures
        lines_with_regions(t, advance(r, t, i, s).0, advance(r, t, i, s).1),
{
    lemma_advance_progress(r, t, i, s);
    let (j, s2) = advance(r, t, i, s);
    lemma_newlines_in_step(t, 0, i);
    if !is_newline(t[i]) {
        lemma_newlines_in_same(t, 0, i, j);
    }
    assert(forall|k: int| s.line_start <= k < j && !is_newline(t[i]) ==> !is_newline(#[trigger] t[k]));
    match s.mode {
        Mode::Embedded { context, start } => {
            lemma_step_embedded(r, t, i, s);
        },
        Mode::Opening { context } => {
            if is_newline(t[i]) {
                assert(t.subrange(i + 1, i + 1) =~= Seq::<u8>::empty());
            }
        },
        _ => {},
    }
}

#[verifier::spinoff_prover]
#[verifier::rlimit(80)]
proof fn lemma_step_embedded(r: RulesView, t: Seq<u8>, i: int, s: ScanView)
    requires
        t.len() <= usize::MAX,
        i < t.len(),
        lines_with_regions(t, i, s),
        s.mode is Embedded,
    ensures
        lines_with_regions(t, advance(r, t, i, s).0, advance(r, t, i, s).1),
{
    lemma_advance_progress(r, t, i, s);
    let (j, s2) = advance(r, t, i, s);
    lemma_newlines_in_step(t, 0, i);
    if !is_newline(t[i]) {
        lemma_newlines_in_same(t, 0, i, j);
    }
    assert(forall|k: int| s.line_start <= k < j && !is_newline(t[i]) ==> !is_newline(#[trigger] t[k]));
    match s.mode {
        Mode::Embedded { context, start } => {
            let c = r.contexts[context as int];
            if opens_at(t, i, c.1) {
                lemma_newlines_split(t, start as int, s.line_start, i);
                lemma_newlines_in_same(t, s.line_start, s.line_start, i);
                assert(t.subrange(s.line_start, s.line_start) =~= Seq::<u8>::empty());
                lemma_line_count_whole(t, start as int, s.line_start);
                let g = Region { context, start, end: s.line_start as usize };
                assert(s2.regions == s.regions.push(g));
                assert(s2.regions.drop_last() =~= s.regions);
                assert forall|k: int| 0 <= k < s2.regions.len() implies (#[trigger] s2.regions[k]).start <= s2.regions[k].end <= j
                    && starts_line(t, s2.regions[k].end as int) && starts_line(t, s2.regions[k].start as int) by {
                    if k < s.regions.len() {
                        assert(s2.regions[k] == s.regions[k]);
                    }
                }
            } else if is_newline(t[i]) {
                lemma_newlines_in_step(t, start as int, i);
            } else {
                lemma_newlines_in_same(t, start as int, i, j);
            }
        },
        _ => {},
    }
}

proof fn lemma_run_regions(r: RulesView, t: Seq<u8>, i: int, s: ScanView)
    requires
        t.len() <= usize::MAX,
        lines_with_regions(t, i, s),
    ensures
        lines_with_regions(t, t.len() as int, run(r, t, i, s)),
    decreases t.len() - i,
{
    if i < t.len() {
        lemma_advance_progress(r, t, i, s);
        lemma_step_regions(r, t, i, s);
        let (j, s2) = advance(r, t, i, s);
        lemma_run_regions(r, t, j, s2);
    }
}

/// The lines of the regions `gs` as the classifier counts them, each region
/// under the rules of its own language.
pub open spec fn embedded_lines(r: RulesView, t: Seq<u8>, doc_as_comments: bool, gs: Seq<Region>) -> int
    decreases gs.len(),
{
    if gs.len() == 0 {
        0
    } else {
        let g = gs.last();
        let v = classify(embedded_rules(r.contexts[g.context as int].2, doc_as_comments), t.subrange(g.start as int, g.end as int));
        embedded_lines(r, t, doc_as_comments, gs.drop_last()) + v.code + v.comments + v.blanks
    }
}

proof fn lemma_embedded_lines(r: RulesView, t: Seq<u8>, doc_as_comments: bool, gs: Seq<Region>)
    ensures
        embedded_lines(r, t, doc_as_comments, gs) == region_lines(t, gs),
    decreases gs.len(),
{
    if gs.len() > 0 {
        let g = gs.last();
        lemma_embedded_lines(r, t, doc_as_comments, gs.drop_last());
        lemma_every_line_counted(
            embedded_rules(r.contexts[g.context as int].2, doc_as_comments),
            t.subrange(g.start as int, g.end as int),
        );
    }
}

/// Every physical line of a file is counted exactly once: in the file's own
/// counts, or in those of the embedded region that holds it.
#[verifier::spinoff_prover]
pub proof fn lemma_lines_with_blobs(l: LanguageType, t: Seq<u8>, doc_as_comments: bool)
    requires
        t.len() <= usize::MAX,
    ensures
        ({
            let r = rules_of(l, doc_as_comments);
            let v = classify(r, t);
            v.code + v.comments + v.blanks + embedded_lines(r, t, doc_as_comments, v.regions) == line_count(t)
        }),
{
    let r = rules_of(l, doc_as_comments);
    assert(t.subrange(0, 0) =~= Seq::<u8>::empty());
    lemma_run_regions(r, t, 0, initial());
    let w = run(r, t, 0, initial());
    let v = classify(r, t);
    assert(t.subrange(0, t.len() as int) =~= t);
    lemma_embedded_lines(r, t, doc_as_comments, v.regions);
    match w.mode {
        Mode::Embedded { context, start } => {
            let g = Region { context, start, end: t.len() as usize };
            assert(v.regions.drop_last() =~= w.regions);
            lemma_newlines_split(t, 0, start as int, t.len() as int);
        },
        _ => {},
    }
}

/// `t` begins with the opener of multi-line comment `k`, no string opens there
/// first, and the comment's end delimiter occurs nowhere in `t`.
pub open spec fn opens_unclosed_comment(r: RulesView, t: Seq<u8>, k: int) -> bool {
    &&& first_marker(t, 0, starts(r.doc), 0) is None
    &&& first_marker(t, 0, starts(r.verbatim), 0) is None
    &&& first_marker(t, 0, starts(r.quotes), 0) is None
    &&& first_marker(t, 0, starts(r.fences), 0) is None
    &&& first_marker(t, 0, r.line, 0) is None
    &&& first_marker(t, 0, starts(r.block), 0) == Some(k as nat)
    &&& forall|i: int| 0 <= i < t.len() ==> !opens_at(t, i, #[trigger] r.block[k].1)
}

#[verifier::spinoff_prover]
proof fn lemma_block_run(r: RulesView, t: Seq<u8>, k: int, i: int, s: ScanView)
    requires
        t.len() <= usize::MAX,
        forall|p: int| 0 <= p < t.len() ==> !opens_at(t, p, #[trigger] r.block[k].1),
        0 <= i <= t.len(),
        lines_so_far(t, i, s),
        match s.mode {
            Mode::Block { pair, depth } => pair == k && 1 <= depth <= i,
            _ => false,
        },
        !s.code_seen,
        s.code == 0,
        s.comments >= 1 || s.comment_seen,
        s.comment_seen ==> s.line_start < i,
    ensures
        ({
            let v = run(r, t, i, s);
            &&& lines_so_far(t, t.len() as int, v)
            &&& match v.mode {
                Mode::Block { pair, depth } => pair == k && depth >= 1,
                _ => false,
            }
            &&& !v.code_seen
            &&& v.code == 0
            &&& v.comments >= 1 || v.comment_seen
            &&& v.comment_seen ==> v.line_start < t.len()
        }),
    decreases t.len() - i,
{
    if i < t.len() {
        lemma_advance_progress(r, t, i, s);
        let (j, s2) = advance(r, t, i, s);
        if is_newline(t[i]) {
            lemma_newlines_step(t, i);
        } else {
            lemma_newlines_same(t, i, j);
        }
        lemma_block_run(r, t, k, j, s2);
    }
}

/// A multi-line comment that opens a text and is never closed makes the report
/// unfinished, yet no line is dropped and none becomes code: every line of the
/// text counts as comment, or as blank where it holds only whitespace.
pub proof fn lemma_unclosed_comment_lines(r: RulesView, t: Seq<u8>, k: int)
    requires
        0 <= k < r.block.len() <= usize::MAX,
        t.len() <= usize::MAX,
        opens_unclosed_comment(r, t, k),
    ensures
        open_at_end(r, t),
        classify(r, t).code == 0,
        classify(r, t).comments >= 1,
        classify(r, t).comments + classify(r, t).blanks == line_count(t),
{
    lemma_first_marker(t, 0, starts(r.block), 0);
    let d = starts(r.block)[k];
    assert(t.subrange(0, d.len() as int)[0] == t[0]);
    assert(!is_newline(t[0]));
    assert(t.subrange(0, 0) =~= Seq::<u8>::empty());
    lemma_advance_progress(r, t, 0, initial());
    let (j, s2) = advance(r, t, 0, initial());
    lemma_newlines_same(t, 0, j);
    lemma_block_run(r, t, k, j, s2);
    assert(t.subrange(0, t.len() as int) =~= t);
}

/// Every line of `t` holds a byte that is not whitespace.
pub open spec fn no_blank_line(t: Seq<u8>) -> bool {
    forall|p: int| #[trigger] starts_line(t, p) && p < t.len() ==> exists|q: int| p <= q < t.len() && no_break(t, p, q) && !is_ws(#[trigger] t[q])
}

/// Bytes `a..b` of `t` are all whitespace.
pub open spec fn all_ws_in(t: Seq<u8>, a: int, b: int) -> bool {
    forall|q: int| a <= q < b ==> is_ws(#[trigger] t[q])
}

#[verifier::spinoff_prover]
proof fn lemma_block_nonblank(r: RulesView, t: Seq<u8>, k: int, i: int, s: ScanView)
    requires
        t.len() <= usize::MAX,
        no_blank_line(t),
        forall|p: int| 0 <= p < t.len() ==> !opens_at(t, p, #[trigger] r.block[k].1),
        0 <= i <= t.len(),
        lines_so_far(t, i, s),
        match s.mode {
            Mode::Block { pair, depth } => pair == k && 1 <= depth <= i,
            _ => false,
        },
        s.blanks == 0,
        starts_line(t, s.line_start),
        no_break(t, s.line_start, i),
        s.comment_seen || all_ws_in(t, s.line_start, i),
    ensures
        ({
            let v = run(r, t, i, s);
            &&& lines_so_far(t, t.len() as int, v)
            &&& match v.mode {
                Mode::Block { pair, depth } => pair == k && depth >= 1,
                _ => false,
            }
            &&& v.blanks == 0
            &&& starts_line(t, v.line_start)
            &&& no_break(t, v.line_start, t.len() as int)
            &&& v.comment_seen || all_ws_in(t, v.line_start, t.len() as int)
        }),
    decreases t.len() - i,
{
    if i < t.len() {
        lemma_advance_progress(r, t, i, s);
        let (j, s2) = advance(r, t, i, s);
        if is_newline(t[i]) {
            lemma_newlines_step(t, i);
            if !s.comment_seen {
                assert(starts_line(t, s.line_start));
                let q = choose|q: int| s.line_start <= q < t.len() && no_break(t, s.line_start, q) && !is_ws(#[trigger] t[q]);
                if q < i {
                    assert(is_ws(t[q]));
                } else if q == i {
                    assert(is_ws(t[q]));
                } else {
                    assert(!is_newline(t[i]));
                }
            }
        } else {
            lemma_newlines_same(t, i, j);
        }
        lemma_block_nonblank(r, t, k, j, s2);
    }
}

/// A multi-line comment that opens a text and is never closed, in a text with
/// no blank line, makes every line of the text a comment line.
pub proof fn lemma_unclosed_comment_all_comments(r: RulesView, t: Seq<u8>, k: int)
    requires
        0 <= k < r.block.len() <= usize::MAX,
        t.len() <= usize::MAX,
        opens_unclosed_comment(r, t, k),
        no_blank_line(t),
    ensures
        open_at_end(r, t),
        classify(r, t).code == 0,
        classify(r, t).blanks == 0,
        classify(r, t).comments == line_count(t),
{
    lemma_unclosed_comment_lines(r, t, k);
    lemma_first_marker(t, 0, starts(r.block), 0);
    let d = starts(r.block)[k];
    assert(t.subrange(0, d.len() as int)[0] == t[0]);
    assert(t.subrange(0, 0) =~= Seq::<u8>::empty());
    lemma_advance_progress(r, t, 0, initial());
    let (j, s2) = advance(r, t, 0, initial());
    lemma_newlines_same(t, 0, j);
    lemma_block_nonblank(r, t, k, j, s2);
    let v = run(r, t, 0, initial());
    assert(t.subrange(0, t.len() as int) =~= t);
    if v.line_start < t.len() && !v.comment_seen {
        assert(starts_line(t, v.line_start));
        let q = choose|q: int| v.line_start <= q < t.len() && no_break(t, v.line_start, q) && !is_ws(#[trigger] t[q]);
        assert(is_ws(t[q]));
    }
}

} // verus!
