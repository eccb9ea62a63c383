//! The classifier: a finite-state machine that walks the bytes of one file and
//! sorts every physical line into code, comment or blank, setting aside the
//! regions written in an embedded language.
use vstd::prelude::*;
use crate::syntax::{SyntaxRules, RulesView, Delims, Context, pairs_view, markers_view, contexts_view};
use crate::text::{is_ws, is_newline, opens_at, opens, is_whitespace};

verus! {

/// What kind of string literal is open.
#[derive(Clone, Copy, PartialEq, Eq, Structural, Debug)]
pub enum QuoteKind {
    Plain,
    Verbatim,
    Doc,
    Fence,
}

/// The state of the classifier between two bytes.
#[derive(Clone, Copy, PartialEq, Eq, Structural, Debug)]
pub enum Mode {
    Code,
    LineComment,
    /// Inside the multi-line comment `pair`, opened `depth` times.
    Block { pair: usize, depth: usize },
    /// Inside a string literal delimited by entry `pair` of the list for `kind`.
    Quoted { kind: QuoteKind, pair: usize },
    /// On the line where an embedded region opened.
    Opening { context: usize },
    /// Inside an embedded region whose first line starts at `start`.
    Embedded { context: usize, start: usize },
}

/// Whole lines `start..end` of the text, written in the language of `context`.
#[derive(Clone, Copy, PartialEq, Eq, Structural, Debug)]
pub struct Region {
    pub context: usize,
    pub start: usize,
    pub end: usize,
}

pub ghost struct ScanView {
    pub mode: Mode,
    pub code_seen: bool,
    pub comment_seen: bool,
    pub line_start: int,
    pub code: nat,
    pub comments: nat,
    pub blanks: nat,
    pub regions: Seq<Region>,
}

/// The classifier's state, with the counts of the lines finished so far.
pub struct Scan {
    pub mode: Mode,
    /// Whether the current line holds code so far.
    pub code_seen: bool,
    /// Whether the current line holds comment text so far.
    pub comment_seen: bool,
    pub line_start: usize,
    pub code: usize,
    pub comments: usize,
    pub blanks: usize,
    pub regions: Vec<Region>,
}

impl View for Scan {
    type V = ScanView;

    open spec fn view(&self) -> ScanView {
        ScanView {
            mode: self.mode,
            code_seen: self.code_seen,
            comment_seen: self.comment_seen,
            line_start: self.line_start as int,
            code: self.code as nat,
            comments: self.comments as nat,
            blanks: self.blanks as nat,
            regions: self.regions@,
        }
    }
}

pub open spec fn initial() -> ScanView {
    ScanView {
        mode: Mode::Code,
        code_seen: false,
        comment_seen: false,
        line_start: 0,
        code: 0,
        comments: 0,
        blanks: 0,
        regions: seq![],
    }
}

/// The first entry of `ms`, from `k` on, that occurs in `t` at `i`.
pub open spec fn first_marker(t: Seq<u8>, i: int, ms: Seq<Seq<u8>>, k: int) -> Option<nat>
    decreases ms.len() - k,
{
    if k < 0 || k >= ms.len() {
        None
    } else if opens_at(t, i, ms[k]) {
        Some(k as nat)
    } else {
        first_marker(t, i, ms, k + 1)
    }
}

/// A found index, as a natural number.
pub open spec fn found(o: Option<usize>) -> Option<nat> {
    match o {
        Some(k) => Some(k as nat),
        None => None,
    }
}

pub open spec fn starts(ps: Seq<(Seq<u8>, Seq<u8>)>) -> Seq<Seq<u8>> {
    ps.map_values(|p: (Seq<u8>, Seq<u8>)| p.0)
}

pub open spec fn openers(cs: Seq<(Seq<u8>, Seq<u8>, crate::language::LanguageType)>) -> Seq<Seq<u8>> {
    cs.map_values(|c: (Seq<u8>, Seq<u8>, crate::language::LanguageType)| c.0)
}

pub open spec fn quote_list(r: RulesView, kind: QuoteKind) -> Seq<(Seq<u8>, Seq<u8>)> {
    match kind {
        QuoteKind::Plain => r.quotes,
        QuoteKind::Verbatim => r.verbatim,
        QuoteKind::Doc => r.doc,
        QuoteKind::Fence => r.fences,
    }
}

/// Text inside a literal of this kind counts as comment.
pub open spec fn quote_is_comment(r: RulesView, kind: QuoteKind) -> bool {
    kind == QuoteKind::Doc && r.doc_as_comments
}

/// A backslash escapes the next byte inside a literal of this kind.
pub open spec fn escapes(kind: QuoteKind) -> bool {
    kind == QuoteKind::Plain || kind == QuoteKind::Doc
}

/// The multi-line comment `pair` nests.
pub open spec fn nests(r: RulesView, pair: int) -> bool {
    r.nested || pair >= r.plain_blocks
}

/// Notes that the current line holds comment text (`comment`) or code.
pub open spec fn mark(s: ScanView, comment: bool) -> ScanView {
    if comment {
        ScanView { comment_seen: true, ..s }
    } else {
        ScanView { code_seen: true, ..s }
    }
}

/// `mark`, for one byte: whitespace marks nothing.
pub open spec fn mark_byte(s: ScanView, b: u8, comment: bool) -> ScanView {
    if is_ws(b) {
        s
    } else {
        mark(s, comment)
    }
}

/// Counts the current line: code if it held any code, else comment if it held
/// comment text, else blank.
pub open spec fn count_line(s: ScanView) -> ScanView {
    if s.code_seen {
        ScanView { code: s.code + 1, code_seen: false, comment_seen: false, ..s }
    } else if s.comment_seen {
        ScanView { comments: s.comments + 1, code_seen: false, comment_seen: false, ..s }
    } else {
        ScanView { blanks: s.blanks + 1, code_seen: false, comment_seen: false, ..s }
    }
}

/// Counts the line that the line break at `i` ends.
pub open spec fn end_line(s: ScanView, i: int) -> ScanView {
    ScanView { line_start: i + 1, ..count_line(s) }
}

pub open spec fn with_mode(s: ScanView, m: Mode) -> ScanView {
    ScanView { mode: m, ..s }
}

/// One transition from position `i`, which lies inside `t`: the position of
/// the next transition and the new state.
pub open spec fn advance(r: RulesView, t: Seq<u8>, i: int, s: ScanView) -> (int, ScanView) {
    let b = t[i];
    match s.mode {
        Mode::Code => {
            let doc = first_marker(t, i, starts(r.doc), 0);
            let verbatim = first_marker(t, i, starts(r.verbatim), 0);
            let quote = first_marker(t, i, starts(r.quotes), 0);
            let fence = first_marker(t, i, starts(r.fences), 0);
            let line = first_marker(t, i, r.line, 0);
            let block = first_marker(t, i, starts(r.block), 0);
            let context = first_marker(t, i, openers(r.contexts), 0);
            if is_newline(b) {
                (i + 1, end_line(s, i))
            } else if doc is Some {
                let k = doc->0;
                (
                    i + r.doc[k as int].0.len(),
                    mark(with_mode(s, Mode::Quoted { kind: QuoteKind::Doc, pair: k as usize }), r.doc_as_comments),
                )
            } else if verbatim is Some {
                let k = verbatim->0;
                (
                    i + r.verbatim[k as int].0.len(),
                    mark(with_mode(s, Mode::Quoted { kind: QuoteKind::Verbatim, pair: k as usize }), false),
                )
            } else if quote is Some {
                let k = quote->0;
                (
                    i + r.quotes[k as int].0.len(),
                    mark(with_mode(s, Mode::Quoted { kind: QuoteKind::Plain, pair: k as usize }), false),
                )
            } else if r.literate && fence is Some {
                let k = fence->0;
                (
                    i + r.fences[k as int].0.len(),
                    mark(with_mode(s, Mode::Quoted { kind: QuoteKind::Fence, pair: k as usize }), false),
                )
            } else if line is Some {
                (i + r.line[line->0 as int].len(), mark(with_mode(s, Mode::LineComment), true))
            } else if block is Some {
                let k = block->0;
                (i + r.block[k as int].0.len(), mark(with_mode(s, Mode::Block { pair: k as usize, depth: 1 }), true))
            } else if context is Some {
                let k = context->0;
                (i + r.contexts[k as int].0.len(), mark(with_mode(s, Mode::Opening { context: k as usize }), false))
            } else {
                (i + 1, mark_byte(s, b, r.literate))
            }
        },
        Mode::LineComment => {
            if is_newline(b) {
                (i + 1, with_mode(end_line(s, i), Mode::Code))
            } else {
                (i + 1, mark_byte(s, b, true))
            }
        },
        Mode::Block { pair, depth } => {
            let d = r.block[pair as int];
            if is_newline(b) {
                (i + 1, end_line(s, i))
            } else if opens_at(t, i, d.1) {
                let m = if depth <= 1 {
                    Mode::Code
                } else {
                    Mode::Block { pair, depth: (depth - 1) as usize }
                };
                (i + d.1.len(), mark(with_mode(s, m), true))
            } else if nests(r, pair as int) && opens_at(t, i, d.0) {
                (i + d.0.len(), mark(with_mode(s, Mode::Block { pair, depth: (depth + 1) as usize }), true))
            } else {
                (i + 1, mark_byte(s, b, true))
            }
        },
        Mode::Quoted { kind, pair } => {
            let d = quote_list(r, kind)[pair as int];
            let c = quote_is_comment(r, kind);
            if is_newline(b) {
                (i + 1, end_line(s, i))
            } else if escapes(kind) && b == 92u8 && i + 1 < t.len() && !is_newline(t[i + 1]) {
                (i + 2, mark(s, c))
            } else if opens_at(t, i, d.1) {
                (i + d.1.len(), mark(with_mode(s, Mode::Code), c))
            } else {
                (i + 1, mark_byte(s, b, c))
            }
        },
        Mode::Opening { context } => {
            let c = r.contexts[context as int];
            if is_newline(b) {
                (i + 1, with_mode(end_line(s, i), Mode::Embedded { context, start: (i + 1) as usize }))
            } else if opens_at(t, i, c.1) {
                (i + c.1.len(), mark(with_mode(s, Mode::Code), false))
            } else {
                (i + 1, mark_byte(s, b, false))
            }
        },
        Mode::Embedded { context, start } => {
            let c = r.contexts[context as int];
            if opens_at(t, i, c.1) {
                let region = Region { context, start, end: s.line_start as usize };
                (i + c.1.len(), mark(ScanView { mode: Mode::Code, regions: s.regions.push(region), ..s }, false))
            } else if is_newline(b) {
                (i + 1, ScanView { line_start: i + 1, ..s })
            } else {
                (i + 1, s)
            }
        },
    }
}

/// The state after the transitions from position `i` to the end of `t`.
pub open spec fn run(r: RulesView, t: Seq<u8>, i: int, s: ScanView) -> ScanView
    decreases t.len() - i,
{
    if i < 0 || i >= t.len() {
        s
    } else {
        let (j, s2) = advance(r, t, i, s);
        if j <= i || j > t.len() {
            s
        } else {
            run(r, t, j, s2)
        }
    }
}

/// At the end of the text: counts a last line that has no line break, or closes
/// an embedded region that is still open.
pub open spec fn finish(t: Seq<u8>, s: ScanView) -> ScanView {
    match s.mode {
        Mode::Embedded { context, start } => ScanView {
            regions: s.regions.push(Region { context, start, end: t.len() as usize }),
            ..s
        },
        _ => if s.line_start < t.len() {
            count_line(s)
        } else {
            s
        },
    }
}

/// The outcome of classifying the lines of `t` under rules `r`.
pub open spec fn classify(r: RulesView, t: Seq<u8>) -> ScanView {
    finish(t, run(r, t, 0, initial()))
}

/// The text ended inside a comment, a string or an embedded region.
pub open spec fn open_at_end(r: RulesView, t: Seq<u8>) -> bool {
    let m = run(r, t, 0, initial()).mode;
    !(m is Code || m is LineComment)
}

/// The bounds that every reachable state keeps.
pub open spec fn scan_inv(r: RulesView, t: Seq<u8>, i: int, s: ScanView) -> bool {
    &&& 0 <= s.line_start <= i <= t.len()
    &&& s.code + s.comments + s.blanks <= s.line_start
    &&& forall|k: int|
        0 <= k < s.regions.len() ==> (#[trigger] s.regions[k]).context < r.contexts.len()
            && s.regions[k].start <= s.regions[k].end <= i
    &&& match s.mode {
        Mode::Block { pair, depth } => pair < r.block.len() && 1 <= depth <= i,
        Mode::Quoted { kind, pair } => pair < quote_list(r, kind).len(),
        Mode::Opening { context } => context < r.contexts.len(),
        Mode::Embedded { context, start } => context < r.contexts.len() && start <= s.line_start,
        _ => true,
    }
}

fn find_marker(t: &[u8], i: usize, ms: &Vec<Vec<u8>>) -> (r: Option<usize>)
    ensures
        found(r) == first_marker(t@, i as int, markers_view(ms@), 0),
        r is Some ==> r->0 < ms@.len() && opens_at(t@, i as int, ms@[r->0 as int]@),
{
    let mut k: usize = 0;
    while k < ms.len()
        invariant
            k <= ms@.len(),
            first_marker(t@, i as int, markers_view(ms@), 0) == first_marker(t@, i as int, markers_view(ms@), k as int),
        decreases ms@.len() - k,
    {
        if opens(t, i, ms[k].as_slice()) {
            return Some(k);
        }
        k += 1;
    }
    None
}

fn find_start(t: &[u8], i: usize, ps: &Vec<Delims>) -> (r: Option<usize>)
    ensures
        found(r) == first_marker(t@, i as int, starts(pairs_view(ps@)), 0),
        r is Some ==> r->0 < ps@.len() && opens_at(t@, i as int, ps@[r->0 as int].start@),
{
    let mut k: usize = 0;
    while k < ps.len()
        invariant
            k <= ps@.len(),
            first_marker(t@, i as int, starts(pairs_view(ps@)), 0) == first_marker(t@, i as int, starts(pairs_view(ps@)), k as int),
        decreases ps@.len() - k,
    {
        if opens(t, i, ps[k].start.as_slice()) {
            return Some(k);
        }
        k += 1;
    }
    None
}

fn find_context(t: &[u8], i: usize, cs: &Vec<Context>) -> (r: Option<usize>)
    ensures
        found(r) == first_marker(t@, i as int, openers(contexts_view(cs@)), 0),
        r is Some ==> r->0 < cs@.len() && opens_at(t@, i as int, cs@[r->0 as int].open@),
{
    let mut k: usize = 0;
    while k < cs.len()
        invariant
            k <= cs@.len(),
            first_marker(t@, i as int, openers(contexts_view(cs@)), 0) == first_marker(t@, i as int, openers(contexts_view(cs@)), k as int),
        decreases cs@.len() - k,
    {
        if opens(t, i, cs[k].open.as_slice()) {
            return Some(k);
        }
        k += 1;
    }
    None
}

fn quotes_of<'a>(rules: &'a SyntaxRules, kind: QuoteKind) -> (r: &'a Vec<Delims>)
    ensures
        pairs_view(r@) == quote_list(rules@, kind),
{
    match kind {
        QuoteKind::Plain => &rules.quotes,
        QuoteKind::Verbatim => &rules.verbatim_quotes,
        QuoteKind::Doc => &rules.doc_quotes,
        QuoteKind::Fence => &rules.fences,
    }
}

impl Scan {
    pub fn new() -> (r: Scan)
        ensures
            r@ == initial(),
    {
        Scan {
            mode: Mode::Code,
            code_seen: false,
            comment_seen: false,
            line_start: 0,
            code: 0,
            comments: 0,
            blanks: 0,
            regions: Vec::new(),
        }
    }

    fn mark(&mut self, comment: bool)
        ensures
            final(self)@ == mark(old(self)@, comment),
    {
        if comment {
            self.comment_seen = true;
        } else {
            self.code_seen = true;
        }
    }

    fn mark_byte(&mut self, b: u8, comment: bool)
        ensures
            final(self)@ == mark_byte(old(self)@, b, comment),
    {
        if !is_whitespace(b) {
            self.mark(comment);
        }
    }

    fn count_line(&mut self)
        requires
            old(self).code + old(self).comments + old(self).blanks < usize::MAX,
        ensures
            final(self)@ == count_line(old(self)@),
    {
        if self.code_seen {
            self.code = self.code + 1;
        } else if self.comment_seen {
            self.comments = self.comments + 1;
        } else {
            self.blanks = self.blanks + 1;
        }
        self.code_seen = false;
        self.comment_seen = false;
    }

    fn end_line(&mut self, i: usize)
        requires
            old(self).code + old(self).comments + old(self).blanks < usize::MAX,
            i < usize::MAX,
        ensures
            final(self)@ == end_line(old(self)@, i as int),
    {
        self.count_line();
        self.line_start = i + 1;
    }
}

proof fn lemma_opens_len(t: Seq<u8>, i: int, d: Seq<u8>)
    requires
        opens_at(t, i, d),
    ensures
        1 <= d.len(),
        i + d.len() <= t.len(),
{
}

#[verifier::spinoff_prover]
fn step_code(rules: &SyntaxRules, t: &[u8], i: usize, s: &mut Scan) -> (j: usize)
    requires
        i < t@.len(),
        scan_inv(rules@, t@, i as int, old(s)@),
        old(s).mode is Code,
    ensures
        (j as int, final(s)@) == advance(rules@, t@, i as int, old(s)@),
        i < j <= t@.len(),
        scan_inv(rules@, t@, j as int, final(s)@),
{
    let b = t[i];
    if b == 10u8 {
        s.end_line(i);
        return i + 1;
    }
    let doc = find_start(t, i, &rules.doc_quotes);
    let verbatim = find_start(t, i, &rules.verbatim_quotes);
    let quote = find_start(t, i, &rules.quotes);
    let fence = find_start(t, i, &rules.fences);
    let line = find_marker(t, i, &rules.line_comments);
    let block = find_start(t, i, &rules.block_comments);
    let context = find_context(t, i, &rules.contexts);
    if let Some(k) = doc {
        s.mode = Mode::Quoted { kind: QuoteKind::Doc, pair: k };
        s.mark(rules.doc_as_comments);
        i + rules.doc_quotes[k].start.len()
    } else if let Some(k) = verbatim {
        s.mode = Mode::Quoted { kind: QuoteKind::Verbatim, pair: k };
        s.mark(false);
        i + rules.verbatim_quotes[k].start.len()
    } else if let Some(k) = quote {
        s.mode = Mode::Quoted { kind: QuoteKind::Plain, pair: k };
        s.mark(false);
        i + rules.quotes[k].start.len()
    } else if rules.literate && fence.is_some() {
        let k = fence.unwrap();
        s.mode = Mode::Quoted { kind: QuoteKind::Fence, pair: k };
        s.mark(false);
        i + rules.fences[k].start.len()
    } else if let Some(k) = line {
        s.mode = Mode::LineComment;
        s.mark(true);
        i + rules.line_comments[k].len()
    } else if let Some(k) = block {
        s.mode = Mode::Block { pair: k, depth: 1 };
        s.mark(true);
        i + rules.block_comments[k].start.len()
    } else if let Some(k) = context {
        s.mode = Mode::Opening { context: k };
        s.mark(false);
        i + rules.contexts[k].open.len()
    } else {
        s.mark_byte(b, rules.literate);
        i + 1
    }
}

fn step_line_comment(rules: &SyntaxRules, t: &[u8], i: usize, s: &mut Scan) -> (j: usize)
    requires
        i < t@.len(),
        scan_inv(rules@, t@, i as int, old(s)@),
        old(s).mode is LineComment,
    ensures
        (j as int, final(s)@) == advance(rules@, t@, i as int, old(s)@),
        i < j <= t@.len(),
        scan_inv(rules@, t@, j as int, final(s)@),
{
    let b = t[i];
    if b == 10u8 {
        s.end_line(i);
        s.mode = Mode::Code;
    } else {
        s.mark_byte(b, true);
    }
    i + 1
}

#[verifier::spinoff_prover]
fn step_block(rules: &SyntaxRules, t: &[u8], i: usize, s: &mut Scan) -> (j: usize)
    requires
        i < t@.len(),
        scan_inv(rules@, t@, i as int, old(s)@),
        old(s).mode is Block,
    ensures
        (j as int, final(s)@) == advance(rules@, t@, i as int, old(s)@),
        i < j <= t@.len(),
        scan_inv(rules@, t@, j as int, final(s)@),
{
    let b = t[i];
    match s.mode {
        Mode::Block { pair, depth } => {
            let d = &rules.block_comments[pair];
            if b == 10u8 {
                s.end_line(i);
                i + 1
            } else if opens(t, i, d.end.as_slice()) {
                s.mode = if depth <= 1 {
                    Mode::Code
                } else {
                    Mode::Block { pair, depth: depth - 1 }
                };
                s.mark(true);
                i + d.end.len()
            } else if (rules.nested || pair >= rules.plain_blocks) && opens(t, i, d.start.as_slice()) {
                s.mode = Mode::Block { pair, depth: depth + 1 };
                s.mark(true);
                i + d.start.len()
            } else {
                s.mark_byte(b, true);
                i + 1
            }
        },
        _ => i + 1,
    }
}

#[verifier::spinoff_prover]
fn step_quoted(rules: &SyntaxRules, t: &[u8], i: usize, s: &mut Scan) -> (j: usize)
    requires
        i < t@.len(),
        scan_inv(rules@, t@, i as int, old(s)@),
        old(s).mode is Quoted,
    ensures
        (j as int, final(s)@) == advance(rules@, t@, i as int, old(s)@),
        i < j <= t@.len(),
        scan_inv(rules@, t@, j as int, final(s)@),
{
    let b = t[i];
    match s.mode {
        Mode::Quoted { kind, pair } => {
            let list = quotes_of(rules, kind);
            let d = &list[pair];
            let c = match kind {
                QuoteKind::Doc => rules.doc_as_comments,
                _ => false,
            };
            let esc = match kind {
                QuoteKind::Plain | QuoteKind::Doc => true,
                _ => false,
            };
            if b == 10u8 {
                s.end_line(i);
                i + 1
            } else if esc && b == 92u8 && i + 1 < t.len() && t[i + 1] != 10u8 {
                s.mark(c);
                i + 2
            } else if opens(t, i, d.end.as_slice()) {
                s.mode = Mode::Code;
                s.mark(c);
                i + d.end.len()
            } else {
                s.mark_byte(b, c);
                i + 1
            }
        },
        _ => i + 1,
    }
}

#[verifier::spinoff_prover]
fn step_opening(rules: &SyntaxRules, t: &[u8], i: usize, s: &mut Scan) -> (j: usize)
    requires
        i < t@.len(),
        scan_inv(rules@, t@, i as int, old(s)@),
        old(s).mode is Opening,
    ensures
        (j as int, final(s)@) == advance(rules@, t@, i as int, old(s)@),
        i < j <= t@.len(),
        scan_inv(rules@, t@, j as int, final(s)@),
{
    let b = t[i];
    match s.mode {
        Mode::Opening { context } => {
            let c = &rules.contexts[context];
            if b == 10u8 {
                s.end_line(i);
                s.mode = Mode::Embedded { context, start: i + 1 };
                i + 1
            } else if opens(t, i, c.close.as_slice()) {
                s.mode = Mode::Code;
                s.mark(false);
                i + c.close.len()
            } else {
                s.mark_byte(b, false);
                i + 1
            }
        },
        _ => i + 1,
    }
}

#[verifier::spinoff_prover]
fn step_embedded(rules: &SyntaxRules, t: &[u8], i: usize, s: &mut Scan) -> (j: usize)
    requires
        i < t@.len(),
        scan_inv(rules@, t@, i as int, old(s)@),
        old(s).mode is Embedded,
    ensures
        (j as int, final(s)@) == advance(rules@, t@, i as int, old(s)@),
        i < j <= t@.len(),
        scan_inv(rules@, t@, j as int, final(s)@),
{
    let b = t[i];
    match s.mode {
        Mode::Embedded { context, start } => {
            let c = &rules.contexts[context];
            if opens(t, i, c.close.as_slice()) {
                let region = Region { context, start, end: s.line_start };
                s.regions.push(region);
                s.mode = Mode::Code;
                s.mark(false);
                i + c.close.len()
            } else if b == 10u8 {
                s.line_start = i + 1;
                i + 1
            } else {
                i + 1
            }
        },
        _ => i + 1,
    }
}

/// One transition of the classifier, from position `i`.
fn step(rules: &SyntaxRules, t: &[u8], i: usize, s: &mut Scan) -> (j: usize)
    requires
        i < t@.len(),
        scan_inv(rules@, t@, i as int, old(s)@),
    ensures
        (j as int, final(s)@) == advance(rules@, t@, i as int, old(s)@),
        i < j <= t@.len(),
        scan_inv(rules@, t@, j as int, final(s)@),
{
    match s.mode {
        Mode::Code => step_code(rules, t, i, s),
        Mode::LineComment => step_line_comment(rules, t, i, s),
        Mode::Block { .. } => step_block(rules, t, i, s),
        Mode::Quoted { .. } => step_quoted(rules, t, i, s),
        Mode::Opening { .. } => step_opening(rules, t, i, s),
        Mode::Embedded { .. } => step_embedded(rules, t, i, s),
    }
}

/// Classifies the lines of `t` under `rules`, without descending into the
/// embedded regions, which it returns as they are.
pub fn scan_lines(rules: &SyntaxRules, t: &[u8]) -> (r: Scan)
    ensures
        r@ == classify(rules@, t@),
        forall|k: int|
            0 <= k < r.regions@.len() ==> (#[trigger] r.regions@[k]).context < rules.contexts@.len()
                && r.regions@[k].start <= r.regions@[k].end <= t@.len(),
{
    let mut s = Scan::new();
    let mut i: usize = 0;
    while i < t.len()
        invariant
            i <= t@.len(),
            scan_inv(rules@, t@, i as int, s@),
            run(rules@, t@, 0, initial()) == run(rules@, t@, i as int, s@),
        decreases t@.len() - i,
    {
        i = step(rules, t, i, &mut s);
    }
    match s.mode {
        Mode::Embedded { context, start } => {
            s.regions.push(Region { context, start, end: t.len() });
        },
        _ => {
            if s.line_start < t.len() {
                s.count_line();
            }
        },
    }
    s
}

} // verus!
