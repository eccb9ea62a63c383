//! Per-file results and their roll-up per language: `CodeStats` for one scanned
//! unit, `Report` for one file, `Language` for all files of one language, and
//! `Languages` for a whole run.
use vstd::prelude::*;
use crate::classify::{classify, open_at_end, scan_lines, Region, ScanView};
use crate::language::LanguageType;
use crate::syntax::{rules_of, RulesView, SyntaxRules};

verus! {

/// Code, comment and blank line counts.
#[derive(Clone, Copy, PartialEq, Eq, Structural, Debug)]
pub struct LineCounts {
    pub code: usize,
    pub comments: usize,
    pub blanks: usize,
}

impl LineCounts {
    pub open spec fn spec_lines(self) -> int {
        self.code + self.comments + self.blanks
    }

    pub fn zero() -> (r: LineCounts)
        ensures
            r.code == 0 && r.comments == 0 && r.blanks == 0,
    {
        LineCounts { code: 0, comments: 0, blanks: 0 }
    }

    /// All lines counted.
    pub fn lines(&self) -> (r: usize)
        requires
            self.spec_lines() <= usize::MAX,
        ensures
            r == self.spec_lines(),
    {
        self.code + self.comments + self.blanks
    }
}

/// Adds two counts field by field, stopping at `usize::MAX`.
pub open spec fn add_counts(a: LineCounts, b: LineCounts) -> LineCounts {
    LineCounts {
        code: a.code.saturating_add(b.code),
        comments: a.comments.saturating_add(b.comments),
        blanks: a.blanks.saturating_add(b.blanks),
    }
}

fn plus_counts(a: LineCounts, b: LineCounts) -> (r: LineCounts)
    ensures
        r == add_counts(a, b),
{
    LineCounts {
        code: a.code.saturating_add(b.code),
        comments: a.comments.saturating_add(b.comments),
        blanks: a.blanks.saturating_add(b.blanks),
    }
}

/// The counts of one scanned unit: its own lines, and per embedded language the
/// lines of the regions written in it, which its own counts leave out.
pub struct CodeStats {
    pub code: usize,
    pub comments: usize,
    pub blanks: usize,
    pub blobs: Vec<(LanguageType, LineCounts)>,
}

impl CodeStats {
    pub fn new() -> (r: CodeStats)
        ensures
            r.code == 0 && r.comments == 0 && r.blanks == 0 && r.blobs@.len() == 0,
    {
        CodeStats { code: 0, comments: 0, blanks: 0, blobs: Vec::new() }
    }

    pub open spec fn spec_lines(&self) -> int {
        self.code + self.comments + self.blanks
    }

    /// The unit's own lines, without those of its embedded regions.
    pub fn lines(&self) -> (r: usize)
        requires
            self.spec_lines() <= usize::MAX,
        ensures
            r == self.spec_lines(),
    {
        self.code + self.comments + self.blanks
    }

    /// The unit's own counts.
    pub fn own(&self) -> (r: LineCounts)
        ensures
            r.code == self.code && r.comments == self.comments && r.blanks == self.blanks,
    {
        LineCounts { code: self.code, comments: self.comments, blanks: self.blanks }
    }

    /// The unit's own counts with those of every embedded region added.
    pub fn summarise(&self) -> (r: LineCounts)
        ensures
            r == add_all(LineCounts { code: self.code, comments: self.comments, blanks: self.blanks }, self.blobs@),
    {
        let mut r = self.own();
        let mut k: usize = 0;
        while k < self.blobs.len()
            invariant
                k <= self.blobs@.len(),
                add_all(LineCounts { code: self.code, comments: self.comments, blanks: self.blanks }, self.blobs@.subrange(0, k as int)) == r,
            decreases self.blobs@.len() - k,
        {
            proof {
                assert(self.blobs@.subrange(0, k + 1).drop_last() =~= self.blobs@.subrange(0, k as int));
            }
            r = plus_counts(r, self.blobs[k].1);
            k += 1;
        }
        assert(self.blobs@.subrange(0, self.blobs@.len() as int) =~= self.blobs@);
        r
    }

    /// A copy with the same counts.
    pub fn copy(&self) -> (r: CodeStats)
        ensures
            r.code == self.code && r.comments == self.comments && r.blanks == self.blanks,
            r.blobs@ == self.blobs@,
    {
        let mut blobs: Vec<(LanguageType, LineCounts)> = Vec::new();
        let mut k: usize = 0;
        while k < self.blobs.len()
            invariant
                k <= self.blobs@.len(),
                blobs@ =~= self.blobs@.subrange(0, k as int),
            decreases self.blobs@.len() - k,
        {
            blobs.push(self.blobs[k]);
            k += 1;
        }
        assert(blobs@ =~= self.blobs@);
        CodeStats { code: self.code, comments: self.comments, blanks: self.blanks, blobs }
    }
}

/// `base` with every entry of `bs` added.
pub open spec fn add_all(base: LineCounts, bs: Seq<(LanguageType, LineCounts)>) -> LineCounts
    decreases bs.len(),
{
    if bs.len() == 0 {
        base
    } else {
        add_counts(add_all(base, bs.drop_last()), bs.last().1)
    }
}

/// The rules for a region embedded in another file: those of its language,
/// without regions of their own.
pub open spec fn embedded_rules(l: LanguageType, doc_as_comments: bool) -> RulesView {
    RulesView { contexts: seq![], ..rules_of(l, doc_as_comments) }
}

pub open spec fn counts_of(v: ScanView) -> LineCounts {
    LineCounts { code: v.code as usize, comments: v.comments as usize, blanks: v.blanks as usize }
}

/// The language of a region and the counts of its lines.
pub open spec fn region_counts(r: RulesView, t: Seq<u8>, doc_as_comments: bool, g: Region) -> (LanguageType, LineCounts) {
    let l = r.contexts[g.context as int].2;
    (l, counts_of(classify(embedded_rules(l, doc_as_comments), t.subrange(g.start as int, g.end as int))))
}

/// Position of the entry for `l` in `bs`, from `k` on; `bs.len()` if there is none.
pub open spec fn entry_index<V>(bs: Seq<(LanguageType, V)>, l: LanguageType, k: int) -> int
    decreases bs.len() - k,
{
    if k < 0 || k >= bs.len() {
        bs.len() as int
    } else if bs[k].0 == l {
        k
    } else {
        entry_index(bs, l, k + 1)
    }
}

/// Adds `e` to the entry of its language, or appends it as a new entry.
pub open spec fn merge_blob(bs: Seq<(LanguageType, LineCounts)>, e: (LanguageType, LineCounts)) -> Seq<(LanguageType, LineCounts)> {
    let k = entry_index(bs, e.0, 0);
    if k < bs.len() {
        bs.update(k, (e.0, add_counts(bs[k].1, e.1)))
    } else {
        bs.push(e)
    }
}

/// The per-language counts of the regions `gs`, merged in order.
pub open spec fn blobs_of(r: RulesView, t: Seq<u8>, doc_as_comments: bool, gs: Seq<Region>) -> Seq<(LanguageType, LineCounts)>
    decreases gs.len(),
{
    if gs.len() == 0 {
        seq![]
    } else {
        merge_blob(blobs_of(r, t, doc_as_comments, gs.drop_last()), region_counts(r, t, doc_as_comments, gs.last()))
    }
}

/// The counts of a file of language `l` whose bytes are `t`.
pub open spec fn file_stats_ok(s: CodeStats, l: LanguageType, t: Seq<u8>, doc_as_comments: bool) -> bool {
    let r = rules_of(l, doc_as_comments);
    let v = classify(r, t);
    &&& s.code == v.code
    &&& s.comments == v.comments
    &&& s.blanks == v.blanks
    &&& s.blobs@ == blobs_of(r, t, doc_as_comments, v.regions)
}

pub(crate) fn find_entry<V>(bs: &Vec<(LanguageType, V)>, l: LanguageType) -> (r: usize)
    ensures
        r == entry_index(bs@, l, 0),
        r <= bs@.len(),
        r < bs@.len() ==> bs@[r as int].0 == l,
        r == bs@.len() ==> forall|j: int| 0 <= j < bs@.len() ==> (#[trigger] bs@[j]).0 != l,
{
    let mut k: usize = 0;
    while k < bs.len()
        invariant
            k <= bs@.len(),
            entry_index(bs@, l, 0) == entry_index(bs@, l, k as int),
            forall|j: int| 0 <= j < k ==> (#[trigger] bs@[j]).0 != l,
        decreases bs@.len() - k,
    {
        if bs[k].0 == l {
            return k;
        }
        k += 1;
    }
    k
}

fn merge_into(bs: &mut Vec<(LanguageType, LineCounts)>, e: (LanguageType, LineCounts))
    ensures
        final(bs)@ == merge_blob(old(bs)@, e),
{
    let k = find_entry(bs, e.0);
    if k < bs.len() {
        let merged = (e.0, plus_counts(bs[k].1, e.1));
        bs.set(k, merged);
    } else {
        bs.push(e);
    }
}

/// Classifies a region under the rules of its language, without regions of their own.
fn scan_region(l: LanguageType, t: &[u8], doc_as_comments: bool) -> (r: LineCounts)
    ensures
        r == counts_of(classify(embedded_rules(l, doc_as_comments), t@)),
{
    let mut rules = SyntaxRules::new(l, doc_as_comments);
    rules.contexts = Vec::new();
    assert(rules@.contexts =~= embedded_rules(l, doc_as_comments).contexts);
    assert(rules@ =~= embedded_rules(l, doc_as_comments));
    let s = scan_lines(&rules, t);
    LineCounts { code: s.code, comments: s.comments, blanks: s.blanks }
}

impl LanguageType {
    /// Classifies the lines of a file of this language. The second result tells
    /// whether the file ended inside a comment, a string or an embedded region,
    /// which makes the counts a best effort.
    pub fn parse_from_slice(self, text: &[u8], treat_doc_strings_as_comments: bool) -> (r: (CodeStats, bool))
        ensures
            file_stats_ok(r.0, self, text@, treat_doc_strings_as_comments),
            r.1 == open_at_end(rules_of(self, treat_doc_strings_as_comments), text@),
    {
        let rules = SyntaxRules::new(self, treat_doc_strings_as_comments);
        let s = scan_lines(&rules, text);
        let ghost gs = s.regions@;
        let ghost rv = rules@;
        let mut blobs: Vec<(LanguageType, LineCounts)> = Vec::new();
        let mut k: usize = 0;
        while k < s.regions.len()
            invariant
                k <= gs.len(),
                gs == s.regions@,
                rv == rules@,
                forall|j: int|
                    0 <= j < gs.len() ==> (#[trigger] gs[j]).context < rules.contexts@.len()
                        && gs[j].start <= gs[j].end <= text@.len(),
                blobs@ == blobs_of(rv, text@, treat_doc_strings_as_comments, gs.subrange(0, k as int)),
            decreases gs.len() - k,
        {
            let g = s.regions[k];
            let l = rules.contexts[g.context].language;
            let part = vstd::slice::slice_subrange(text, g.start, g.end);
            let c = scan_region(l, part, treat_doc_strings_as_comments);
            proof {
                assert(gs.subrange(0, k + 1).drop_last() =~= gs.subrange(0, k as int));
                assert(part@ =~= text@.subrange(g.start as int, g.end as int));
            }
            merge_into(&mut blobs, (l, c));
            k += 1;
        }
        assert(gs.subrange(0, gs.len() as int) =~= gs);
        let m = s.mode;
        let inaccurate = match m {
            crate::classify::Mode::Code => false,
            crate::classify::Mode::LineComment => false,
            _ => true,
        };
        (CodeStats { code: s.code, comments: s.comments, blanks: s.blanks, blobs }, inaccurate)
    }
}

} // verus!
