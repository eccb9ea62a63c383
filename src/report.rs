//! Rolling per-file reports up per language and over a whole run.
use vstd::prelude::*;
use crate::language::LanguageType;
use crate::stats::{find_entry, CodeStats, LineCounts};

verus! {

/// The result for one file.
pub struct Report {
    pub name: String,
    pub stats: CodeStats,
    /// The file ended inside a comment, a string or an embedded region.
    pub inaccurate: bool,
}

impl Report {
    /// An empty report for the file `name`.
    pub fn new(name: String) -> (r: Report)
        ensures
            r.name@ == name@,
            r.stats.code == 0 && r.stats.comments == 0 && r.stats.blanks == 0,
            r.stats.blobs@.len() == 0,
            !r.inaccurate,
    {
        Report { name, stats: CodeStats::new(), inaccurate: false }
    }

    /// A copy with the same name, counts and accuracy.
    pub fn copy(&self) -> (r: Report)
        ensures
            same_report(r, *self),
    {
        Report { name: self.name.clone(), stats: self.stats.copy(), inaccurate: self.inaccurate }
    }
}

pub open spec fn same_report(a: Report, b: Report) -> bool {
    &&& a.name@ == b.name@
    &&& a.stats.code == b.stats.code
    &&& a.stats.comments == b.stats.comments
    &&& a.stats.blanks == b.stats.blanks
    &&& a.stats.blobs@ == b.stats.blobs@
    &&& a.inaccurate == b.inaccurate
}

pub open spec fn sum_code(rs: Seq<Report>) -> int
    decreases rs.len(),
{
    if rs.len() == 0 {
        0
    } else {
        sum_code(rs.drop_last()) + rs.last().stats.code
    }
}

pub open spec fn sum_comments(rs: Seq<Report>) -> int
    decreases rs.len(),
{
    if rs.len() == 0 {
        0
    } else {
        sum_comments(rs.drop_last()) + rs.last().stats.comments
    }
}

pub open spec fn sum_blanks(rs: Seq<Report>) -> int
    decreases rs.len(),
{
    if rs.len() == 0 {
        0
    } else {
        sum_blanks(rs.drop_last()) + rs.last().stats.blanks
    }
}

/// Some report of `rs` is inaccurate.
pub open spec fn any_inaccurate(rs: Seq<Report>) -> bool {
    exists|k: int| 0 <= k < rs.len() && (#[trigger] rs[k]).inaccurate
}

/// All the blobs of the reports `rs`, report by report.
pub open spec fn all_blobs(rs: Seq<Report>) -> Seq<(LanguageType, LineCounts)>
    decreases rs.len(),
{
    if rs.len() == 0 {
        seq![]
    } else {
        all_blobs(rs.drop_last()) + rs.last().stats.blobs@
    }
}

/// The reports of one language.
pub struct Language {
    pub reports: Vec<Report>,
    /// The blobs of the reports, in the order they were added.
    pub children: Vec<(LanguageType, LineCounts)>,
    /// Some report is inaccurate.
    pub inaccurate: bool,
}

/// Whether the fields of a `Language` agree with its reports.
pub open spec fn language_wf(l: Language) -> bool {
    &&& l.children@ == all_blobs(l.reports@)
    &&& l.inaccurate == any_inaccurate(l.reports@)
}

impl Language {
    pub fn new() -> (r: Language)
        ensures
            r.reports@.len() == 0,
            language_wf(r),
    {
        Language { reports: Vec::new(), children: Vec::new(), inaccurate: false }
    }

    pub open spec fn wf(&self) -> bool {
        language_wf(*self)
    }

    /// Appends a report, adding its blobs to the children.
    pub fn add_report(&mut self, report: Report)
        requires
            old(self).wf(),
        ensures
            final(self).wf(),
            final(self).reports@ == old(self).reports@.push(report),
            final(self).children@ == old(self).children@ + report.stats.blobs@,
            final(self).inaccurate == (old(self).inaccurate || report.inaccurate),
    {
        let ghost before = self.reports@;
        let mut k: usize = 0;
        while k < report.stats.blobs.len()
            invariant
                k <= report.stats.blobs@.len(),
                self.children@ == old(self).children@ + report.stats.blobs@.subrange(0, k as int),
                self.reports@ == before,
                self.inaccurate == old(self).inaccurate,
            decreases report.stats.blobs@.len() - k,
        {
            self.children.push(report.stats.blobs[k]);
            k += 1;
            assert(self.children@ =~= old(self).children@ + report.stats.blobs@.subrange(0, k as int));
        }
        assert(report.stats.blobs@.subrange(0, report.stats.blobs@.len() as int) =~= report.stats.blobs@);
        self.inaccurate = self.inaccurate || report.inaccurate;
        self.reports.push(report);
        proof {
            assert(self.reports@.drop_last() =~= before);
            if self.inaccurate {
                if report.inaccurate {
                    assert(self.reports@[before.len() as int].inaccurate);
                } else {
                    let k = choose|k: int| 0 <= k < before.len() && (#[trigger] before[k]).inaccurate;
                    assert(self.reports@[k].inaccurate);
                }
            } else {
                assert forall|k: int| 0 <= k < self.reports@.len() implies !(#[trigger] self.reports@[k]).inaccurate by {
                    if k < before.len() {
                        assert(self.reports@[k] == before[k]);
                    }
                }
            }
        }
    }

    /// No file was added.
    pub fn is_empty(&self) -> (r: bool)
        ensures
            r == (self.reports@.len() == 0),
    {
        self.reports.len() == 0
    }

    /// The counts of all reports added up, field by field; the blobs stay out,
    /// being counted under their own languages.
    pub fn summarise(&self) -> (r: LineCounts)
        requires
            sum_code(self.reports@) <= usize::MAX,
            sum_comments(self.reports@) <= usize::MAX,
            sum_blanks(self.reports@) <= usize::MAX,
        ensures
            r.code == sum_code(self.reports@),
            r.comments == sum_comments(self.reports@),
            r.blanks == sum_blanks(self.reports@),
    {
        let mut r = LineCounts::zero();
        let mut k: usize = 0;
        while k < self.reports.len()
            invariant
                k <= self.reports@.len(),
                sum_code(self.reports@) <= usize::MAX,
                sum_comments(self.reports@) <= usize::MAX,
                sum_blanks(self.reports@) <= usize::MAX,
                r.code == sum_code(self.reports@.subrange(0, k as int)),
                r.comments == sum_comments(self.reports@.subrange(0, k as int)),
                r.blanks == sum_blanks(self.reports@.subrange(0, k as int)),
            decreases self.reports@.len() - k,
        {
            proof {
                let rs = self.reports@;
                assert(rs.subrange(0, k + 1).drop_last() =~= rs.subrange(0, k as int));
                lemma_sums_prefix(rs, k + 1);
            }
            r.code = r.code + self.reports[k].stats.code;
            r.comments = r.comments + self.reports[k].stats.comments;
            r.blanks = r.blanks + self.reports[k].stats.blanks;
            k += 1;
        }
        assert(self.reports@.subrange(0, self.reports@.len() as int) =~= self.reports@);
        r
    }
}

/// Sums over the languages never go negative, and those over a prefix of them
/// never exceed those over all.
pub proof fn lemma_entries_prefix(es: Seq<(LanguageType, Language)>, n: int)
    requires
        0 <= n <= es.len(),
    ensures
        0 <= code_of(es.subrange(0, n)) <= code_of(es),
        0 <= comments_of(es.subrange(0, n)) <= comments_of(es),
        0 <= blanks_of(es.subrange(0, n)) <= blanks_of(es),
        0 <= files_of(es.subrange(0, n)) <= files_of(es),
    decreases es.len(),
{
    if n < es.len() {
        lemma_entries_prefix(es.drop_last(), n);
        assert(es.drop_last().subrange(0, n) =~= es.subrange(0, n));
        lemma_sums_nonneg(es.last().1.reports@);
    } else {
        assert(es.subrange(0, n) =~= es);
        if n > 0 {
            lemma_entries_prefix(es.drop_last(), n - 1);
            assert(es.drop_last().subrange(0, n - 1) =~= es.drop_last());
            lemma_sums_nonneg(es.last().1.reports@);
        }
    }
}

/// Sums of counts are never negative.
pub proof fn lemma_sums_nonneg(rs: Seq<Report>)
    ensures
        sum_code(rs) >= 0,
        sum_comments(rs) >= 0,
        sum_blanks(rs) >= 0,
    decreases rs.len(),
{
    if rs.len() > 0 {
        lemma_sums_nonneg(rs.drop_last());
    }
}

/// Sums over a prefix never exceed those over the whole.
proof fn lemma_sums_prefix(rs: Seq<Report>, n: int)
    requires
        0 <= n <= rs.len(),
    ensures
        sum_code(rs.subrange(0, n)) <= sum_code(rs),
        sum_comments(rs.subrange(0, n)) <= sum_comments(rs),
        sum_blanks(rs.subrange(0, n)) <= sum_blanks(rs),
    decreases rs.len(),
{
    if n < rs.len() {
        lemma_sums_prefix(rs.drop_last(), n);
        assert(rs.drop_last().subrange(0, n) =~= rs.subrange(0, n));
    } else {
        assert(rs.subrange(0, n) =~= rs);
    }
}

/// Files counted over the languages `es`.
pub open spec fn files_of(es: Seq<(LanguageType, Language)>) -> int
    decreases es.len(),
{
    if es.len() == 0 {
        0
    } else {
        files_of(es.drop_last()) + es.last().1.reports@.len()
    }
}

pub open spec fn code_of(es: Seq<(LanguageType, Language)>) -> int
    decreases es.len(),
{
    if es.len() == 0 {
        0
    } else {
        code_of(es.drop_last()) + sum_code(es.last().1.reports@)
    }
}

pub open spec fn comments_of(es: Seq<(LanguageType, Language)>) -> int
    decreases es.len(),
{
    if es.len() == 0 {
        0
    } else {
        comments_of(es.drop_last()) + sum_comments(es.last().1.reports@)
    }
}

pub open spec fn blanks_of(es: Seq<(LanguageType, Language)>) -> int
    decreases es.len(),
{
    if es.len() == 0 {
        0
    } else {
        blanks_of(es.drop_last()) + sum_blanks(es.last().1.reports@)
    }
}

/// Some language of `es` has an inaccurate report.
pub open spec fn entries_inaccurate(es: Seq<(LanguageType, Language)>) -> bool {
    exists|k: int| 0 <= k < es.len() && (#[trigger] es[k]).1.inaccurate
}

/// The results of a run, one entry per language observed, in the order the
/// languages were first seen.
pub struct Languages {
    pub entries: Vec<(LanguageType, Language)>,
}

impl Languages {
    /// Each language observed has one entry, which holds at least one report
    /// and is well formed.
    pub open spec fn wf(&self) -> bool {
        &&& forall|i: int| 0 <= i < self.entries@.len() ==> (#[trigger] self.entries@[i]).1.reports@.len() > 0
        &&& forall|i: int, j: int|
            0 <= i < j < self.entries@.len() ==> (#[trigger] self.entries@[i]).0 != (#[trigger] self.entries@[j]).0
        &&& forall|i: int| 0 <= i < self.entries@.len() ==> (#[trigger] self.entries@[i]).1.wf()
    }

    pub fn new() -> (r: Languages)
        ensures
            r.wf(),
            r.entries@.len() == 0,
    {
        Languages { entries: Vec::new() }
    }

    /// Adds the report of a file of language `l`, creating the entry for `l` if
    /// it is the first.
    #[verifier::spinoff_prover]
    pub fn add_report(&mut self, l: LanguageType, report: Report)
        requires
            old(self).wf(),
        ensures
            final(self).wf(),
            ({
                let k = crate::stats::entry_index(old(self).entries@, l, 0);
                if k < old(self).entries@.len() {
                    &&& final(self).entries@.len() == old(self).entries@.len()
                    &&& forall|j: int| 0 <= j < old(self).entries@.len() && j != k ==> final(self).entries@[j] == old(self).entries@[j]
                    &&& final(self).entries@[k].0 == l
                    &&& final(self).entries@[k].1.reports@ == old(self).entries@[k].1.reports@.push(report)
                } else {
                    &&& final(self).entries@.len() == old(self).entries@.len() + 1
                    &&& final(self).entries@.drop_last() == old(self).entries@
                    &&& final(self).entries@.last().0 == l
                    &&& final(self).entries@.last().1.reports@ == seq![report]
                }
            }),
    {
        let k = find_entry(&self.entries, l);
        if k < self.entries.len() {
            let (key, mut language) = self.entries.remove(k);
            assert(language.wf());
            language.add_report(report);
            self.entries.insert(k, (key, language));
            assert forall|i: int, j: int|
                0 <= i < j < self.entries@.len() implies (#[trigger] self.entries@[i]).0 != (#[trigger] self.entries@[j]).0 by {
                assert(self.entries@[i].0 == old(self).entries@[i].0);
                assert(self.entries@[j].0 == old(self).entries@[j].0);
            }
            assert forall|i: int| 0 <= i < self.entries@.len() implies (#[trigger] self.entries@[i]).1.wf() && self.entries@[i].1.reports@.len() > 0 by {
                if i != k {
                    assert(self.entries@[i] == old(self).entries@[i]);
                }
            }
        } else {
            let mut language = Language::new();
            language.add_report(report);
            assert(language.reports@ =~= seq![report]);
            self.entries.push((l, language));
            assert(self.entries@.drop_last() =~= old(self).entries@);
            assert forall|i: int| 0 <= i < self.entries@.len() implies (#[trigger] self.entries@[i]).1.wf() && self.entries@[i].1.reports@.len() > 0 by {
                if i < old(self).entries@.len() {
                    assert(self.entries@[i] == old(self).entries@[i]);
                }
            }
        }
    }

    /// One language holding a copy of every report of the run: its file count
    /// and its summed counts are those of all languages together.
    #[verifier::spinoff_prover]
    pub fn total(&self) -> (r: Language)
        requires
            self.wf(),
        ensures
            r.wf(),
            r.reports@.len() == files_of(self.entries@),
            sum_code(r.reports@) == code_of(self.entries@),
            sum_comments(r.reports@) == comments_of(self.entries@),
            sum_blanks(r.reports@) == blanks_of(self.entries@),
            r.inaccurate == entries_inaccurate(self.entries@),
    {
        let mut total = Language::new();
        let mut k: usize = 0;
        while k < self.entries.len()
            invariant
                k <= self.entries@.len(),
                total.wf(),
                total.reports@.len() == files_of(self.entries@.subrange(0, k as int)),
                sum_code(total.reports@) == code_of(self.entries@.subrange(0, k as int)),
                sum_comments(total.reports@) == comments_of(self.entries@.subrange(0, k as int)),
                sum_blanks(total.reports@) == blanks_of(self.entries@.subrange(0, k as int)),
                self.wf(),
                total.inaccurate == entries_inaccurate(self.entries@.subrange(0, k as int)),
            decreases self.entries@.len() - k,
        {
            let rs = &self.entries[k].1.reports;
            let ghost base = total.reports@;
            let mut j: usize = 0;
            while j < rs.len()
                invariant
                    j <= rs@.len(),
                    total.wf(),
                    total.reports@.len() == base.len() + j,
                    sum_code(total.reports@) == sum_code(base) + sum_code(rs@.subrange(0, j as int)),
                    sum_comments(total.reports@) == sum_comments(base) + sum_comments(rs@.subrange(0, j as int)),
                    sum_blanks(total.reports@) == sum_blanks(base) + sum_blanks(rs@.subrange(0, j as int)),
                    total.inaccurate == (entries_inaccurate(self.entries@.subrange(0, k as int)) || any_inaccurate(rs@.subrange(0, j as int))),
                decreases rs@.len() - j,
            {
                let c = rs[j].copy();
                let ghost prev = total.reports@;
                total.add_report(c);
                proof {
                    assert(total.reports@.drop_last() =~= prev);
                    assert(rs@.subrange(0, j + 1).drop_last() =~= rs@.subrange(0, j as int));
                    let sub = rs@.subrange(0, j + 1);
                    if any_inaccurate(sub) {
                        let w = choose|w: int| 0 <= w < sub.len() && (#[trigger] sub[w]).inaccurate;
                        if w < j {
                            assert(rs@.subrange(0, j as int)[w] == sub[w]);
                        }
                    }
                    if rs@[j as int].inaccurate {
                        assert(sub[j as int] == rs@[j as int]);
                    }
                    if any_inaccurate(rs@.subrange(0, j as int)) {
                        let w = choose|w: int| 0 <= w < j && (#[trigger] rs@.subrange(0, j as int)[w]).inaccurate;
                        assert(sub[w] == rs@.subrange(0, j as int)[w]);
                    }
                }
                j += 1;
            }
            proof {
                assert(rs@.subrange(0, rs@.len() as int) =~= rs@);
                assert(self.entries@.subrange(0, k + 1).drop_last() =~= self.entries@.subrange(0, k as int));
                let es = self.entries@;
                let pre = es.subrange(0, k as int);
                let next = es.subrange(0, k + 1);
                assert(es[k as int].1.wf());
                assert(next[k as int] == es[k as int]);
                if entries_inaccurate(next) {
                    let w = choose|w: int| 0 <= w < next.len() && (#[trigger] next[w]).1.inaccurate;
                    if w < k {
                        assert(pre[w] == next[w]);
                    }
                }
                if entries_inaccurate(pre) {
                    let w = choose|w: int| 0 <= w < pre.len() && (#[trigger] pre[w]).1.inaccurate;
                    assert(next[w] == pre[w]);
                }
            }
            k += 1;
        }
        assert(self.entries@.subrange(0, self.entries@.len() as int) =~= self.entries@);
        total
    }
}

} // verus!
