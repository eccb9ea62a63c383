//! The plain aggregate values that a host application reads from a run.
use vstd::prelude::*;
use crate::colors::ColorFinder;
use crate::language::LanguageType;
use crate::report::{blanks_of, code_of, comments_of, files_of, lemma_entries_prefix, sum_blanks, sum_code, sum_comments, Language, Languages};

verus! {

/// The figures of one language.
#[allow(non_snake_case)]
pub struct ModelLangStats {
    pub name: String,
    pub color: String,
    pub filesCount: usize,
    pub totalLinesCount: usize,
    pub codeLinesCount: usize,
    pub commentLinesCount: usize,
    pub blankLinesCount: usize,
}

/// A stored project with its last analysis, as opaque serialized strings.
#[allow(non_snake_case)]
pub struct ModelStatisticsDB {
    pub id: usize,
    pub name: String,
    pub root_folders: String,
    pub ignored_folders: String,
    pub last_update: usize,
    pub configs: String,
    pub analyze: String,
    pub totals: String,
}

/// The figures of a whole run.
#[allow(non_snake_case)]
pub struct ModelStatistics {
    pub totalFilesCount: usize,
    pub totalCodeLinesCount: usize,
    pub totalCommentLinesCount: usize,
    pub totalBlankLinesCount: usize,
    pub totalFileTypesCount: usize,
    pub sizeOnDisk: usize,
    pub languages: Vec<ModelLangStats>,
    pub lastUpdateTime: u128,
}

/// The figures of `language`: its name, its file count and its summed counts.
pub open spec fn lang_stats_ok(m: ModelLangStats, l: LanguageType, language: Language) -> bool {
    &&& m.name@ == l.spec_name()@
    &&& m.filesCount == language.reports@.len()
    &&& m.codeLinesCount == sum_code(language.reports@)
    &&& m.commentLinesCount == sum_comments(language.reports@)
    &&& m.blankLinesCount == sum_blanks(language.reports@)
    &&& m.totalLinesCount == m.codeLinesCount + m.commentLinesCount + m.blankLinesCount
}

/// The figures of one language of a run, with the display color the caller looked up.
pub fn language_stats(l: LanguageType, language: &Language, color: String) -> (r: ModelLangStats)
    requires
        sum_code(language.reports@) + sum_comments(language.reports@) + sum_blanks(language.reports@) <= usize::MAX,
    ensures
        lang_stats_ok(r, l, *language),
        r.color@ == color@,
{
    proof {
        crate::report::lemma_sums_nonneg(language.reports@);
    }
    let c = language.summarise();
    ModelLangStats {
        name: String::from_str(l.name()),
        color,
        filesCount: language.reports.len(),
        totalLinesCount: c.code + c.comments + c.blanks,
        codeLinesCount: c.code,
        commentLinesCount: c.comments,
        blankLinesCount: c.blanks,
    }
}

/// The figures of a run: one entry per language, in the order of the run, and
/// the totals over all of them. Each language's display color comes from
/// `colors`; the size on disk and the time are the caller's.
#[verifier::spinoff_prover]
pub fn statistics(languages: &Languages, colors: &ColorFinder, size_on_disk: usize, last_update_time: u128) -> (r: ModelStatistics)
    requires
        languages.wf(),
        code_of(languages.entries@) + comments_of(languages.entries@) + blanks_of(languages.entries@) <= usize::MAX,
        files_of(languages.entries@) <= usize::MAX,
    ensures
        r.languages@.len() == languages.entries@.len(),
        forall|k: int|
            0 <= k < r.languages@.len() ==> lang_stats_ok(
                #[trigger] r.languages@[k],
                languages.entries@[k].0,
                languages.entries@[k].1,
            ) && r.languages@[k].color@ == colors.spec_color(languages.entries@[k].0.spec_name()@),
        r.totalFilesCount == files_of(languages.entries@),
        r.totalCodeLinesCount == code_of(languages.entries@),
        r.totalCommentLinesCount == comments_of(languages.entries@),
        r.totalBlankLinesCount == blanks_of(languages.entries@),
        r.totalFileTypesCount == languages.entries@.len(),
        r.sizeOnDisk == size_on_disk,
        r.lastUpdateTime == last_update_time,
{
    let es = &languages.entries;
    let mut out: Vec<ModelLangStats> = Vec::new();
    let mut files: usize = 0;
    let mut code: usize = 0;
    let mut comments: usize = 0;
    let mut blanks: usize = 0;
    let mut k: usize = 0;
    while k < es.len()
        invariant
            k <= es@.len(),
            es@ == languages.entries@,
            code_of(es@) + comments_of(es@) + blanks_of(es@) <= usize::MAX,
            files_of(es@) <= usize::MAX,
            out@.len() == k,
            forall|j: int|
                0 <= j < k ==> lang_stats_ok(#[trigger] out@[j], es@[j].0, es@[j].1) && out@[j].color@ == colors.spec_color(es@[j].0.spec_name()@),
            files == files_of(es@.subrange(0, k as int)),
            code == code_of(es@.subrange(0, k as int)),
            comments == comments_of(es@.subrange(0, k as int)),
            blanks == blanks_of(es@.subrange(0, k as int)),
        decreases es@.len() - k,
    {
        proof {
            lemma_entries_prefix(es@, k + 1);
            assert(es@.subrange(0, k + 1).drop_last() =~= es@.subrange(0, k as int));
            crate::report::lemma_sums_nonneg(es@[k as int].1.reports@);
        }
        let (l, language) = (es[k].0, &es[k].1);
        let color = colors.get_color_by_lang_name(l.name());
        let m = language_stats(l, language, color);
        files = files + language.reports.len();
        code = code + m.codeLinesCount;
        comments = comments + m.commentLinesCount;
        blanks = blanks + m.blankLinesCount;
        out.push(m);
        k += 1;
    }
    assert(es@.subrange(0, es@.len() as int) =~= es@);
    ModelStatistics {
        totalFilesCount: files,
        totalCodeLinesCount: code,
        totalCommentLinesCount: comments,
        totalBlankLinesCount: blanks,
        totalFileTypesCount: out.len(),
        sizeOnDisk: size_on_disk,
        languages: out,
        lastUpdateTime: last_update_time,
    }
}

} // verus!
