//! From a candidate file to its place in the results: resolve its language,
//! classify its lines, and add its report.
use vstd::prelude::*;
use crate::classify::open_at_end;
use crate::language::{find_language_in, language_of_path, last_dot, name_start, shebang_language, LanguageType, Matcher};
use crate::report::{Languages, Report};
use crate::stats::{entry_index, file_stats_ok};
use crate::syntax::rules_of;
use crate::text::{bytes_of, is_newline};

verus! {

/// Position of the first line break at or after `i`, or the end of `t`.
pub open spec fn line_end(t: Seq<u8>, i: int) -> int
    decreases t.len() - i,
{
    if i < 0 || i >= t.len() {
        t.len() as int
    } else if is_newline(t[i]) {
        i
    } else {
        line_end(t, i + 1)
    }
}

/// The bytes of `t` before its first line break.
pub open spec fn first_line(t: Seq<u8>) -> Seq<u8> {
    t.subrange(0, line_end(t, 0))
}

fn first_line_end(t: &[u8]) -> (r: usize)
    ensures
        r == line_end(t@, 0),
        r <= t@.len(),
{
    let mut i: usize = 0;
    while i < t.len() && t[i] != 10u8
        invariant
            i <= t@.len(),
            line_end(t@, 0) == line_end(t@, i as int),
        decreases t@.len() - i,
    {
        i += 1;
    }
    if i < t.len() {
        i
    } else {
        t.len()
    }
}

/// The language of the file at `path` whose bytes are `text`: by its whole
/// name, else by its extension, else by the interpreter on its first line.
pub fn resolve(path: &str, text: &[u8]) -> (r: Option<LanguageType>)
    ensures
        r == language_of_path(bytes_of(path), first_line(text@)),
{
    let p = path.as_bytes();
    let start = name_start(p);
    let by_name = find_language_in(Matcher::Filename, p, start, p.len());
    if by_name.is_some() {
        return by_name;
    }
    let dot = last_dot(p, start);
    if dot > start {
        let by_ext = find_language_in(Matcher::Extension, p, dot + 1, p.len());
        if by_ext.is_some() {
            return by_ext;
        }
    }
    let end = first_line_end(text);
    shebang_language(vstd::slice::slice_subrange(text, 0, end))
}

/// The report for the file `path` of language `l` whose bytes are `text`.
pub open spec fn report_ok(rep: Report, path: &str, l: LanguageType, text: Seq<u8>, doc_as_comments: bool) -> bool {
    &&& rep.name@ == path@
    &&& file_stats_ok(rep.stats, l, text, doc_as_comments)
    &&& rep.inaccurate == open_at_end(rules_of(l, doc_as_comments), text)
}

impl Report {
    /// Classifies the file `path` of language `l` whose bytes are `text`.
    pub fn scan(path: &str, l: LanguageType, text: &[u8], treat_doc_strings_as_comments: bool) -> (r: Report)
        ensures
            report_ok(r, path, l, text@, treat_doc_strings_as_comments),
    {
        let (stats, inaccurate) = l.parse_from_slice(text, treat_doc_strings_as_comments);
        Report { name: String::from_str(path), stats, inaccurate }
    }
}

impl Languages {
    /// Resolves, classifies and adds the file `path` whose bytes are `text`. A
    /// file of no known language is left out and changes nothing. Returns the
    /// language the file was counted under.
    pub fn add_file(&mut self, path: &str, text: &[u8], treat_doc_strings_as_comments: bool) -> (r: Option<LanguageType>)
        requires
            old(self).wf(),
        ensures
            final(self).wf(),
            r == language_of_path(bytes_of(path), first_line(text@)),
            r is None ==> final(self).entries@ == old(self).entries@,
            r is Some ==> ({
                let l = r->0;
                let k = entry_index(old(self).entries@, l, 0);
                if k < old(self).entries@.len() {
                    &&& final(self).entries@.len() == old(self).entries@.len()
                    &&& forall|j: int| 0 <= j < old(self).entries@.len() && j != k ==> final(self).entries@[j] == old(self).entries@[j]
                    &&& final(self).entries@[k].0 == l
                    &&& final(self).entries@[k].1.reports@.drop_last() == old(self).entries@[k].1.reports@
                    &&& final(self).entries@[k].1.reports@.len() == old(self).entries@[k].1.reports@.len() + 1
                    &&& report_ok(final(self).entries@[k].1.reports@.last(), path, l, text@, treat_doc_strings_as_comments)
                } else {
                    &&& final(self).entries@.len() == old(self).entries@.len() + 1
                    &&& final(self).entries@.drop_last() == old(self).entries@
                    &&& final(self).entries@.last().0 == l
                    &&& final(self).entries@.last().1.reports@.len() == 1
                    &&& report_ok(final(self).entries@.last().1.reports@[0], path, l, text@, treat_doc_strings_as_comments)
                }
            }),
    {
        let found = resolve(path, text);
        match found {
            Some(l) => {
                let rep = Report::scan(path, l, text, treat_doc_strings_as_comments);
                self.add_report(l, rep);
                Some(l)
            },
            None => None,
        }
    }
}

} // verus!
