//! The lexical rules of one language, in the byte form the classifier reads.
use vstd::prelude::*;
use crate::language::LanguageType;
use crate::text::bytes_of;

verus! {

/// A start and an end delimiter.
pub struct Delims {
    pub start: Vec<u8>,
    pub end: Vec<u8>,
}

/// A region written in another language, between an opening and a closing marker.
pub struct Context {
    pub open: Vec<u8>,
    pub close: Vec<u8>,
    pub language: LanguageType,
}

/// Everything the classifier needs to know about a language.
pub struct SyntaxRules {
    pub line_comments: Vec<Vec<u8>>,
    /// Multi-line comment pairs: the plain ones first, then those that always nest.
    pub block_comments: Vec<Delims>,
    /// How many leading entries of `block_comments` are plain.
    pub plain_blocks: usize,
    /// Whether the plain multi-line comments nest too.
    pub nested: bool,
    pub quotes: Vec<Delims>,
    pub verbatim_quotes: Vec<Delims>,
    pub doc_quotes: Vec<Delims>,
    /// Fenced code blocks of a literate language.
    pub fences: Vec<Delims>,
    pub doc_as_comments: bool,
    pub literate: bool,
    pub contexts: Vec<Context>,
}

pub ghost struct RulesView {
    pub line: Seq<Seq<u8>>,
    pub block: Seq<(Seq<u8>, Seq<u8>)>,
    pub plain_blocks: nat,
    pub nested: bool,
    pub quotes: Seq<(Seq<u8>, Seq<u8>)>,
    pub verbatim: Seq<(Seq<u8>, Seq<u8>)>,
    pub doc: Seq<(Seq<u8>, Seq<u8>)>,
    pub fences: Seq<(Seq<u8>, Seq<u8>)>,
    pub doc_as_comments: bool,
    pub literate: bool,
    pub contexts: Seq<(Seq<u8>, Seq<u8>, LanguageType)>,
}

pub open spec fn pairs_view(ps: Seq<Delims>) -> Seq<(Seq<u8>, Seq<u8>)> {
    ps.map_values(|d: Delims| (d.start@, d.end@))
}

pub open spec fn markers_view(ms: Seq<Vec<u8>>) -> Seq<Seq<u8>> {
    ms.map_values(|m: Vec<u8>| m@)
}

pub open spec fn contexts_view(cs: Seq<Context>) -> Seq<(Seq<u8>, Seq<u8>, LanguageType)> {
    cs.map_values(|c: Context| (c.open@, c.close@, c.language))
}

impl View for SyntaxRules {
    type V = RulesView;

    open spec fn view(&self) -> RulesView {
        RulesView {
            line: markers_view(self.line_comments@),
            block: pairs_view(self.block_comments@),
            plain_blocks: self.plain_blocks as nat,
            nested: self.nested,
            quotes: pairs_view(self.quotes@),
            verbatim: pairs_view(self.verbatim_quotes@),
            doc: pairs_view(self.doc_quotes@),
            fences: pairs_view(self.fences@),
            doc_as_comments: self.doc_as_comments,
            literate: self.literate,
            contexts: contexts_view(self.contexts@),
        }
    }
}

pub open spec fn str_pairs_bytes(ps: Seq<(&'static str, &'static str)>) -> Seq<(Seq<u8>, Seq<u8>)> {
    ps.map_values(|p: (&'static str, &'static str)| (bytes_of(p.0), bytes_of(p.1)))
}

pub open spec fn strs_bytes(ss: Seq<&'static str>) -> Seq<Seq<u8>> {
    ss.map_values(|s: &'static str| bytes_of(s))
}

/// The rules of a language from the registry.
pub open spec fn rules_of(l: LanguageType, doc_as_comments: bool) -> RulesView {
    RulesView {
        line: strs_bytes(l.spec_line_comments()),
        block: str_pairs_bytes(l.spec_multi_line_comments() + l.spec_nested_comments()),
        plain_blocks: l.spec_multi_line_comments().len(),
        nested: l.spec_allows_nested(),
        quotes: str_pairs_bytes(l.spec_quotes()),
        verbatim: str_pairs_bytes(l.spec_verbatim_quotes()),
        doc: str_pairs_bytes(l.spec_doc_quotes()),
        fences: str_pairs_bytes(l.spec_fences()),
        doc_as_comments,
        literate: l.spec_is_literate(),
        contexts: l.spec_contexts().map_values(
            |c: (&'static str, &'static str, LanguageType)| (bytes_of(c.0), bytes_of(c.1), c.2),
        ),
    }
}

fn to_bytes(s: &str) -> (r: Vec<u8>)
    ensures
        r@ == bytes_of(s),
{
    vstd::slice::slice_to_vec(s.as_bytes())
}

fn to_markers(ss: &Vec<&'static str>) -> (r: Vec<Vec<u8>>)
    ensures
        markers_view(r@) == strs_bytes(ss@),
{
    let mut r: Vec<Vec<u8>> = Vec::new();
    let mut k: usize = 0;
    while k < ss.len()
        invariant
            k <= ss@.len(),
            markers_view(r@) =~= strs_bytes(ss@.subrange(0, k as int)),
        decreases ss@.len() - k,
    {
        let b = to_bytes(ss[k]);
        let ghost before = r@;
        r.push(b);
        assert(markers_view(r@) =~= markers_view(before).push(b@));
        assert(ss@.subrange(0, k + 1) =~= ss@.subrange(0, k as int).push(ss@[k as int]));
        k += 1;
        assert(markers_view(r@) =~= strs_bytes(ss@.subrange(0, k as int)));
    }
    assert(ss@.subrange(0, ss@.len() as int) =~= ss@);
    r
}

fn to_pairs(ps: &Vec<(&'static str, &'static str)>) -> (r: Vec<Delims>)
    ensures
        pairs_view(r@) == str_pairs_bytes(ps@),
{
    let mut r: Vec<Delims> = Vec::new();
    let mut k: usize = 0;
    while k < ps.len()
        invariant
            k <= ps@.len(),
            pairs_view(r@) =~= str_pairs_bytes(ps@.subrange(0, k as int)),
        decreases ps@.len() - k,
    {
        let d = Delims { start: to_bytes(ps[k].0), end: to_bytes(ps[k].1) };
        let ghost before = r@;
        r.push(d);
        assert(pairs_view(r@) =~= pairs_view(before).push((d.start@, d.end@)));
        assert(ps@.subrange(0, k + 1) =~= ps@.subrange(0, k as int).push(ps@[k as int]));
        k += 1;
        assert(pairs_view(r@) =~= str_pairs_bytes(ps@.subrange(0, k as int)));
    }
    assert(ps@.subrange(0, ps@.len() as int) =~= ps@);
    r
}

impl SyntaxRules {
    /// The rules of `language`; `doc_as_comments` makes doc strings count as comments.
    pub fn new(language: LanguageType, doc_as_comments: bool) -> (r: SyntaxRules)
        ensures
            r@ == rules_of(language, doc_as_comments),
    {
        let plain = language.multi_line_comments();
        let blocks = language.any_multi_line_comments();
        let cs = language.contexts();
        let mut contexts: Vec<Context> = Vec::new();
        let mut k: usize = 0;
        while k < cs.len()
            invariant
                k <= cs@.len(),
                contexts_view(contexts@) =~= cs@.subrange(0, k as int).map_values(
                    |c: (&'static str, &'static str, LanguageType)| (bytes_of(c.0), bytes_of(c.1), c.2),
                ),
            decreases cs@.len() - k,
        {
            let (o, c, l) = cs[k];
            let x = Context { open: to_bytes(o), close: to_bytes(c), language: l };
            let ghost before = contexts@;
            contexts.push(x);
            assert(contexts_view(contexts@) =~= contexts_view(before).push((x.open@, x.close@, x.language)));
            assert(cs@.subrange(0, k + 1) =~= cs@.subrange(0, k as int).push(cs@[k as int]));
            k += 1;
            assert(contexts_view(contexts@) =~= cs@.subrange(0, k as int).map_values(
                |c: (&'static str, &'static str, LanguageType)| (bytes_of(c.0), bytes_of(c.1), c.2),
            ));
        }
        assert(cs@.subrange(0, cs@.len() as int) =~= cs@);
        let r = SyntaxRules {
            line_comments: to_markers(&language.line_comments()),
            block_comments: to_pairs(&blocks),
            plain_blocks: plain.len(),
            nested: language.allows_nested(),
            quotes: to_pairs(&language.quotes()),
            verbatim_quotes: to_pairs(&language.verbatim_quotes()),
            doc_quotes: to_pairs(&language.doc_quotes()),
            fences: to_pairs(&language.fences()),
            doc_as_comments,
            literate: language.is_literate(),
            contexts,
        };
        assert(r@.contexts =~= rules_of(language, doc_as_comments).contexts);
        r
    }
}

} // verus!
