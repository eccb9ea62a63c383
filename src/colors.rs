//! Display colors of languages, read from a `name: color` table.
use vstd::prelude::*;
use vstd::string::StrSliceExecFns;

verus! {

/// What `str::to_lowercase` gives for a string.
pub uninterp spec fn lower_of(s: Seq<char>) -> Seq<char>;

/// A character with the Unicode White_Space property.
pub open spec fn is_white_space(c: char) -> bool {
    let u = c as u32;
    (9 <= u && u <= 13) || u == 32 || u == 0x85 || u == 0xA0 || u == 0x1680 || (0x2000 <= u && u <= 0x200A)
        || u == 0x2028 || u == 0x2029 || u == 0x202F || u == 0x205F || u == 0x3000
}

/// Position of the first character at or after `i` that is not white space.
pub open spec fn trim_start_at(s: Seq<char>, i: int) -> int
    decreases s.len() - i,
{
    if i < 0 || i >= s.len() {
        s.len() as int
    } else if is_white_space(s[i]) {
        trim_start_at(s, i + 1)
    } else {
        i
    }
}

/// Position just after the last character before `j` that is not white space.
pub open spec fn trim_end_at(s: Seq<char>, j: int) -> int
    decreases j,
{
    if j <= 0 || j > s.len() {
        0
    } else if is_white_space(s[j - 1]) {
        trim_end_at(s, j - 1)
    } else {
        j
    }
}

/// `s` without its leading and trailing white space.
pub open spec fn trimmed_of(s: Seq<char>) -> Seq<char> {
    let a = trim_start_at(s, 0);
    let b = trim_end_at(s, s.len() as int);
    if a < b {
        s.subrange(a, b)
    } else {
        seq![]
    }
}

/// Relies on `str::to_lowercase`: the result depends on the characters alone.
#[verifier::external_body]
pub(crate) fn lowercase(s: &str) -> (r: String)
    ensures
        r@ == lower_of(s@),
{
    s.to_lowercase()
}

/// Relies on `str::trim`: the string without leading and trailing characters
/// that have the Unicode White_Space property.
#[verifier::external_body]
fn trim(s: &str) -> (r: &str)
    ensures
        r@ == trimmed_of(s@),
{
    s.trim()
}

/// The color given to a language that the table does not name.
pub const FALLBACK_COLOR: &'static str = "#EDEDED";

/// Position of the first `c` in `s` at or after `i`, or the length of `s`.
pub open spec fn next_char(s: Seq<char>, c: char, i: int) -> int
    decreases s.len() - i,
{
    if i < 0 || i >= s.len() {
        s.len() as int
    } else if s[i] == c {
        i
    } else {
        next_char(s, c, i + 1)
    }
}

proof fn lemma_next_char(s: Seq<char>, c: char, i: int)
    requires
        0 <= i <= s.len(),
    ensures
        i <= next_char(s, c, i) <= s.len(),
    decreases s.len() - i,
{
    if i < s.len() && s[i] != c {
        lemma_next_char(s, c, i + 1);
    }
}

/// The entries of the lines of `s` from position `i` on: for each line with a
/// `:`, the lower-cased, trimmed name before it and the trimmed color after it.
pub open spec fn color_entries(s: Seq<char>, i: int) -> Seq<(Seq<char>, Seq<char>)>
    decreases s.len() - i,
{
    if i < 0 || i >= s.len() {
        seq![]
    } else {
        let e = next_char(s, '\n', i);
        let line = s.subrange(i, e);
        let c = next_char(line, ':', 0);
        let here = if c < line.len() {
            seq![(lower_of(trimmed_of(line.subrange(0, c))), trimmed_of(line.subrange(c + 1, line.len() as int)))]
        } else {
            seq![]
        };
        if e < i {
            seq![]
        } else if e >= s.len() {
            here
        } else {
            here + color_entries(s, e + 1)
        }
    }
}

/// The color of the last of the first `n` entries named `key`, if any.
pub open spec fn color_for(es: Seq<(Seq<char>, Seq<char>)>, key: Seq<char>, n: int) -> Option<Seq<char>>
    decreases n,
{
    if n <= 0 || n > es.len() {
        None
    } else if es[n - 1].0 == key {
        Some(es[n - 1].1)
    } else {
        color_for(es, key, n - 1)
    }
}

/// Looks up the display color of a language by its name.
pub struct ColorFinder {
    color_map: Vec<(String, String)>,
}

pub open spec fn entries_view(m: Seq<(String, String)>) -> Seq<(Seq<char>, Seq<char>)> {
    m.map_values(|e: (String, String)| (e.0@, e.1@))
}

fn find_char(s: &str, c: char, from: usize, n: usize) -> (r: usize)
    requires
        n == s@.len(),
        from <= n,
    ensures
        r == next_char(s@, c, from as int),
        from <= r <= n,
{
    let mut i = from;
    while i < n && s.get_char(i) != c
        invariant
            n == s@.len(),
            from <= i <= n,
            next_char(s@, c, from as int) == next_char(s@, c, i as int),
        decreases n - i,
    {
        i += 1;
    }
    i
}

impl ColorFinder {
    pub closed spec fn entries(&self) -> Seq<(Seq<char>, Seq<char>)> {
        entries_view(self.color_map@)
    }

    /// The color for the language `name`.
    pub open spec fn spec_color(&self, name: Seq<char>) -> Seq<char> {
        match color_for(self.entries(), trimmed_of(lower_of(name)), self.entries().len() as int) {
            Some(c) => c,
            None => FALLBACK_COLOR@,
        }
    }

    /// Reads a table of `name: color` lines; lines without a `:` are skipped.
    /// Names are matched without regard to case.
    pub fn init(raw: &str) -> (r: ColorFinder)
        ensures
            r.entries() == color_entries(raw@, 0),
    {
        let n = raw.unicode_len();
        let mut map: Vec<(String, String)> = Vec::new();
        let mut i: usize = 0;
        while i < n
            invariant
                n == raw@.len(),
                i <= n,
                color_entries(raw@, 0) == entries_view(map@) + color_entries(raw@, i as int),
            decreases n - i,
        {
            let e = find_char(raw, '\n', i, n);
            proof {
                lemma_next_char(raw@, '\n', i as int);
            }
            let line = raw.substring_char(i, e);
            let ln = line.unicode_len();
            let c = find_char(line, ':', 0, ln);
            let ghost before = map@;
            let ghost here: Seq<(Seq<char>, Seq<char>)> = if c < ln {
                seq![(lower_of(trimmed_of(line@.subrange(0, c as int))), trimmed_of(line@.subrange(c + 1, ln as int)))]
            } else {
                seq![]
            };
            if c < ln {
                let name = lowercase(trim(line.substring_char(0, c)));
                let color = String::from_str(trim(line.substring_char(c + 1, ln)));
                map.push((name, color));
                assert(entries_view(map@) =~= entries_view(before) + here);
            } else {
                assert(entries_view(map@) =~= entries_view(before) + here);
            }
            let ghost next: int = if e < n { e + 1 } else { n as int };
            assert(color_entries(raw@, i as int) == here + color_entries(raw@, next));
            assert(color_entries(raw@, 0) == entries_view(map@) + color_entries(raw@, next)) by {
                assert(entries_view(before) + (here + color_entries(raw@, next)) =~= (entries_view(before) + here)
                    + color_entries(raw@, next));
            }
            i = if e < n {
                e + 1
            } else {
                n
            };
        }
        assert(entries_view(map@) + color_entries(raw@, i as int) =~= entries_view(map@));
        ColorFinder { color_map: map }
    }

    /// The color of the language `name`, compared after lower-casing and
    /// trimming it; the fallback color when the table does not name it.
    pub fn get_color_by_lang_name(&self, name: &str) -> (r: String)
        ensures
            r@ == self.spec_color(name@),
    {
        let lower = lowercase(name);
        let key = trim(lower.as_str());
        assert(key@ == trimmed_of(lower_of(name@)));
        let mut k = self.color_map.len();
        while k > 0
            invariant
                k <= self.color_map@.len(),
                key@ == trimmed_of(lower_of(name@)),
                color_for(self.entries(), key@, self.entries().len() as int) == color_for(self.entries(), key@, k as int),
            decreases k,
        {
            assert(self.entries()[k - 1] == (self.color_map@[k - 1].0@, self.color_map@[k - 1].1@));
            if str_equal(self.color_map[k - 1].0.as_str(), key) {
                let r = self.color_map[k - 1].1.clone();
                assert(color_for(self.entries(), key@, k as int) == Some(r@));
                return r;
            }
            k -= 1;
        }
        String::from_str(FALLBACK_COLOR)
    }
}

fn str_equal(a: &str, b: &str) -> (r: bool)
    ensures
        r == (a@ == b@),
{
    let n = a.unicode_len();
    if n != b.unicode_len() {
        return false;
    }
    let mut i: usize = 0;
    while i < n
        invariant
            n == a@.len() && n == b@.len(),
            i <= n,
            forall|j: int| 0 <= j < i ==> a@[j] == b@[j],
        decreases n - i,
    {
        if a.get_char(i) != b.get_char(i) {
            return false;
        }
        i += 1;
    }
    assert(a@ =~= b@);
    true
}

} // verus!
