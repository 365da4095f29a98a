//! Case-insensitive substring matching of search text.
//!
//! Case folding is done by std's `str::to_lowercase`; the search for the
//! pattern inside the folded text is verified here. The pattern is taken
//! literally: no character of it acts as a wildcard.
use vstd::prelude::*;
use vstd::string::*;

verus! {

/// The characters of `s` after `str::to_lowercase`.
pub uninterp spec fn lower_of(s: Seq<char>) -> Seq<char>;

/// `needle` occurs in `hay` starting at position `i`.
pub open spec fn occurs_at(hay: Seq<char>, needle: Seq<char>, i: int) -> bool {
    0 <= i && i + needle.len() <= hay.len() && hay.subrange(i, i + needle.len()) == needle
}

/// `needle` occurs somewhere in `hay` (the empty pattern occurs everywhere).
pub open spec fn has_substring(hay: Seq<char>, needle: Seq<char>) -> bool {
    exists|i: int| occurs_at(hay, needle, i)
}

/// `pattern` occurs in `text` once both are case-folded.
pub open spec fn contains_folded(text: Seq<char>, pattern: Seq<char>) -> bool {
    has_substring(lower_of(text), lower_of(pattern))
}

/// Relies on `str::to_lowercase`, whose result depends on the characters of
/// its argument alone; an empty string stays empty.
#[verifier::external_body]
fn lowercase(s: &str) -> (r: String)
    ensures
        r@ == lower_of(s@),
        s@.len() == 0 ==> r@.len() == 0,
{
    s.to_lowercase()
}

/// The characters of `s`, one per element.
pub fn chars_of(s: &str) -> (r: Vec<char>)
    ensures
        r@ == s@,
{
    let n = s.unicode_len();
    let mut r: Vec<char> = Vec::new();
    let mut i: usize = 0;
    while i < n
        invariant
            n == s@.len(),
            i <= n,
            r@ == s@.subrange(0, i as int),
        decreases n - i,
    {
        r.push(s.get_char(i));
        i = i + 1;
        assert(r@ =~= s@.subrange(0, i as int));
    }
    assert(r@ =~= s@);
    r
}

/// Whether `needle` occurs in `hay`, comparing characters exactly.
pub fn find_substring(hay: &Vec<char>, needle: &Vec<char>) -> (r: bool)
    ensures
        r == has_substring(hay@, needle@),
{
    let h = hay.len();
    let n = needle.len();
    if n > h {
        assert forall|k: int| !occurs_at(hay@, needle@, k) by {}
        return false;
    }
    let last = h - n;
    let mut i: usize = 0;
    while i <= last
        invariant
            h == hay@.len(),
            n == needle@.len(),
            n <= h,
            last == h - n,
            forall|k: int| 0 <= k < i ==> !occurs_at(hay@, needle@, k),
        decreases last + 1 - i,
    {
        let mut j: usize = 0;
        while j < n && hay[i + j] == needle[j]
            invariant
                h == hay@.len(),
                n == needle@.len(),
                i <= last,
                last == h - n,
                j <= n,
                forall|m: int| 0 <= m < j ==> hay@[i + m] == needle@[m],
            decreases n - j,
        {
            j = j + 1;
        }
        if j == n {
            assert(hay@.subrange(i as int, i + n) =~= needle@);
            assert(occurs_at(hay@, needle@, i as int));
            return true;
        }
        assert(!occurs_at(hay@, needle@, i as int)) by {
            if occurs_at(hay@, needle@, i as int) {
                assert(hay@.subrange(i as int, i + n)[j as int] == hay@[i + j]);
            }
        }
        i = i + 1;
    }
    false
}

/// Whether a case-folded pattern occurs in a case-folded title or in a
/// case-folded description; an absent description matches nothing.
pub fn text_matches_folded(
    folded_pattern: &str,
    folded_title: &str,
    folded_description: &Option<String>,
) -> (r: bool)
    ensures
        r == (has_substring(folded_title@, folded_pattern@) || (folded_description is Some
            && has_substring(folded_description->0@, folded_pattern@))),
{
    let pattern = chars_of(folded_pattern);
    if find_substring(&chars_of(folded_title), &pattern) {
        return true;
    }
    match folded_description {
        Some(d) => find_substring(&chars_of(d.as_str()), &pattern),
        None => false,
    }
}

/// Case-folds a pattern once, so that it can be matched against many texts.
pub fn fold(s: &str) -> (r: String)
    ensures
        r@ == lower_of(s@),
{
    lowercase(s)
}

/// Case-folds an optional text.
pub fn fold_opt(s: &Option<String>) -> (r: Option<String>)
    ensures
        r is Some <==> s is Some,
        s is Some ==> r->0@ == lower_of(s->0@),
{
    match s {
        Some(t) => Some(lowercase(t.as_str())),
        None => None,
    }
}

} // verus!
