//! Small text utilities: character-exact string comparison and extraction of
//! the URL fragment from a raw hash string.

use vstd::prelude::*;

verus! {

/// Character-by-character string equality.
pub fn str_eq(a: &str, b: &str) -> (r: bool)
    ensures
        r == (a@ == b@),
{
    let na = a.unicode_len();
    let nb = b.unicode_len();
    if na != nb {
        return false;
    }
    let mut i: usize = 0;
    while i < na
        invariant
            i <= na,
            na == a@.len(),
            na == b@.len(),
            forall|j: int| 0 <= j < i ==> a@[j] == b@[j],
        decreases na - i,
    {
        if a.get_char(i) != b.get_char(i) {
            return false;
        }
        i = i + 1;
    }
    proof {
        assert(a@ =~= b@);
    }
    true
}

/// The fragment a raw hash string denotes: the text behind a leading `#`,
/// or the text itself when no delimiter leads it.
pub open spec fn fragment_of(s: Seq<char>) -> Seq<char> {
    if s.len() >= 1 && s[0] == '#' {
        s.subrange(1, s.len() as int)
    } else {
        s
    }
}

/// Strips the leading fragment delimiter from a raw hash string; an empty or
/// delimiter-free string comes back unchanged.
pub fn strip_fragment(raw: &str) -> (r: String)
    ensures
        r@ == fragment_of(raw@),
{
    let n = raw.unicode_len();
    if n >= 1 {
        let c = raw.get_char(0);
        if c == '#' {
            let rest = raw.substring_char(1, n);
            return rest.to_owned();
        }
    }
    raw.to_owned()
}

} // verus!
