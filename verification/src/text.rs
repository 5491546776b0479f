//! Verified helpers over strings: equality, substring search, and
//! case-insensitive substring search on ASCII letters.

use vstd::prelude::*;

verus! {

/// True when `needle` occurs contiguously inside `hay`.
pub open spec fn has_substr(hay: Seq<char>, needle: Seq<char>) -> bool {
    exists|k: int|
        0 <= k && k + needle.len() <= hay.len() && #[trigger] hay.subrange(k, k + needle.len())
            == needle
}

/// The character code of `c`, with ASCII capitals folded to lower case.
pub open spec fn lower_code(c: char) -> u32 {
    if 'A' <= c && c <= 'Z' {
        (c as u32 + 32) as u32
    } else {
        c as u32
    }
}

/// `needle` matches inside `hay` at offset `k`, folding ASCII case.
pub open spec fn ci_match_at(hay: Seq<char>, needle: Seq<char>, k: int) -> bool {
    0 <= k && k + needle.len() <= hay.len() && (forall|j: int|
        0 <= j < needle.len() ==> lower_code(hay[k + j]) == lower_code(#[trigger] needle[j]))
}

/// True when `needle` occurs inside `hay` comparing ASCII letters without
/// regard to case.
pub open spec fn has_substr_ci(hay: Seq<char>, needle: Seq<char>) -> bool {
    exists|k: int| #[trigger] ci_match_at(hay, needle, k)
}

/// Character-wise string equality.
pub fn str_eq(a: &str, b: &str) -> (r: bool)
    ensures
        r == (a@ == b@),
{
    let na = a.unicode_len();
    let nb = b.unicode_len();
    if na != nb {
        return false;
    }
    let mut i: usize = 0;
    while i < na
        invariant
            na == a@.len(),
            na == b@.len(),
            0 <= i <= na,
            forall|j: int| 0 <= j < i ==> a@[j] == b@[j],
        decreases na - i,
    {
        if a.get_char(i) != b.get_char(i) {
            return false;
        }
        i = i + 1;
    }
    proof {
        assert(a@ =~= b@);
    }
    true
}

/// Exact substring search.
pub fn str_contains(hay: &str, needle: &str) -> (r: bool)
    ensures
        r == has_substr(hay@, needle@),
{
    let nh = hay.unicode_len();
    let nn = needle.unicode_len();
    if nn > nh {
        return false;
    }
    if nn == 0 {
        proof {
            assert(hay@.subrange(0, 0 + needle@.len() as int) =~= needle@);
        }
        return true;
    }
    let mut k: usize = 0;
    while k <= nh - nn
        invariant
            nh == hay@.len(),
            nn == needle@.len(),
            0 < nn <= nh,
            0 <= k <= nh - nn + 1,
            forall|k2: int| 0 <= k2 < k ==> #[trigger] hay@.subrange(k2, k2 + nn) != needle@,
        decreases nh - nn - k + 1,
    {
        let mut j: usize = 0;
        let mut matched = true;
        while j < nn
            invariant
                nh == hay@.len(),
                nn == needle@.len(),
                0 <= k <= nh - nn,
                0 <= j <= nn,
                matched ==> forall|j2: int| 0 <= j2 < j ==> hay@[k + j2] == needle@[j2],
                !matched ==> hay@.subrange(k as int, k + nn) != needle@,
            decreases nn - j,
        {
            if hay.get_char(k + j) != needle.get_char(j) {
                proof {
                    assert(hay@.subrange(k as int, k + nn)[j as int] == hay@[k + j]);
                }
                matched = false;
                j = nn;
            } else {
                j = j + 1;
            }
        }
        if matched {
            proof {
                assert(hay@.subrange(k as int, k + nn) =~= needle@);
            }
            return true;
        }
        k = k + 1;
    }
    proof {
        assert forall|k2: int| 0 <= k2 && k2 + nn <= nh implies #[trigger] hay@.subrange(
            k2,
            k2 + nn,
        ) != needle@ by {
            assert(k2 < k);
        }
    }
    false
}

/// Substring search that folds ASCII capitals to lower case on both sides.
pub fn str_contains_ci(hay: &str, needle: &str) -> (r: bool)
    ensures
        r == has_substr_ci(hay@, needle@),
{
    let nh = hay.unicode_len();
    let nn = needle.unicode_len();
    if nn > nh {
        return false;
    }
    if nn == 0 {
        proof {
            assert(ci_match_at(hay@, needle@, 0));
        }
        return true;
    }
    let mut k: usize = 0;
    while k <= nh - nn
        invariant
            nh == hay@.len(),
            nn == needle@.len(),
            0 < nn <= nh,
            0 <= k <= nh - nn + 1,
            forall|k2: int| 0 <= k2 < k ==> !ci_match_at(hay@, needle@, k2),
        decreases nh - nn - k + 1,
    {
        let mut j: usize = 0;
        let mut matched = true;
        while j < nn
            invariant
                nh == hay@.len(),
                nn == needle@.len(),
                0 <= k <= nh - nn,
                0 <= j <= nn,
                matched ==> forall|j2: int|
                    0 <= j2 < j ==> lower_code(hay@[k + j2]) == lower_code(#[trigger] needle@[j2]),
                !matched ==> !ci_match_at(hay@, needle@, k as int),
            decreases nn - j,
        {
            if char_code_lower(hay.get_char(k + j)) != char_code_lower(needle.get_char(j)) {
                matched = false;
                j = nn;
            } else {
                j = j + 1;
            }
        }
        if matched {
            proof {
                assert(ci_match_at(hay@, needle@, k as int));
            }
            return true;
        }
        k = k + 1;
    }
    proof {
        assert forall|k2: int| !(0 <= k2 < k) implies !ci_match_at(hay@, needle@, k2) by {}
    }
    false
}

/// Equality of two strings, folding ASCII capitals on both sides.
pub open spec fn eq_ci(a: Seq<char>, b: Seq<char>) -> bool {
    a.len() == b.len() && forall|i: int| 0 <= i < a.len() ==> lower_code(a[i]) == lower_code(
        #[trigger] b[i],
    )
}

/// Character-wise case-insensitive string equality on ASCII letters.
pub fn str_eq_ci(a: &str, b: &str) -> (r: bool)
    ensures
        r == eq_ci(a@, b@),
{
    let na = a.unicode_len();
    let nb = b.unicode_len();
    if na != nb {
        return false;
    }
    let mut i: usize = 0;
    while i < na
        invariant
            na == a@.len(),
            na == b@.len(),
            0 <= i <= na,
            forall|j: int| 0 <= j < i ==> lower_code(a@[j]) == lower_code(#[trigger] b@[j]),
        decreases na - i,
    {
        if char_code_lower(a.get_char(i)) != char_code_lower(b.get_char(i)) {
            return false;
        }
        i = i + 1;
    }
    true
}

/// The lower-cased character code of `c`.
pub fn char_code_lower(c: char) -> (r: u32)
    ensures
        r == lower_code(c),
{
    if 'A' <= c && c <= 'Z' {
        c as u32 + 32
    } else {
        c as u32
    }
}

} // verus!
