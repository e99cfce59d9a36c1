use vstd::prelude::*;

verus! {

/// `p` is a prefix of `s`.
pub open spec fn spec_starts_with(s: Seq<char>, p: Seq<char>) -> bool {
    p.len() <= s.len() && s.subrange(0, p.len() as int) == p
}

/// `p` is a suffix of `s`.
pub open spec fn spec_ends_with(s: Seq<char>, p: Seq<char>) -> bool {
    p.len() <= s.len() && s.subrange(s.len() - p.len(), s.len() as int) == p
}

/// `p` occurs in `s` at position `k`.
pub open spec fn spec_matches_at(s: Seq<char>, p: Seq<char>, k: int) -> bool {
    0 <= k && k + p.len() <= s.len() && s.subrange(k, k + p.len()) == p
}

/// `p` occurs somewhere in `s`.
pub open spec fn spec_contains(s: Seq<char>, p: Seq<char>) -> bool {
    exists|k: int| spec_matches_at(s, p, k)
}

/// Whether `p` occurs in `s` starting at `k`.
fn matches_at(s: &str, p: &str, k: usize) -> (r: bool)
    requires
        k + p@.len() <= s@.len(),
    ensures
        r == spec_matches_at(s@, p@, k as int),
{
    let ns = s.unicode_len();
    let np = p.unicode_len();
    let mut m: usize = 0;
    while m < np
        invariant
            ns == s@.len(),
            np == p@.len(),
            k + np <= s@.len(),
            0 <= m <= np,
            forall|q: int| 0 <= q < m ==> s@[k + q] == p@[q],
        decreases np - m,
    {
        if s.get_char(k + m) != p.get_char(m) {
            proof {
                assert(s@.subrange(k as int, k + p@.len())[m as int] == s@[k + m]);
            }
            return false;
        }
        m = m + 1;
    }
    proof {
        assert(s@.subrange(k as int, k + p@.len()) =~= p@);
    }
    true
}

/// Two owned strings hold the same characters.
pub fn string_eq(a: &String, b: &String) -> (r: bool)
    ensures
        r == (a@ == b@),
{
    *a == *b
}

/// The two strings hold the same characters.
pub fn str_eq(a: &str, b: &str) -> (r: bool)
    ensures
        r == (a@ == b@),
{
    let na = a.unicode_len();
    let nb = b.unicode_len();
    if na != nb {
        return false;
    }
    let r = matches_at(a, b, 0);
    proof {
        assert(a@.subrange(0, b@.len() as int) =~= a@);
    }
    r
}

/// `s` starts with `p`.
pub fn str_starts_with(s: &str, p: &str) -> (r: bool)
    ensures
        r == spec_starts_with(s@, p@),
{
    let ns = s.unicode_len();
    let np = p.unicode_len();
    if np > ns {
        return false;
    }
    matches_at(s, p, 0)
}

/// `s` ends with `p`.
pub fn str_ends_with(s: &str, p: &str) -> (r: bool)
    ensures
        r == spec_ends_with(s@, p@),
{
    let ns = s.unicode_len();
    let np = p.unicode_len();
    if np > ns {
        return false;
    }
    matches_at(s, p, ns - np)
}

/// `s` contains `p`.
pub fn str_contains(s: &str, p: &str) -> (r: bool)
    ensures
        r == spec_contains(s@, p@),
{
    let ns = s.unicode_len();
    let np = p.unicode_len();
    if np > ns {
        proof {
            assert(forall|k: int| !spec_matches_at(s@, p@, k));
        }
        return false;
    }
    let bound = ns - np;
    let mut k: usize = 0;
    while k <= bound
        invariant
            ns == s@.len(),
            np == p@.len(),
            np <= ns,
            bound == ns - np,
            0 <= k <= bound,
            forall|q: int| 0 <= q < k ==> !spec_matches_at(s@, p@, q),
        decreases bound - k,
    {
        if matches_at(s, p, k) {
            return true;
        }
        if k == bound {
            proof {
                assert(forall|q: int| spec_matches_at(s@, p@, q) ==> 0 <= q <= bound as int);
            }
            return false;
        }
        k = k + 1;
    }
    proof {
        assert(forall|q: int| spec_matches_at(s@, p@, q) ==> 0 <= q <= bound as int);
    }
    false
}

/// A copy of a vector of strings with the same contents.
pub fn clone_string_vec(v: &Vec<String>) -> (r: Vec<String>)
    ensures
        r@ == v@,
{
    let r = v.clone();
    proof {
        assert forall|i: int| 0 <= i < v@.len() implies r@[i] == v@[i] by {
            assert(cloned::<String>(v@[i], r@[i]));
        }
        assert(r@ =~= v@);
    }
    r
}

/// A copy of an optional vector of strings with the same contents.
pub fn clone_opt_string_vec(v: &Option<Vec<String>>) -> (r: Option<Vec<String>>)
    ensures
        match v {
            Some(xs) => r matches Some(rs) && rs@ == xs@,
            None => r is None,
        },
{
    match v {
        Some(xs) => Some(clone_string_vec(xs)),
        None => None,
    }
}

/// A copy of an optional string with the same contents.
pub fn clone_opt_string(v: &Option<String>) -> (r: Option<String>)
    ensures
        match v {
            Some(x) => r matches Some(rx) && rx == x,
            None => r is None,
        },
{
    match v {
        Some(x) => Some(x.clone()),
        None => None,
    }
}

} // verus!
