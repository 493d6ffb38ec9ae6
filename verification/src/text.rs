//! Small verified helpers over strings: equality and repeated prefix
//! stripping, used to classify edge handles and derive port names.

use vstd::prelude::*;
use vstd::string::StrSliceExecFns;

verus! {

/// True exactly when the two strings have the same characters.
pub fn str_eq(a: &str, b: &str) -> (r: bool)
    ensures
        r == (a@ == b@),
{
    let x: String = a.to_owned();
    let y: String = b.to_owned();
    x == y
}

/// The string left after removing every leading occurrence of `p` from `s`.
pub open spec fn strip_rep(s: Seq<char>, p: Seq<char>) -> Seq<char>
    decreases s.len(),
{
    if p.len() > 0 && s.len() >= p.len() && s.subrange(0, p.len() as int) == p {
        strip_rep(s.skip(p.len() as int), p)
    } else {
        s
    }
}

/// True exactly when `p` is a prefix of `s`.
pub fn has_prefix(s: &str, p: &str) -> (r: bool)
    ensures
        r == (s@.len() >= p@.len() && s@.subrange(0, p@.len() as int) == p@),
{
    let p_len: usize = p.unicode_len();
    let s_len: usize = s.unicode_len();
    if s_len < p_len {
        return false;
    }
    let mut j: usize = 0;
    while j < p_len
        invariant
            j <= p_len,
            p_len == p@.len(),
            s_len == s@.len(),
            s_len >= p_len,
            forall|l: int| 0 <= l < j ==> s@[l] == p@[l],
        decreases p_len - j,
    {
        if s.get_char(j) != p.get_char(j) {
            proof {
                assert(s@.subrange(0, p@.len() as int)[j as int] != p@[j as int]);
            }
            return false;
        }
        j = j + 1;
    }
    proof {
        assert(s@.subrange(0, p@.len() as int) =~= p@);
    }
    true
}

/// Remove every leading occurrence of `prefix` from `s`.
pub fn strip_prefix_rep(s: &str, prefix: &str) -> (r: String)
    ensures
        r@ == strip_rep(s@, prefix@),
{
    let p_len: usize = prefix.unicode_len();
    let mut rest: String = s.to_owned();
    if p_len == 0 {
        return rest;
    }
    loop
        invariant
            p_len == prefix@.len(),
            p_len > 0,
            strip_rep(rest@, prefix@) == strip_rep(s@, prefix@),
        ensures
            strip_rep(rest@, prefix@) == strip_rep(s@, prefix@),
            !(rest@.len() >= prefix@.len() && rest@.subrange(0, prefix@.len() as int) == prefix@),
        decreases rest@.len(),
    {
        if !has_prefix(rest.as_str(), prefix) {
            break;
        }
        let r_len: usize = rest.as_str().unicode_len();
        let tail: String = rest.as_str().substring_char(p_len, r_len).to_owned();
        proof {
            assert(tail@ =~= rest@.skip(p_len as int));
        }
        rest = tail;
    }
    rest
}

} // verus!
