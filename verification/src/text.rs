//! Small verified helpers over strings held as character vectors.

use crate::digest::string_from_chars;
use vstd::prelude::*;
use vstd::string::*;

verus! {

/// The characters of `s`, in order.
pub(crate) fn chars_of(s: &str) -> (v: Vec<char>)
    ensures
        v@ == s@,
{
    let n = s.unicode_len();
    let mut v: Vec<char> = Vec::new();
    let mut i: usize = 0;
    while i < n
        invariant
            i <= n,
            n == s@.len(),
            v@.len() == i,
            forall|k: int| 0 <= k < i ==> v@[k] == s@[k],
        decreases n - i,
    {
        v.push(s.get_char(i));
        i += 1;
    }
    proof {
        assert(v@ =~= s@);
    }
    v
}

/// Whether the characters of `v` between `lo` and `hi` spell `s`.
pub(crate) fn eq_range(v: &Vec<char>, lo: usize, hi: usize, s: &str) -> (r: bool)
    requires
        lo <= hi <= v@.len(),
    ensures
        r == (v@.subrange(lo as int, hi as int) == s@),
{
    let n = s.unicode_len();
    if n != hi - lo {
        proof {
            assert(v@.subrange(lo as int, hi as int).len() != s@.len());
        }
        return false;
    }
    let mut i: usize = 0;
    while i < n
        invariant
            i <= n,
            n == s@.len(),
            n == hi - lo,
            lo <= hi <= v@.len(),
            forall|k: int| 0 <= k < i ==> v@[lo + k] == s@[k],
        decreases n - i,
    {
        if v[lo + i] != s.get_char(i) {
            proof {
                assert(v@.subrange(lo as int, hi as int)[i as int] == v@[lo + i]);
            }
            return false;
        }
        i += 1;
    }
    proof {
        assert(v@.subrange(lo as int, hi as int) =~= s@);
    }
    true
}

/// The characters of `v` between `lo` and `hi`, as a string.
pub(crate) fn copy_string(v: &Vec<char>, lo: usize, hi: usize) -> (s: String)
    requires
        lo <= hi <= v@.len(),
    ensures
        s@ == v@.subrange(lo as int, hi as int),
{
    let mut w: Vec<char> = Vec::new();
    let mut i: usize = lo;
    while i < hi
        invariant
            lo <= i <= hi <= v@.len(),
            w@.len() == i - lo,
            forall|k: int| 0 <= k < i - lo ==> w@[k] == v@[lo + k],
        decreases hi - i,
    {
        w.push(v[i]);
        i += 1;
    }
    proof {
        assert(w@ =~= v@.subrange(lo as int, hi as int));
    }
    string_from_chars(&w)
}

} // verus!
