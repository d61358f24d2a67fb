//! Normalization of route patterns for the per-path request metrics.
//!
//! Routes that lead to the same endpoint are folded into one label: repeated
//! trailing `{bound}/` segments and one trailing `/{sorting}` are dropped,
//! and the graph routes are collapsed to one label per family.

use crate::text::{chars_of, copy_string, eq_range};
use vstd::prelude::*;
use vstd::string::*;

verus! {

/// Whether `s` ends with `suffix`.
pub open spec fn ends_with(s: Seq<char>, suffix: Seq<char>) -> bool {
    s.len() >= suffix.len() && s.subrange(s.len() - suffix.len(), s.len() as int) == suffix
}

/// Whether `s` starts with `prefix`.
pub open spec fn starts_with(s: Seq<char>, prefix: Seq<char>) -> bool {
    s.len() >= prefix.len() && s.subrange(0, prefix.len() as int) == prefix
}

/// `s` with every trailing repetition of `suffix` removed.
pub open spec fn trim_suffix_all(s: Seq<char>, suffix: Seq<char>) -> Seq<char>
    decreases s.len(),
{
    if suffix.len() > 0 && ends_with(s, suffix) {
        trim_suffix_all(s.subrange(0, s.len() - suffix.len()), suffix)
    } else {
        s
    }
}

/// The metrics label of a route pattern: trailing `{bound}/` repetitions and
/// a trailing `/{sorting}` are dropped, and each graph family is one label.
pub open spec fn metrics_path_of(s: Seq<char>) -> Seq<char> {
    let a = trim_suffix_all(s, "{bound}/"@);
    let b = trim_suffix_all(a, "/{sorting}"@);
    if starts_with(b, "/graph/total/"@) {
        "/graph/total/..."@
    } else if starts_with(b, "/graph/repo/"@) {
        "/graph/repo/..."@
    } else {
        b
    }
}

fn trim_all(v: &Vec<char>, len0: usize, s: &str) -> (len: usize)
    requires
        len0 <= v@.len(),
    ensures
        len <= len0,
        v@.subrange(0, len as int) == trim_suffix_all(v@.subrange(0, len0 as int), s@),
    decreases len0,
{
    let m = s.unicode_len();
    let ghost cur = v@.subrange(0, len0 as int);
    if m > 0 && len0 >= m && eq_range(v, len0 - m, len0, s) {
        proof {
            assert(cur.subrange(cur.len() - s@.len(), cur.len() as int) =~= v@.subrange(
                len0 - m,
                len0 as int,
            ));
            assert(ends_with(cur, s@));
            assert(cur.subrange(0, cur.len() - s@.len()) =~= v@.subrange(0, len0 - m));
        }
        trim_all(v, len0 - m, s)
    } else {
        proof {
            if m > 0 && len0 >= m {
                assert(cur.subrange(cur.len() - s@.len(), cur.len() as int) =~= v@.subrange(
                    len0 - m,
                    len0 as int,
                ));
            }
            assert(!(s@.len() > 0 && ends_with(cur, s@)));
        }
        len0
    }
}

fn starts_with_lit(v: &Vec<char>, len: usize, s: &str) -> (r: bool)
    requires
        len <= v@.len(),
    ensures
        r == starts_with(v@.subrange(0, len as int), s@),
{
    let m = s.unicode_len();
    if len < m {
        return false;
    }
    let r = eq_range(v, 0, m, s);
    proof {
        assert(v@.subrange(0, len as int).subrange(0, s@.len() as int) =~= v@.subrange(
            0,
            m as int,
        ));
    }
    r
}

/// The label under which a request to the given route pattern is counted.
pub fn metrics_path(path: &str) -> (r: String)
    ensures
        r@ == metrics_path_of(path@),
{
    let v = chars_of(path);
    proof {
        assert(v@.subrange(0, v@.len() as int) =~= path@);
    }
    let l1 = trim_all(&v, v.len(), "{bound}/");
    let l2 = trim_all(&v, l1, "/{sorting}");
    if starts_with_lit(&v, l2, "/graph/total/") {
        String::from_str("/graph/total/...")
    } else if starts_with_lit(&v, l2, "/graph/repo/") {
        String::from_str("/graph/repo/...")
    } else {
        copy_string(&v, 0, l2)
    }
}

} // verus!
