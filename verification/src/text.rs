//! The character-level text operations that the title parser and the template
//! engine are built on: conversion between `&str` and `Vec<char>`, trimming,
//! substring search, removal and replacement of substrings, whitespace
//! collapsing, and empty-bracket deletion, each stated against a spec function
//! over `Seq<char>`.

use crate::chars::{bracket_pair, char_eq_ci, eq_ci, is_pair, is_space, space};
use vstd::prelude::*;
use vstd::string::StrSliceExecFns;

verus! {

/// The characters of `s`, as a vector.
pub fn chars_of(s: &str) -> (r: Vec<char>)
    ensures
        r@ == s@,
{
    let n = s.unicode_len();
    let mut r: Vec<char> = Vec::new();
    let mut i: usize = 0;
    while i < n
        invariant
            i <= n,
            n == s@.len(),
            r@ == s@.subrange(0, i as int),
        decreases n - i,
    {
        r.push(s.get_char(i));
        i = i + 1;
        proof {
            assert(r@ =~= s@.subrange(0, i as int));
        }
    }
    proof {
        assert(r@ =~= s@);
    }
    r
}

/// Relies on `String`'s `FromIterator<char>` impl: collecting an in-order
/// iterator of characters yields the string of exactly those characters.
#[verifier::external_body]
pub(crate) fn string_of(v: &Vec<char>) -> (r: String)
    ensures
        r@ == v@,
{
    v.iter().collect()
}

/// Whether the pattern `p` occurs in `s` starting at index `i`.
pub open spec fn matches_at(s: Seq<char>, i: int, p: Seq<char>) -> bool {
    0 <= i && i + p.len() <= s.len() && s.subrange(i, i + p.len() as int) == p
}

pub fn starts_at(v: &Vec<char>, i: usize, p: &Vec<char>) -> (r: bool)
    requires
        i <= v@.len(),
    ensures
        r == matches_at(v@, i as int, p@),
{
    if p.len() > v.len() - i {
        return false;
    }
    let mut j: usize = 0;
    while j < p.len()
        invariant
            0 <= j <= p@.len(),
            i + p@.len() <= v@.len(),
            v@.len() <= usize::MAX,
            forall|k: int| 0 <= k < j ==> v@[i + k] == p@[k],
        decreases p@.len() - j,
    {
        if v[i + j] != p[j] {
            proof {
                assert(v@.subrange(i as int, i + p@.len() as int)[j as int] == v@[i + j]);
            }
            return false;
        }
        j = j + 1;
    }
    proof {
        assert(v@.subrange(i as int, i + p@.len() as int) =~= p@);
    }
    true
}


/// Character-for-character string equality.
pub fn str_eq(a: &str, b: &str) -> (r: bool)
    ensures
        r == (a@ == b@),
{
    let na = a.unicode_len();
    let nb = b.unicode_len();
    if na != nb {
        return false;
    }
    let mut i: usize = 0;
    while i < na
        invariant
            0 <= i <= na,
            na == a@.len(),
            na == b@.len(),
            forall|k: int| 0 <= k < i ==> a@[k] == b@[k],
        decreases na - i,
    {
        if a.get_char(i) != b.get_char(i) {
            return false;
        }
        i = i + 1;
    }
    proof {
        assert(a@ =~= b@);
    }
    true
}


/// Whether `p` occurs at index `i` of `s` under ASCII-case-insensitive
/// comparison.
pub open spec fn ci_matches_at(s: Seq<char>, i: int, p: Seq<char>) -> bool {
    0 <= i && i + p.len() <= s.len() && forall|k: int|
        0 <= k < p.len() ==> eq_ci(s[i + k], #[trigger] p[k])
}

pub fn ci_at(v: &Vec<char>, i: usize, p: &str) -> (r: bool)
    requires
        i <= v@.len(),
    ensures
        r == ci_matches_at(v@, i as int, p@),
{
    let n = p.unicode_len();
    if n > v.len() - i {
        return false;
    }
    let mut j: usize = 0;
    while j < n
        invariant
            0 <= j <= n,
            n == p@.len(),
            i + n <= v@.len(),
            v@.len() <= usize::MAX,
            forall|k: int| 0 <= k < j ==> eq_ci(v@[i + k], #[trigger] p@[k]),
        decreases n - j,
    {
        if !char_eq_ci(v[i + j], p.get_char(j)) {
            return false;
        }
        j = j + 1;
    }
    true
}


/// ASCII-case-insensitive string equality.
pub open spec fn ci_seq_eq(a: Seq<char>, b: Seq<char>) -> bool {
    a.len() == b.len() && ci_matches_at(a, 0, b)
}

pub fn ci_eq_str(v: &Vec<char>, p: &str) -> (r: bool)
    ensures
        r == ci_seq_eq(v@, p@),
{
    v.len() == p.unicode_len() && ci_at(v, 0, p)
}

/// The characters of `v` from `from` (inclusive) to `to` (exclusive).
pub fn subvec(v: &Vec<char>, from: usize, to: usize) -> (r: Vec<char>)
    requires
        from <= to <= v@.len(),
    ensures
        r@ == v@.subrange(from as int, to as int),
{
    let mut r: Vec<char> = Vec::new();
    let mut k: usize = from;
    while k < to
        invariant
            from <= k <= to <= v@.len(),
            r@ == v@.subrange(from as int, k as int),
        decreases to - k,
    {
        r.push(v[k]);
        k = k + 1;
        proof {
            assert(r@ =~= v@.subrange(from as int, k as int));
        }
    }
    r
}

// ---------------------------------------------------------------------------
// Trimming
// ---------------------------------------------------------------------------
/// `s` without its leading whitespace.
pub open spec fn trim_front(s: Seq<char>) -> Seq<char>
    decreases s.len(),
{
    if s.len() > 0 && is_space(s[0]) {
        trim_front(s.drop_first())
    } else {
        s
    }
}

/// `s` without its trailing whitespace.
pub open spec fn trim_back(s: Seq<char>) -> Seq<char>
    decreases s.len(),
{
    if s.len() > 0 && is_space(s.last()) {
        trim_back(s.drop_last())
    } else {
        s
    }
}

/// `s` without leading and trailing whitespace, as `str::trim` returns it.
pub open spec fn trim_seq(s: Seq<char>) -> Seq<char> {
    trim_back(trim_front(s))
}

pub fn trim_vec(v: &Vec<char>) -> (r: Vec<char>)
    ensures
        r@ == trim_seq(v@),
{
    let mut a: usize = 0;
    proof {
        assert(v@.skip(0) =~= v@);
    }
    while a < v.len() && space(v[a])
        invariant
            0 <= a <= v@.len(),
            trim_front(v@) == trim_front(v@.skip(a as int)),
        decreases v@.len() - a,
    {
        proof {
            assert(v@.skip(a as int).drop_first() =~= v@.skip(a as int + 1));
        }
        a = a + 1;
    }
    proof {
        if a < v@.len() {
            assert(trim_front(v@) == v@.skip(a as int));
        } else {
            assert(v@.skip(a as int) =~= Seq::<char>::empty());
            assert(trim_front(v@) == v@.skip(a as int));
        }
    }
    let ghost m = v@.skip(a as int);
    let mut b: usize = v.len();
    proof {
        assert(m.take(b - a) =~= m);
    }
    while b > a && space(v[b - 1])
        invariant
            a <= b <= v@.len(),
            m == v@.skip(a as int),
            trim_back(m) == trim_back(m.take(b - a)),
        decreases b,
    {
        proof {
            let t = m.take(b - a);
            assert(t.last() == v@[b - 1]);
            assert(t.drop_last() =~= m.take(b - 1 - a));
        }
        b = b - 1;
    }
    proof {
        let t = m.take(b - a);
        if b > a {
            assert(t.last() == v@[b - 1]);
            assert(trim_back(t) == t);
        } else {
            assert(t =~= Seq::<char>::empty());
            assert(trim_back(t) == t);
        }
    }
    let mut r: Vec<char> = Vec::new();
    let mut k: usize = a;
    while k < b
        invariant
            a <= k <= b <= v@.len(),
            r@ == v@.subrange(a as int, k as int),
        decreases b - k,
    {
        r.push(v[k]);
        k = k + 1;
        proof {
            assert(r@ =~= v@.subrange(a as int, k as int));
        }
    }
    proof {
        assert(v@.subrange(a as int, b as int) =~= m.take(b - a));
    }
    r
}

// ---------------------------------------------------------------------------
// Removing every occurrence of a pattern
// ---------------------------------------------------------------------------
/// `s` with every (leftmost, non-overlapping) occurrence of `p` deleted.
/// An empty pattern deletes nothing.
pub open spec fn remove_occ(s: Seq<char>, p: Seq<char>) -> Seq<char>
    decreases s.len(),
{
    if p.len() == 0 {
        s
    } else if s.len() < p.len() {
        s
    } else if s.subrange(0, p.len() as int) == p {
        remove_occ(s.skip(p.len() as int), p)
    } else {
        seq![s[0]] + remove_occ(s.skip(1), p)
    }
}

pub fn remove_all(v: &Vec<char>, p: &Vec<char>) -> (r: Vec<char>)
    ensures
        r@ == remove_occ(v@, p@),
{
    if p.len() == 0 {
        let mut r: Vec<char> = Vec::new();
        let mut k: usize = 0;
        while k < v.len()
            invariant
                0 <= k <= v@.len(),
                r@ == v@.subrange(0, k as int),
            decreases v@.len() - k,
        {
            r.push(v[k]);
            k = k + 1;
            proof {
                assert(r@ =~= v@.subrange(0, k as int));
            }
        }
        proof {
            assert(r@ =~= v@);
        }
        return r;
    }
    let mut r: Vec<char> = Vec::new();
    let mut i: usize = 0;
    proof {
        assert(v@.skip(0) =~= v@);
        assert(Seq::<char>::empty() + remove_occ(v@, p@) =~= remove_occ(v@, p@));
    }
    while i < v.len()
        invariant
            p@.len() > 0,
            0 <= i <= v@.len(),
            remove_occ(v@, p@) == r@ + remove_occ(v@.skip(i as int), p@),
        decreases v@.len() - i,
    {
        let ghost rest = v@.skip(i as int);
        if starts_at(v, i, p) {
            proof {
                assert(rest.subrange(0, p@.len() as int) =~= v@.subrange(
                    i as int,
                    i + p@.len() as int,
                ));
                assert(rest.skip(p@.len() as int) =~= v@.skip(i + p@.len()));
            }
            i = i + p.len();
        } else {
            proof {
                assert(rest.skip(1) =~= v@.skip(i as int + 1));
                if rest.len() >= p@.len() {
                    assert(rest.subrange(0, p@.len() as int) =~= v@.subrange(
                        i as int,
                        i + p@.len() as int,
                    ));
                    // the head is kept in this case too
                    assert(remove_occ(rest, p@) == seq![rest[0]] + remove_occ(rest.skip(1), p@));
                } else {
                    // the remainder is shorter than the pattern: it is kept whole
                    assert(remove_occ(rest, p@) == rest);
                    assert(remove_occ(rest.skip(1), p@) == rest.skip(1));
                    assert(rest =~= seq![rest[0]] + rest.skip(1));
                }
            }
            r.push(v[i]);
            i = i + 1;
            proof {
                assert(r@ + remove_occ(v@.skip(i as int), p@) =~= r@.drop_last() + (seq![
                    v@[i - 1],
                ] + remove_occ(v@.skip(i as int), p@)));
            }
        }
    }
    proof {
        assert(v@.skip(i as int) =~= Seq::<char>::empty());
        assert(remove_occ(v@.skip(i as int), p@) =~= Seq::<char>::empty());
        assert(r@ + Seq::<char>::empty() =~= r@);
    }
    r
}

// ---------------------------------------------------------------------------
// Replacing every occurrence of a pattern
// ---------------------------------------------------------------------------
/// `s` with every (leftmost, non-overlapping) occurrence of `p` replaced by
/// `w`, as `str::replace` computes it for a non-empty pattern.
pub open spec fn replace_seq(s: Seq<char>, p: Seq<char>, w: Seq<char>) -> Seq<char>
    decreases s.len(),
{
    if p.len() == 0 {
        s
    } else if s.len() < p.len() {
        s
    } else if s.subrange(0, p.len() as int) == p {
        w + replace_seq(s.skip(p.len() as int), p, w)
    } else {
        seq![s[0]] + replace_seq(s.skip(1), p, w)
    }
}

pub fn replace_all(v: &Vec<char>, p: &Vec<char>, w: &Vec<char>) -> (r: Vec<char>)
    requires
        p@.len() > 0,
    ensures
        r@ == replace_seq(v@, p@, w@),
{
    let mut r: Vec<char> = Vec::new();
    let mut i: usize = 0;
    proof {
        assert(v@.skip(0) =~= v@);
        assert(Seq::<char>::empty() + replace_seq(v@, p@, w@) =~= replace_seq(v@, p@, w@));
    }
    while i < v.len()
        invariant
            p@.len() > 0,
            0 <= i <= v@.len(),
            replace_seq(v@, p@, w@) == r@ + replace_seq(v@.skip(i as int), p@, w@),
        decreases v@.len() - i,
    {
        let ghost rest = v@.skip(i as int);
        if starts_at(v, i, p) {
            proof {
                assert(rest.subrange(0, p@.len() as int) =~= v@.subrange(
                    i as int,
                    i + p@.len() as int,
                ));
                assert(rest.skip(p@.len() as int) =~= v@.skip(i + p@.len()));
            }
            let ghost r0 = r@;
            let mut k: usize = 0;
            while k < w.len()
                invariant
                    0 <= k <= w@.len(),
                    r@ == r0 + w@.subrange(0, k as int),
                decreases w@.len() - k,
            {
                r.push(w[k]);
                k = k + 1;
                proof {
                    assert(r@ =~= r0 + w@.subrange(0, k as int));
                }
            }
            i = i + p.len();
            proof {
                assert(r@ =~= r0 + w@);
                assert(r0 + (w@ + replace_seq(v@.skip(i as int), p@, w@)) =~= (r0 + w@)
                    + replace_seq(v@.skip(i as int), p@, w@));
            }
        } else {
            proof {
                assert(rest.skip(1) =~= v@.skip(i as int + 1));
                if rest.len() >= p@.len() {
                    assert(rest.subrange(0, p@.len() as int) =~= v@.subrange(
                        i as int,
                        i + p@.len() as int,
                    ));
                }
                assert(rest =~= seq![rest[0]] + rest.skip(1));
            }
            r.push(v[i]);
            i = i + 1;
        }
    }
    proof {
        assert(v@.skip(i as int) =~= Seq::<char>::empty());
        assert(r@ + Seq::<char>::empty() =~= r@);
    }
    r
}

// ---------------------------------------------------------------------------
// Collapsing duplicate spaces
// ---------------------------------------------------------------------------
/// `s` with every run of consecutive `' '` characters shortened to one.
pub open spec fn collapse_spaces(s: Seq<char>) -> Seq<char>
    decreases s.len(),
{
    if s.len() == 0 {
        s
    } else if s.len() >= 2 && s[0] == ' ' && s[1] == ' ' {
        collapse_spaces(s.skip(1))
    } else {
        seq![s[0]] + collapse_spaces(s.skip(1))
    }
}

pub fn collapse_spaces_vec(v: &Vec<char>) -> (r: Vec<char>)
    ensures
        r@ == collapse_spaces(v@),
{
    let mut r: Vec<char> = Vec::new();
    let mut i: usize = 0;
    proof {
        assert(v@.skip(0) =~= v@);
        assert(Seq::<char>::empty() + collapse_spaces(v@) =~= collapse_spaces(v@));
    }
    while i < v.len()
        invariant
            0 <= i <= v@.len(),
            collapse_spaces(v@) == r@ + collapse_spaces(v@.skip(i as int)),
        decreases v@.len() - i,
    {
        let ghost rest = v@.skip(i as int);
        proof {
            assert(rest.skip(1) =~= v@.skip(i as int + 1));
        }
        if !(v[i] == ' ' && i + 1 < v.len() && v[i + 1] == ' ') {
            r.push(v[i]);
        }
        i = i + 1;
    }
    proof {
        assert(v@.skip(i as int) =~= Seq::<char>::empty());
        assert(r@ + Seq::<char>::empty() =~= r@);
    }
    r
}

/// Holds when `s` has no two adjacent spaces.
pub open spec fn no_double_space(s: Seq<char>) -> bool {
    forall|i: int| #![trigger s[i]] 0 <= i < s.len() - 1 ==> !(s[i] == ' ' && s[i + 1] == ' ')
}

/// The collapsed string holds no two adjacent spaces.
pub proof fn lemma_collapse_no_double(s: Seq<char>)
    ensures
        no_double_space(collapse_spaces(s)),
    decreases s.len(),
{
    if s.len() == 0 {
    } else if s.len() >= 2 && s[0] == ' ' && s[1] == ' ' {
        lemma_collapse_no_double(s.skip(1));
    } else {
        lemma_collapse_no_double(s.skip(1));
        let c = collapse_spaces(s);
        let t = collapse_spaces(s.skip(1));
        assert(c == seq![s[0]] + t);
        if s[0] == ' ' && t.len() > 0 {
            // the first character kept after a lone space is not a space
            if s.len() >= 2 {
                assert(s.skip(1)[0] == s[1]);
                assert(t[0] != ' ') by {
                    if s.skip(1).len() >= 2 && s.skip(1)[0] == ' ' && s.skip(1)[1] == ' ' {
                    } else {
                        assert(t == seq![s.skip(1)[0]] + collapse_spaces(s.skip(1).skip(1)));
                    }
                    assert(s[1] != ' ');
                    lemma_collapse_head(s.skip(1));
                }
            }
        }
    }
}

/// Collapsing keeps the first character of a non-empty string.
pub proof fn lemma_collapse_head(s: Seq<char>)
    requires
        s.len() > 0,
    ensures
        collapse_spaces(s).len() > 0,
        collapse_spaces(s)[0] == s[0],
    decreases s.len(),
{
    if s.len() >= 2 && s[0] == ' ' && s[1] == ' ' {
        lemma_collapse_head(s.skip(1));
    }
}

/// Collapsing a string with no two adjacent spaces returns it unchanged.
pub proof fn lemma_collapse_identity(s: Seq<char>)
    requires
        no_double_space(s),
    ensures
        collapse_spaces(s) == s,
    decreases s.len(),
{
    if s.len() == 0 {
        assert(collapse_spaces(s) =~= s);
    } else {
        assert(no_double_space(s.skip(1))) by {
            assert(forall|i: int|
                0 <= i < s.skip(1).len() - 1 ==> #[trigger] s.skip(1)[i] == s[i + 1] && s.skip(1)[i
                    + 1] == s[i + 2]);
        }
        lemma_collapse_identity(s.skip(1));
        assert(collapse_spaces(s) =~= s);
    }
}

/// Whitespace collapsing is idempotent: a second application returns its own
/// output unchanged.
pub proof fn lemma_collapse_idempotent(s: Seq<char>)
    ensures
        collapse_spaces(collapse_spaces(s)) == collapse_spaces(s),
{
    lemma_collapse_no_double(s);
    lemma_collapse_identity(collapse_spaces(s));
}

// ---------------------------------------------------------------------------
// Deleting matched empty bracket pairs
// ---------------------------------------------------------------------------
/// One scan: every adjacent matched pair found is deleted, and the scan
/// continues after the pair.
pub open spec fn drop_pairs_once(s: Seq<char>) -> Seq<char>
    decreases s.len(),
{
    if s.len() < 2 {
        s
    } else if is_pair(s[0], s[1]) {
        drop_pairs_once(s.skip(2))
    } else {
        seq![s[0]] + drop_pairs_once(s.skip(1))
    }
}

pub proof fn lemma_drop_pairs_le(s: Seq<char>)
    ensures
        drop_pairs_once(s).len() <= s.len(),
        drop_pairs_once(s).len() == s.len() ==> drop_pairs_once(s) == s,
    decreases s.len(),
{
    if s.len() < 2 {
    } else if is_pair(s[0], s[1]) {
        lemma_drop_pairs_le(s.skip(2));
    } else {
        lemma_drop_pairs_le(s.skip(1));
        if drop_pairs_once(s).len() == s.len() {
            assert(drop_pairs_once(s.skip(1)) == s.skip(1));
            assert(seq![s[0]] + s.skip(1) =~= s);
        }
    }
}

/// Scans are repeated from scratch until one deletes nothing (the fixpoint):
/// deleting one empty pair can expose another.
pub open spec fn strip_empty_pairs(s: Seq<char>) -> Seq<char>
    decreases s.len(),
    via strip_empty_pairs_dec
{
    let t = drop_pairs_once(s);
    if t.len() == s.len() {
        s
    } else {
        strip_empty_pairs(t)
    }
}

#[via_fn]
proof fn strip_empty_pairs_dec(s: Seq<char>) {
    lemma_drop_pairs_le(s);
}

pub fn drop_pairs_once_vec(v: &Vec<char>) -> (r: Vec<char>)
    ensures
        r@ == drop_pairs_once(v@),
{
    let mut r: Vec<char> = Vec::new();
    let mut i: usize = 0;
    proof {
        assert(v@.skip(0) =~= v@);
        assert(Seq::<char>::empty() + drop_pairs_once(v@) =~= drop_pairs_once(v@));
    }
    while i < v.len()
        invariant
            0 <= i <= v@.len(),
            drop_pairs_once(v@) == r@ + drop_pairs_once(v@.skip(i as int)),
        decreases v@.len() - i,
    {
        let ghost rest = v@.skip(i as int);
        if i + 1 < v.len() && bracket_pair(v[i], v[i + 1]) {
            proof {
                assert(rest.skip(2) =~= v@.skip(i as int + 2));
            }
            i = i + 2;
        } else {
            proof {
                assert(rest.skip(1) =~= v@.skip(i as int + 1));
                if rest.len() >= 2 {
                } else {
                    assert(rest =~= seq![rest[0]] + rest.skip(1));
                }
            }
            r.push(v[i]);
            i = i + 1;
        }
    }
    proof {
        assert(v@.skip(i as int) =~= Seq::<char>::empty());
        assert(r@ + Seq::<char>::empty() =~= r@);
    }
    r
}

pub fn strip_empty_pairs_vec(v: Vec<char>) -> (r: Vec<char>)
    ensures
        r@ == strip_empty_pairs(v@),
    decreases v@.len(),
{
    let t = drop_pairs_once_vec(&v);
    proof {
        lemma_drop_pairs_le(v@);
    }
    if t.len() == v.len() {
        v
    } else {
        strip_empty_pairs_vec(t)
    }
}

/// The fixpoint really is one: a further scan deletes nothing.
pub proof fn lemma_strip_is_fixpoint(s: Seq<char>)
    ensures
        drop_pairs_once(strip_empty_pairs(s)) == strip_empty_pairs(s),
    decreases s.len(),
{
    lemma_drop_pairs_le(s);
    let t = drop_pairs_once(s);
    if t.len() == s.len() {
    } else {
        lemma_strip_is_fixpoint(t);
    }
}

/// Empty-bracket deletion is idempotent: a second application returns its own
/// output unchanged.
pub proof fn lemma_strip_idempotent(s: Seq<char>)
    ensures
        strip_empty_pairs(strip_empty_pairs(s)) == strip_empty_pairs(s),
{
    lemma_strip_is_fixpoint(s);
}

} // verus!
