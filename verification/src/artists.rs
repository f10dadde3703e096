//! Splitting a free-form artist string such as `"Band ft Artist, Musician &
//! Singer"` into the ordered list of individual artist names.
//!
//! A separator is, in preference order and ASCII-case-insensitively: the token
//! `" x "` or `" and "`; the word `featuring`, `feat.`, `feat`, `ft.`, `ft`,
//! `w⧸` or `w/` at the start of the string or after whitespace; or one of the
//! characters `&`, `,`, `，`. The string is split at each leftmost separator;
//! every fragment is trimmed and empty fragments are discarded.

use crate::chars::{is_space, space};
use crate::text::{chars_of, ci_at, ci_matches_at, string_of, subvec, trim_seq, trim_vec};
use vstd::prelude::*;

verus! {

/// The length of the feature keyword found at index `j`, by preference.
pub open spec fn kw_feat_len(s: Seq<char>, j: int) -> Option<int> {
    if ci_matches_at(s, j, "featuring"@) {
        Some(9)
    } else if ci_matches_at(s, j, "feat."@) {
        Some(5)
    } else if ci_matches_at(s, j, "feat"@) {
        Some(4)
    } else if ci_matches_at(s, j, "ft."@) {
        Some(3)
    } else if ci_matches_at(s, j, "ft"@) {
        Some(2)
    } else if ci_matches_at(s, j, "w⧸"@) {
        Some(2)
    } else if ci_matches_at(s, j, "w/"@) {
        Some(2)
    } else {
        None
    }
}

/// The length of the artist separator starting at index `i`, if one does.
pub open spec fn sep_at(s: Seq<char>, i: int) -> Option<int>
    recommends
        0 <= i < s.len(),
{
    if i + 3 <= s.len() && is_space(s[i]) && ci_matches_at(s, i + 1, "x"@) && is_space(s[i + 2]) {
        Some(3)
    } else if i + 5 <= s.len() && is_space(s[i]) && ci_matches_at(s, i + 1, "and"@) && is_space(
        s[i + 4],
    ) {
        Some(5)
    } else if i == 0 && kw_feat_len(s, 0) is Some {
        kw_feat_len(s, 0)
    } else if is_space(s[i]) && kw_feat_len(s, i + 1) is Some {
        Some(1 + kw_feat_len(s, i + 1).unwrap())
    } else if s[i] == '&' || s[i] == ',' || s[i] == '，' {
        Some(1)
    } else {
        None
    }
}

pub proof fn lemma_sep_at_bounds(s: Seq<char>, i: int)
    requires
        0 <= i < s.len(),
        sep_at(s, i) is Some,
    ensures
        1 <= sep_at(s, i).unwrap(),
        i + sep_at(s, i).unwrap() <= s.len(),
{
    reveal_strlit("featuring");
    reveal_strlit("feat.");
    reveal_strlit("feat");
    reveal_strlit("ft.");
    reveal_strlit("ft");
    reveal_strlit("w⧸");
    reveal_strlit("w/");
    reveal_strlit("and");
}

/// The leftmost separator at or after index `i`: its start and length.
pub open spec fn next_sep(s: Seq<char>, i: int) -> Option<(int, int)>
    decreases s.len() - i,
    when 0 <= i <= s.len()
{
    if i >= s.len() {
        None
    } else if sep_at(s, i) is Some {
        Some((i, sep_at(s, i).unwrap()))
    } else {
        next_sep(s, i + 1)
    }
}

pub proof fn lemma_next_sep_bounds(s: Seq<char>, i: int)
    requires
        0 <= i <= s.len(),
        next_sep(s, i) is Some,
    ensures
        i <= next_sep(s, i).unwrap().0 < s.len(),
        1 <= next_sep(s, i).unwrap().1,
        next_sep(s, i).unwrap().0 + next_sep(s, i).unwrap().1 <= s.len(),
    decreases s.len() - i,
{
    if i >= s.len() {
    } else if sep_at(s, i) is Some {
        lemma_sep_at_bounds(s, i);
    } else {
        lemma_next_sep_bounds(s, i + 1);
    }
}

/// The separated artist names: the string split at every leftmost separator,
/// each fragment trimmed, empty fragments discarded.
pub open spec fn separate_spec(s: Seq<char>) -> Seq<Seq<char>>
    decreases s.len(),
    via separate_spec_dec
{
    match next_sep(s, 0) {
        None => {
            let t = trim_seq(s);
            if t.len() > 0 {
                seq![t]
            } else {
                Seq::empty()
            }
        },
        Some((st, ln)) => {
            let frag = trim_seq(s.subrange(0, st));
            let rest = separate_spec(s.skip(st + ln));
            if frag.len() > 0 {
                seq![frag] + rest
            } else {
                rest
            }
        },
    }
}

#[via_fn]
proof fn separate_spec_dec(s: Seq<char>) {
    if next_sep(s, 0) is Some {
        lemma_next_sep_bounds(s, 0);
    }
}

fn sep_at_exec(v: &Vec<char>, i: usize) -> (r: Option<usize>)
    requires
        i < v@.len(),
    ensures
        match r {
            Some(l) => sep_at(v@, i as int) == Some(l as int),
            None => sep_at(v@, i as int) is None,
        },
{
    let sp = space(v[i]);
    if 3 <= v.len() - i && sp && ci_at(v, i + 1, "x") && space(v[i + 2]) {
        return Some(3);
    }
    if 5 <= v.len() - i && sp && ci_at(v, i + 1, "and") && space(v[i + 4]) {
        return Some(5);
    }
    if i == 0 {
        match kw_feat_exec(v, 0) {
            Some(l) => {
                return Some(l);
            },
            None => {},
        }
    }
    if sp && i + 1 <= v.len() {
        match kw_feat_exec(v, i + 1) {
            Some(l) => {
                return Some(1 + l);
            },
            None => {},
        }
    }
    if v[i] == '&' || v[i] == ',' || v[i] == '，' {
        return Some(1);
    }
    None
}

fn kw_feat_exec(v: &Vec<char>, j: usize) -> (r: Option<usize>)
    requires
        j <= v@.len(),
    ensures
        match r {
            Some(l) => kw_feat_len(v@, j as int) == Some(l as int),
            None => kw_feat_len(v@, j as int) is None,
        },
{
    if ci_at(v, j, "featuring") {
        Some(9)
    } else if ci_at(v, j, "feat.") {
        Some(5)
    } else if ci_at(v, j, "feat") {
        Some(4)
    } else if ci_at(v, j, "ft.") {
        Some(3)
    } else if ci_at(v, j, "ft") {
        Some(2)
    } else if ci_at(v, j, "w⧸") {
        Some(2)
    } else if ci_at(v, j, "w/") {
        Some(2)
    } else {
        None
    }
}

fn next_sep_exec(v: &Vec<char>, i: usize) -> (r: Option<(usize, usize)>)
    requires
        i <= v@.len(),
    ensures
        match r {
            Some((st, ln)) => next_sep(v@, i as int) == Some((st as int, ln as int)) && i <= st
                < v@.len() && 1 <= ln && st + ln <= v@.len(),
            None => next_sep(v@, i as int) is None,
        },
    decreases v@.len() - i,
{
    if i >= v.len() {
        None
    } else {
        match sep_at_exec(v, i) {
            Some(l) => {
                proof {
                    lemma_sep_at_bounds(v@, i as int);
                }
                Some((i, l))
            },
            None => next_sep_exec(v, i + 1),
        }
    }
}

/// The views of a vector of strings.
pub open spec fn views_of(q: Seq<String>) -> Seq<Seq<char>> {
    q.map_values(|x: String| x@)
}

fn separate_core(v: &Vec<char>) -> (r: Vec<Vec<char>>)
    ensures
        r@.map_values(|x: Vec<char>| x@) == separate_spec(v@),
    decreases v@.len(),
{
    let mut out: Vec<Vec<char>> = Vec::new();
    match next_sep_exec(v, 0) {
        None => {
            let t = trim_vec(v);
            if t.len() > 0 {
                out.push(t);
                proof {
                    assert(out@.map_values(|x: Vec<char>| x@) =~= separate_spec(v@));
                }
            } else {
                proof {
                    assert(out@.map_values(|x: Vec<char>| x@) =~= separate_spec(v@));
                }
            }
            out
        },
        Some((st, ln)) => {
            let head = subvec(v, 0, st);
            let frag = trim_vec(&head);
            let n = v.len();
            let tail = subvec(v, st + ln, n);
            proof {
                assert(tail@ =~= v@.skip(st + ln));
            }
            let mut rest = separate_core(&tail);
            if frag.len() > 0 {
                out.push(frag);
                out.append(&mut rest);
                proof {
                    assert(out@.map_values(|x: Vec<char>| x@) =~= separate_spec(v@));
                }
                out
            } else {
                proof {
                    assert(rest@.map_values(|x: Vec<char>| x@) =~= separate_spec(v@));
                }
                rest
            }
        },
    }
}

/// Split a free-form artist string into the individual artist names.
pub fn separate_artists(artists: &str) -> (r: Vec<String>)
    ensures
        views_of(r@) == separate_spec(artists@),
{
    let v = chars_of(artists);
    separate_vec(&v)
}

/// Split a free-form artist character vector into the individual names.
pub(crate) fn separate_vec(v: &Vec<char>) -> (r: Vec<String>)
    ensures
        views_of(r@) == separate_spec(v@),
{
    let parts = separate_core(v);
    let mut r: Vec<String> = Vec::new();
    let mut k: usize = 0;
    while k < parts.len()
        invariant
            0 <= k <= parts@.len(),
            r@.len() == k,
            forall|m: int| 0 <= m < k ==> #[trigger] r@[m]@ == parts@[m]@,
        decreases parts@.len() - k,
    {
        r.push(string_of(&parts[k]));
        k = k + 1;
    }
    proof {
        assert(views_of(r@) =~= parts@.map_values(|x: Vec<char>| x@));
    }
    r
}

} // verus!
