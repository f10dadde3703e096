//! The catch-all extractor: one pass over the remaining title text that finds,
//! left to right and without overlap, the decorations a title may carry. At
//! each position the alternatives are tried in a fixed preference order:
//!
//! - `feat`: a parenthesized or bare clause beginning with ` and `,
//!   `featuring`, `feat.`, `feat`, `ft.`, `ft`, `w⧸` or `w/`;
//! - `year`: four digits, optionally parenthesized;
//! - `remix`: a `[...]` or `(...)` segment holding one of `cut`, `edit`,
//!   `extend`, `mix`, `remaster`, `bootleg`, `instrumental`;
//! - `album`: a bracketed segment (round, square or `【】`) holding a marker
//!   `F?C`, where `?` is any character but an ASCII letter;
//! - `strip`: a `[...]` or `(...)` segment holding one of `full version`,
//!   `video`, `audio`, `m/v`, `mv`, `hq` or `hd`.
//!
//! All comparisons are ASCII-case-insensitive.

use crate::artists::kw_feat_len;
use crate::chars::{ascii_letter, char_eq_ci, eq_ci, is_ascii_letter, is_digit, is_space, space};
use crate::formats::{find_in, lemma_find_in_bounds};
use crate::text::{ci_at, ci_matches_at};
use vstd::prelude::*;
use vstd::string::StrSliceExecFns;

verus! {

/// Which alternative of the catch-all matched.
#[derive(Clone, Copy, Debug, PartialEq, Eq, Structural)]
pub enum CatchKind {
    Feat,
    Year,
    Remix,
    Album,
    Strip,
}

/// One catch-all match: its alternative, its span, and — for the
/// album alternative — the span of the marker inside it.
pub struct CatchMatch {
    pub kind: CatchKind,
    pub start: int,
    pub end: int,
    pub mstart: int,
    pub mend: int,
}

// ---------------------------------------------------------------------------
// The feature connector
// ---------------------------------------------------------------------------
/// The length of the feature connector at `j`: ` and ` surrounded by
/// whitespace, or a feature keyword (here without any word-boundary guard).
pub open spec fn conn_len(s: Seq<char>, j: int) -> Option<int> {
    if j + 5 <= s.len() && is_space(s[j]) && ci_matches_at(s, j + 1, "and"@) && is_space(s[j + 4]) {
        Some(5)
    } else {
        kw_feat_len(s, j)
    }
}

pub proof fn lemma_conn_bounds(s: Seq<char>, j: int)
    requires
        0 <= j,
        conn_len(s, j) is Some,
    ensures
        2 <= conn_len(s, j).unwrap(),
        j + conn_len(s, j).unwrap() <= s.len(),
{
    reveal_strlit("featuring");
    reveal_strlit("feat.");
    reveal_strlit("feat");
    reveal_strlit("ft.");
    reveal_strlit("ft");
    reveal_strlit("w⧸");
    reveal_strlit("w/");
    reveal_strlit("and");
}

fn conn_exec(v: &Vec<char>, j: usize) -> (r: Option<usize>)
    requires
        j <= v@.len(),
    ensures
        match r {
            Some(l) => conn_len(v@, j as int) == Some(l as int) && 2 <= l && j + l <= v@.len(),
            None => conn_len(v@, j as int) is None,
        },
{
    let n = v.len();
    if 5 <= n - j && space(v[j]) && ci_at(v, j + 1, "and") && space(v[j + 4]) {
        return Some(5);
    }
    let r = if ci_at(v, j, "featuring") {
        Some(9)
    } else if ci_at(v, j, "feat.") {
        Some(5)
    } else if ci_at(v, j, "feat") {
        Some(4)
    } else if ci_at(v, j, "ft.") {
        Some(3)
    } else if ci_at(v, j, "ft") {
        Some(2)
    } else if ci_at(v, j, "w⧸") {
        Some(2)
    } else if ci_at(v, j, "w/") {
        Some(2)
    } else {
        None
    };
    proof {
        if r is Some {
            lemma_conn_bounds(v@, j as int);
        }
    }
    r
}

// ---------------------------------------------------------------------------
// Case-insensitive containment within a span
// ---------------------------------------------------------------------------
/// `p` occurs, case-insensitively, somewhere within `s[lo..hi]`.
pub open spec fn ci_contains_in(s: Seq<char>, lo: int, hi: int, p: Seq<char>) -> bool {
    exists|k: int| lo <= k && k + p.len() <= hi && ci_matches_at(s, k, p)
}

fn ci_contains_exec(v: &Vec<char>, lo: usize, hi: usize, p: &str) -> (r: bool)
    requires
        lo <= hi <= v@.len(),
    ensures
        r == ci_contains_in(v@, lo as int, hi as int, p@),
{
    let plen = p.unicode_len();
    if plen > hi - lo {
        return false;
    }
    let stop = hi - plen;
    let mut k: usize = lo;
    while k <= stop
        invariant
            lo <= k <= stop + 1,
            stop == hi - plen,
            plen == p@.len(),
            lo <= hi <= v@.len(),
            forall|m: int| lo <= m < k ==> !ci_matches_at(v@, m, p@),
        decreases stop + 1 - k,
    {
        if ci_at(v, k, p) {
            return true;
        }
        k = k + 1;
    }
    false
}

/// A `full version` phrase — `full`, one whitespace character, `version` —
/// occurs within `s[lo..hi]`.
pub open spec fn has_full_version(s: Seq<char>, lo: int, hi: int) -> bool {
    exists|k: int|
        lo <= k && k + 12 <= hi && ci_matches_at(s, k, "full"@) && is_space(s[k + 4])
            && ci_matches_at(s, k + 5, "version"@)
}

fn has_full_version_exec(v: &Vec<char>, lo: usize, hi: usize) -> (r: bool)
    requires
        lo <= hi <= v@.len(),
    ensures
        r == has_full_version(v@, lo as int, hi as int),
{
    if 12 > hi - lo {
        return false;
    }
    let stop = hi - 12;
    let mut k: usize = lo;
    while k <= stop
        invariant
            lo <= k <= stop + 1,
            stop == hi - 12,
            lo <= hi <= v@.len(),
            forall|m: int|
                lo <= m < k ==> !(ci_matches_at(v@, m, "full"@) && is_space(v@[m + 4])
                    && ci_matches_at(v@, m + 5, "version"@)),
        decreases stop + 1 - k,
    {
        if ci_at(v, k, "full") && space(v[k + 4]) && ci_at(v, k + 5, "version") {
            proof {
                reveal_strlit("full");
                reveal_strlit("version");
            }
            return true;
        }
        k = k + 1;
    }
    false
}

// ---------------------------------------------------------------------------
// The five alternatives
// ---------------------------------------------------------------------------
/// Where the region matched by a bare connector clause ends: at the next
/// parenthesis, or at the end of the string.
pub open spec fn paren_end(s: Seq<char>, j: int) -> int {
    match find_in(s, j, seq!['(', ')']) {
        Some(k) => k,
        None => s.len() as int,
    }
}

/// The end of the feat alternative at `i`: a parenthesized connector clause
/// running to the closing parenthesis, or a bare connector clause running to
/// the next parenthesis or the end.
pub open spec fn feat_at(s: Seq<char>, i: int) -> Option<int>
    recommends
        0 <= i < s.len(),
{
    if s[i] == '(' && conn_len(s, i + 1) is Some && find_in(
        s,
        i + 1 + conn_len(s, i + 1).unwrap(),
        seq![')'],
    ) is Some {
        Some(find_in(s, i + 1 + conn_len(s, i + 1).unwrap(), seq![')']).unwrap() + 1)
    } else if conn_len(s, i) is Some {
        Some(paren_end(s, i + conn_len(s, i).unwrap()))
    } else {
        None
    }
}

/// The end of the year alternative at `i`: four digits in parentheses, or
/// four digits bare.
pub open spec fn year_at(s: Seq<char>, i: int) -> Option<int>
    recommends
        0 <= i < s.len(),
{
    if s[i] == '(' && i + 6 <= s.len() && is_digit(s[i + 1]) && is_digit(s[i + 2]) && is_digit(
        s[i + 3],
    ) && is_digit(s[i + 4]) && s[i + 5] == ')' {
        Some(i + 6)
    } else if i + 4 <= s.len() && is_digit(s[i]) && is_digit(s[i + 1]) && is_digit(s[i + 2])
        && is_digit(s[i + 3]) {
        Some(i + 4)
    } else {
        None
    }
}

/// The remix keywords; the longer forms of the pattern all contain one of
/// these.
pub open spec fn has_remix_kw(s: Seq<char>, lo: int, hi: int) -> bool {
    ||| ci_contains_in(s, lo, hi, "cut"@)
    ||| ci_contains_in(s, lo, hi, "edit"@)
    ||| ci_contains_in(s, lo, hi, "extend"@)
    ||| ci_contains_in(s, lo, hi, "mix"@)
    ||| ci_contains_in(s, lo, hi, "remaster"@)
    ||| ci_contains_in(s, lo, hi, "bootleg"@)
    ||| ci_contains_in(s, lo, hi, "instrumental"@)
}

/// The end of the remix alternative at `i`: a `[...]`/`(...)` segment with no
/// bracket character inside, whose text holds a remix keyword. The opening
/// and closing bracket need not correspond.
pub open spec fn remix_at(s: Seq<char>, i: int) -> Option<int>
    recommends
        0 <= i < s.len(),
{
    if (s[i] == '[' || s[i] == '(') && find_in(s, i + 1, seq!['[', ']', '(', ')']) is Some {
        let j = find_in(s, i + 1, seq!['[', ']', '(', ')']).unwrap();
        if (s[j] == ']' || s[j] == ')') && has_remix_kw(s, i + 1, j) {
            Some(j + 1)
        } else {
            None
        }
    } else {
        None
    }
}

/// The album marker at `k`: `F`, a character that is no ASCII letter, `C`.
pub open spec fn fc_at(s: Seq<char>, k: int) -> bool {
    0 <= k && k + 3 <= s.len() && eq_ci(s[k], 'f') && !is_ascii_letter(s[k + 1]) && eq_ci(
        s[k + 2],
        'c',
    )
}

/// The last album marker that fits within `s[lo..hi]`.
pub open spec fn last_fc(s: Seq<char>, lo: int, hi: int) -> Option<int>
    decreases hi - lo,
    when lo <= hi
{
    if hi - lo < 3 {
        None
    } else if fc_at(s, hi - 3) {
        Some(hi - 3)
    } else {
        last_fc(s, lo, hi - 1)
    }
}

fn fc_at_exec(v: &Vec<char>, k: usize) -> (r: bool)
    requires
        k + 3 <= v@.len(),
    ensures
        r == fc_at(v@, k as int),
{
    let _: usize = v.len();
    char_eq_ci(v[k], 'f') && !ascii_letter(v[k + 1]) && char_eq_ci(v[k + 2], 'c')
}

fn last_fc_exec(v: &Vec<char>, lo: usize, hi: usize) -> (r: Option<usize>)
    requires
        lo <= hi <= v@.len(),
    ensures
        match r {
            Some(k) => last_fc(v@, lo as int, hi as int) == Some(k as int) && lo <= k && k + 3
                <= hi,
            None => last_fc(v@, lo as int, hi as int) is None,
        },
    decreases hi - lo,
{
    let _: usize = v.len();
    if hi - lo < 3 {
        None
    } else if fc_at_exec(v, hi - 3) {
        Some(hi - 3)
    } else {
        last_fc_exec(v, lo, hi - 1)
    }
}

/// The end and marker span of the album alternative at `i`: a bracketed
/// segment (round, square or `【】`) with no bracket character inside, holding
/// an album marker.
pub open spec fn album_at(s: Seq<char>, i: int) -> Option<(int, int, int)>
    recommends
        0 <= i < s.len(),
{
    if (s[i] == '[' || s[i] == '(' || s[i] == '【') && find_in(
        s,
        i + 1,
        seq!['[', ']', '(', ')', '【', '】'],
    ) is Some {
        let j = find_in(s, i + 1, seq!['[', ']', '(', ')', '【', '】']).unwrap();
        if (s[j] == ']' || s[j] == ')' || s[j] == '】') && last_fc(s, i + 1, j) is Some {
            let k = last_fc(s, i + 1, j).unwrap();
            Some((j + 1, k, k + 3))
        } else {
            None
        }
    } else {
        None
    }
}

/// The junk keywords of the strip alternative.
pub open spec fn has_strip_kw(s: Seq<char>, lo: int, hi: int) -> bool {
    ||| has_full_version(s, lo, hi)
    ||| ci_contains_in(s, lo, hi, "video"@)
    ||| ci_contains_in(s, lo, hi, "audio"@)
    ||| ci_contains_in(s, lo, hi, "m/v"@)
    ||| ci_contains_in(s, lo, hi, "mv"@)
    ||| ci_contains_in(s, lo, hi, "hq"@)
    ||| ci_contains_in(s, lo, hi, "hd"@)
}

/// The end of the strip alternative at `i`: a `[...]`/`(...)` segment with no
/// bracket character inside, whose text holds a junk keyword.
pub open spec fn strip_at(s: Seq<char>, i: int) -> Option<int>
    recommends
        0 <= i < s.len(),
{
    if (s[i] == '[' || s[i] == '(') && find_in(s, i + 1, seq!['[', ']', '(', ')']) is Some {
        let j = find_in(s, i + 1, seq!['[', ']', '(', ')']).unwrap();
        if (s[j] == ']' || s[j] == ')') && has_strip_kw(s, i + 1, j) {
            Some(j + 1)
        } else {
            None
        }
    } else {
        None
    }
}

// ---------------------------------------------------------------------------
// The combined alternation
// ---------------------------------------------------------------------------
/// The match starting at `i`, taking the first alternative that fits.
pub open spec fn catch_at(s: Seq<char>, i: int) -> Option<CatchMatch>
    recommends
        0 <= i < s.len(),
{
    if feat_at(s, i) is Some {
        Some(CatchMatch { kind: CatchKind::Feat, start: i, end: feat_at(s, i).unwrap(), mstart: 0, mend: 0 })
    } else if year_at(s, i) is Some {
        Some(CatchMatch { kind: CatchKind::Year, start: i, end: year_at(s, i).unwrap(), mstart: 0, mend: 0 })
    } else if remix_at(s, i) is Some {
        Some(
            CatchMatch { kind: CatchKind::Remix, start: i, end: remix_at(s, i).unwrap(), mstart: 0, mend: 0 },
        )
    } else if album_at(s, i) is Some {
        let (e, ms, me) = album_at(s, i).unwrap();
        Some(CatchMatch { kind: CatchKind::Album, start: i, end: e, mstart: ms, mend: me })
    } else if strip_at(s, i) is Some {
        Some(
            CatchMatch { kind: CatchKind::Strip, start: i, end: strip_at(s, i).unwrap(), mstart: 0, mend: 0 },
        )
    } else {
        None
    }
}

pub proof fn lemma_catch_at_bounds(s: Seq<char>, i: int)
    requires
        0 <= i < s.len(),
        catch_at(s, i) is Some,
    ensures
        i < catch_at(s, i).unwrap().end <= s.len(),
{
    if feat_at(s, i) is Some {
        if s[i] == '(' && conn_len(s, i + 1) is Some && find_in(
            s,
            i + 1 + conn_len(s, i + 1).unwrap(),
            seq![')'],
        ) is Some {
            lemma_conn_bounds(s, i + 1);
            lemma_find_in_bounds(s, i + 1 + conn_len(s, i + 1).unwrap(), seq![')']);
        } else {
            lemma_conn_bounds(s, i);
            if find_in(s, i + conn_len(s, i).unwrap(), seq!['(', ')']) is Some {
                lemma_find_in_bounds(s, i + conn_len(s, i).unwrap(), seq!['(', ')']);
            }
        }
    } else if year_at(s, i) is Some {
    } else if remix_at(s, i) is Some {
        lemma_find_in_bounds(s, i + 1, seq!['[', ']', '(', ')']);
    } else if album_at(s, i) is Some {
        lemma_find_in_bounds(s, i + 1, seq!['[', ']', '(', ')', '【', '】']);
    } else if strip_at(s, i) is Some {
        lemma_find_in_bounds(s, i + 1, seq!['[', ']', '(', ')']);
    }
}

fn feat_exec(v: &Vec<char>, i: usize) -> (r: Option<usize>)
    requires
        i < v@.len(),
    ensures
        match r {
            Some(e) => feat_at(v@, i as int) == Some(e as int),
            None => feat_at(v@, i as int) is None,
        },
{
    let n = v.len();
    let parens = vec!['(', ')'];
    let close = vec![')'];
    proof {
        assert(parens@ =~= seq!['(', ')']);
        assert(close@ =~= seq![')']);
    }
    if v[i] == '(' {
        match conn_exec(v, i + 1) {
            Some(c) => {
                match crate::formats::find_in_exec(v, i + 1 + c, &close) {
                    Some(k) => {
                        return Some(k + 1);
                    },
                    None => {},
                }
            },
            None => {},
        }
    }
    match conn_exec(v, i) {
        Some(c) => {
            match crate::formats::find_in_exec(v, i + c, &parens) {
                Some(k) => Some(k),
                None => Some(n),
            }
        },
        None => None,
    }
}

fn year_exec(v: &Vec<char>, i: usize) -> (r: Option<usize>)
    requires
        i < v@.len(),
    ensures
        match r {
            Some(e) => year_at(v@, i as int) == Some(e as int),
            None => year_at(v@, i as int) is None,
        },
{
    let n = v.len();
    if v[i] == '(' && 6 <= n - i && crate::chars::digit(v[i + 1]) && crate::chars::digit(v[i + 2])
        && crate::chars::digit(v[i + 3]) && crate::chars::digit(v[i + 4]) && v[i + 5] == ')' {
        Some(i + 6)
    } else if 4 <= n - i && crate::chars::digit(v[i]) && crate::chars::digit(v[i + 1])
        && crate::chars::digit(v[i + 2]) && crate::chars::digit(v[i + 3]) {
        Some(i + 4)
    } else {
        None
    }
}

fn remix_exec(v: &Vec<char>, i: usize) -> (r: Option<usize>)
    requires
        i < v@.len(),
    ensures
        match r {
            Some(e) => remix_at(v@, i as int) == Some(e as int),
            None => remix_at(v@, i as int) is None,
        },
{
    let _: usize = v.len();
    if !(v[i] == '[' || v[i] == '(') {
        return None;
    }
    let brackets = vec!['[', ']', '(', ')'];
    proof {
        assert(brackets@ =~= seq!['[', ']', '(', ')']);
    }
    let j = match crate::formats::find_in_exec(v, i + 1, &brackets) {
        Some(j) => j,
        None => {
            return None;
        },
    };
    if !(v[j] == ']' || v[j] == ')') {
        return None;
    }
    if ci_contains_exec(v, i + 1, j, "cut") || ci_contains_exec(v, i + 1, j, "edit")
        || ci_contains_exec(v, i + 1, j, "extend") || ci_contains_exec(v, i + 1, j, "mix")
        || ci_contains_exec(v, i + 1, j, "remaster") || ci_contains_exec(v, i + 1, j, "bootleg")
        || ci_contains_exec(v, i + 1, j, "instrumental") {
        Some(j + 1)
    } else {
        None
    }
}

fn album_exec(v: &Vec<char>, i: usize) -> (r: Option<(usize, usize, usize)>)
    requires
        i < v@.len(),
    ensures
        match r {
            Some((e, ms, me)) => album_at(v@, i as int) == Some((e as int, ms as int, me as int))
                && ms <= me <= v@.len(),
            None => album_at(v@, i as int) is None,
        },
{
    let _: usize = v.len();
    if !(v[i] == '[' || v[i] == '(' || v[i] == '【') {
        return None;
    }
    let brackets = vec!['[', ']', '(', ')', '【', '】'];
    proof {
        assert(brackets@ =~= seq!['[', ']', '(', ')', '【', '】']);
    }
    let j = match crate::formats::find_in_exec(v, i + 1, &brackets) {
        Some(j) => j,
        None => {
            return None;
        },
    };
    if !(v[j] == ']' || v[j] == ')' || v[j] == '】') {
        return None;
    }
    match last_fc_exec(v, i + 1, j) {
        Some(k) => Some((j + 1, k, k + 3)),
        None => None,
    }
}

fn strip_exec(v: &Vec<char>, i: usize) -> (r: Option<usize>)
    requires
        i < v@.len(),
    ensures
        match r {
            Some(e) => strip_at(v@, i as int) == Some(e as int),
            None => strip_at(v@, i as int) is None,
        },
{
    let _: usize = v.len();
    if !(v[i] == '[' || v[i] == '(') {
        return None;
    }
    let brackets = vec!['[', ']', '(', ')'];
    proof {
        assert(brackets@ =~= seq!['[', ']', '(', ')']);
    }
    let j = match crate::formats::find_in_exec(v, i + 1, &brackets) {
        Some(j) => j,
        None => {
            return None;
        },
    };
    if !(v[j] == ']' || v[j] == ')') {
        return None;
    }
    if has_full_version_exec(v, i + 1, j) || ci_contains_exec(v, i + 1, j, "video")
        || ci_contains_exec(v, i + 1, j, "audio") || ci_contains_exec(v, i + 1, j, "m/v")
        || ci_contains_exec(v, i + 1, j, "mv") || ci_contains_exec(v, i + 1, j, "hq")
        || ci_contains_exec(v, i + 1, j, "hd") {
        Some(j + 1)
    } else {
        None
    }
}

/// Try the alternatives at `i`, in preference order.
pub fn catch_exec(v: &Vec<char>, i: usize) -> (r: Option<(CatchKind, usize, usize, usize)>)
    requires
        i < v@.len(),
    ensures
        match r {
            Some((kind, e, ms, me)) => catch_at(v@, i as int) == Some(
                CatchMatch {
                    kind,
                    start: i as int,
                    end: e as int,
                    mstart: ms as int,
                    mend: me as int,
                },
            ) && i < e <= v@.len() && ms <= me <= v@.len(),
            None => catch_at(v@, i as int) is None,
        },
{
    proof {
        if catch_at(v@, i as int) is Some {
            lemma_catch_at_bounds(v@, i as int);
        }
    }
    match feat_exec(v, i) {
        Some(e) => {
            return Some((CatchKind::Feat, e, 0, 0));
        },
        None => {},
    }
    match year_exec(v, i) {
        Some(e) => {
            return Some((CatchKind::Year, e, 0, 0));
        },
        None => {},
    }
    match remix_exec(v, i) {
        Some(e) => {
            return Some((CatchKind::Remix, e, 0, 0));
        },
        None => {},
    }
    match album_exec(v, i) {
        Some((e, ms, me)) => {
            return Some((CatchKind::Album, e, ms, me));
        },
        None => {},
    }
    match strip_exec(v, i) {
        Some(e) => {
            return Some((CatchKind::Strip, e, 0, 0));
        },
        None => {},
    }
    None
}

/// The successive non-overlapping matches of the catch-all over `s`, from
/// position `i` on.
pub open spec fn catch_list(s: Seq<char>, i: int) -> Seq<CatchMatch>
    decreases s.len() - i,
    when 0 <= i <= s.len()
    via catch_list_dec
{
    if i >= s.len() {
        Seq::empty()
    } else if catch_at(s, i) is Some {
        seq![catch_at(s, i).unwrap()] + catch_list(s, catch_at(s, i).unwrap().end)
    } else {
        catch_list(s, i + 1)
    }
}

#[via_fn]
proof fn catch_list_dec(s: Seq<char>, i: int) {
    if i < s.len() && catch_at(s, i) is Some {
        lemma_catch_at_bounds(s, i);
    }
}

} // verus!
