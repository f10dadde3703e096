//! The ordered whole-string title formats. Each one captures a different
//! canonical layout, and the first that matches wins:
//!
//! 1. `「genre」[artists] title`
//! 2. `artists 'title'` or `artists 'title'extra`, with straight or curly
//!    quotes
//! 3. `track#.? artists SEP title`, where `SEP` is one of `- _ ~ ｜`
//!
//! A dot in a layout may match any character but a newline, exactly as the
//! layouts are written here.

use crate::chars::{is_digit, is_space, space};
use vstd::prelude::*;

verus! {

/// Captures of a title format: the fields it filled.
pub struct FormatTags {
    pub genre: Option<Vec<char>>,
    pub track: Option<Vec<char>>,
    pub artists: Option<Vec<char>>,
    pub title: Option<Vec<char>>,
    pub extra: Option<Vec<char>>,
}

/// The ghost image of `FormatTags`.
pub struct FormatCapsSpec {
    pub genre: Option<Seq<char>>,
    pub track: Option<Seq<char>>,
    pub artists: Option<Seq<char>>,
    pub title: Option<Seq<char>>,
    pub extra: Option<Seq<char>>,
}

pub open spec fn opt_view(o: Option<Vec<char>>) -> Option<Seq<char>> {
    match o {
        Some(v) => Some(v@),
        None => None,
    }
}

pub open spec fn caps_view(t: FormatTags) -> FormatCapsSpec {
    FormatCapsSpec {
        genre: opt_view(t.genre),
        track: opt_view(t.track),
        artists: opt_view(t.artists),
        title: opt_view(t.title),
        extra: opt_view(t.extra),
    }
}

/// No newline anywhere in `s`.
pub open spec fn no_newline(s: Seq<char>) -> bool {
    forall|i: int| 0 <= i < s.len() ==> #[trigger] s[i] != '\n'
}

fn no_newline_exec(v: &Vec<char>, from: usize) -> (r: bool)
    requires
        from <= v@.len(),
    ensures
        r == no_newline(v@.skip(from as int)),
{
    let mut i: usize = from;
    while i < v.len()
        invariant
            from <= i <= v@.len(),
            forall|k: int| from <= k < i ==> #[trigger] v@[k] != '\n',
        decreases v@.len() - i,
    {
        if v[i] == '\n' {
            proof {
                assert(v@.skip(from as int)[i - from] == v@[i as int]);
            }
            return false;
        }
        i = i + 1;
    }
    proof {
        assert(forall|k: int|
            0 <= k < v@.skip(from as int).len() ==> #[trigger] v@.skip(from as int)[k] == v@[k
                + from]);
    }
    true
}

/// The first index at or after `i` whose character is in `cs`.
pub open spec fn find_in(s: Seq<char>, i: int, cs: Seq<char>) -> Option<int>
    decreases s.len() - i,
    when 0 <= i <= s.len()
{
    if i >= s.len() {
        None
    } else if cs.contains(s[i]) {
        Some(i)
    } else {
        find_in(s, i + 1, cs)
    }
}

pub proof fn lemma_find_in_bounds(s: Seq<char>, i: int, cs: Seq<char>)
    requires
        0 <= i <= s.len(),
        find_in(s, i, cs) is Some,
    ensures
        i <= find_in(s, i, cs).unwrap() < s.len(),
        cs.contains(s[find_in(s, i, cs).unwrap()]),
    decreases s.len() - i,
{
    if i >= s.len() {
    } else if cs.contains(s[i]) {
    } else {
        lemma_find_in_bounds(s, i + 1, cs);
    }
}

fn contains_char(cs: &Vec<char>, c: char) -> (r: bool)
    ensures
        r == cs@.contains(c),
{
    let mut i: usize = 0;
    while i < cs.len()
        invariant
            0 <= i <= cs@.len(),
            forall|k: int| 0 <= k < i ==> cs@[k] != c,
        decreases cs@.len() - i,
    {
        if cs[i] == c {
            return true;
        }
        i = i + 1;
    }
    false
}

pub(crate) fn find_in_exec(v: &Vec<char>, i: usize, cs: &Vec<char>) -> (r: Option<usize>)
    requires
        i <= v@.len(),
    ensures
        match r {
            Some(j) => find_in(v@, i as int, cs@) == Some(j as int) && i <= j < v@.len(),
            None => find_in(v@, i as int, cs@) is None,
        },
{
    let mut j: usize = i;
    while j < v.len()
        invariant
            i <= j <= v@.len(),
            find_in(v@, i as int, cs@) == find_in(v@, j as int, cs@),
        decreases v@.len() - j,
    {
        if contains_char(cs, v[j]) {
            return Some(j);
        }
        j = j + 1;
    }
    None
}

/// The end of the run of digits beginning at `i`.
pub open spec fn digits_end(s: Seq<char>, i: int) -> int
    decreases s.len() - i,
    when 0 <= i <= s.len()
{
    if i < s.len() && is_digit(s[i]) {
        digits_end(s, i + 1)
    } else {
        i
    }
}

pub proof fn lemma_digits_end_bounds(s: Seq<char>, i: int)
    requires
        0 <= i <= s.len(),
    ensures
        i <= digits_end(s, i) <= s.len(),
    decreases s.len() - i,
{
    if i < s.len() && is_digit(s[i]) {
        lemma_digits_end_bounds(s, i + 1);
    }
}

fn digits_end_exec(v: &Vec<char>) -> (r: usize)
    ensures
        r as int == digits_end(v@, 0),
        r <= v@.len(),
{
    let mut j: usize = 0;
    while j < v.len() && 48 <= v[j] as u32 && v[j] as u32 <= 57
        invariant
            0 <= j <= v@.len(),
            digits_end(v@, 0) == digits_end(v@, j as int),
        decreases v@.len() - j,
    {
        j = j + 1;
    }
    j
}

// ---------------------------------------------------------------------------
// Format 1: 「genre」[artists] title
// ---------------------------------------------------------------------------
pub open spec fn fmt1_spec(s: Seq<char>) -> Option<FormatCapsSpec> {
    if s.len() > 0 && s[0] == '「' && find_in(s, 1, seq!['」']) is Some {
        let g = find_in(s, 1, seq!['」']).unwrap();
        if g > 1 && g + 1 < s.len() && s[g + 1] == '[' && find_in(s, g + 2, seq![']']) is Some {
            let a = find_in(s, g + 2, seq![']']).unwrap();
            if a > g + 2 && a + 2 < s.len() && is_space(s[a + 1]) && no_newline(s.skip(a + 2)) {
                Some(
                    FormatCapsSpec {
                        genre: Some(s.subrange(1, g)),
                        track: None,
                        artists: Some(s.subrange(g + 2, a)),
                        title: Some(s.skip(a + 2)),
                        extra: None,
                    },
                )
            } else {
                None
            }
        } else {
            None
        }
    } else {
        None
    }
}

fn fmt1_exec(v: &Vec<char>) -> (r: Option<FormatTags>)
    ensures
        match r {
            Some(t) => fmt1_spec(v@) == Some(caps_view(t)),
            None => fmt1_spec(v@) is None,
        },
{
    let n = v.len();
    if n == 0 || v[0] != '「' {
        return None;
    }
    let close_genre = vec!['」'];
    proof {
        assert(close_genre@ =~= seq!['」']);
    }
    let g = match find_in_exec(v, 1, &close_genre) {
        Some(g) => g,
        None => {
            return None;
        },
    };
    if !(g > 1 && g + 1 < v.len() && v[g + 1] == '[') {
        return None;
    }
    let close_art = vec![']'];
    proof {
        assert(close_art@ =~= seq![']']);
    }
    let a = match find_in_exec(v, g + 2, &close_art) {
        Some(a) => a,
        None => {
            return None;
        },
    };
    if !(a > g + 2 && n - a > 2 && space(v[a + 1]) && no_newline_exec(v, a + 2)) {
        return None;
    }
    let genre = crate::text::subvec(v, 1, g);
    let artists = crate::text::subvec(v, g + 2, a);
    let title = crate::text::subvec(v, a + 2, v.len());
    proof {
        assert(title@ =~= v@.skip(a + 2));
    }
    Some(
        FormatTags {
            genre: Some(genre),
            track: None,
            artists: Some(artists),
            title: Some(title),
            extra: None,
        },
    )
}

// ---------------------------------------------------------------------------
// Format 2: artists 'title' extra?
// ---------------------------------------------------------------------------
pub open spec fn fmt2_spec(s: Seq<char>) -> Option<FormatCapsSpec> {
    if find_in(s, 0, seq!['\'', '‘']) is Some {
        let q = find_in(s, 0, seq!['\'', '‘']).unwrap();
        if q >= 2 && is_space(s[q - 1]) && find_in(s, q + 1, seq!['\'', '’']) is Some {
            let e = find_in(s, q + 1, seq!['\'', '’']).unwrap();
            if e > q + 1 && (e + 1 == s.len() || no_newline(s.skip(e + 1))) {
                Some(
                    FormatCapsSpec {
                        genre: None,
                        track: None,
                        artists: Some(s.subrange(0, q - 1)),
                        title: Some(s.subrange(q + 1, e)),
                        extra: if e + 1 < s.len() {
                            Some(s.skip(e + 1))
                        } else {
                            None
                        },
                    },
                )
            } else {
                None
            }
        } else {
            None
        }
    } else {
        None
    }
}

fn fmt2_exec(v: &Vec<char>) -> (r: Option<FormatTags>)
    ensures
        match r {
            Some(t) => fmt2_spec(v@) == Some(caps_view(t)),
            None => fmt2_spec(v@) is None,
        },
{
    let n = v.len();
    let opens = vec!['\'', '‘'];
    proof {
        assert(opens@ =~= seq!['\'', '‘']);
    }
    let q = match find_in_exec(v, 0, &opens) {
        Some(q) => q,
        None => {
            return None;
        },
    };
    if !(q >= 2 && space(v[q - 1])) {
        return None;
    }
    let closes = vec!['\'', '’'];
    proof {
        assert(closes@ =~= seq!['\'', '’']);
    }
    let e = match find_in_exec(v, q + 1, &closes) {
        Some(e) => e,
        None => {
            return None;
        },
    };
    if !(e > q + 1 && (e + 1 == v.len() || no_newline_exec(v, e + 1))) {
        return None;
    }
    let artists = crate::text::subvec(v, 0, q - 1);
    let title = crate::text::subvec(v, q + 1, e);
    let extra: Option<Vec<char>> = if e + 1 < v.len() {
        let x = crate::text::subvec(v, e + 1, v.len());
        proof {
            assert(x@ =~= v@.skip(e + 1));
        }
        Some(x)
    } else {
        None
    };
    Some(FormatTags { genre: None, track: None, artists: Some(artists), title: Some(title), extra })
}

// ---------------------------------------------------------------------------
// Format 3: track#.? artists SEP title
// ---------------------------------------------------------------------------
/// The artists/separator/title split of `s` from `b` on: the text up to the
/// first separator, and the text after it.
pub open spec fn fmt3_tail(s: Seq<char>, b: int) -> Option<(Seq<char>, Seq<char>)>
    recommends
        0 <= b <= s.len(),
{
    if find_in(s, b, seq!['-', '_', '~', '｜']) is Some {
        let m = find_in(s, b, seq!['-', '_', '~', '｜']).unwrap();
        if m > b && m + 1 < s.len() && no_newline(s.skip(m + 1)) {
            Some((s.subrange(b, m), s.skip(m + 1)))
        } else {
            None
        }
    } else {
        None
    }
}

pub open spec fn fmt3_spec(s: Seq<char>) -> Option<FormatCapsSpec> {
    let d = digits_end(s, 0);
    if d > 0 && d < s.len() && s[d] == '.' && fmt3_tail(s, d + 1) is Some {
        let (ar, ti) = fmt3_tail(s, d + 1).unwrap();
        Some(
            FormatCapsSpec {
                genre: None,
                track: Some(s.subrange(0, d + 1)),
                artists: Some(ar),
                title: Some(ti),
                extra: None,
            },
        )
    } else {
        match fmt3_tail(s, 0) {
            Some((ar, ti)) => Some(
                FormatCapsSpec {
                    genre: None,
                    track: None,
                    artists: Some(ar),
                    title: Some(ti),
                    extra: None,
                },
            ),
            None => None,
        }
    }
}

fn fmt3_tail_exec(v: &Vec<char>, b: usize) -> (r: Option<(Vec<char>, Vec<char>)>)
    requires
        b <= v@.len(),
    ensures
        match r {
            Some(t) => fmt3_tail(v@, b as int) == Some((t.0@, t.1@)),
            None => fmt3_tail(v@, b as int) is None,
        },
{
    let n = v.len();
    let seps = vec!['-', '_', '~', '｜'];
    proof {
        assert(seps@ =~= seq!['-', '_', '~', '｜']);
    }
    let m = match find_in_exec(v, b, &seps) {
        Some(m) => m,
        None => {
            return None;
        },
    };
    if !(m > b && m + 1 < v.len() && no_newline_exec(v, m + 1)) {
        return None;
    }
    let artists = crate::text::subvec(v, b, m);
    let title = crate::text::subvec(v, m + 1, v.len());
    proof {
        assert(title@ =~= v@.skip(m + 1));
    }
    Some((artists, title))
}

fn fmt3_exec(v: &Vec<char>) -> (r: Option<FormatTags>)
    ensures
        match r {
            Some(t) => fmt3_spec(v@) == Some(caps_view(t)),
            None => fmt3_spec(v@) is None,
        },
{
    let d = digits_end_exec(v);
    if d > 0 && d < v.len() && v[d] == '.' {
        match fmt3_tail_exec(v, d + 1) {
            Some((ar, ti)) => {
                let track = crate::text::subvec(v, 0, d + 1);
                return Some(
                    FormatTags {
                        genre: None,
                        track: Some(track),
                        artists: Some(ar),
                        title: Some(ti),
                        extra: None,
                    },
                );
            },
            None => {},
        }
    }
    match fmt3_tail_exec(v, 0) {
        Some((ar, ti)) => Some(
            FormatTags {
                genre: None,
                track: None,
                artists: Some(ar),
                title: Some(ti),
                extra: None,
            },
        ),
        None => None,
    }
}

// ---------------------------------------------------------------------------
// The ordered cascade
// ---------------------------------------------------------------------------
/// The captures of the first format that matches the whole title, if any.
pub open spec fn format_spec(s: Seq<char>) -> Option<FormatCapsSpec> {
    if fmt1_spec(s) is Some {
        fmt1_spec(s)
    } else if fmt2_spec(s) is Some {
        fmt2_spec(s)
    } else {
        fmt3_spec(s)
    }
}

/// Try each title format in order; the first that captures anything wins.
pub fn match_formats(v: &Vec<char>) -> (r: Option<FormatTags>)
    ensures
        match r {
            Some(t) => format_spec(v@) == Some(caps_view(t)),
            None => format_spec(v@) is None,
        },
{
    match fmt1_exec(v) {
        Some(t) => Some(t),
        None => match fmt2_exec(v) {
            Some(t) => Some(t),
            None => fmt3_exec(v),
        },
    }
}

} // verus!
