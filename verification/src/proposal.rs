//! The tag proposal: the mutable record of extracted and edited metadata for
//! one file. It merges artist lists without duplicates, and `update` derives
//! the artist, the final title and the sanitized filename from the other
//! fields through the templates — it caches nothing and is a pure function of
//! the fields at the moment of the call.

use crate::artists::views_of;
use crate::numbers::{dec_seq, dec_seq_i32, push_decimal, push_decimal_i32};
use crate::text::{
    chars_of, collapse_spaces_vec, replace_all, replace_seq, string_of, strip_empty_pairs_vec,
    trim_vec,
};
use vstd::prelude::*;
use vstd::string::StrSliceExecFns;

verus! {

/// The proposed tag values for one file.
#[derive(Debug, PartialEq)]
pub struct TagProposal {
    pub album: Option<String>,
    pub album_artist: Option<String>,
    pub all_artists: Option<Vec<String>>,
    pub artist: Option<String>,
    pub filename: String,
    pub final_title: Option<String>,
    pub genre: Option<String>,
    pub remix: Option<String>,
    pub title: Option<String>,
    pub track: Option<u16>,
    pub year: Option<i32>,
}

/// The mathematical image of a proposal.
#[verifier::ext_equal]
pub struct ProposalView {
    pub album: Option<Seq<char>>,
    pub album_artist: Option<Seq<char>>,
    pub all_artists: Option<Seq<Seq<char>>>,
    pub artist: Option<Seq<char>>,
    pub filename: Seq<char>,
    pub final_title: Option<Seq<char>>,
    pub genre: Option<Seq<char>>,
    pub remix: Option<Seq<char>>,
    pub title: Option<Seq<char>>,
    pub track: Option<u16>,
    pub year: Option<i32>,
}

pub open spec fn ov(o: Option<String>) -> Option<Seq<char>> {
    match o {
        Some(s) => Some(s@),
        None => None,
    }
}

impl View for TagProposal {
    type V = ProposalView;

    open spec fn view(&self) -> ProposalView {
        ProposalView {
            album: ov(self.album),
            album_artist: ov(self.album_artist),
            all_artists: match self.all_artists {
                Some(v) => Some(views_of(v@)),
                None => None,
            },
            artist: ov(self.artist),
            filename: self.filename@,
            final_title: ov(self.final_title),
            genre: ov(self.genre),
            remix: ov(self.remix),
            title: ov(self.title),
            track: self.track,
            year: self.year,
        }
    }
}

/// The proposal with no field set.
pub open spec fn empty_proposal() -> ProposalView {
    ProposalView {
        album: None,
        album_artist: None,
        all_artists: None,
        artist: None,
        filename: Seq::empty(),
        final_title: None,
        genre: None,
        remix: None,
        title: None,
        track: None,
        year: None,
    }
}

impl Default for TagProposal {
    /// The empty proposal.
    fn default() -> (r: Self)
        ensures
            r@ == empty_proposal(),
    {
        TagProposal {
            album: None,
            album_artist: None,
            all_artists: None,
            artist: None,
            filename: String::new(),
            final_title: None,
            genre: None,
            remix: None,
            title: None,
            track: None,
            year: None,
        }
    }
}

// ---------------------------------------------------------------------------
// Artist merging
// ---------------------------------------------------------------------------
/// `cur` with every name of `new` appended in order, unless it is empty or
/// already present.
pub open spec fn merge_artists(cur: Seq<Seq<char>>, new: Seq<Seq<char>>) -> Seq<Seq<char>>
    decreases new.len(),
{
    if new.len() == 0 {
        cur
    } else {
        let c2 = if new[0].len() == 0 || cur.contains(new[0]) {
            cur
        } else {
            cur.push(new[0])
        };
        merge_artists(c2, new.drop_first())
    }
}

/// The artist list of a proposal, empty when unset.
pub open spec fn artists_or_empty(p: ProposalView) -> Seq<Seq<char>> {
    match p.all_artists {
        Some(a) => a,
        None => Seq::empty(),
    }
}

/// A well-formed artist list: no empty name and no name twice.
pub open spec fn wf_artists(a: Seq<Seq<char>>) -> bool {
    &&& forall|i: int| 0 <= i < a.len() ==> #[trigger] a[i].len() > 0
    &&& forall|i: int, j: int| 0 <= i < j < a.len() ==> a[i] != a[j]
}

/// Merging preserves well-formedness: the artist list never gains an empty
/// name nor the same name twice.
pub proof fn lemma_merge_artists_wf(cur: Seq<Seq<char>>, new: Seq<Seq<char>>)
    requires
        wf_artists(cur),
    ensures
        wf_artists(merge_artists(cur, new)),
    decreases new.len(),
{
    if new.len() == 0 {
    } else {
        let c2 = if new[0].len() == 0 || cur.contains(new[0]) {
            cur
        } else {
            cur.push(new[0])
        };
        if !(new[0].len() == 0 || cur.contains(new[0])) {
            assert(forall|i: int| 0 <= i < cur.len() ==> #[trigger] cur[i] != new[0]);
            assert(forall|i: int| 0 <= i < c2.len() ==> #[trigger] c2[i].len() > 0);
            assert(forall|i: int, j: int| 0 <= i < j < c2.len() ==> c2[i] != c2[j]);
        }
        lemma_merge_artists_wf(c2, new.drop_first());
    }
}

/// Merging one more name is one step on the merged list.
pub proof fn lemma_merge_push(cur: Seq<Seq<char>>, a: Seq<Seq<char>>, x: Seq<char>)
    ensures
        merge_artists(cur, a.push(x)) == (if x.len() == 0 || merge_artists(cur, a).contains(x) {
            merge_artists(cur, a)
        } else {
            merge_artists(cur, a).push(x)
        }),
    decreases a.len(),
{
    if a.len() == 0 {
        let c2 = if x.len() == 0 || cur.contains(x) {
            cur
        } else {
            cur.push(x)
        };
        assert(a.push(x).drop_first() =~= a);
        assert(a.push(x)[0] == x);
        assert(merge_artists(cur, a) == cur);
        assert(merge_artists(c2, a) == c2);
        assert(merge_artists(cur, a.push(x)) == merge_artists(c2, a));
    } else {
        let c2 = if a[0].len() == 0 || cur.contains(a[0]) {
            cur
        } else {
            cur.push(a[0])
        };
        assert(a.push(x)[0] == a[0]);
        assert(a.push(x).drop_first() =~= a.drop_first().push(x));
        lemma_merge_push(c2, a.drop_first(), x);
        assert(merge_artists(cur, a.push(x)) == merge_artists(c2, a.drop_first().push(x)));
        assert(merge_artists(cur, a) == merge_artists(c2, a.drop_first()));
    }
}

fn contains_string(v: &Vec<String>, s: &String) -> (r: bool)
    ensures
        r == views_of(v@).contains(s@),
{
    let mut i: usize = 0;
    while i < v.len()
        invariant
            0 <= i <= v@.len(),
            forall|k: int| 0 <= k < i ==> #[trigger] v@[k]@ != s@,
        decreases v@.len() - i,
    {
        if v[i] == *s {
            proof {
                assert(views_of(v@)[i as int] == s@);
            }
            return true;
        }
        i = i + 1;
    }
    proof {
        assert(forall|k: int| 0 <= k < views_of(v@).len() ==> #[trigger] views_of(v@)[k] == v@[k]@);
    }
    false
}

impl TagProposal {
    /// Append every name not yet present, preserving first-seen order and
    /// never adding an empty name or a duplicate.
    pub fn feature(&mut self, artists: Vec<String>)
        ensures
            final(self)@ == (ProposalView {
                all_artists: Some(
                    merge_artists(artists_or_empty(old(self)@), views_of(artists@)),
                ),
                ..old(self)@
            }),
    {
        let mut cur: Vec<String> = Vec::new();
        match &self.all_artists {
            Some(existing) => {
                let mut i: usize = 0;
                while i < existing.len()
                    invariant
                        0 <= i <= existing@.len(),
                        cur@.len() == i,
                        forall|k: int| 0 <= k < i ==> #[trigger] cur@[k]@ == existing@[k]@,
                    decreases existing@.len() - i,
                {
                    cur.push(existing[i].clone());
                    i = i + 1;
                }
                proof {
                    assert(views_of(cur@) =~= artists_or_empty(self@));
                }
            },
            None => {
                proof {
                    assert(views_of(cur@) =~= artists_or_empty(self@));
                }
            },
        }
        let ghost base = artists_or_empty(self@);
        let ghost news = views_of(artists@);
        proof {
            assert(news.take(0) =~= Seq::<Seq<char>>::empty());
        }
        let mut i: usize = 0;
        while i < artists.len()
            invariant
                0 <= i <= artists@.len(),
                news == views_of(artists@),
                views_of(cur@) == merge_artists(base, news.take(i as int)),
            decreases artists@.len() - i,
        {
            let name = artists[i].clone();
            proof {
                lemma_merge_push(base, news.take(i as int), news[i as int]);
                assert(news.take(i as int).push(news[i as int]) =~= news.take(i as int + 1));
            }
            if !name.as_str().is_empty() && !contains_string(&cur, &name) {
                cur.push(name);
                proof {
                    assert(views_of(cur@) =~= merge_artists(base, news.take(i as int)).push(
                        news[i as int],
                    ));
                }
            }
            i = i + 1;
        }
        proof {
            assert(news.take(artists@.len() as int) =~= news);
        }
        self.all_artists = Some(cur);
    }
}

// ---------------------------------------------------------------------------
// The featuring clause
// ---------------------------------------------------------------------------
/// The names joined with `", "`.
pub open spec fn comma_join(xs: Seq<Seq<char>>) -> Seq<char>
    decreases xs.len(),
{
    if xs.len() == 0 {
        Seq::empty()
    } else if xs.len() == 1 {
        xs[0]
    } else {
        comma_join(xs.drop_last()) + ", "@ + xs.last()
    }
}

/// The featuring clause: the extra names joined with `", "`, with the last
/// separator written `" & "`.
pub open spec fn feat_clause(xs: Seq<Seq<char>>) -> Seq<char> {
    if xs.len() <= 1 {
        comma_join(xs)
    } else {
        comma_join(xs.drop_last()) + " & "@ + xs.last()
    }
}

/// Push every character of `s` onto `out`.
pub(crate) fn push_str_chars(out: &mut Vec<char>, s: &str)
    ensures
        final(out)@ == old(out)@ + s@,
{
    let n = s.unicode_len();
    let mut i: usize = 0;
    while i < n
        invariant
            0 <= i <= n,
            n == s@.len(),
            out@ == old(out)@ + s@.subrange(0, i as int),
        decreases n - i,
    {
        out.push(s.get_char(i));
        i = i + 1;
        proof {
            assert(out@ =~= old(out)@ + s@.subrange(0, i as int));
        }
    }
    proof {
        assert(old(out)@ + s@.subrange(0, n as int) =~= old(out)@ + s@);
    }
}

/// The featuring clause of the artists after the first.
fn feat_clause_exec(arts: &Vec<String>) -> (r: Vec<char>)
    requires
        arts@.len() >= 1,
    ensures
        r@ == feat_clause(views_of(arts@).skip(1)),
{
    let ghost xs = views_of(arts@).skip(1);
    let m = arts.len();
    let mut out: Vec<char> = Vec::new();
    if m == 1 {
        proof {
            assert(xs.len() == 0);
            assert(out@ =~= feat_clause(xs));
        }
        return out;
    }
    if m == 2 {
        push_str_chars(&mut out, arts[1].as_str());
        proof {
            assert(xs =~= seq![arts@[1]@]);
            assert(Seq::<char>::empty() + arts@[1]@ =~= arts@[1]@);
            assert(out@ =~= feat_clause(xs));
        }
        return out;
    }
    // the names before the last, joined with ", "
    let mut k: usize = 1;
    while k < m - 1
        invariant
            1 <= k <= m - 1,
            m == arts@.len(),
            m >= 3,
            xs == views_of(arts@).skip(1),
            out@ == comma_join(xs.take(k - 1)),
        decreases m - 1 - k,
    {
        if k > 1 {
            push_str_chars(&mut out, ", ");
        }
        push_str_chars(&mut out, arts[k].as_str());
        proof {
            let t = xs.take(k as int);
            assert(t.drop_last() =~= xs.take(k - 1));
            assert(t.last() == arts@[k as int]@);
            if k == 1 {
                assert(Seq::<char>::empty() + arts@[1]@ =~= arts@[1]@);
                assert(out@ =~= comma_join(xs.take(1)));
            } else {
                assert(out@ =~= comma_join(xs.take(k - 1)) + ", "@ + arts@[k as int]@);
            }
        }
        k = k + 1;
    }
    push_str_chars(&mut out, " & ");
    push_str_chars(&mut out, arts[m - 1].as_str());
    proof {
        assert(xs.drop_last() =~= xs.take(m - 2));
        assert(xs.last() == arts@[m - 1]@);
        assert(out@ =~= feat_clause(xs));
    }
    out
}

// ---------------------------------------------------------------------------
// The template engine
// ---------------------------------------------------------------------------
pub open spec fn or_empty(o: Option<Seq<char>>) -> Seq<char> {
    match o {
        Some(s) => s,
        None => Seq::empty(),
    }
}

pub open spec fn track_text(t: Option<u16>) -> Seq<char> {
    match t {
        Some(x) => dec_seq(x as nat),
        None => Seq::empty(),
    }
}

pub open spec fn year_text(y: Option<i32>) -> Seq<char> {
    match y {
        Some(x) => dec_seq_i32(x as int),
        None => Seq::empty(),
    }
}

/// What `apply_template` returns: each token replaced by the field's text
/// (empty when unset), in a fixed order, then empty bracket pairs deleted,
/// duplicate whitespace collapsed, and the ends trimmed.
pub open spec fn template_spec(
    p: ProposalView,
    feat: Seq<char>,
    title: Option<Seq<char>>,
    template: Seq<char>,
) -> Seq<char> {
    let s1 = replace_seq(template, "{album}"@, or_empty(p.album));
    let s2 = replace_seq(s1, "{album_artist}"@, or_empty(p.album_artist));
    let s3 = replace_seq(s2, "{artist}"@, or_empty(p.artist));
    let s4 = replace_seq(s3, "{feat}"@, feat);
    let s5 = replace_seq(s4, "{genre}"@, or_empty(p.genre));
    let s6 = replace_seq(s5, "{remix}"@, or_empty(p.remix));
    let s7 = replace_seq(s6, "{title}"@, or_empty(title));
    let s8 = replace_seq(s7, "{track}"@, track_text(p.track));
    let s9 = replace_seq(s8, "{year}"@, year_text(p.year));
    crate::text::trim_seq(crate::text::collapse_spaces(crate::text::strip_empty_pairs(s9)))
}

/// The filename text that the filesystem sanitizer returns, as
/// `sanitize_filename` computes it with fixed options.
pub uninterp spec fn sanitized_of(s: Seq<char>) -> Seq<char>;

/// Relies on `sanitize_filename::sanitize_with_options`, called with fixed
/// options (no platform dependence: windows rules off, truncation on, empty
/// replacement), so the result depends on the characters alone.
#[verifier::external_body]
fn sanitize(s: &str) -> (r: String)
    ensures
        r@ == sanitized_of(s@),
{
    sanitize_filename::sanitize_with_options(
        s,
        sanitize_filename::Options { windows: false, truncate: true, replacement: "" },
    )
}

fn chars_of_opt(o: &Option<String>) -> (r: Vec<char>)
    ensures
        r@ == or_empty(ov(*o)),
{
    match o {
        Some(s) => chars_of(s.as_str()),
        None => Vec::new(),
    }
}

/// What `update` leaves behind: the artist rebuilt from the artist list, the
/// final title rendered from the title template, and the filename rendered
/// from the filename template (with the final title as its `{title}`) and
/// sanitized.
pub open spec fn update_spec(p: ProposalView, tt: Seq<char>, ft: Seq<char>) -> ProposalView {
    let arts = artists_or_empty(p);
    let artist = if arts.len() > 0 {
        Some(arts[0])
    } else {
        None
    };
    let feat = if arts.len() > 0 {
        feat_clause(arts.skip(1))
    } else {
        Seq::empty()
    };
    let p1 = ProposalView { artist, ..p };
    let ftitle = template_spec(p1, feat, p.title, tt);
    let fname = sanitized_of(template_spec(p1, feat, Some(ftitle), ft));
    ProposalView { artist, final_title: Some(ftitle), filename: fname, ..p }
}


/// Updating derives and caches nothing: a second update with the same
/// templates leaves the proposal exactly as the first one did.
pub proof fn lemma_update_idempotent(p: ProposalView, tt: Seq<char>, ft: Seq<char>)
    ensures
        update_spec(update_spec(p, tt, ft), tt, ft) == update_spec(p, tt, ft),
{
    let q = update_spec(p, tt, ft);
    assert(artists_or_empty(q) == artists_or_empty(p));
    assert(update_spec(q, tt, ft) =~= q);
}

impl TagProposal {
    /// Token substitution over a template, followed by the string cleanup.
    pub fn apply_template(&self, feat: &String, title: &Option<String>, template: &String) -> (r:
        String)
        ensures
            r@ == template_spec(self@, feat@, ov(*title), template@),
    {
        proof {
            reveal_strlit("{album}");
            reveal_strlit("{album_artist}");
            reveal_strlit("{artist}");
            reveal_strlit("{feat}");
            reveal_strlit("{genre}");
            reveal_strlit("{remix}");
            reveal_strlit("{title}");
            reveal_strlit("{track}");
            reveal_strlit("{year}");
        }
        let mut s = chars_of(template.as_str());
        let pat = chars_of("{album}");
        let rep = chars_of_opt(&self.album);
        s = replace_all(&s, &pat, &rep);
        let pat = chars_of("{album_artist}");
        let rep = chars_of_opt(&self.album_artist);
        s = replace_all(&s, &pat, &rep);
        let pat = chars_of("{artist}");
        let rep = chars_of_opt(&self.artist);
        s = replace_all(&s, &pat, &rep);
        let pat = chars_of("{feat}");
        let rep = chars_of(feat.as_str());
        s = replace_all(&s, &pat, &rep);
        let pat = chars_of("{genre}");
        let rep = chars_of_opt(&self.genre);
        s = replace_all(&s, &pat, &rep);
        let pat = chars_of("{remix}");
        let rep = chars_of_opt(&self.remix);
        s = replace_all(&s, &pat, &rep);
        let pat = chars_of("{title}");
        let rep = chars_of_opt(title);
        s = replace_all(&s, &pat, &rep);
        let pat = chars_of("{track}");
        let mut rep: Vec<char> = Vec::new();
        match self.track {
            Some(x) => {
                push_decimal(x as u64, &mut rep);
                proof {
                    assert(rep@ =~= track_text(self@.track));
                }
            },
            None => {},
        }
        s = replace_all(&s, &pat, &rep);
        let pat = chars_of("{year}");
        let mut rep: Vec<char> = Vec::new();
        match self.year {
            Some(x) => {
                push_decimal_i32(x, &mut rep);
                proof {
                    assert(rep@ =~= year_text(self@.year));
                }
            },
            None => {},
        }
        s = replace_all(&s, &pat, &rep);
        let s = strip_empty_pairs_vec(s);
        let s = collapse_spaces_vec(&s);
        let s = trim_vec(&s);
        string_of(&s)
    }

    /// Rebuild the derived fields: `artist` from the artist list, the final
    /// title from the title template, and the sanitized filename from the
    /// filename template.
    pub fn update(&mut self, title_template: &String, filename_template: &String)
        ensures
            final(self)@ == update_spec(old(self)@, title_template@, filename_template@),
    {
        let has: bool = match &self.all_artists {
            Some(a) => a.len() > 0,
            None => false,
        };
        let mut feat_s = String::new();
        if has {
            let arts = self.all_artists.as_ref().unwrap();
            self.artist = Some(arts[0].clone());
            let fv = feat_clause_exec(arts);
            feat_s = string_of(&fv);
        } else {
            self.artist = None;
        }
        let ftitle = self.apply_template(&feat_s, &self.title, title_template);
        self.final_title = Some(ftitle);
        let fname_raw = self.apply_template(&feat_s, &self.final_title, filename_template);
        self.filename = sanitize(fname_raw.as_str());
        proof {
            assert(final(self)@ =~= update_spec(old(self)@, title_template@, filename_template@));
        }
    }
}

} // verus!
