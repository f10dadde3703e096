//! The tag-editor command language and the per-pair edit semantics: a
//! recognized tag name with a value sets the field, without one clears it; an
//! artist value is split on `;` and re-merged from empty; a track or year
//! value that is no valid number is reported and ignored.

use crate::formats::{find_in, lemma_find_in_bounds};
use crate::numbers::{parse_i32_spec, parse_u16_spec, parse_i32_chars, parse_u16_chars};
use crate::proposal::{merge_artists, ov, update_spec, ProposalView, TagProposal};
use crate::text::{chars_of, ci_eq_str, ci_seq_eq, string_of, subvec};
use vstd::prelude::*;

verus! {

/// The tag names the editor recognizes.
#[derive(Clone, Copy, Debug, PartialEq, Eq, Hash, Structural)]
pub enum TagKey {
    Artist,
    Album,
    AlbumArtist,
    Genre,
    Title,
    Track,
    Year,
}

// ---------------------------------------------------------------------------
// Parsing one editor command
// ---------------------------------------------------------------------------
/// The parts of a command: the word before the first space names the tag, the
/// rest is the value; without a space the whole command names the tag.
pub open spec fn edit_parts(cmd: Seq<char>) -> (Seq<char>, Option<Seq<char>>) {
    match find_in(cmd, 0, seq![' ']) {
        Some(k) => (cmd.subrange(0, k), Some(cmd.skip(k + 1))),
        None => (cmd, None),
    }
}

/// What a command line means: the recognized tag (named case-insensitively)
/// and the optional value, or nothing for an unknown tag.
pub open spec fn parse_edit_spec(cmd: Seq<char>) -> Option<(TagKey, Option<Seq<char>>)> {
    let (name, val) = edit_parts(cmd);
    if ci_seq_eq(name, "ARTIST"@) {
        Some((TagKey::Artist, val))
    } else if ci_seq_eq(name, "ALBUM"@) {
        Some((TagKey::Album, val))
    } else if ci_seq_eq(name, "ALBUM_ARTIST"@) {
        Some((TagKey::AlbumArtist, val))
    } else if ci_seq_eq(name, "GENRE"@) {
        Some((TagKey::Genre, val))
    } else if ci_seq_eq(name, "TITLE"@) {
        Some((TagKey::Title, val))
    } else if ci_seq_eq(name, "TRACK"@) {
        Some((TagKey::Track, val))
    } else if ci_seq_eq(name, "YEAR"@) {
        Some((TagKey::Year, val))
    } else {
        None
    }
}

/// Parse one editor command into a tag and an optional value.
pub fn parse(cmd: String) -> (r: Option<(TagKey, Option<String>)>)
    ensures
        match r {
            Some(p) => parse_edit_spec(cmd@) == Some((p.0, ov(p.1))),
            None => parse_edit_spec(cmd@) is None,
        },
{
    let v = chars_of(cmd.as_str());
    let space_set = vec![' '];
    proof {
        assert(space_set@ =~= seq![' ']);
    }
    let n = v.len();
    let (name, val): (Vec<char>, Option<String>) = match crate::formats::find_in_exec(
        &v,
        0,
        &space_set,
    ) {
        Some(k) => {
            let tail = subvec(&v, k + 1, n);
            proof {
                assert(tail@ =~= v@.skip(k + 1));
            }
            (subvec(&v, 0, k), Some(string_of(&tail)))
        },
        None => (v, None),
    };
    let key: Option<TagKey> = if ci_eq_str(&name, "ARTIST") {
        Some(TagKey::Artist)
    } else if ci_eq_str(&name, "ALBUM") {
        Some(TagKey::Album)
    } else if ci_eq_str(&name, "ALBUM_ARTIST") {
        Some(TagKey::AlbumArtist)
    } else if ci_eq_str(&name, "GENRE") {
        Some(TagKey::Genre)
    } else if ci_eq_str(&name, "TITLE") {
        Some(TagKey::Title)
    } else if ci_eq_str(&name, "TRACK") {
        Some(TagKey::Track)
    } else if ci_eq_str(&name, "YEAR") {
        Some(TagKey::Year)
    } else {
        None
    };
    match key {
        Some(k) => Some((k, val)),
        None => None,
    }
}

// ---------------------------------------------------------------------------
// The artist value: names separated by `;`
// ---------------------------------------------------------------------------
/// The value split at every `;`, fragments kept as they stand.
pub open spec fn split_semis(s: Seq<char>) -> Seq<Seq<char>>
    decreases s.len(),
    via split_semis_dec
{
    match find_in(s, 0, seq![';']) {
        Some(k) => seq![s.subrange(0, k)] + split_semis(s.skip(k + 1)),
        None => seq![s],
    }
}

#[via_fn]
proof fn split_semis_dec(s: Seq<char>) {
    if find_in(s, 0, seq![';']) is Some {
        lemma_find_in_bounds(s, 0, seq![';']);
    }
}

fn split_semis_exec(v: &Vec<char>) -> (r: Vec<String>)
    ensures
        crate::artists::views_of(r@) == split_semis(v@),
    decreases v@.len(),
{
    let semi = vec![';'];
    proof {
        assert(semi@ =~= seq![';']);
    }
    let n = v.len();
    match crate::formats::find_in_exec(v, 0, &semi) {
        Some(k) => {
            let head = subvec(v, 0, k);
            let tail = subvec(v, k + 1, n);
            proof {
                assert(tail@ =~= v@.skip(k + 1));
            }
            let mut out: Vec<String> = Vec::new();
            out.push(string_of(&head));
            let mut rest = split_semis_exec(&tail);
            out.append(&mut rest);
            proof {
                assert(crate::artists::views_of(out@) =~= split_semis(v@));
            }
            out
        },
        None => {
            let mut out: Vec<String> = Vec::new();
            out.push(string_of(v));
            proof {
                assert(crate::artists::views_of(out@) =~= split_semis(v@));
            }
            out
        },
    }
}

// ---------------------------------------------------------------------------
// Applying edits to a proposal
// ---------------------------------------------------------------------------
/// What one edit does: an artist value replaces the artist list with the
/// `;`-separated names merged from empty; an absent artist value clears the
/// list; the other tags are set or cleared; an invalid track or year value
/// leaves the proposal as it was.
pub open spec fn apply_edit_spec(
    p: ProposalView,
    k: TagKey,
    val: Option<Seq<char>>,
) -> ProposalView {
    match k {
        TagKey::Artist => match val {
            None => ProposalView { all_artists: None, ..p },
            Some(s) => ProposalView {
                all_artists: Some(merge_artists(Seq::empty(), split_semis(s))),
                ..p
            },
        },
        TagKey::Album => ProposalView { album: val, ..p },
        TagKey::AlbumArtist => ProposalView { album_artist: val, ..p },
        TagKey::Genre => ProposalView { genre: val, ..p },
        TagKey::Title => ProposalView { title: val, ..p },
        TagKey::Track => match val {
            None => ProposalView { track: None, ..p },
            Some(s) => match parse_u16_spec(s) {
                Some(x) => ProposalView { track: Some(x), ..p },
                None => p,
            },
        },
        TagKey::Year => match val {
            None => ProposalView { year: None, ..p },
            Some(s) => match parse_i32_spec(s) {
                Some(x) => ProposalView { year: Some(x), ..p },
                None => p,
            },
        },
    }
}

/// Whether an edit is rejected: a track or year value that is no valid
/// number.
pub open spec fn edit_rejected(k: TagKey, val: Option<Seq<char>>) -> bool {
    ||| (k == TagKey::Track && (val matches Some(s) && parse_u16_spec(s) is None))
    ||| (k == TagKey::Year && (val matches Some(s) && parse_i32_spec(s) is None))
}

/// The edits applied in order, each to the proposal the previous one left.
pub open spec fn apply_edits_spec(
    p: ProposalView,
    es: Seq<(TagKey, Option<Seq<char>>)>,
) -> ProposalView
    decreases es.len(),
{
    if es.len() == 0 {
        p
    } else {
        apply_edits_spec(apply_edit_spec(p, es[0].0, es[0].1), es.drop_first())
    }
}

/// The views of a list of edits.
pub open spec fn edits_view(e: Seq<(TagKey, Option<String>)>) -> Seq<(TagKey, Option<Seq<char>>)> {
    e.map_values(|p: (TagKey, Option<String>)| (p.0, ov(p.1)))
}

fn clone_opt_string(o: &Option<String>) -> (r: Option<String>)
    ensures
        ov(r) == ov(*o),
{
    match o {
        Some(s) => Some(s.clone()),
        None => None,
    }
}

impl TagProposal {
    /// Apply one edit; the result says whether the value was rejected (an
    /// invalid track or year number, reported and ignored).
    pub fn apply_edit(&mut self, key: TagKey, value: Option<String>) -> (rejected: bool)
        ensures
            final(self)@ == apply_edit_spec(old(self)@, key, ov(value)),
            rejected == edit_rejected(key, ov(value)),
    {
        match key {
            TagKey::Artist => {
                match value {
                    None => {
                        self.all_artists = None;
                    },
                    Some(s) => {
                        let v = chars_of(s.as_str());
                        let parts = split_semis_exec(&v);
                        self.all_artists = None;
                        self.feature(parts);
                        proof {
                            assert(self@ =~= apply_edit_spec(old(self)@, key, ov(Some(s))));
                        }
                    },
                }
                false
            },
            TagKey::Album => {
                self.album = value;
                false
            },
            TagKey::AlbumArtist => {
                self.album_artist = value;
                false
            },
            TagKey::Genre => {
                self.genre = value;
                false
            },
            TagKey::Title => {
                self.title = value;
                false
            },
            TagKey::Track => match value {
                None => {
                    self.track = None;
                    false
                },
                Some(s) => {
                    let v = chars_of(s.as_str());
                    match parse_u16_chars(&v) {
                        Some(x) => {
                            self.track = Some(x);
                            false
                        },
                        None => true,
                    }
                },
            },
            TagKey::Year => match value {
                None => {
                    self.year = None;
                    false
                },
                Some(s) => {
                    let v = chars_of(s.as_str());
                    match parse_i32_chars(&v) {
                        Some(x) => {
                            self.year = Some(x);
                            false
                        },
                        None => true,
                    }
                },
            },
        }
    }

    fn edit_from(&mut self, edits: &Vec<(TagKey, Option<String>)>, i: usize)
        requires
            i <= edits@.len(),
        ensures
            final(self)@ == apply_edits_spec(old(self)@, edits_view(edits@).skip(i as int)),
        decreases edits@.len() - i,
    {
        if i >= edits.len() {
            proof {
                assert(edits_view(edits@).skip(i as int) =~= Seq::<
                    (TagKey, Option<Seq<char>>),
                >::empty());
            }
            return ;
        }
        let key = edits[i].0;
        let val = clone_opt_string(&edits[i].1);
        self.apply_edit(key, val);
        proof {
            let es = edits_view(edits@);
            assert(es.skip(i as int).drop_first() =~= es.skip(i as int + 1));
            assert(es.skip(i as int)[0] == es[i as int]);
        }
        self.edit_from(edits, i + 1);
    }

    /// Apply a list of edits in order.
    pub fn edit(&mut self, edits: &Vec<(TagKey, Option<String>)>)
        ensures
            final(self)@ == apply_edits_spec(old(self)@, edits_view(edits@)),
    {
        self.edit_from(edits, 0);
        proof {
            assert(edits_view(edits@).skip(0) =~= edits_view(edits@));
        }
    }
}


/// An edit keeps the artist-list invariant: the list never holds an empty
/// name, and never the same name twice.
pub proof fn lemma_apply_edit_wf(p: ProposalView, k: TagKey, val: Option<Seq<char>>)
    requires
        crate::tag::wf_proposal_artists(p),
    ensures
        crate::tag::wf_proposal_artists(apply_edit_spec(p, k, val)),
{
    match k {
        TagKey::Artist => match val {
            None => {},
            Some(s) => {
                crate::proposal::lemma_merge_artists_wf(Seq::empty(), split_semis(s));
            },
        },
        _ => {},
    }
}

/// An artist edit with no value clears the artist list, and the next update
/// then leaves the derived artist unset, whatever was featured before.
pub proof fn lemma_artist_clear_edit(p: ProposalView, tt: Seq<char>, ft: Seq<char>)
    ensures
        apply_edit_spec(p, TagKey::Artist, None).all_artists is None,
        update_spec(apply_edit_spec(p, TagKey::Artist, None), tt, ft).artist is None,
{
}

} // verus!
