//! Extracting tags from a free-form title: the ordered title formats run
//! first, then the catch-all strips decorations from the remaining text, and
//! whatever is left becomes the title. Also the per-file session machine that
//! presents a proposal and takes the accept / edit / reject decision.

use crate::artists::{separate_artists, separate_spec, separate_vec, views_of};
use crate::catchall::{catch_exec, catch_list, catch_at, CatchKind, CatchMatch};
use crate::formats::{caps_view, format_spec, match_formats, FormatTags};
use crate::numbers::{parse_i32_spec, parse_u16_spec, parse_i32_chars, parse_u16_chars};
use crate::proposal::{
    artists_or_empty, empty_proposal, merge_artists, or_empty, ProposalView, TagProposal,
};
use crate::text::{chars_of, ci_eq_str, ci_seq_eq, string_of, subvec, trim_seq, trim_vec};
use crate::util::{remove_brackets_spec, remove_brackets_vec, remove_str_spec, remove_str_vec,
    PromptOption};
use vstd::prelude::*;

verus! {

// ---------------------------------------------------------------------------
// The format stage
// ---------------------------------------------------------------------------
/// What the first matching title format contributes: the genre, the parsed
/// track number and the merged artists enter the proposal, and the captured
/// title (with any extra text) becomes the new working text.
pub open spec fn apply_format_caps(p: ProposalView, s: Seq<char>) -> (ProposalView, Seq<char>) {
    match format_spec(s) {
        None => (p, s),
        Some(c) => {
            let p1 = match c.genre {
                Some(g) => ProposalView { genre: Some(g), ..p },
                None => p,
            };
            let p2 = match c.track {
                Some(t) => ProposalView {
                    track: parse_u16_spec(t.subrange(0, t.len() - 1)),
                    ..p1
                },
                None => p1,
            };
            let p3 = match c.artists {
                Some(a) => ProposalView {
                    all_artists: Some(merge_artists(artists_or_empty(p2), separate_spec(a))),
                    ..p2
                },
                None => p2,
            };
            (p3, trim_seq(or_empty(c.title)) + trim_seq(or_empty(c.extra)))
        },
    }
}

/// A captured track text is the digits and the trailing dot: at least two
/// characters.
pub proof fn lemma_format_track_len(s: Seq<char>)
    requires
        format_spec(s) is Some,
        format_spec(s).unwrap().track is Some,
    ensures
        format_spec(s).unwrap().track.unwrap().len() >= 2,
{
    crate::formats::lemma_digits_end_bounds(s, 0);
}

// ---------------------------------------------------------------------------
// The catch-all stage
// ---------------------------------------------------------------------------
/// What one catch-all match does to the proposal and the running title: the
/// matched text leaves the title, and its bracket-stripped value lands in the
/// field the alternative names — except a remix label reading `original mix`,
/// which is dropped, and the album marker, which leaves the album value.
pub open spec fn catch_step(
    p: ProposalView,
    title: Seq<char>,
    s: Seq<char>,
    m: CatchMatch,
) -> (ProposalView, Seq<char>) {
    let text = s.subrange(m.start, m.end);
    let t2 = remove_str_spec(title, text);
    match m.kind {
        CatchKind::Feat => (
            ProposalView {
                all_artists: Some(
                    merge_artists(artists_or_empty(p), separate_spec(remove_brackets_spec(text))),
                ),
                ..p
            },
            t2,
        ),
        CatchKind::Year => (ProposalView { year: parse_i32_spec(remove_brackets_spec(text)), ..p },
            t2,
        ),
        CatchKind::Remix => {
            let val = remove_brackets_spec(text);
            if !ci_seq_eq(val, "original mix"@) {
                (ProposalView { remix: Some(val), ..p }, t2)
            } else {
                (p, t2)
            }
        },
        CatchKind::Album => {
            let alb = remove_str_spec(text, s.subrange(m.mstart, m.mend));
            (ProposalView { album: Some(remove_brackets_spec(alb)), ..p }, t2)
        },
        CatchKind::Strip => (p, t2),
    }
}

/// The catch-all matches applied in order, each seeing the title the previous
/// one left.
pub open spec fn apply_catches(
    p: ProposalView,
    title: Seq<char>,
    s: Seq<char>,
    ms: Seq<CatchMatch>,
) -> (ProposalView, Seq<char>)
    decreases ms.len(),
{
    if ms.len() == 0 {
        (p, title)
    } else {
        let st = catch_step(p, title, s, ms[0]);
        apply_catches(st.0, st.1, s, ms.drop_first())
    }
}

/// The whole extraction: the format stage, then every catch-all match over
/// the text the format stage left, and what remains becomes the title.
pub open spec fn build_tags_spec(s: Seq<char>) -> ProposalView {
    let fm = apply_format_caps(empty_proposal(), s);
    let ca = apply_catches(fm.0, fm.1, fm.1, catch_list(fm.1, 0));
    ProposalView { title: Some(ca.1), ..ca.0 }
}

fn run_catches(p: &mut TagProposal, title: Vec<char>, s: &Vec<char>, i: usize) -> (r: Vec<char>)
    requires
        i <= s@.len(),
    ensures
        ({
            let res = apply_catches(old(p)@, title@, s@, catch_list(s@, i as int));
            final(p)@ == res.0 && r@ == res.1
        }),
    decreases s@.len() - i,
{
    if i >= s.len() {
        return title;
    }
    match catch_exec(s, i) {
        None => run_catches(p, title, s, i + 1),
        Some((kind, e, ms, me)) => {
            let ghost m = catch_at(s@, i as int).unwrap();
            let text = subvec(s, i, e);
            let t2 = remove_str_vec(&title, &text);
            match kind {
                CatchKind::Feat => {
                    let rb = remove_brackets_vec(&text);
                    let names = separate_vec(&rb);
                    p.feature(names);
                },
                CatchKind::Year => {
                    let rb = remove_brackets_vec(&text);
                    p.year = parse_i32_chars(&rb);
                },
                CatchKind::Remix => {
                    let rb = remove_brackets_vec(&text);
                    if !ci_eq_str(&rb, "original mix") {
                        p.remix = Some(string_of(&rb));
                    }
                },
                CatchKind::Album => {
                    proof {
                        crate::catchall::lemma_catch_at_bounds(s@, i as int);
                    }
                    let marker = subvec(s, ms, me);
                    let alb = remove_str_vec(&text, &marker);
                    let rb = remove_brackets_vec(&alb);
                    p.album = Some(string_of(&rb));
                },
                CatchKind::Strip => {},
            }
            proof {
                let st = catch_step(old(p)@, title@, s@, m);
                assert(p@ =~= st.0);
                assert(t2@ == st.1);
                let rest = catch_list(s@, m.end);
                assert(catch_list(s@, i as int) == seq![m] + rest);
                assert((seq![m] + rest).drop_first() =~= rest);
                assert((seq![m] + rest)[0] == m);
            }
            run_catches(p, t2, s, e)
        },
    }
}

/// Extracts tags from free-form title text.
pub struct TagExtractor {
    /// Whether the caller wants the stages traced; the extraction itself is
    /// silent and deterministic either way.
    pub verbose: bool,
}

impl TagExtractor {
    pub fn new(verbose: bool) -> (r: Self)
        ensures
            r.verbose == verbose,
    {
        TagExtractor { verbose }
    }

    /// Separates a string like `"Band ft Artist, Musician & Singer"` into a
    /// vector like `["Band", "Artist", "Musician", "Singer"]`.
    pub fn separate(&self, artists: &str) -> (r: Vec<String>)
        ensures
            views_of(r@) == separate_spec(artists@),
    {
        separate_artists(artists)
    }

    /// The captures of the first title format that matches the whole title,
    /// if any does.
    pub fn tags_from(&self, full_title: &str) -> (r: Option<FormatTags>)
        ensures
            match r {
                Some(t) => format_spec(full_title@) == Some(caps_view(t)),
                None => format_spec(full_title@) is None,
            },
    {
        let v = chars_of(full_title);
        match_formats(&v)
    }

    /// Extract tags from the title text; the result holds at least the
    /// stripped title.
    pub fn build_tags(&self, meta_title: &str) -> (r: TagProposal)
        ensures
            r@ == build_tags_spec(meta_title@),
    {
        let mut proposal = TagProposal::default();
        let v = chars_of(meta_title);
        let mut meta: Vec<char> = v;
        match match_formats(&meta) {
            Some(t) => {
                let ghost c = format_spec(meta@).unwrap();
                match &t.genre {
                    Some(g) => {
                        proposal.genre = Some(string_of(g));
                    },
                    None => {},
                }
                match &t.track {
                    Some(tr) => {
                        proof {
                            lemma_format_track_len(meta@);
                        }
                        let tv = subvec(tr, 0, tr.len() - 1);
                        proposal.track = parse_u16_chars(&tv);
                    },
                    None => {},
                }
                match &t.artists {
                    Some(a) => {
                        let names = separate_vec(a);
                        proposal.feature(names);
                    },
                    None => {},
                }
                let mut nt: Vec<char> = match &t.title {
                    Some(x) => trim_vec(x),
                    None => Vec::new(),
                };
                let mut extra_t: Vec<char> = match &t.extra {
                    Some(x) => trim_vec(x),
                    None => Vec::new(),
                };
                proof {
                    if t.extra is None {
                        assert(trim_seq(Seq::<char>::empty()) =~= Seq::<char>::empty());
                        assert(extra_t@ =~= trim_seq(or_empty(c.extra)));
                    }
                    if t.title is None {
                        assert(trim_seq(Seq::<char>::empty()) =~= Seq::<char>::empty());
                        assert(nt@ =~= trim_seq(or_empty(c.title)));
                    }
                }
                nt.append(&mut extra_t);
                meta = nt;
            },
            None => {},
        }
        let title0 = subvec(&meta, 0, meta.len());
        proof {
            assert(title0@ =~= meta@);
            let fm = apply_format_caps(empty_proposal(), meta_title@);
            assert(proposal@ =~= fm.0);
            assert(meta@ == fm.1);
        }
        let rest = run_catches(&mut proposal, title0, &meta, 0);
        proposal.title = Some(string_of(&rest));
        proof {
            assert(proposal@ =~= build_tags_spec(meta_title@));
        }
        proposal
    }
}


// ---------------------------------------------------------------------------
// The artist-list invariant
// ---------------------------------------------------------------------------
/// The artist list of a proposal is well formed: no empty name, no name
/// twice.
pub open spec fn wf_proposal_artists(p: ProposalView) -> bool {
    crate::proposal::wf_artists(artists_or_empty(p))
}

pub proof fn lemma_catch_step_wf(p: ProposalView, title: Seq<char>, s: Seq<char>, m: CatchMatch)
    requires
        wf_proposal_artists(p),
    ensures
        wf_proposal_artists(catch_step(p, title, s, m).0),
{
    let text = s.subrange(m.start, m.end);
    match m.kind {
        CatchKind::Feat => {
            crate::proposal::lemma_merge_artists_wf(
                artists_or_empty(p),
                separate_spec(remove_brackets_spec(text)),
            );
        },
        _ => {},
    }
}

pub proof fn lemma_apply_catches_wf(
    p: ProposalView,
    title: Seq<char>,
    s: Seq<char>,
    ms: Seq<CatchMatch>,
)
    requires
        wf_proposal_artists(p),
    ensures
        wf_proposal_artists(apply_catches(p, title, s, ms).0),
    decreases ms.len(),
{
    if ms.len() > 0 {
        lemma_catch_step_wf(p, title, s, ms[0]);
        let st = catch_step(p, title, s, ms[0]);
        lemma_apply_catches_wf(st.0, st.1, s, ms.drop_first());
    }
}

/// The proposal the extractor builds keeps the artist-list invariant: the
/// list never holds an empty name, and never the same name twice.
pub proof fn lemma_build_tags_wf(s: Seq<char>)
    ensures
        wf_proposal_artists(build_tags_spec(s)),
{
    let p0 = empty_proposal();
    assert(wf_proposal_artists(p0));
    let fm = apply_format_caps(p0, s);
    assert(wf_proposal_artists(fm.0)) by {
        match format_spec(s) {
            None => {},
            Some(c) => {
                match c.artists {
                    Some(a) => {
                        crate::proposal::lemma_merge_artists_wf(Seq::empty(), separate_spec(a));
                    },
                    None => {},
                }
            },
        }
    }
    lemma_apply_catches_wf(fm.0, fm.1, fm.1, catch_list(fm.1, 0));
}

// ---------------------------------------------------------------------------
// The per-file session
// ---------------------------------------------------------------------------
/// The states of the per-file interaction: a proposal is presented, edited
/// and re-presented, until it is accepted or rejected.
#[derive(Clone, Copy, Debug, PartialEq, Eq, Structural)]
pub enum SessionState {
    Present,
    Edit,
    Accept,
    Reject,
}

/// The transition of the session: presenting ends in accept, edit, or reject
/// (an absent choice — end of input — rejects, and an automatic mode accepts
/// without asking); an edit returns to presenting; the terminal states stay.
pub open spec fn session_next(
    state: SessionState,
    auto_tag: bool,
    choice: Option<PromptOption>,
) -> SessionState {
    match state {
        SessionState::Present => {
            if auto_tag {
                SessionState::Accept
            } else {
                match choice {
                    Some(PromptOption::Yes) => SessionState::Accept,
                    Some(PromptOption::Edit) => SessionState::Edit,
                    _ => SessionState::Reject,
                }
            }
        },
        SessionState::Edit => SessionState::Present,
        SessionState::Accept => SessionState::Accept,
        SessionState::Reject => SessionState::Reject,
    }
}

/// One step of the session machine.
pub fn session_step(state: SessionState, auto_tag: bool, choice: Option<PromptOption>) -> (r:
    SessionState)
    ensures
        r == session_next(state, auto_tag, choice),
{
    match state {
        SessionState::Present => {
            if auto_tag {
                SessionState::Accept
            } else {
                match choice {
                    Some(PromptOption::Yes) => SessionState::Accept,
                    Some(PromptOption::Edit) => SessionState::Edit,
                    _ => SessionState::Reject,
                }
            }
        },
        SessionState::Edit => SessionState::Present,
        SessionState::Accept => SessionState::Accept,
        SessionState::Reject => SessionState::Reject,
    }
}

} // verus!
