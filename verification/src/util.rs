//! The public text-cleanup primitives, the user-input normalizer, and the
//! option-selection decision.

use crate::chars::{close_bracket, is_close_bracket, is_open_bracket, open_bracket};
use crate::numbers::{parse_i32_spec, parse_u16_spec, parse_i32_chars, parse_u16_chars};
use crate::text::{
    chars_of, collapse_spaces, collapse_spaces_vec, remove_all, remove_occ, string_of,
    strip_empty_pairs, strip_empty_pairs_vec, trim_seq, trim_vec,
};
use vstd::prelude::*;
use vstd::string::StringExecFns;
use vstd::string::StrSliceExecFns;

verus! {

/// What `remove_str_from_string` returns: every occurrence of the needle
/// deleted, then the ends trimmed.
pub open spec fn remove_str_spec(s: Seq<char>, p: Seq<char>) -> Seq<char> {
    trim_seq(remove_occ(s, p))
}

/// Remove every occurrence of the pattern, then trim the ends.
pub(crate) fn remove_str_vec(v: &Vec<char>, p: &Vec<char>) -> (r: Vec<char>)
    ensures
        r@ == remove_str_spec(v@, p@),
{
    let cleaned = remove_all(v, p);
    trim_vec(&cleaned)
}

/// Remove a string in its entirety from another string.
pub fn remove_str_from_string(s: String, to_remove: &str) -> (r: String)
    ensures
        r@ == remove_str_spec(s@, to_remove@),
{
    let v = chars_of(s.as_str());
    let p = chars_of(to_remove);
    let t = remove_str_vec(&v, &p);
    string_of(&t)
}

/// What `remove_brackets` returns: after a trim, at most one leading opening
/// bracket and one trailing closing bracket are dropped, then the ends are
/// trimmed again.
pub open spec fn remove_brackets_spec(s: Seq<char>) -> Seq<char> {
    let t = trim_seq(s);
    let u = if t.len() > 0 && is_open_bracket(t[0]) {
        t.drop_first()
    } else {
        t
    };
    let w = if t.len() > 0 && is_close_bracket(t.last()) {
        u.drop_last()
    } else {
        u
    };
    trim_seq(w)
}

/// Remove leading and trailing brackets.
pub fn remove_brackets(s: &str) -> (r: String)
    ensures
        r@ == remove_brackets_spec(s@),
{
    let v = chars_of(s);
    let t = remove_brackets_vec(&v);
    string_of(&t)
}

/// Remove leading and trailing brackets of a character vector.
pub(crate) fn remove_brackets_vec(v: &Vec<char>) -> (r: Vec<char>)
    ensures
        r@ == remove_brackets_spec(v@),
{
    let t = trim_vec(v);
    let lo: usize = if t.len() > 0 && open_bracket(t[0]) {
        1
    } else {
        0
    };
    let hi: usize = if t.len() > 0 && close_bracket(t[t.len() - 1]) {
        t.len() - 1
    } else {
        t.len()
    };
    let mut w: Vec<char> = Vec::new();
    let mut k: usize = lo;
    proof {
        if t@.len() > 0 && is_open_bracket(t@[0]) && t@.len() > 1 && is_close_bracket(t@.last()) {
            assert(lo <= hi);
        }
        assert(lo <= hi);
    }
    while k < hi
        invariant
            lo <= k <= hi <= t@.len(),
            w@ == t@.subrange(lo as int, k as int),
        decreases hi - k,
    {
        w.push(t[k]);
        k = k + 1;
        proof {
            assert(w@ =~= t@.subrange(lo as int, k as int));
        }
    }
    proof {
        let tt = trim_seq(v@);
        let u = if tt.len() > 0 && is_open_bracket(tt[0]) {
            tt.drop_first()
        } else {
            tt
        };
        let ww = if tt.len() > 0 && is_close_bracket(tt.last()) {
            u.drop_last()
        } else {
            u
        };
        assert(w@ =~= ww);
    }
    trim_vec(&w)
}

/// Remove all pairs of matching empty brackets, rescanning until none is left.
pub fn remove_empty_brackets(s: String) -> (r: String)
    ensures
        r@ == strip_empty_pairs(s@),
{
    let v = chars_of(s.as_str());
    let t = strip_empty_pairs_vec(v);
    string_of(&t)
}

/// Remove all duplicate whitespace.
pub fn remove_duplicate_whitespace(s: String) -> (r: String)
    ensures
        r@ == collapse_spaces(s@),
{
    let v = chars_of(s.as_str());
    let t = collapse_spaces_vec(&v);
    string_of(&t)
}

/// Deleting empty bracket pairs is a no-op on its own output.
pub proof fn lemma_remove_empty_brackets_idempotent(s: Seq<char>)
    ensures
        strip_empty_pairs(strip_empty_pairs(s)) == strip_empty_pairs(s),
{
    crate::text::lemma_strip_idempotent(s);
}

/// Collapsing duplicate whitespace is a no-op on its own output.
pub proof fn lemma_remove_duplicate_whitespace_idempotent(s: Seq<char>)
    ensures
        collapse_spaces(collapse_spaces(s)) == collapse_spaces(s),
{
    crate::text::lemma_collapse_idempotent(s);
}

/// The lower-case form of a string, as `str::to_lowercase` computes it.
pub uninterp spec fn lower_of(s: Seq<char>) -> Seq<char>;

/// Relies on `str::to_lowercase`: the result depends on the characters alone.
#[verifier::external_body]
fn lowercase(s: &str) -> (r: String)
    ensures
        r@ == lower_of(s@),
{
    s.to_lowercase()
}

/// Normalize one read line of user input: trim surrounding whitespace and,
/// when asked, convert to lower case.
pub fn input(line: String, to_lower: bool) -> (r: String)
    ensures
        !to_lower ==> r@ == trim_seq(line@),
        to_lower ==> r@ == lower_of(trim_seq(line@)),
{
    let v = chars_of(line.as_str());
    let t = trim_vec(&v);
    let s = string_of(&t);
    if to_lower {
        lowercase(s.as_str())
    } else {
        s
    }
}

/// Parse an optional string into an optional year value: an absent value
/// stays absent, an invalid one is an error naming the value.
pub fn parse(value: Option<String>) -> (r: Result<Option<i32>, String>)
    ensures
        match value {
            None => r == Ok::<Option<i32>, String>(None),
            Some(s) => match parse_i32_spec(s@) {
                Some(x) => r == Ok::<Option<i32>, String>(Some(x)),
                None => r matches Err(m) && m@ == "Invalid value: "@ + s@,
            },
        },
{
    match value {
        None => Ok(None),
        Some(s) => {
            let v = chars_of(s.as_str());
            match parse_i32_chars(&v) {
                Some(x) => Ok(Some(x)),
                None => {
                    let mut m = "Invalid value: ".to_owned();
                    m.append(s.as_str());
                    Err(m)
                },
            }
        },
    }
}

/// Parse an optional string into an optional track number, with the same
/// error policy as `parse`.
pub fn parse_u16(value: Option<String>) -> (r: Result<Option<u16>, String>)
    ensures
        match value {
            None => r == Ok::<Option<u16>, String>(None),
            Some(s) => match parse_u16_spec(s@) {
                Some(x) => r == Ok::<Option<u16>, String>(Some(x)),
                None => r matches Err(m) && m@ == "Invalid value: "@ + s@,
            },
        },
{
    match value {
        None => Ok(None),
        Some(s) => {
            let v = chars_of(s.as_str());
            match parse_u16_chars(&v) {
                Some(x) => Ok(Some(x)),
                None => {
                    let mut m = "Invalid value: ".to_owned();
                    m.append(s.as_str());
                    Err(m)
                },
            }
        },
    }
}

/// The options a prompt can offer.
#[derive(Clone, Copy, Debug, PartialEq, Eq, Structural)]
pub enum PromptOption {
    Edit,
    No,
    Yes,
    YesToAll,
}

impl PromptOption {
    pub open spec fn info_spec(self) -> Seq<char> {
        match self {
            PromptOption::Edit => "Edit"@,
            PromptOption::No => "No"@,
            PromptOption::Yes => "Yes"@,
            PromptOption::YesToAll => "yes to All"@,
        }
    }

    /// The long description shown beside the prompt.
    pub fn info(&self) -> (r: String)
        ensures
            r@ == self.info_spec(),
    {
        match self {
            PromptOption::Edit => "Edit".to_owned(),
            PromptOption::No => "No".to_owned(),
            PromptOption::Yes => "Yes".to_owned(),
            PromptOption::YesToAll => "yes to All".to_owned(),
        }
    }

    pub open spec fn symbol_spec(self) -> Seq<char> {
        match self {
            PromptOption::Edit => "e"@,
            PromptOption::No => "n"@,
            PromptOption::Yes => "y"@,
            PromptOption::YesToAll => "a"@,
        }
    }

    /// The single letter that selects this option.
    pub fn symbol(&self) -> (r: String)
        ensures
            r@ == self.symbol_spec(),
    {
        match self {
            PromptOption::Edit => "e".to_owned(),
            PromptOption::No => "n".to_owned(),
            PromptOption::Yes => "y".to_owned(),
            PromptOption::YesToAll => "a".to_owned(),
        }
    }
}

/// What a lower-cased input line selects: the default on an empty line, the
/// option whose letter starts the line if it is on offer, and nothing (ask
/// again) otherwise.
pub open spec fn selection_spec(
    line: Seq<char>,
    options: Seq<PromptOption>,
    default: PromptOption,
) -> Option<PromptOption> {
    if line.len() == 0 {
        Some(default)
    } else if line[0] == 'e' && options.contains(PromptOption::Edit) {
        Some(PromptOption::Edit)
    } else if line[0] == 'n' && options.contains(PromptOption::No) {
        Some(PromptOption::No)
    } else if line[0] == 'y' && options.contains(PromptOption::Yes) {
        Some(PromptOption::Yes)
    } else if line[0] == 'a' && options.contains(PromptOption::YesToAll) {
        Some(PromptOption::YesToAll)
    } else {
        None
    }
}

fn has_option(options: &Vec<PromptOption>, o: PromptOption) -> (r: bool)
    ensures
        r == options@.contains(o),
{
    let mut i: usize = 0;
    while i < options.len()
        invariant
            0 <= i <= options@.len(),
            forall|k: int| 0 <= k < i ==> options@[k] != o,
        decreases options@.len() - i,
    {
        if options[i] == o {
            return true;
        }
        i = i + 1;
    }
    false
}

/// Decide what an already-normalized input line selects. A `None` result
/// means the line named no offered option and the prompt is to be repeated.
pub fn choose_option(line: &String, options: &Vec<PromptOption>, default: PromptOption) -> (r:
    Option<PromptOption>)
    ensures
        r == selection_spec(line@, options@, default),
{
    let s = line.as_str();
    if s.unicode_len() == 0 {
        return Some(default);
    }
    let c = s.get_char(0);
    if c == 'e' && has_option(options, PromptOption::Edit) {
        Some(PromptOption::Edit)
    } else if c == 'n' && has_option(options, PromptOption::No) {
        Some(PromptOption::No)
    } else if c == 'y' && has_option(options, PromptOption::Yes) {
        Some(PromptOption::Yes)
    } else if c == 'a' && has_option(options, PromptOption::YesToAll) {
        Some(PromptOption::YesToAll)
    } else {
        None
    }
}

} // verus!
