//! Planning where a deposited file goes: the organization modes and the
//! subfolder components each one chooses for a file.

use crate::formats::find_in;
use crate::numbers::{dec_seq, dec_seq_i32, push_decimal, push_decimal_i32};
use crate::text::{chars_of, string_of, str_eq, subvec, trim_seq, trim_vec};
use vstd::prelude::*;
use vstd::string::StringExecFns;

verus! {

/// How deposited files are organized below the target directory.
#[derive(Clone, Copy, Debug, PartialEq, Eq, Structural)]
pub enum DepositMode {
    /// Files land directly in the target directory.
    Drop,
    /// Files land in alphabetical artist subfolders.
    Alphabetical,
    /// Files land in year/month subfolders.
    Chronological,
}

impl DepositMode {
    /// Parse an organization mode name; an unknown one is an error naming it.
    pub fn from(s: &str) -> (r: Result<DepositMode, String>)
        ensures
            match r {
                Ok(m) => (s@ == "A-Z"@ && m == DepositMode::Alphabetical) || (s@ == "DATE"@ && m
                    == DepositMode::Chronological),
                Err(e) => s@ != "A-Z"@ && s@ != "DATE"@ && e@ == "Invalid organization mode: '"@
                    + s@ + "'. See 'help'"@,
            },
    {
        if str_eq(s, "A-Z") {
            Ok(DepositMode::Alphabetical)
        } else if str_eq(s, "DATE") {
            Ok(DepositMode::Chronological)
        } else {
            let mut m = "Invalid organization mode: '".to_owned();
            m.append(s);
            m.append("'. See 'help'");
            Err(m)
        }
    }
}

impl Default for DepositMode {
    /// Without a configured mode, files are dropped directly.
    fn default() -> (r: Self)
        ensures
            r == DepositMode::Drop,
    {
        DepositMode::Drop
    }
}

/// The alphabetical folder of a name: its first letter upper-cased when it is
/// an ASCII letter, and the catch-all folder for anything else.
pub open spec fn letter_for_spec(s: Seq<char>) -> Seq<char> {
    let c = s[0];
    if c == 'a' || c == 'A' {
        "A"@
    } else if c == 'b' || c == 'B' {
        "B"@
    } else if c == 'c' || c == 'C' {
        "C"@
    } else if c == 'd' || c == 'D' {
        "D"@
    } else if c == 'e' || c == 'E' {
        "E"@
    } else if c == 'f' || c == 'F' {
        "F"@
    } else if c == 'g' || c == 'G' {
        "G"@
    } else if c == 'h' || c == 'H' {
        "H"@
    } else if c == 'i' || c == 'I' {
        "I"@
    } else if c == 'j' || c == 'J' {
        "J"@
    } else if c == 'k' || c == 'K' {
        "K"@
    } else if c == 'l' || c == 'L' {
        "L"@
    } else if c == 'm' || c == 'M' {
        "M"@
    } else if c == 'n' || c == 'N' {
        "N"@
    } else if c == 'o' || c == 'O' {
        "O"@
    } else if c == 'p' || c == 'P' {
        "P"@
    } else if c == 'q' || c == 'Q' {
        "Q"@
    } else if c == 'r' || c == 'R' {
        "R"@
    } else if c == 's' || c == 'S' {
        "S"@
    } else if c == 't' || c == 'T' {
        "T"@
    } else if c == 'u' || c == 'U' {
        "U"@
    } else if c == 'v' || c == 'V' {
        "V"@
    } else if c == 'w' || c == 'W' {
        "W"@
    } else if c == 'x' || c == 'X' {
        "X"@
    } else if c == 'y' || c == 'Y' {
        "Y"@
    } else if c == 'z' || c == 'Z' {
        "Z"@
    } else {
        "0-9#"@
    }
}

/// The alphabetical folder for a name.
pub fn letter_for(s: &str) -> (r: String)
    requires
        s@.len() > 0,
    ensures
        r@ == letter_for_spec(s@),
{
    let v = chars_of(s);
    let c = v[0];
    if c == 'a' || c == 'A' {
        "A".to_owned()
    } else if c == 'b' || c == 'B' {
        "B".to_owned()
    } else if c == 'c' || c == 'C' {
        "C".to_owned()
    } else if c == 'd' || c == 'D' {
        "D".to_owned()
    } else if c == 'e' || c == 'E' {
        "E".to_owned()
    } else if c == 'f' || c == 'F' {
        "F".to_owned()
    } else if c == 'g' || c == 'G' {
        "G".to_owned()
    } else if c == 'h' || c == 'H' {
        "H".to_owned()
    } else if c == 'i' || c == 'I' {
        "I".to_owned()
    } else if c == 'j' || c == 'J' {
        "J".to_owned()
    } else if c == 'k' || c == 'K' {
        "K".to_owned()
    } else if c == 'l' || c == 'L' {
        "L".to_owned()
    } else if c == 'm' || c == 'M' {
        "M".to_owned()
    } else if c == 'n' || c == 'N' {
        "N".to_owned()
    } else if c == 'o' || c == 'O' {
        "O".to_owned()
    } else if c == 'p' || c == 'P' {
        "P".to_owned()
    } else if c == 'q' || c == 'Q' {
        "Q".to_owned()
    } else if c == 'r' || c == 'R' {
        "R".to_owned()
    } else if c == 's' || c == 'S' {
        "S".to_owned()
    } else if c == 't' || c == 'T' {
        "T".to_owned()
    } else if c == 'u' || c == 'U' {
        "U".to_owned()
    } else if c == 'v' || c == 'V' {
        "V".to_owned()
    } else if c == 'w' || c == 'W' {
        "W".to_owned()
    } else if c == 'x' || c == 'X' {
        "X".to_owned()
    } else if c == 'y' || c == 'Y' {
        "Y".to_owned()
    } else if c == 'z' || c == 'Z' {
        "Z".to_owned()
    } else {
        "0-9#".to_owned()
    }
}

/// What a file shows the planner: its name, its artist and album tags when
/// the tag container holds them, and its creation year and month when the
/// filesystem gives them.
pub struct FileMeta {
    pub filename: String,
    pub artist: Option<String>,
    pub album: Option<String>,
    pub created: Option<(i32, u32)>,
}

/// The month written with two digits, as the dated subfolders name it.
pub open spec fn month_text(m: u32) -> Seq<char> {
    if m < 10 {
        seq!['0'] + dec_seq(m as nat)
    } else {
        dec_seq(m as nat)
    }
}

/// The artist folder a filename implies: the trimmed text before the first
/// `-`, if that is non-empty.
pub open spec fn author_from_filename(f: Seq<char>) -> Option<Seq<char>> {
    match find_in(f, 0, seq!['-']) {
        Some(k) => {
            let a = trim_seq(f.subrange(0, k));
            if a.len() > 0 {
                Some(a)
            } else {
                None
            }
        },
        None => None,
    }
}

/// The subfolder components the alphabetical mode chooses: the artist tag (or
/// the artist the filename implies) gives a letter folder and an artist
/// folder, plus an album folder when the album tag is set; a file without any
/// artist gets the letter folder of its name alone.
pub open spec fn alphabetical_spec(
    filename: Seq<char>,
    artist: Option<Seq<char>>,
    album: Option<Seq<char>>,
) -> Seq<Seq<char>> {
    let base = match artist {
        Some(a) => Some(seq![letter_for_spec(a), a]),
        None => match author_from_filename(filename) {
            Some(a) => Some(seq![letter_for_spec(a), a]),
            None => None,
        },
    };
    match base {
        Some(b) => match album {
            Some(al) => b.push(al),
            None => b,
        },
        None => seq![letter_for_spec(filename)],
    }
}

/// The subfolder components a mode chooses for a file; the dated mode needs
/// the creation date and fails without one.
pub open spec fn target_spec(mode: DepositMode, f: FileMeta) -> Result<Seq<Seq<char>>, Seq<char>> {
    match mode {
        DepositMode::Drop => Ok(Seq::empty()),
        DepositMode::Chronological => match f.created {
            Some((y, m)) => Ok(seq![dec_seq_i32(y as int), month_text(m)]),
            None => Err("! Unsupported platform: can't get file date"@),
        },
        DepositMode::Alphabetical => Ok(
            alphabetical_spec(f.filename@, crate::proposal::ov(f.artist), crate::proposal::ov(f.album)),
        ),
    }
}

/// The subfolder components of the target directory for one file.
pub fn target_components(mode: DepositMode, f: &FileMeta) -> (r: Result<Vec<String>, String>)
    requires
        f.filename@.len() > 0,
        f.artist matches Some(a) ==> a@.len() > 0,
    ensures
        match r {
            Ok(v) => target_spec(mode, *f) matches Ok(c) && crate::artists::views_of(v@) == c,
            Err(e) => target_spec(mode, *f) matches Err(m) && e@ == m,
        },
{
    match mode {
        DepositMode::Drop => {
            let out: Vec<String> = Vec::new();
            proof {
                assert(crate::artists::views_of(out@) =~= Seq::<Seq<char>>::empty());
            }
            Ok(out)
        },
        DepositMode::Chronological => match f.created {
            Some((y, m)) => {
                let mut yv: Vec<char> = Vec::new();
                push_decimal_i32(y, &mut yv);
                let mut mv: Vec<char> = Vec::new();
                if m < 10 {
                    mv.push('0');
                }
                push_decimal(m as u64, &mut mv);
                let mut out: Vec<String> = Vec::new();
                out.push(string_of(&yv));
                out.push(string_of(&mv));
                proof {
                    assert(mv@ =~= month_text(m));
                    assert(crate::artists::views_of(out@) =~= seq![
                        dec_seq_i32(y as int),
                        month_text(m),
                    ]);
                }
                Ok(out)
            },
            None => Err("! Unsupported platform: can't get file date".to_owned()),
        },
        DepositMode::Alphabetical => {
            let mut out: Vec<String> = Vec::new();
            let mut found = false;
            match &f.artist {
                Some(a) => {
                    out.push(letter_for(a.as_str()));
                    out.push(a.clone());
                    found = true;
                },
                None => {
                    let fv = chars_of(f.filename.as_str());
                    let dash = vec!['-'];
                    proof {
                        assert(dash@ =~= seq!['-']);
                    }
                    match crate::formats::find_in_exec(&fv, 0, &dash) {
                        Some(k) => {
                            let head = subvec(&fv, 0, k);
                            let a = trim_vec(&head);
                            if a.len() > 0 {
                                let astr = string_of(&a);
                                out.push(letter_for(astr.as_str()));
                                out.push(astr);
                                found = true;
                            }
                        },
                        None => {},
                    }
                },
            }
            if found {
                match &f.album {
                    Some(al) => {
                        out.push(al.clone());
                    },
                    None => {},
                }
            } else {
                out.push(letter_for(f.filename.as_str()));
            }
            proof {
                assert(crate::artists::views_of(out@) =~= alphabetical_spec(
                    f.filename@,
                    crate::proposal::ov(f.artist),
                    crate::proposal::ov(f.album),
                ));
            }
            Ok(out)
        },
    }
}

} // verus!
