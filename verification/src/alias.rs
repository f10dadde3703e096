//! The alias table: short names for library paths, with the operations the
//! alias command performs on it and the configuration text it is written as.

use crate::text::str_eq;
use vstd::prelude::*;
use vstd::string::StringExecFns;

verus! {

/// The alias table: alias names mapped to library paths, each name at most
/// once.
pub struct AliasMap {
    pub pairs: Vec<(String, String)>,
}

/// The view of the table: the (alias, path) pairs in order.
pub open spec fn pairs_view(ps: Seq<(String, String)>) -> Seq<(Seq<char>, Seq<char>)> {
    ps.map_values(|p: (String, String)| (p.0@, p.1@))
}

/// The pairs with the given alias removed.
pub open spec fn remove_key(
    ps: Seq<(Seq<char>, Seq<char>)>,
    k: Seq<char>,
) -> Seq<(Seq<char>, Seq<char>)>
    decreases ps.len(),
{
    if ps.len() == 0 {
        ps
    } else if ps[0].0 == k {
        remove_key(ps.drop_first(), k)
    } else {
        seq![ps[0]] + remove_key(ps.drop_first(), k)
    }
}

/// The pairs with every alias of the given path removed.
pub open spec fn remove_val(
    ps: Seq<(Seq<char>, Seq<char>)>,
    v: Seq<char>,
) -> Seq<(Seq<char>, Seq<char>)>
    decreases ps.len(),
{
    if ps.len() == 0 {
        ps
    } else if ps[0].1 == v {
        remove_val(ps.drop_first(), v)
    } else {
        seq![ps[0]] + remove_val(ps.drop_first(), v)
    }
}

/// The path an alias names, if any.
pub open spec fn lookup(ps: Seq<(Seq<char>, Seq<char>)>, k: Seq<char>) -> Option<Seq<char>>
    decreases ps.len(),
{
    if ps.len() == 0 {
        None
    } else if ps[0].0 == k {
        Some(ps[0].1)
    } else {
        lookup(ps.drop_first(), k)
    }
}

impl AliasMap {
    pub open spec fn view_pairs(&self) -> Seq<(Seq<char>, Seq<char>)> {
        pairs_view(self.pairs@)
    }

    /// The empty table.
    pub fn new() -> (r: AliasMap)
        ensures
            r.view_pairs() == Seq::<(Seq<char>, Seq<char>)>::empty(),
    {
        let r = AliasMap { pairs: Vec::new() };
        proof {
            assert(r.view_pairs() =~= Seq::<(Seq<char>, Seq<char>)>::empty());
        }
        r
    }

    /// How many aliases the table holds.
    pub fn len(&self) -> (r: usize)
        ensures
            r == self.view_pairs().len(),
    {
        self.pairs.len()
    }

    /// The path an alias names, if the table holds it.
    pub fn get(&self, alias: &str) -> (r: Option<String>)
        ensures
            match r {
                Some(p) => lookup(self.view_pairs(), alias@) == Some(p@),
                None => lookup(self.view_pairs(), alias@) is None,
            },
    {
        let mut i: usize = 0;
        proof {
            assert(self.view_pairs().skip(0) =~= self.view_pairs());
        }
        while i < self.pairs.len()
            invariant
                0 <= i <= self.pairs@.len(),
                lookup(self.view_pairs(), alias@) == lookup(
                    self.view_pairs().skip(i as int),
                    alias@,
                ),
            decreases self.pairs@.len() - i,
        {
            let ghost rest = self.view_pairs().skip(i as int);
            proof {
                assert(rest[0] == self.view_pairs()[i as int]);
                assert(rest.drop_first() =~= self.view_pairs().skip(i as int + 1));
            }
            if str_eq(self.pairs[i].0.as_str(), alias) {
                return Some(self.pairs[i].1.clone());
            }
            i = i + 1;
        }
        proof {
            assert(self.view_pairs().skip(i as int) =~= Seq::<(Seq<char>, Seq<char>)>::empty());
        }
        None
    }
}

fn retain_without_key(m: &AliasMap, alias: &str) -> (r: Vec<(String, String)>)
    ensures
        pairs_view(r@) == remove_key(m.view_pairs(), alias@),
{
    let mut out: Vec<(String, String)> = Vec::new();
    let mut i: usize = 0;
    proof {
        assert(m.view_pairs().skip(0) =~= m.view_pairs());
        assert(pairs_view(out@) + remove_key(m.view_pairs(), alias@) =~= remove_key(
            m.view_pairs(),
            alias@,
        ));
    }
    while i < m.pairs.len()
        invariant
            0 <= i <= m.pairs@.len(),
            remove_key(m.view_pairs(), alias@) == pairs_view(out@) + remove_key(
                m.view_pairs().skip(i as int),
                alias@,
            ),
        decreases m.pairs@.len() - i,
    {
        let ghost rest = m.view_pairs().skip(i as int);
        proof {
            assert(rest[0] == m.view_pairs()[i as int]);
            assert(rest.drop_first() =~= m.view_pairs().skip(i as int + 1));
        }
        if !str_eq(m.pairs[i].0.as_str(), alias) {
            out.push((m.pairs[i].0.clone(), m.pairs[i].1.clone()));
            proof {
                assert(pairs_view(out@) =~= pairs_view(out@).drop_last().push(
                    m.view_pairs()[i as int],
                ));
                assert(pairs_view(out@).drop_last() + (seq![rest[0]] + remove_key(
                    rest.drop_first(),
                    alias@,
                )) =~= pairs_view(out@) + remove_key(rest.drop_first(), alias@));
            }
        }
        i = i + 1;
    }
    proof {
        assert(m.view_pairs().skip(i as int) =~= Seq::<(Seq<char>, Seq<char>)>::empty());
        assert(pairs_view(out@) + Seq::<(Seq<char>, Seq<char>)>::empty() =~= pairs_view(out@));
    }
    out
}

/// Remove the alias, when one is given; says whether one was.
pub fn remove_alias(aliases: &mut AliasMap, alias: &Option<String>) -> (r: bool)
    ensures
        match *alias {
            Some(a) => r && final(aliases).view_pairs() == remove_key(
                old(aliases).view_pairs(),
                a@,
            ),
            None => !r && final(aliases).view_pairs() == old(aliases).view_pairs(),
        },
{
    match alias {
        Some(a) => {
            let kept = retain_without_key(aliases, a.as_str());
            aliases.pairs = kept;
            true
        },
        None => false,
    }
}

/// Add the alias for the path, after removing the old alias, when one is
/// given; an existing entry under the same name is replaced.
pub fn add_alias(aliases: &mut AliasMap, old_alias: &Option<String>, alias: String, path: String)
    ensures
        ({
            let cleared = match *old_alias {
                Some(a) => remove_key(old(aliases).view_pairs(), a@),
                None => old(aliases).view_pairs(),
            };
            final(aliases).view_pairs() == remove_key(cleared, alias@).push((alias@, path@))
        }),
{
    remove_alias(aliases, old_alias);
    let kept = retain_without_key(aliases, alias.as_str());
    aliases.pairs = kept;
    let ghost before = aliases.view_pairs();
    aliases.pairs.push((alias, path));
    proof {
        assert(aliases.view_pairs() =~= before.push(
            (aliases.pairs@.last().0@, aliases.pairs@.last().1@),
        ));
    }
}

/// Remove every alias that names the path.
pub fn remove_aliases_for_path(aliases: &mut AliasMap, path: &String)
    ensures
        final(aliases).view_pairs() == remove_val(old(aliases).view_pairs(), path@),
{
    let mut out: Vec<(String, String)> = Vec::new();
    let mut i: usize = 0;
    proof {
        assert(aliases.view_pairs().skip(0) =~= aliases.view_pairs());
        assert(pairs_view(out@) + remove_val(aliases.view_pairs(), path@) =~= remove_val(
            aliases.view_pairs(),
            path@,
        ));
    }
    while i < aliases.pairs.len()
        invariant
            0 <= i <= aliases.pairs@.len(),
            aliases == old(aliases),
            remove_val(aliases.view_pairs(), path@) == pairs_view(out@) + remove_val(
                aliases.view_pairs().skip(i as int),
                path@,
            ),
        decreases aliases.pairs@.len() - i,
    {
        let ghost rest = aliases.view_pairs().skip(i as int);
        proof {
            assert(rest[0] == aliases.view_pairs()[i as int]);
            assert(rest.drop_first() =~= aliases.view_pairs().skip(i as int + 1));
        }
        if !str_eq(aliases.pairs[i].1.as_str(), path.as_str()) {
            out.push((aliases.pairs[i].0.clone(), aliases.pairs[i].1.clone()));
            proof {
                assert(pairs_view(out@) =~= pairs_view(out@).drop_last().push(
                    aliases.view_pairs()[i as int],
                ));
                assert(pairs_view(out@).drop_last() + (seq![rest[0]] + remove_val(
                    rest.drop_first(),
                    path@,
                )) =~= pairs_view(out@) + remove_val(rest.drop_first(), path@));
            }
        }
        i = i + 1;
    }
    proof {
        assert(aliases.view_pairs().skip(i as int) =~= Seq::<(Seq<char>, Seq<char>)>::empty());
        assert(pairs_view(out@) + Seq::<(Seq<char>, Seq<char>)>::empty() =~= pairs_view(out@));
    }
    aliases.pairs = out;
}

/// The configuration text of the table: one `alias=path` line per entry.
pub open spec fn conf_lines(ps: Seq<(Seq<char>, Seq<char>)>) -> Seq<char>
    decreases ps.len(),
{
    if ps.len() == 0 {
        Seq::empty()
    } else {
        conf_lines(ps.drop_last()) + ps.last().0 + "="@ + ps.last().1 + "\n"@
    }
}

/// Render the table as configuration text.
pub fn conf_content(aliases: &AliasMap) -> (r: String)
    ensures
        r@ == conf_lines(aliases.view_pairs()),
{
    let mut out: Vec<char> = Vec::new();
    let mut i: usize = 0;
    proof {
        assert(out@ =~= conf_lines(aliases.view_pairs().take(0)));
    }
    while i < aliases.pairs.len()
        invariant
            0 <= i <= aliases.pairs@.len(),
            out@ == conf_lines(aliases.view_pairs().take(i as int)),
        decreases aliases.pairs@.len() - i,
    {
        crate::proposal::push_str_chars(&mut out, aliases.pairs[i].0.as_str());
        crate::proposal::push_str_chars(&mut out, "=");
        crate::proposal::push_str_chars(&mut out, aliases.pairs[i].1.as_str());
        crate::proposal::push_str_chars(&mut out, "\n");
        proof {
            let t = aliases.view_pairs().take(i as int + 1);
            assert(t.drop_last() =~= aliases.view_pairs().take(i as int));
            assert(t.last() == aliases.view_pairs()[i as int]);
        }
        i = i + 1;
    }
    proof {
        assert(aliases.view_pairs().take(aliases.pairs@.len() as int) =~= aliases.view_pairs());
    }
    crate::text::string_of(&out)
}

/// What the alias command decides to do.
pub enum AliasAction {
    ShowAliases,
    WriteConf(AliasMap),
}

/// The alias command's decision: with no terms the aliases are shown; a
/// leading `-r` removes the current alias, or every alias of the library path
/// when none is current; any other term becomes a new alias for the library
/// path, replacing the current one.
pub fn run(
    aliases: AliasMap,
    lib_alias: &Option<String>,
    lib_path: &String,
    terms: &Option<Vec<String>>,
) -> (r: AliasAction)
    requires
        (*terms) matches Some(t) ==> t@.len() > 0,
    ensures
        match *terms {
            None => r is ShowAliases,
            Some(t) => r matches AliasAction::WriteConf(m) && m.view_pairs() == (if t@[0]@
                == "-r"@ {
                match *lib_alias {
                    Some(a) => remove_key(aliases.view_pairs(), a@),
                    None => remove_val(aliases.view_pairs(), lib_path@),
                }
            } else {
                let cleared = match *lib_alias {
                    Some(a) => remove_key(aliases.view_pairs(), a@),
                    None => aliases.view_pairs(),
                };
                remove_key(cleared, t@[0]@).push((t@[0]@, lib_path@))
            }),
        },
{
    match terms {
        None => AliasAction::ShowAliases,
        Some(t) => {
            let mut new_aliases = aliases;
            if str_eq(t[0].as_str(), "-r") {
                if !remove_alias(&mut new_aliases, lib_alias) {
                    remove_aliases_for_path(&mut new_aliases, lib_path);
                }
            } else {
                add_alias(&mut new_aliases, lib_alias, t[0].clone(), lib_path.clone());
            }
            AliasAction::WriteConf(new_aliases)
        },
    }
}

} // verus!
