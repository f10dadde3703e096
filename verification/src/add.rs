//! Turning the terms given on the command line into download inputs: a term
//! that is no URL becomes a search query, a URL is kept in its normalized
//! form, and a URL of a playlist page contributes one search query per
//! scraped song (the scraping itself is the caller's work; its result is
//! handed in).

use crate::artists::views_of;
use crate::text::{matches_at, str_eq, chars_of, starts_at, string_of};
use vstd::prelude::*;
use vstd::string::StringExecFns;

verus! {

/// Whether the text parses as an absolute URL, as `url::Url::parse` decides
/// it.
pub uninterp spec fn url_parses(s: Seq<char>) -> bool;

/// The normalized text of the parsed URL, as `url::Url::as_str` returns it.
pub uninterp spec fn url_norm_of(s: Seq<char>) -> Seq<char>;

/// The host part of the parsed URL, as `url::Url::host_str` returns it.
pub uninterp spec fn url_host_of(s: Seq<char>) -> Option<Seq<char>>;

/// The path part of the parsed URL, as `url::Url::path` returns it.
pub uninterp spec fn url_path_of(s: Seq<char>) -> Seq<char>;

/// Relies on `url::Url::parse` and `url::Url::as_str`: whether a text parses
/// as an absolute URL, and its normalized form, depend on the text alone.
#[verifier::external_body]
fn url_normalize(term: &str) -> (r: Option<String>)
    ensures
        match r {
            Some(u) => url_parses(term@) && u@ == url_norm_of(term@),
            None => !url_parses(term@),
        },
{
    match url::Url::parse(term) {
        Ok(u) => Some(u.as_str().to_owned()),
        Err(_) => None,
    }
}

/// Relies on `url::Url::parse` and `url::Url::host_str`: the host of the
/// parsed URL, when there is one.
#[verifier::external_body]
fn url_host(term: &str) -> (r: Option<String>)
    ensures
        match r {
            Some(h) => url_parses(term@) && url_host_of(term@) == Some(h@),
            None => !url_parses(term@) || url_host_of(term@) is None,
        },
{
    match url::Url::parse(term) {
        Ok(u) => match u.host_str() {
            Some(h) => Some(h.to_owned()),
            None => None,
        },
        Err(_) => None,
    }
}

/// Relies on `url::Url::parse` and `url::Url::path`: the path of the parsed
/// URL.
#[verifier::external_body]
fn url_path(term: &str) -> (r: Option<String>)
    ensures
        match r {
            Some(p) => url_parses(term@) && p@ == url_path_of(term@),
            None => !url_parses(term@),
        },
{
    match url::Url::parse(term) {
        Ok(u) => Some(u.path().to_owned()),
        Err(_) => None,
    }
}

/// A term that names a scrapeable playlist page: a URL on the known playlist
/// host whose path begins with the playlist prefix.
pub open spec fn is_playlist_term(s: Seq<char>) -> bool {
    &&& url_parses(s)
    &&& url_host_of(s) == Some("open.spotify.com"@)
    &&& matches_at(url_path_of(s), 0, "/playlist"@)
}

/// The playlist URL to scrape for a term, if the term names one.
pub fn scrape_target(term: &String) -> (r: Option<String>)
    ensures
        match r {
            Some(u) => is_playlist_term(term@) && u@ == url_norm_of(term@),
            None => !is_playlist_term(term@),
        },
{
    let norm = match url_normalize(term.as_str()) {
        Some(u) => u,
        None => {
            return None;
        },
    };
    let host = match url_host(term.as_str()) {
        Some(h) => h,
        None => {
            return None;
        },
    };
    if !str_eq(host.as_str(), "open.spotify.com") {
        return None;
    }
    let path = match url_path(term.as_str()) {
        Some(p) => p,
        None => {
            return None;
        },
    };
    let pv = chars_of(path.as_str());
    let prefix = chars_of("/playlist");
    if starts_at(&pv, 0, &prefix) {
        Some(norm)
    } else {
        None
    }
}

/// The download inputs one term contributes. The scraped queries are the
/// caller's: they stand in only for a playlist term, and an absent value
/// means the scrape failed and the term is skipped.
pub open spec fn term_queries(term: Seq<char>, scraped: Option<Seq<Seq<char>>>) -> Seq<Seq<char>> {
    if !url_parses(term) {
        seq!["ytsearch:"@ + term]
    } else if is_playlist_term(term) {
        match scraped {
            Some(list) => list.map_values(|q: Seq<char>| "ytsearch:"@ + q),
            None => Seq::empty(),
        }
    } else {
        seq![url_norm_of(term)]
    }
}

/// The download inputs of all terms, in order.
pub open spec fn all_queries(
    terms: Seq<Seq<char>>,
    scraped: Seq<Option<Seq<Seq<char>>>>,
) -> Seq<Seq<char>>
    decreases terms.len(),
{
    if terms.len() == 0 {
        Seq::empty()
    } else {
        term_queries(terms[0], scraped[0]) + all_queries(terms.drop_first(), scraped.drop_first())
    }
}

proof fn lemma_all_queries_push(
    terms: Seq<Seq<char>>,
    scraped: Seq<Option<Seq<Seq<char>>>>,
    t: Seq<char>,
    s: Option<Seq<Seq<char>>>,
)
    requires
        terms.len() == scraped.len(),
    ensures
        all_queries(terms.push(t), scraped.push(s)) == all_queries(terms, scraped) + term_queries(
            t,
            s,
        ),
    decreases terms.len(),
{
    if terms.len() == 0 {
        assert(terms.push(t)[0] == t);
        assert(scraped.push(s)[0] == s);
        assert(terms.push(t).drop_first() =~= terms);
        assert(scraped.push(s).drop_first() =~= scraped);
        assert(all_queries(terms, scraped) == Seq::<Seq<char>>::empty());
        assert(Seq::<Seq<char>>::empty() + term_queries(t, s) =~= term_queries(t, s));
        assert(term_queries(t, s) + Seq::<Seq<char>>::empty() =~= term_queries(t, s));
    } else {
        assert(terms.push(t)[0] == terms[0]);
        assert(scraped.push(s)[0] == scraped[0]);
        assert(terms.push(t).drop_first() =~= terms.drop_first().push(t));
        assert(scraped.push(s).drop_first() =~= scraped.drop_first().push(s));
        lemma_all_queries_push(terms.drop_first(), scraped.drop_first(), t, s);
        assert(term_queries(terms[0], scraped[0]) + (all_queries(
            terms.drop_first(),
            scraped.drop_first(),
        ) + term_queries(t, s)) =~= (term_queries(terms[0], scraped[0]) + all_queries(
            terms.drop_first(),
            scraped.drop_first(),
        )) + term_queries(t, s));
    }
}

/// The lines joined with a newline between each two.
pub open spec fn join_lines(xs: Seq<Seq<char>>) -> Seq<char>
    decreases xs.len(),
{
    if xs.len() == 0 {
        Seq::empty()
    } else if xs.len() == 1 {
        xs[0]
    } else {
        join_lines(xs.drop_last()) + "\n"@ + xs.last()
    }
}

/// The view of per-term scrape results.
pub open spec fn scraped_views(s: Seq<Option<Vec<String>>>) -> Seq<Option<Seq<Seq<char>>>> {
    s.map_values(
        |o: Option<Vec<String>>|
            match o {
                Some(v) => Some(views_of(v@)),
                None => None,
            },
    )
}

fn push_query(out: &mut Vec<String>, q: &str)
    ensures
        final(out)@.len() == old(out)@.len() + 1,
        views_of(final(out)@) == views_of(old(out)@).push("ytsearch:"@ + q@),
{
    let mut line = "ytsearch:".to_owned();
    line.append(q);
    out.push(line);
    proof {
        assert(views_of(final(out)@) =~= views_of(old(out)@).push("ytsearch:"@ + q@));
    }
}

/// Turn the terms into download inputs, one line each: queries are marked for
/// searching, URLs stay as themselves, and a playlist term contributes one
/// search query per scraped song (none when its scrape failed).
pub fn parse(terms: &Vec<String>, scraped: &Vec<Option<Vec<String>>>) -> (r: String)
    requires
        terms@.len() == scraped@.len(),
    ensures
        r@ == join_lines(all_queries(views_of(terms@), scraped_views(scraped@))),
{
    let ghost tviews = views_of(terms@);
    let ghost sviews = scraped_views(scraped@);
    let mut inputs: Vec<String> = Vec::new();
    let mut i: usize = 0;
    proof {
        assert(tviews.take(0) =~= Seq::<Seq<char>>::empty());
        assert(sviews.take(0) =~= Seq::<Option<Seq<Seq<char>>>>::empty());
        assert(views_of(inputs@) =~= all_queries(tviews.take(0), sviews.take(0)));
    }
    while i < terms.len()
        invariant
            0 <= i <= terms@.len(),
            terms@.len() == scraped@.len(),
            tviews == views_of(terms@),
            sviews == scraped_views(scraped@),
            views_of(inputs@) == all_queries(tviews.take(i as int), sviews.take(i as int)),
        decreases terms@.len() - i,
    {
        let ghost before = views_of(inputs@);
        let term = &terms[i];
        match url_normalize(term.as_str()) {
            None => {
                push_query(&mut inputs, term.as_str());
            },
            Some(norm) => {
                match scrape_target(term) {
                    Some(_) => {
                        match &scraped[i] {
                            Some(list) => {
                                let mut k: usize = 0;
                                while k < list.len()
                                    invariant
                                        0 <= k <= list@.len(),
                                        views_of(inputs@) == before + views_of(list@).take(
                                            k as int,
                                        ).map_values(|q: Seq<char>| "ytsearch:"@ + q),
                                    decreases list@.len() - k,
                                {
                                    push_query(&mut inputs, list[k].as_str());
                                    k = k + 1;
                                    proof {
                                        assert(views_of(list@).take(k as int).map_values(
                                            |q: Seq<char>| "ytsearch:"@ + q,
                                        ) =~= views_of(list@).take(k - 1).map_values(
                                            |q: Seq<char>| "ytsearch:"@ + q,
                                        ).push("ytsearch:"@ + list@[k - 1]@));
                                    }
                                }
                                proof {
                                    assert(views_of(list@).take(list@.len() as int) =~= views_of(
                                        list@,
                                    ));
                                }
                            },
                            None => {},
                        }
                    },
                    None => {
                        inputs.push(norm);
                    },
                }
            },
        }
        proof {
            lemma_all_queries_push(
                tviews.take(i as int),
                sviews.take(i as int),
                tviews[i as int],
                sviews[i as int],
            );
            assert(tviews.take(i as int).push(tviews[i as int]) =~= tviews.take(i as int + 1));
            assert(sviews.take(i as int).push(sviews[i as int]) =~= sviews.take(i as int + 1));
            assert(views_of(inputs@) =~= before + term_queries(tviews[i as int], sviews[i as int]));
        }
        i = i + 1;
    }
    proof {
        assert(tviews.take(terms@.len() as int) =~= tviews);
        assert(sviews.take(scraped@.len() as int) =~= sviews);
    }
    // join the lines
    let mut out: Vec<char> = Vec::new();
    let mut k: usize = 0;
    let ghost lines = views_of(inputs@);
    proof {
        assert(out@ =~= join_lines(lines.take(0)));
    }
    while k < inputs.len()
        invariant
            0 <= k <= inputs@.len(),
            lines == views_of(inputs@),
            out@ == join_lines(lines.take(k as int)),
        decreases inputs@.len() - k,
    {
        if k > 0 {
            crate::proposal::push_str_chars(&mut out, "\n");
        }
        crate::proposal::push_str_chars(&mut out, inputs[k].as_str());
        proof {
            let t = lines.take(k as int + 1);
            assert(t.drop_last() =~= lines.take(k as int));
            assert(t.last() == lines[k as int]);
            if k == 0 {
                assert(Seq::<char>::empty() + lines[0] =~= lines[0]);
                assert(out@ =~= join_lines(lines.take(1)));
            }
        }
        k = k + 1;
    }
    proof {
        assert(lines.take(inputs@.len() as int) =~= lines);
    }
    string_of(&out)
}

} // verus!
