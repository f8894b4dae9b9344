use vstd::prelude::*;

use crate::outcome::{with_expanded_spec, UrlState};
use crate::web_url::WebUrl;
use crate::text::{contains_any, contains_any_word, contains_seq, contains_word};
use crate::web_url::{opt_chars, parse_link, parsed_absolute};

verus! {

/// The characters of each string of `v`.
pub open spec fn views_of(v: Seq<String>) -> Seq<Seq<char>> {
    v.map_values(|s: String| s@)
}

/// A page is expanded when it was fetched with status 200, lies in the
/// crawl's domain, and its serialized URL holds no blacklisted word.
pub open spec fn expands(state: UrlState, domain: Seq<char>, blacklist: Seq<Seq<char>>) -> bool {
    match state {
        UrlState::Accessible(url, _) => url@.1 == Some(domain) && !contains_any(url@.0, blacklist),
        _ => false,
    }
}

/// A discovered link enters the frontier when it parses as an absolute URL
/// in the crawl's domain and, where a path marker is configured, its
/// serialized form holds the marker.
pub open spec fn link_admitted(domain: Seq<char>, link: Seq<char>, marker: Option<Seq<char>>) -> bool {
    match parsed_absolute(link) {
        Some(parts) => parts.1 == Some(domain) && match marker {
            Some(m) => contains_seq(parts.0, m),
            None => true,
        },
        None => false,
    }
}

/// The admitted links of `links`, in their order.
pub open spec fn admitted_links(domain: Seq<char>, links: Seq<Seq<char>>, marker: Option<Seq<char>>) -> Seq<Seq<char>>
    decreases links.len(),
{
    if links.len() == 0 {
        Seq::empty()
    } else {
        let rest = admitted_links(domain, links.drop_last(), marker);
        if link_admitted(domain, links.last(), marker) {
            rest.push(links.last())
        } else {
            rest
        }
    }
}

/// Whether the worker that produced `state` expands the page.
pub fn should_expand(state: &UrlState, domain: &str, blacklist: &Vec<String>) -> (r: bool)
    ensures
        r == expands(*state, domain@, views_of(blacklist@)),
{
    match state {
        UrlState::Accessible(url, _) => url.in_domain(domain) && !contains_any_word(url.text.as_str(), blacklist),
        _ => false,
    }
}

/// Whether one discovered link enters the frontier.
pub fn admit_link(domain: &str, link: &str, marker: &Option<String>) -> (r: bool)
    ensures
        r == link_admitted(domain@, link@, opt_chars(*marker)),
{
    match parse_link(link) {
        Some(url) => url.in_domain(domain) && match marker {
            Some(m) => contains_word(url.text.as_str(), m.as_str()),
            None => true,
        },
        None => false,
    }
}

/// The links of an expanded page that enter the frontier, in their order.
pub fn select_links(domain: &str, links: &Vec<String>, marker: &Option<String>) -> (r: Vec<String>)
    ensures
        views_of(r@) == admitted_links(domain@, views_of(links@), opt_chars(*marker)),
{
    let ghost m = opt_chars(*marker);
    let mut out: Vec<String> = Vec::new();
    let mut i: usize = 0;
    while i < links.len()
        invariant
            i <= links@.len(),
            m == opt_chars(*marker),
            views_of(out@) == admitted_links(domain@, views_of(links@).take(i as int), m),
        decreases links@.len() - i,
    {
        let ghost before = out@;
        let ghost prefix = views_of(links@).take(i as int + 1);
        assert(prefix.drop_last() =~= views_of(links@).take(i as int));
        assert(prefix.last() == links@[i as int]@);
        if admit_link(domain, links[i].as_str(), marker) {
            out.push(links[i].clone());
            assert(views_of(out@) =~= views_of(before).push(links@[i as int]@));
        }
        i = i + 1;
    }
    assert(views_of(links@).take(links@.len() as int) =~= views_of(links@));
    out
}

/// A page whose URL holds a blacklisted word is never expanded: it is
/// published as accessible and not expanded, and (by `Crawler::complete`)
/// adds nothing to the frontier.
pub proof fn lemma_blacklisted_not_expanded(url: WebUrl, flag: bool, domain: Seq<char>, blacklist: Seq<Seq<char>>)
    requires
        contains_any(url@.0, blacklist),
    ensures
        !expands(UrlState::Accessible(url, flag), domain, blacklist),
        with_expanded_spec(
            UrlState::Accessible(url, flag),
            expands(UrlState::Accessible(url, flag), domain, blacklist),
        ) == UrlState::Accessible(url, false),
{
}

/// Every link that enters the frontier is one of the page's links and
/// parses as an absolute URL of the crawl's domain.
pub proof fn lemma_admitted_in_domain(domain: Seq<char>, links: Seq<Seq<char>>, marker: Option<Seq<char>>)
    ensures
        forall|k: int| 0 <= k < admitted_links(domain, links, marker).len() ==> {
            &&& links.contains(#[trigger] admitted_links(domain, links, marker)[k])
            &&& parsed_absolute(admitted_links(domain, links, marker)[k]) matches Some(parts)
            &&& parts.1 == Some(domain)
        },
    decreases links.len(),
{
    if links.len() > 0 {
        let rest = links.drop_last();
        lemma_admitted_in_domain(domain, rest, marker);
        let out = admitted_links(domain, links, marker);
        assert forall|k: int| 0 <= k < out.len() implies {
            &&& links.contains(#[trigger] out[k])
            &&& parsed_absolute(out[k]) matches Some(parts)
            &&& parts.1 == Some(domain)
        } by {
            let prev = admitted_links(domain, rest, marker);
            if k < prev.len() {
                assert(out[k] == prev[k]);
                let t = choose|t: int| 0 <= t < rest.len() && rest[t] == prev[k];
                assert(links[t] == out[k]);
            } else {
                assert(out[k] == links.last());
                assert(links[links.len() - 1] == out[k]);
            }
        }
    }
}

} // verus!
