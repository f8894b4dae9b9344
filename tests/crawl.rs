use std::collections::HashMap;

use web_crawler::frontier::{ClaimStep, Crawler, StreamStep};
use web_crawler::outcome::{classify_response, fetch_target, FetchOutcome, UrlState};
use web_crawler::web_url::{build_url, WebUrl};
use web_crawler::worker::{select_links, should_expand};

const DOMAIN: &str = "example.org";

/// A mock site: for each serialized URL, the status it answers with and the
/// links on its page.
type Site = HashMap<String, (u16, Vec<String>)>;

struct Run {
    published: Vec<UrlState>,
    parsed: usize,
    max_active: usize,
    fetches: Vec<String>,
}

enum Phase {
    Idle,
    Claimed(String),
    Visiting(UrlState),
    Stopped,
}

fn fetch(site: &Site, path: &str) -> UrlState {
    match fetch_target(DOMAIN, path) {
        Err(malformed) => malformed,
        Ok(url) => match site.get(&url.text) {
            Some((code, _)) => classify_response(url, FetchOutcome::Status(*code)),
            None => classify_response(url, FetchOutcome::Failed("no such host".to_string())),
        },
    }
}

/// Runs `workers` workers in round robin, one step each per turn, and the
/// result stream after each turn.
fn run(site: &Site, seeds: Vec<&str>, workers: usize, blacklist: &Vec<String>, marker: &Option<String>) -> Run {
    let mut crawler = Crawler::new(seeds[0].to_string(), workers);
    for extra in &seeds[1..] {
        crawler.push(extra.to_string());
    }
    let mut phases: Vec<Phase> = (0..workers).map(|_| Phase::Idle).collect();
    let mut outbox: Vec<UrlState> = Vec::new();
    let mut out = Run { published: Vec::new(), parsed: 0, max_active: 0, fetches: Vec::new() };
    for _ in 0..100_000 {
        for w in 0..workers {
            let phase = std::mem::replace(&mut phases[w], Phase::Stopped);
            phases[w] = match phase {
                Phase::Idle => match crawler.claim_step() {
                    ClaimStep::Claimed(u) => Phase::Claimed(u),
                    ClaimStep::Wait => Phase::Idle,
                    ClaimStep::Done => Phase::Stopped,
                },
                Phase::Claimed(u) => {
                    if crawler.begin_visit(&u) {
                        out.fetches.push(u.clone());
                        Phase::Visiting(fetch(site, &u))
                    } else {
                        Phase::Idle
                    }
                }
                Phase::Visiting(state) => {
                    let links = match &state {
                        UrlState::Accessible(url, _) if should_expand(&state, DOMAIN, blacklist) => {
                            site.get(&url.text).map(|p| p.1.clone()).unwrap_or_default()
                        }
                        _ => Vec::new(),
                    };
                    outbox.push(crawler.complete(state, &links, DOMAIN, blacklist, marker));
                    Phase::Idle
                }
                Phase::Stopped => Phase::Stopped,
            };
            out.max_active = out.max_active.max(crawler.active_count());
            assert!(crawler.active_count() <= crawler.worker_count());
        }
        loop {
            let received = if outbox.is_empty() { None } else { Some(outbox.remove(0)) };
            match crawler.stream_step(received) {
                StreamStep::Yield(s) => out.published.push(s),
                StreamStep::Finished => {
                    out.parsed = crawler.parsed_count();
                    return out;
                }
                StreamStep::Retry => break,
            }
        }
    }
    panic!("the crawl did not terminate");
}

fn page(site: &mut Site, text: &str, code: u16, links: &[&str]) {
    site.insert(text.to_string(), (code, links.iter().map(|l| l.to_string()).collect()));
}

fn u(path: &str) -> WebUrl {
    build_url(DOMAIN, path).unwrap()
}

fn chain_site(k: usize) -> Site {
    // A tree of k pages: page i links to pages 2i+1 and 2i+2.
    let mut site = Site::new();
    for i in 0..k {
        let links: Vec<String> = [2 * i + 1, 2 * i + 2]
            .iter()
            .filter(|j| **j < k)
            .map(|j| format!("https://example.org/p{}", j))
            .collect();
        site.insert(format!("https://example.org/p{}", i), (200, links));
    }
    site
}

#[test]
fn end_to_end_example() {
    let mut site = Site::new();
    page(&mut site, "https://example.org/", 200, &["https://example.org/a", "https://example.org/b"]);
    page(&mut site, "https://example.org/a", 404, &[]);
    page(&mut site, "https://example.org/b", 404, &[]);
    let r = run(&site, vec!["https://example.org/"], 2, &Vec::new(), &None);
    assert_eq!(r.published.len(), 3);
    assert!(r.published.contains(&UrlState::Accessible(u("/"), true)));
    assert!(r.published.contains(&UrlState::BadStatus(u("/a"), 404)));
    assert!(r.published.contains(&UrlState::BadStatus(u("/b"), 404)));
    assert_eq!(r.parsed, 1);
}

#[test]
fn duplicate_claims_publish_once() {
    let mut site = Site::new();
    page(&mut site, "https://example.org/", 200, &[]);
    let seeds = vec!["https://example.org/"; 6];
    for workers in [1, 3, 20] {
        let r = run(&site, seeds.clone(), workers, &Vec::new(), &None);
        assert_eq!(r.published, vec![UrlState::Accessible(u("/"), true)]);
        assert_eq!(r.fetches.len(), 1);
    }
}

#[test]
fn finite_graph_yields_each_page_once() {
    let site = chain_site(15);
    for workers in [1, 20] {
        let r = run(&site, vec!["https://example.org/p0"], workers, &Vec::new(), &None);
        assert_eq!(r.published.len(), 15);
        for i in 0..15 {
            let want = UrlState::Accessible(u(&format!("/p{}", i)), true);
            assert_eq!(r.published.iter().filter(|s| **s == want).count(), 1);
        }
        assert_eq!(r.parsed, 15);
    }
}

#[test]
fn active_count_stays_in_range() {
    let site = chain_site(31);
    let r = run(&site, vec!["https://example.org/p0"], 4, &Vec::new(), &None);
    assert!(r.max_active <= 4);
    assert!(r.max_active >= 2);
}

#[test]
fn blacklisted_page_is_not_expanded() {
    let mut site = Site::new();
    page(&mut site, "https://example.org/", 200, &["https://example.org/news"]);
    page(&mut site, "https://example.org/news", 200, &["https://example.org/hidden"]);
    page(&mut site, "https://example.org/hidden", 200, &[]);
    let blacklist = vec!["news".to_string()];
    let r = run(&site, vec!["https://example.org/"], 2, &blacklist, &None);
    assert_eq!(r.published.len(), 2);
    assert!(r.published.contains(&UrlState::Accessible(u("/news"), false)));
    assert!(!r.fetches.contains(&"https://example.org/hidden".to_string()));
    assert_eq!(r.parsed, 1);
}

#[test]
fn out_of_domain_links_are_dropped() {
    let mut site = Site::new();
    page(&mut site, "https://example.org/", 200, &["https://other.net/x", "not a url", "https://example.org/in"]);
    page(&mut site, "https://example.org/in", 200, &[]);
    page(&mut site, "https://other.net/x", 200, &[]);
    let r = run(&site, vec!["https://example.org/"], 3, &Vec::new(), &None);
    assert_eq!(r.published.len(), 2);
    assert!(r.fetches.iter().all(|f| f.starts_with("https://example.org/")));
}

#[test]
fn failures_are_published_and_not_expanded() {
    let mut site = Site::new();
    page(&mut site, "https://example.org/", 200, &["https://example.org/gone", "https://example.org/[x"]);
    let r = run(&site, vec!["https://example.org/", "https://[bad"], 2, &Vec::new(), &None);
    assert!(r.published.contains(&UrlState::Malformed("https://[bad".to_string())));
    assert!(r
        .published
        .contains(&UrlState::ConnectionFailed(u("/gone"), "no such host".to_string())));
    assert_eq!(r.parsed, 1);
}

#[test]
fn marker_filters_candidates() {
    let links = vec![
        "https://example.org/staff/1".to_string(),
        "https://example.org/about".to_string(),
        "https://other.net/staff".to_string(),
    ];
    let chosen = select_links(DOMAIN, &links, &Some("staff".to_string()));
    assert_eq!(chosen, vec!["https://example.org/staff/1".to_string()]);
    let all = select_links(DOMAIN, &links, &None);
    assert_eq!(all.len(), 2);
}

#[test]
fn claim_step_waits_then_stops() {
    let mut c = Crawler::new("https://example.org/".to_string(), 2);
    assert!(!c.is_finished());
    let first = c.claim_step();
    assert_eq!(first, ClaimStep::Claimed("https://example.org/".to_string()));
    assert_eq!(c.claim_step(), ClaimStep::Wait);
    assert!(c.begin_visit(&"https://example.org/".to_string()));
    let done = c.complete(UrlState::TimedOut(u("/")), &Vec::new(), DOMAIN, &Vec::new(), &None);
    assert_eq!(done, UrlState::TimedOut(u("/")));
    assert_eq!(c.claim_step(), ClaimStep::Done);
    assert!(c.is_finished());
    assert_eq!(c.pending_count(), 0);
    assert_eq!(c.parsed_count(), 0);
}

#[test]
fn mark_visited_is_test_and_set() {
    let mut c = Crawler::new("s".to_string(), 1);
    let a = "https://example.org/a".to_string();
    assert!(c.mark_visited(&a));
    assert!(!c.mark_visited(&a));
    assert!(c.mark_visited(&"https://example.org/b".to_string()));
}
