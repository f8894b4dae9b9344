use web_crawler::outcome::{classify_response, fetch_target, resolve_race, with_expanded, FetchOutcome, Handoff, UrlState};
use web_crawler::web_url::build_url;

fn url(path: &str) -> web_crawler::web_url::WebUrl {
    build_url("example.org", path).unwrap()
}

#[test]
fn classify_ok_is_accessible() {
    assert_eq!(classify_response(url("/"), FetchOutcome::Status(200)), UrlState::Accessible(url("/"), false));
}

#[test]
fn classify_other_status_is_bad() {
    assert_eq!(classify_response(url("/a"), FetchOutcome::Status(404)), UrlState::BadStatus(url("/a"), 404));
    assert_eq!(classify_response(url("/a"), FetchOutcome::Status(201)), UrlState::BadStatus(url("/a"), 201));
}

#[test]
fn classify_transport_failure() {
    assert_eq!(
        classify_response(url("/a"), FetchOutcome::Failed("refused".to_string())),
        UrlState::ConnectionFailed(url("/a"), "refused".to_string())
    );
}

#[test]
fn malformed_path_is_not_fetched() {
    assert_eq!(fetch_target("example.org", "https://[bad"), Err(UrlState::Malformed("https://[bad".to_string())));
    assert_eq!(fetch_target("example.org", "/b"), Ok(url("/b")));
}

#[test]
fn race_fetch_before_timeout_wins() {
    assert_eq!(resolve_race(url("/"), FetchOutcome::Status(200), 5, 10), UrlState::Accessible(url("/"), false));
    assert_eq!(resolve_race(url("/a"), FetchOutcome::Status(404), 9, 10), UrlState::BadStatus(url("/a"), 404));
    assert_eq!(
        resolve_race(url("/a"), FetchOutcome::Failed("reset".to_string()), 1, 10),
        UrlState::ConnectionFailed(url("/a"), "reset".to_string())
    );
}

#[test]
fn race_timeout_before_fetch_wins() {
    assert_eq!(resolve_race(url("/"), FetchOutcome::Status(200), 11, 10), UrlState::TimedOut(url("/")));
    assert_eq!(resolve_race(url("/"), FetchOutcome::Status(200), 10, 10), UrlState::TimedOut(url("/")));
}

#[test]
fn handoff_keeps_first_offer() {
    let mut slot = Handoff::new();
    assert!(!slot.is_filled());
    assert!(slot.offer(UrlState::TimedOut(url("/"))));
    assert!(!slot.offer(UrlState::Accessible(url("/"), false)));
    assert!(slot.is_filled());
    assert_eq!(slot.take(), Some(UrlState::TimedOut(url("/"))));
    assert_eq!(slot.take(), None);
}

#[test]
fn with_expanded_touches_only_accessible() {
    assert_eq!(with_expanded(UrlState::Accessible(url("/"), false), true), UrlState::Accessible(url("/"), true));
    assert_eq!(with_expanded(UrlState::TimedOut(url("/")), true), UrlState::TimedOut(url("/")));
}
