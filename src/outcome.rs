use vstd::prelude::*;

use crate::web_url::{build_url, opt_url_view, resolved_on_domain, WebUrl};

verus! {

/// The HTTP status that counts as a successful fetch.
pub const STATUS_OK: u16 = 200;

/// The classification of one visited URL.
#[derive(Debug, PartialEq, Eq)]
pub enum UrlState {
    /// Fetched with status 200; the flag says whether the page was expanded.
    Accessible(WebUrl, bool),
    /// Fetched with another status code.
    BadStatus(WebUrl, u16),
    /// The transport failed; the message is kept for diagnostics.
    ConnectionFailed(WebUrl, String),
    /// No answer came before the fetch deadline.
    TimedOut(WebUrl),
    /// The raw input did not resolve to a URL; the network was not touched.
    Malformed(String),
}

/// What the HTTP client reported for one GET.
#[derive(Debug, PartialEq, Eq)]
pub enum FetchOutcome {
    /// A response arrived with this status code.
    Status(u16),
    /// The transport failed with this message.
    Failed(String),
}

/// The classification of a completed GET of `url`.
pub open spec fn classified(url: WebUrl, outcome: FetchOutcome) -> UrlState {
    match outcome {
        FetchOutcome::Status(code) => if code == STATUS_OK {
            UrlState::Accessible(url, false)
        } else {
            UrlState::BadStatus(url, code)
        },
        FetchOutcome::Failed(msg) => UrlState::ConnectionFailed(url, msg),
    }
}

/// `state` with its expansion flag set to `expanded`, where it has one.
pub open spec fn with_expanded_spec(state: UrlState, expanded: bool) -> UrlState {
    match state {
        UrlState::Accessible(url, _) => UrlState::Accessible(url, expanded),
        other => other,
    }
}

/// The winner of a race between a fetch finishing after `fetch_millis` and a
/// timer firing after `timeout_millis`: the fetch wins only strictly before
/// the deadline.
pub open spec fn race_winner(url: WebUrl, outcome: FetchOutcome, fetch_millis: u64, timeout_millis: u64) -> UrlState {
    if fetch_millis < timeout_millis {
        classified(url, outcome)
    } else {
        UrlState::TimedOut(url)
    }
}

/// Classifies a completed GET: status 200 is `Accessible` (not yet
/// expanded), another status is `BadStatus`, a transport failure is
/// `ConnectionFailed`.
pub fn classify_response(url: WebUrl, outcome: FetchOutcome) -> (r: UrlState)
    ensures
        r == classified(url, outcome),
{
    match outcome {
        FetchOutcome::Status(code) => if code == STATUS_OK {
            UrlState::Accessible(url, false)
        } else {
            UrlState::BadStatus(url, code)
        },
        FetchOutcome::Failed(msg) => UrlState::ConnectionFailed(url, msg),
    }
}

/// Sets the expansion flag of an `Accessible` state; other states pass
/// through unchanged.
pub fn with_expanded(state: UrlState, expanded: bool) -> (r: UrlState)
    ensures
        r == with_expanded_spec(state, expanded),
{
    match state {
        UrlState::Accessible(url, _) => UrlState::Accessible(url, expanded),
        other => other,
    }
}

/// Resolves the claimed `path` against the crawl's domain. A path that does
/// not resolve becomes `Malformed(path)`, and nothing is to be fetched.
pub fn fetch_target(domain: &str, path: &str) -> (r: Result<WebUrl, UrlState>)
    ensures
        r is Ok <==> resolved_on_domain(domain@, path@) is Some,
        r matches Ok(u) ==> resolved_on_domain(domain@, path@) == Some(u@),
        r matches Err(e) ==> e matches UrlState::Malformed(raw) && raw@ == path@,
{
    match build_url(domain, path) {
        Some(u) => Ok(u),
        None => Err(UrlState::Malformed(path.to_owned())),
    }
}

/// A single-slot handoff: the first result offered is kept, later ones are
/// dropped.
pub struct Handoff {
    slot: Option<UrlState>,
}

impl Handoff {
    /// The result held, if one was offered.
    pub closed spec fn held(&self) -> Option<UrlState> {
        self.slot
    }

    /// An empty handoff.
    pub fn new() -> (r: Handoff)
        ensures
            r.held() is None,
    {
        Handoff { slot: None }
    }

    /// Offers `state`; it is kept only if nothing was offered before.
    pub fn offer(&mut self, state: UrlState) -> (accepted: bool)
        ensures
            accepted == (old(self).held() is None),
            final(self).held() == if accepted {
                Some(state)
            } else {
                old(self).held()
            },
    {
        if self.slot.is_none() {
            self.slot = Some(state);
            true
        } else {
            false
        }
    }

    /// Whether a result is held.
    pub fn is_filled(&self) -> (r: bool)
        ensures
            r == (self.held() is Some),
    {
        self.slot.is_some()
    }

    /// Hands out the result held, emptying the slot.
    pub fn take(&mut self) -> (r: Option<UrlState>)
        ensures
            r == old(self).held(),
            final(self).held() is None,
    {
        let r = self.slot.take();
        r
    }
}

/// Settles a fetch of `url` that completes with `outcome` after
/// `fetch_millis`, raced against a timer of `timeout_millis`: both offer
/// their result to one handoff in the order they finish, and the caller sees
/// only the first.
pub fn resolve_race(url: WebUrl, outcome: FetchOutcome, fetch_millis: u64, timeout_millis: u64) -> (r: UrlState)
    ensures
        r == race_winner(url, outcome, fetch_millis, timeout_millis),
        fetch_millis < timeout_millis ==> r == classified(url, outcome),
        fetch_millis >= timeout_millis ==> r == UrlState::TimedOut(url),
{
    let mut slot = Handoff::new();
    let timer_url = url.duplicate();
    let fetched = classify_response(url, outcome);
    if fetch_millis < timeout_millis {
        slot.offer(fetched);
        slot.offer(UrlState::TimedOut(timer_url));
    } else {
        slot.offer(UrlState::TimedOut(timer_url));
        slot.offer(fetched);
    }
    slot.take().unwrap()
}

} // verus!
