use vstd::prelude::*;

verus! {

/// An absolute URL as the crawl logic reads it: its serialized form and,
/// where its host is a domain name, that domain.
#[derive(Debug, PartialEq, Eq)]
pub struct WebUrl {
    pub text: String,
    pub domain: Option<String>,
}

/// The characters of an optional string.
pub open spec fn opt_chars(o: Option<String>) -> Option<Seq<char>> {
    match o {
        Some(s) => Some(s@),
        None => None,
    }
}

impl View for WebUrl {
    type V = (Seq<char>, Option<Seq<char>>);

    open spec fn view(&self) -> (Seq<char>, Option<Seq<char>>) {
        (self.text@, opt_chars(self.domain))
    }
}

/// The view of an optional URL.
pub open spec fn opt_url_view(o: Option<WebUrl>) -> Option<(Seq<char>, Option<Seq<char>>)> {
    match o {
        Some(u) => Some(u@),
        None => None,
    }
}

/// What `url::Url::parse` makes of `s`: the serialized URL and its domain,
/// or nothing where `s` is not an absolute URL.
pub uninterp spec fn parsed_absolute(s: Seq<char>) -> Option<(Seq<char>, Option<Seq<char>>)>;

/// What `url::Url::join` makes of `path` against the base URL `base`: the
/// serialized URL and its domain, or nothing where either does not parse.
pub uninterp spec fn joined_url(base: Seq<char>, path: Seq<char>) -> Option<(Seq<char>, Option<Seq<char>>)>;

/// The site root of `domain`, `https://<domain>`.
pub open spec fn site_root(domain: Seq<char>) -> Seq<char> {
    seq!['h', 't', 't', 'p', 's', ':', '/', '/'] + domain
}

/// `path` resolved against the site root of `domain`.
pub open spec fn resolved_on_domain(domain: Seq<char>, path: Seq<char>) -> Option<(Seq<char>, Option<Seq<char>>)> {
    joined_url(site_root(domain), path)
}

/// Relies on `url::Url::parse`, with `Url::as_str` and `Url::domain` reading
/// the parsed value: the outcome depends on the input text alone.
#[verifier::external_body]
fn parse_absolute(s: &str) -> (r: Option<WebUrl>)
    ensures
        opt_url_view(r) == parsed_absolute(s@),
{
    match url::Url::parse(s) {
        Ok(u) => Some(WebUrl { text: u.as_str().to_string(), domain: u.domain().map(|d| d.to_string()) }),
        Err(_) => None,
    }
}

/// Relies on `url::Url::join`, the base first read by `url::Url::parse`:
/// the outcome depends on the two input texts alone.
#[verifier::external_body]
fn join_url(base: &str, path: &str) -> (r: Option<WebUrl>)
    ensures
        opt_url_view(r) == joined_url(base@, path@),
{
    let base = match url::Url::parse(base) {
        Ok(b) => b,
        Err(_) => return None,
    };
    match base.join(path) {
        Ok(u) => Some(WebUrl { text: u.as_str().to_string(), domain: u.domain().map(|d| d.to_string()) }),
        Err(_) => None,
    }
}

/// Resolves `path` (absolute, or relative to the root) against the site
/// `https://<domain>`.
pub fn build_url(domain: &str, path: &str) -> (r: Option<WebUrl>)
    ensures
        opt_url_view(r) == resolved_on_domain(domain@, path@),
{
    let root = String::from_str("https://").concat(domain);
    proof {
        reveal_strlit("https://");
        assert(root@ =~= site_root(domain@));
    }
    join_url(root.as_str(), path)
}

/// Parses a discovered link, which must be an absolute URL.
pub fn parse_link(link: &str) -> (r: Option<WebUrl>)
    ensures
        opt_url_view(r) == parsed_absolute(link@),
{
    parse_absolute(link)
}

impl WebUrl {
    /// A field-by-field copy.
    pub fn duplicate(&self) -> (r: WebUrl)
        ensures
            r == *self,
    {
        let domain = match &self.domain {
            Some(d) => Some(d.clone()),
            None => None,
        };
        WebUrl { text: self.text.clone(), domain }
    }

    /// Whether the URL's domain is exactly `domain`.
    pub fn in_domain(&self, domain: &str) -> (r: bool)
        ensures
            r == (self@.1 == Some(domain@)),
    {
        match &self.domain {
            Some(d) => {
                let target = domain.to_owned();
                d.eq(&target)
            },
            None => false,
        }
    }
}

} // verus!
