use vstd::prelude::*;

use crate::text::{contains_seq, contains_word};

verus! {

/// The text of a link before its first `#`, that is without its fragment.
pub open spec fn without_fragment(s: Seq<char>) -> Seq<char>
    decreases s.len(),
{
    if s.len() == 0 {
        s
    } else if s[0] == '#' {
        Seq::empty()
    } else {
        seq![s[0]] + without_fragment(s.drop_first())
    }
}

/// An `href` made absolute: without its fragment, and, unless it already
/// holds `keep` (the site's own absolute prefix), joined to `site` with
/// exactly one `/` between them.
pub open spec fn absolute_link_spec(href: Seq<char>, site: Seq<char>, keep: Seq<char>) -> Seq<char> {
    let h = without_fragment(href);
    if contains_seq(h, keep) {
        h
    } else if h.len() > 0 && h[0] == '/' {
        site + h
    } else {
        site + seq!['/'] + h
    }
}

proof fn lemma_without_fragment_prefix(s: Seq<char>, i: int)
    requires
        0 <= i <= s.len(),
        forall|t: int| 0 <= t < i ==> s[t] != '#',
        i == s.len() || s[i] == '#',
    ensures
        without_fragment(s) == s.subrange(0, i),
    decreases s.len(),
{
    if s.len() > 0 && i > 0 {
        lemma_without_fragment_prefix(s.drop_first(), i - 1);
        assert(seq![s[0]] + s.drop_first().subrange(0, i - 1) =~= s.subrange(0, i));
    } else if s.len() > 0 {
        assert(s.subrange(0, 0) =~= Seq::<char>::empty());
    } else {
        assert(s.subrange(0, 0) =~= s);
    }
}

/// Drops the fragment of a link: the text before its first `#`.
pub fn strip_fragment(href: &str) -> (r: String)
    ensures
        r@ == without_fragment(href@),
{
    let n = href.unicode_len();
    let mut i: usize = 0;
    while i < n && href.get_char(i) != '#'
        invariant
            n == href@.len(),
            i <= n,
            forall|t: int| 0 <= t < i ==> href@[t] != '#',
        decreases n - i,
    {
        i = i + 1;
    }
    proof {
        lemma_without_fragment_prefix(href@, i as int);
    }
    String::from_str(href.substring_char(0, i))
}

/// Makes a link found on a page absolute, as `absolute_link_spec` says.
pub fn absolute_link(href: &str, site: &str, keep: &str) -> (r: String)
    ensures
        r@ == absolute_link_spec(href@, site@, keep@),
{
    let h = strip_fragment(href);
    if contains_word(h.as_str(), keep) {
        return h;
    }
    let starts_with_slash = h.as_str().unicode_len() > 0 && h.as_str().get_char(0) == '/';
    let mut out = String::from_str(site);
    if !starts_with_slash {
        out.append("/");
        proof {
            reveal_strlit("/");
        }
    }
    out.append(h.as_str());
    proof {
        if !starts_with_slash {
            assert(out@ =~= site@ + seq!['/'] + h@);
        }
    }
    out
}

} // verus!
