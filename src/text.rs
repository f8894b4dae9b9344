use vstd::prelude::*;

verus! {

/// `word` occurs in `s` as a contiguous run starting at `start`.
pub open spec fn occurs_at(s: Seq<char>, word: Seq<char>, start: int) -> bool {
    0 <= start && start + word.len() <= s.len() && s.subrange(start, start + word.len()) == word
}

/// `word` occurs somewhere in `s`.
pub open spec fn contains_seq(s: Seq<char>, word: Seq<char>) -> bool {
    exists|start: int| occurs_at(s, word, start)
}

/// Some word of `words` occurs in `s`.
pub open spec fn contains_any(s: Seq<char>, words: Seq<Seq<char>>) -> bool {
    exists|k: int| 0 <= k < words.len() && contains_seq(s, #[trigger] words[k])
}

/// The characters of `s`, one per element.
pub fn chars_of(s: &str) -> (r: Vec<char>)
    ensures
        r@ == s@,
{
    let n = s.unicode_len();
    let mut out: Vec<char> = Vec::new();
    let mut i: usize = 0;
    while i < n
        invariant
            n == s@.len(),
            i <= n,
            out@ == s@.subrange(0, i as int),
        decreases n - i,
    {
        out.push(s.get_char(i));
        i = i + 1;
        assert(out@ =~= s@.subrange(0, i as int));
    }
    assert(out@ =~= s@);
    out
}

fn matches_at(hay: &Vec<char>, word: &Vec<char>, start: usize) -> (r: bool)
    requires
        start + word@.len() <= hay@.len(),
    ensures
        r == occurs_at(hay@, word@, start as int),
{
    let mut j: usize = 0;
    while j < word.len()
        invariant
            start + word@.len() <= hay@.len(),
            hay@.len() == hay.len(),
            j <= word@.len(),
            forall|t: int| 0 <= t < j ==> hay@[start + t] == word@[t],
        decreases word@.len() - j,
    {
        if hay[start + j] != word[j] {
            assert(hay@.subrange(start as int, start + word@.len())[j as int] != word@[j as int]);
            return false;
        }
        j = j + 1;
    }
    assert(hay@.subrange(start as int, start + word@.len()) =~= word@);
    true
}

/// Whether `word` occurs in `s` as a contiguous run of characters.
pub fn contains_word(s: &str, word: &str) -> (r: bool)
    ensures
        r == contains_seq(s@, word@),
{
    let hay = chars_of(s);
    let w = chars_of(word);
    if w.len() > hay.len() {
        assert forall|start: int| !occurs_at(s@, word@, start) by {}
        return false;
    }
    let last = hay.len() - w.len();
    let mut start: usize = 0;
    loop
        invariant
            hay@ == s@,
            w@ == word@,
            last == hay@.len() - w@.len(),
            start <= last,
            forall|p: int| 0 <= p < start ==> !occurs_at(s@, word@, p),
        decreases last - start,
    {
        if matches_at(&hay, &w, start) {
            return true;
        }
        if start == last {
            assert forall|p: int| !occurs_at(s@, word@, p) by {
                if 0 <= p && p <= start {
                }
            }
            return false;
        }
        start = start + 1;
    }
}

/// Whether any word of `words` occurs in `s`.
pub fn contains_any_word(s: &str, words: &Vec<String>) -> (r: bool)
    ensures
        r == contains_any(s@, words@.map_values(|w: String| w@)),
{
    let ghost views = words@.map_values(|w: String| w@);
    let mut k: usize = 0;
    while k < words.len()
        invariant
            views == words@.map_values(|w: String| w@),
            k <= words@.len(),
            forall|t: int| 0 <= t < k ==> !contains_seq(s@, #[trigger] views[t]),
        decreases words@.len() - k,
    {
        if contains_word(s, words[k].as_str()) {
            assert(contains_seq(s@, views[k as int]));
            return true;
        }
        k = k + 1;
    }
    false
}

} // verus!
