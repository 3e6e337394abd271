//! Text handling for to-do items: the whitespace predicate, trimming of the
//! input text, and the shape of a valid stored item text (non-empty, with no
//! leading or trailing whitespace).

use vstd::prelude::*;

verus! {

/// A character counts as whitespace for trimming purposes. This is the
/// Unicode `White_Space` set, the same set that `str::trim` removes.
pub open spec fn is_space(c: char) -> bool {
    c == ' ' || c == '\t' || c == '\n' || c == '\r' || c == '\u{b}' || c == '\u{c}'
        || c == '\u{85}' || c == '\u{a0}' || c == '\u{1680}'
        || ('\u{2000}' <= c && c <= '\u{200a}')
        || c == '\u{2028}' || c == '\u{2029}' || c == '\u{202f}' || c == '\u{205f}'
        || c == '\u{3000}'
}

/// Executable test for [`is_space`].
pub fn char_is_space(c: char) -> (r: bool)
    ensures
        r == is_space(c),
{
    c == ' ' || c == '\t' || c == '\n' || c == '\r' || c == '\u{b}' || c == '\u{c}'
        || c == '\u{85}' || c == '\u{a0}' || c == '\u{1680}'
        || ('\u{2000}' <= c && c <= '\u{200a}')
        || c == '\u{2028}' || c == '\u{2029}' || c == '\u{202f}' || c == '\u{205f}'
        || c == '\u{3000}'
}

/// The sequence with its leading whitespace removed.
pub open spec fn trim_start_spec(s: Seq<char>) -> Seq<char>
    decreases s.len(),
{
    if s.len() > 0 && is_space(s[0]) {
        trim_start_spec(s.subrange(1, s.len() as int))
    } else {
        s
    }
}

/// The sequence with its trailing whitespace removed.
pub open spec fn trim_end_spec(s: Seq<char>) -> Seq<char>
    decreases s.len(),
{
    if s.len() > 0 && is_space(s[s.len() - 1]) {
        trim_end_spec(s.subrange(0, s.len() - 1))
    } else {
        s
    }
}

/// The sequence with both leading and trailing whitespace removed: what
/// trimming the text of an item yields.
pub open spec fn trim_spec(s: Seq<char>) -> Seq<char> {
    trim_end_spec(trim_start_spec(s))
}

/// A text that may be stored in the list: non-empty and already trimmed,
/// that is, free of leading and trailing whitespace.
pub open spec fn valid_text(s: Seq<char>) -> bool {
    s.len() > 0 && !is_space(s[0]) && !is_space(s[s.len() - 1])
}

proof fn lemma_trim_start_at(s: Seq<char>, i: int)
    requires
        0 <= i <= s.len(),
        forall|m: int| 0 <= m < i ==> is_space(s[m]),
        i == s.len() || !is_space(s[i]),
    ensures
        trim_start_spec(s) == s.subrange(i, s.len() as int),
    decreases i,
{
    if i == 0 {
        assert(s.subrange(0, s.len() as int) =~= s);
    } else {
        assert(is_space(s[0]));
        let t = s.subrange(1, s.len() as int);
        lemma_trim_start_at(t, i - 1);
        assert(t.subrange(i - 1, t.len() as int) =~= s.subrange(i, s.len() as int));
    }
}

proof fn lemma_trim_end_at(s: Seq<char>, j: int)
    requires
        0 <= j <= s.len(),
        forall|m: int| j <= m < s.len() ==> is_space(s[m]),
        j == 0 || !is_space(s[j - 1]),
    ensures
        trim_end_spec(s) == s.subrange(0, j),
    decreases s.len() - j,
{
    if j == s.len() {
        assert(s.subrange(0, j) =~= s);
    } else {
        assert(is_space(s[s.len() - 1]));
        let t = s.subrange(0, s.len() - 1);
        lemma_trim_end_at(t, j);
        assert(t.subrange(0, j) =~= s.subrange(0, j));
    }
}

proof fn lemma_trim_range(s: Seq<char>, i: int, j: int)
    requires
        0 <= i < j <= s.len(),
        forall|m: int| 0 <= m < i ==> is_space(s[m]),
        !is_space(s[i]),
        !is_space(s[j - 1]),
        forall|m: int| j <= m < s.len() ==> is_space(s[m]),
    ensures
        trim_spec(s) == s.subrange(i, j),
{
    lemma_trim_start_at(s, i);
    let t = s.subrange(i, s.len() as int);
    lemma_trim_end_at(t, j - i);
    assert(t.subrange(0, j - i) =~= s.subrange(i, j));
}

/// A whitespace-only (or empty) text trims to nothing.
pub proof fn lemma_trim_all_space(s: Seq<char>)
    requires
        forall|m: int| 0 <= m < s.len() ==> is_space(s[m]),
    ensures
        trim_spec(s) == Seq::<char>::empty(),
{
    lemma_trim_start_at(s, s.len() as int);
    assert(s.subrange(s.len() as int, s.len() as int) =~= Seq::<char>::empty());
}

proof fn lemma_trim_start_first(s: Seq<char>)
    ensures
        trim_start_spec(s).len() > 0 ==> !is_space(trim_start_spec(s)[0]),
    decreases s.len(),
{
    if s.len() > 0 && is_space(s[0]) {
        lemma_trim_start_first(s.subrange(1, s.len() as int));
    }
}

proof fn lemma_trim_end_prefix(s: Seq<char>)
    ensures
        trim_end_spec(s).len() <= s.len(),
        forall|k: int| 0 <= k < trim_end_spec(s).len() ==> trim_end_spec(s)[k] == s[k],
        trim_end_spec(s).len() > 0 ==> !is_space(trim_end_spec(s)[trim_end_spec(s).len() - 1]),
    decreases s.len(),
{
    if s.len() > 0 && is_space(s[s.len() - 1]) {
        let t = s.subrange(0, s.len() - 1);
        lemma_trim_end_prefix(t);
        assert(forall|k: int| 0 <= k < t.len() ==> t[k] == s[k]);
    }
}

/// A trimmed text is either empty (the input was all whitespace) or a valid
/// item text: non-empty with non-whitespace first and last characters.
pub proof fn lemma_trim_valid(s: Seq<char>)
    ensures
        trim_spec(s).len() > 0 ==> valid_text(trim_spec(s)),
{
    lemma_trim_start_first(s);
    lemma_trim_end_prefix(trim_start_spec(s));
}

/// Removes leading and trailing whitespace, as `str::trim` does.
pub fn trim(s: &str) -> (r: String)
    ensures
        r@ == trim_spec(s@),
{
    let n = s.unicode_len();
    let mut i: usize = 0;
    while i < n && char_is_space(s.get_char(i))
        invariant
            0 <= i <= n,
            n == s@.len(),
            forall|m: int| 0 <= m < i ==> is_space(s@[m]),
        decreases n - i,
    {
        i = i + 1;
    }
    if i == n {
        proof {
            lemma_trim_all_space(s@);
        }
        return String::new();
    }
    let mut j: usize = n;
    while i < j && char_is_space(s.get_char(j - 1))
        invariant
            i < n,
            i <= j <= n,
            n == s@.len(),
            !is_space(s@[i as int]),
            forall|m: int| j <= m < n ==> is_space(s@[m]),
        decreases j,
    {
        j = j - 1;
    }
    assert(i < j) by {
        if i == j {
            assert(is_space(s@[i as int]));
        }
    }
    let t = s.substring_char(i, j);
    proof {
        lemma_trim_range(s@, i as int, j as int);
    }
    String::from_str(t)
}

} // verus!
