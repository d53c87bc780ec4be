//! Text matching for the search of a listing: trimming a search term and
//! finding it anywhere inside a field.
use vstd::prelude::*;
use vstd::string::*;

verus! {

/// Whether `c` is whitespace, that is, whether it has the Unicode property
/// White_Space: the controls U+0009 to U+000D and U+0085, the space, and the
/// spaces and separators U+00A0, U+1680, U+2000 to U+200A, U+2028, U+2029,
/// U+202F, U+205F and U+3000.
pub open spec fn white_space(c: char) -> bool {
    let code = c as u32;
    ||| 0x0009 <= code <= 0x000D
    ||| code == 0x0020
    ||| code == 0x0085
    ||| code == 0x00A0
    ||| code == 0x1680
    ||| 0x2000 <= code <= 0x200A
    ||| code == 0x2028
    ||| code == 0x2029
    ||| code == 0x202F
    ||| code == 0x205F
    ||| code == 0x3000
}

/// Calls `char::is_whitespace`.
///
/// Claims: the result is true exactly of the characters with the Unicode
/// property White_Space, which [`white_space`] writes out.
#[verifier::external_body]
fn is_white_space(c: char) -> (b: bool)
    ensures
        b == white_space(c),
{
    c.is_whitespace()
}

/// Every character of `s` from `from` up to `to` is whitespace.
pub open spec fn all_white(s: Seq<char>, from: int, to: int) -> bool {
    forall|i: int| from <= i < to ==> white_space(#[trigger] s[i])
}

/// `start` and `end` cut the surrounding whitespace off `s`: only
/// whitespace lies before `start` and from `end` on, and what lies between,
/// if anything, begins and ends with a character that is none.
pub open spec fn trim_bounds(s: Seq<char>, start: int, end: int) -> bool {
    &&& 0 <= start <= end <= s.len()
    &&& all_white(s, 0, start)
    &&& all_white(s, end, s.len() as int)
    &&& start < end ==> !white_space(s[start]) && !white_space(s[end - 1])
}

/// `s` without its leading and trailing whitespace.
pub open spec fn trimmed(s: Seq<char>) -> Seq<char> {
    let (start, end) = choose|start: int, end: int| trim_bounds(s, start, end);
    s.subrange(start, end)
}

/// `needle` stands in `hay` at position `at`.
pub open spec fn occurs_at(hay: Seq<char>, needle: Seq<char>, at: int) -> bool {
    &&& 0 <= at
    &&& at + needle.len() <= hay.len()
    &&& hay.subrange(at, at + needle.len()) == needle
}

/// `needle` stands somewhere in `hay`, case and all. The empty text stands
/// in every text.
pub open spec fn contains_text(hay: Seq<char>, needle: Seq<char>) -> bool {
    exists|at: int| occurs_at(hay, needle, at)
}

/// Any two cuts of the surrounding whitespace leave the same text.
pub proof fn lemma_trim_unique(s: Seq<char>, a: int, b: int, c: int, d: int)
    requires
        trim_bounds(s, a, b),
        trim_bounds(s, c, d),
    ensures
        s.subrange(a, b) == s.subrange(c, d),
{
    if a < b && c < d {
        // The first and the last character that is no whitespace are the
        // same for both cuts.
        assert(!white_space(s[a]) && !white_space(s[c]));
        assert(a == c) by {
            if a < c {
                assert(white_space(s[a]));
            }
            if c < a {
                assert(white_space(s[c]));
            }
        }
        assert(b == d) by {
            if b < d {
                assert(white_space(s[d - 1]));
            }
            if d < b {
                assert(white_space(s[b - 1]));
            }
        }
    } else if a < b {
        // The second cut is empty, so all of `s` is whitespace.
        assert(white_space(s[a])) by {
            if a < c {
                assert(all_white(s, 0, c));
            } else {
                assert(all_white(s, d, s.len() as int));
            }
        }
    } else if c < d {
        assert(white_space(s[c])) by {
            if c < a {
                assert(all_white(s, 0, a));
            } else {
                assert(all_white(s, b, s.len() as int));
            }
        }
    } else {
        assert(s.subrange(a, b) =~= s.subrange(c, d));
    }
}

/// A cut of the surrounding whitespace leaves the trimmed text.
pub proof fn lemma_trimmed(s: Seq<char>, start: int, end: int)
    requires
        trim_bounds(s, start, end),
    ensures
        trimmed(s) == s.subrange(start, end),
{
    let (a, b) = choose|a: int, b: int| trim_bounds(s, a, b);
    lemma_trim_unique(s, a, b, start, end);
}

/// The characters of a string slice.
pub fn to_chars(text: &str) -> (chars: Vec<char>)
    ensures
        chars@ == text@,
{
    let mut chars: Vec<char> = Vec::new();
    for c in it: text.chars()
        invariant
            it.seq() == text@,
            chars@ == it.seq().take(it.index() as int),
    {
        chars.push(c);
    }
    chars
}

/// `text` without its leading and trailing whitespace.
pub fn trim(text: &Vec<char>) -> (r: Vec<char>)
    ensures
        r@ == trimmed(text@),
{
    let n: usize = text.len();
    let mut start: usize = 0;
    while start < n
        invariant
            start <= n,
            n == text.len(),
            all_white(text@, 0, start as int),
        ensures
            start <= n,
            all_white(text@, 0, start as int),
            start < n ==> !white_space(text@[start as int]),
        decreases n - start,
    {
        if !is_white_space(text[start]) {
            break ;
        }
        start = start + 1;
    }
    let mut end: usize = n;
    while end > start
        invariant
            start <= end <= n,
            n == text.len(),
            all_white(text@, end as int, n as int),
        ensures
            start <= end <= n,
            all_white(text@, end as int, n as int),
            start < end ==> !white_space(text@[end - 1]),
        decreases end - start,
    {
        if !is_white_space(text[end - 1]) {
            break ;
        }
        end = end - 1;
    }
    let mut r: Vec<char> = Vec::new();
    let mut i: usize = start;
    while i < end
        invariant
            start <= i <= end <= n,
            n == text.len(),
            r@ == text@.subrange(start as int, i as int),
        decreases end - i,
    {
        r.push(text[i]);
        proof {
            assert(r@ =~= text@.subrange(start as int, i + 1));
        }
        i = i + 1;
    }
    proof {
        lemma_trimmed(text@, start as int, end as int);
    }
    r
}

/// Whether `needle` stands in `hay` at position `at`. It does not where it
/// would reach beyond the end of `hay`.
pub fn matches_at(hay: &Vec<char>, needle: &Vec<char>, at: usize) -> (b: bool)
    ensures
        b == occurs_at(hay@, needle@, at as int),
{
    let m: usize = needle.len();
    if at > hay.len() || m > hay.len() - at {
        return false;
    }
    let mut j: usize = 0;
    while j < m
        invariant
            j <= m,
            m == needle.len(),
            at + m <= hay.len(),
            forall|k: int| 0 <= k < j ==> hay@[at + k] == needle@[k],
        decreases m - j,
    {
        if hay[at + j] != needle[j] {
            proof {
                let window = hay@.subrange(at as int, at + m);
                assert(window[j as int] != needle@[j as int]);
            }
            return false;
        }
        j = j + 1;
    }
    proof {
        assert(hay@.subrange(at as int, at + m) =~= needle@);
    }
    true
}

/// Whether `needle` stands somewhere in `hay`.
pub fn contains(hay: &Vec<char>, needle: &Vec<char>) -> (b: bool)
    ensures
        b == contains_text(hay@, needle@),
{
    let n: usize = hay.len();
    let m: usize = needle.len();
    if m > n {
        return false;
    }
    if m == 0 {
        proof {
            assert(hay@.subrange(0, 0) =~= needle@);
            assert(occurs_at(hay@, needle@, 0));
        }
        return true;
    }
    let last: usize = n - m;
    let mut at: usize = 0;
    while at <= last
        invariant
            at <= last + 1,
            last == n - m,
            m >= 1,
            n == hay.len(),
            m == needle.len(),
            forall|k: int| 0 <= k < at ==> !occurs_at(hay@, needle@, k),
        decreases last + 1 - at,
    {
        if matches_at(hay, needle, at) {
            return true;
        }
        at = at + 1;
    }
    false
}

} // verus!
