//! Reading the credential a workload host presents: the second
//! whitespace-separated word of its `Authorization` header, as in
//! `Bearer <token>`.

use vstd::prelude::*;

verus! {

/// Characters with the Unicode `White_Space` property.
pub open spec fn is_white_space(c: char) -> bool {
    ('\u{9}' <= c && c <= '\u{d}') || c == ' ' || c == '\u{85}' || c == '\u{a0}' || c == '\u{1680}'
        || ('\u{2000}' <= c && c <= '\u{200a}') || c == '\u{2028}' || c == '\u{2029}' || c
        == '\u{202f}' || c == '\u{205f}' || c == '\u{3000}'
}

/// Whether `c` is white space.
fn white_space(c: char) -> (r: bool)
    ensures
        r == is_white_space(c),
{
    ('\u{9}' <= c && c <= '\u{d}') || c == ' ' || c == '\u{85}' || c == '\u{a0}' || c == '\u{1680}'
        || ('\u{2000}' <= c && c <= '\u{200a}') || c == '\u{2028}' || c == '\u{2029}' || c
        == '\u{202f}' || c == '\u{205f}' || c == '\u{3000}'
}

/// The first position at or after `i` that holds no white space, or the end.
pub open spec fn skip_space(s: Seq<char>, i: int) -> int
    decreases s.len() - i,
{
    if i < 0 || i >= s.len() {
        s.len() as int
    } else if is_white_space(s[i]) {
        skip_space(s, i + 1)
    } else {
        i
    }
}

/// The first position at or after `i` that holds white space, or the end.
pub open spec fn skip_word(s: Seq<char>, i: int) -> int
    decreases s.len() - i,
{
    if i < 0 || i >= s.len() {
        s.len() as int
    } else if !is_white_space(s[i]) {
        skip_word(s, i + 1)
    } else {
        i
    }
}

/// The second word of `s`, words being separated by white space.
pub open spec fn second_word(s: Seq<char>) -> Option<Seq<char>> {
    let a = skip_space(s, 0);
    let b = skip_word(s, a);
    let c = skip_space(s, b);
    let d = skip_word(s, c);
    if c < s.len() {
        Some(s.subrange(c, d))
    } else {
        None
    }
}

/// Skipping moves forward and stays within `s`.
proof fn lemma_skip_bounds(s: Seq<char>, i: int)
    requires
        0 <= i <= s.len(),
    ensures
        i <= skip_space(s, i) <= s.len(),
        i <= skip_word(s, i) <= s.len(),
    decreases s.len() - i,
{
    if i < s.len() {
        lemma_skip_bounds(s, i + 1);
    }
}

/// From `i`, the first position that is not white space (`space`) or that
/// is (`!space`), or the end; `n` is the length of `s`.
fn skip(s: &str, n: usize, i: usize, space: bool) -> (r: usize)
    requires
        n == s@.len(),
        i <= n,
    ensures
        r == if space { skip_space(s@, i as int) } else { skip_word(s@, i as int) },
{
    let mut j = i;
    while j < n && white_space(s.get_char(j)) == space
        invariant
            i <= j <= n,
            n == s@.len(),
            space ==> skip_space(s@, j as int) == skip_space(s@, i as int),
            !space ==> skip_word(s@, j as int) == skip_word(s@, i as int),
        decreases n - j,
    {
        j += 1;
    }
    j
}

/// The second whitespace-separated word of `header`, if it has one.
pub fn bearer_token(header: &str) -> (r: Option<String>)
    ensures
        r is Some == second_word(header@) is Some,
        r is Some ==> r->Some_0@ == second_word(header@)->Some_0,
{
    let n = header.unicode_len();
    let a = skip(header, n, 0, true);
    proof {
        lemma_skip_bounds(header@, 0);
    }
    let b = skip(header, n, a, false);
    proof {
        lemma_skip_bounds(header@, a as int);
    }
    let c = skip(header, n, b, true);
    proof {
        lemma_skip_bounds(header@, b as int);
    }
    let d = skip(header, n, c, false);
    proof {
        lemma_skip_bounds(header@, c as int);
    }
    if c < n {
        Some(String::from_str(header.substring_char(c, d)))
    } else {
        None
    }
}

} // verus!
