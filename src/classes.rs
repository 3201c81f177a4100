//! Class lists of HTML elements: tokens separated by ASCII whitespace.

use vstd::prelude::*;
use crate::text::chars_of;

verus! {

/// The ASCII whitespace characters that separate class names.
pub open spec fn is_ascii_ws(c: char) -> bool {
    c == ' ' || c == '\t' || c == '\n' || c == '\x0C' || c == '\r'
}

/// `s[i..j]` is one whole whitespace-separated token of `s`.
pub open spec fn token_at(s: Seq<char>, i: int, j: int) -> bool {
    &&& 0 <= i < j <= s.len()
    &&& (i == 0 || is_ascii_ws(s[i - 1]))
    &&& (j == s.len() || is_ascii_ws(s[j]))
    &&& forall|k: int| i <= k < j ==> !is_ascii_ws(#[trigger] s[k])
}

/// `c` is one of the whitespace-separated tokens of `s`.
pub open spec fn has_token(s: Seq<char>, c: Seq<char>) -> bool {
    exists|i: int, j: int| #[trigger] token_at(s, i, j) && s.subrange(i, j) == c
}

/// Whether `s[start..end]` is `c`.
fn run_is(s: &Vec<char>, start: usize, end: usize, c: &Vec<char>) -> (r: bool)
    requires
        start <= end <= s@.len(),
    ensures
        r == (s@.subrange(start as int, end as int) == c@),
{
    if end - start != c.len() {
        assert(s@.subrange(start as int, end as int).len() != c@.len());
        return false;
    }
    let mut k: usize = 0;
    while k < c.len()
        invariant
            end - start == c@.len(),
            start <= end <= s@.len(),
            k <= c@.len(),
            forall|m: int| 0 <= m < k ==> s@[start + m] == c@[m],
        decreases c@.len() - k,
    {
        if s[start + k] != c[k] {
            assert(s@.subrange(start as int, end as int)[k as int] != c@[k as int]);
            return false;
        }
        k = k + 1;
    }
    assert(s@.subrange(start as int, end as int) =~= c@);
    true
}

/// Whether `class` is one of the whitespace-separated tokens of `value`.
pub fn has_class_token(value: &str, class: &str) -> (r: bool)
    ensures
        r == has_token(value@, class@),
{
    let s = chars_of(value);
    let c = chars_of(class);
    let n = s.len();
    let mut start: usize = 0;
    let mut p: usize = 0;
    while p < n
        invariant
            n == s@.len(),
            s@ == value@,
            c@ == class@,
            start <= p <= n,
            start == 0 || is_ascii_ws(s@[start - 1]),
            forall|k: int| start <= k < p ==> !is_ascii_ws(#[trigger] s@[k]),
            forall|i: int, j: int| #[trigger] token_at(s@, i, j) && j < p ==> s@.subrange(i, j) != c@,
        decreases n - p,
    {
        if is_ws(s[p]) {
            if start < p && run_is(&s, start, p, &c) {
                assert(token_at(s@, start as int, p as int));
                return true;
            }
            assert forall|i: int, j: int| #[trigger] token_at(s@, i, j) && j < p + 1 implies s@.subrange(
                i,
                j,
            ) != c@ by {
                if j == p {
                    if i < start {
                        assert(!is_ascii_ws(s@[start - 1]));
                    } else if i > start {
                        assert(!is_ascii_ws(s@[i - 1]));
                    }
                }
            }
            start = p + 1;
        } else {
            assert forall|i: int, j: int| #[trigger] token_at(s@, i, j) && j < p + 1 implies s@.subrange(
                i,
                j,
            ) != c@ by {
                if j == p {
                    assert(is_ascii_ws(s@[j]));
                }
            }
        }
        p = p + 1;
    }
    if start < n && run_is(&s, start, n, &c) {
        assert(token_at(s@, start as int, n as int));
        return true;
    }
    assert forall|i: int, j: int| #[trigger] token_at(s@, i, j) implies s@.subrange(i, j) != c@ by {
        if j == n {
            if i < start {
                assert(!is_ascii_ws(s@[start - 1]));
            } else if i > start {
                assert(!is_ascii_ws(s@[i - 1]));
            }
        }
    }
    false
}

/// Whether `c` is ASCII whitespace.
fn is_ws(c: char) -> (r: bool)
    ensures
        r == is_ascii_ws(c),
{
    c == ' ' || c == '\t' || c == '\n' || c == '\x0C' || c == '\r'
}

} // verus!
