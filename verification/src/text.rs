//! Text primitives for the browser: substring search (the basis of every
//! filtered view), whitespace trimming of gateway output lines, and the
//! one-character edit used by the search bar.

use vstd::prelude::*;
use vstd::string::*;

verus! {

/// Characters treated as blank when gateway output is cleaned up.
pub open spec fn is_blank_char(c: char) -> bool {
    c == ' ' || c == '\t' || c == '\r' || c == '\n'
}

/// `q` occurs somewhere in `s` as a contiguous run of characters.
pub open spec fn has_substring(s: Seq<char>, q: Seq<char>) -> bool {
    exists|i: int| 0 <= i && i + q.len() <= s.len() && #[trigger] s.subrange(i, i + q.len()) == q
}

/// `s` without its leading blank characters.
pub open spec fn skip_blanks(s: Seq<char>) -> Seq<char>
    decreases s.len(),
{
    if s.len() > 0 && is_blank_char(s[0]) {
        skip_blanks(s.drop_first())
    } else {
        s
    }
}

/// `s` without its trailing blank characters.
pub open spec fn drop_trailing_blanks(s: Seq<char>) -> Seq<char>
    decreases s.len(),
{
    if s.len() > 0 && is_blank_char(s[s.len() - 1]) {
        drop_trailing_blanks(s.drop_last())
    } else {
        s
    }
}

/// `s` without leading and trailing blank characters.
pub open spec fn trimmed(s: Seq<char>) -> Seq<char> {
    drop_trailing_blanks(skip_blanks(s))
}

/// An empty query is found in every string.
pub proof fn lemma_empty_substring(s: Seq<char>, q: Seq<char>)
    requires
        q.len() == 0,
    ensures
        has_substring(s, q),
{
    assert(s.subrange(0, 0 + q.len() as int) =~= q);
}

/// `q` starts at position `i` of `s` exactly when the subrange equals `q`.
fn match_at(s: &str, q: &str, i: usize) -> (r: bool)
    requires
        i + q@.len() <= s@.len() <= usize::MAX,
    ensures
        r == (s@.subrange(i as int, i as int + q@.len() as int) == q@),
{
    let ql = q.unicode_len();
    let mut j: usize = 0;
    while j < ql
        invariant
            ql == q@.len(),
            i + ql <= s@.len() <= usize::MAX,
            j <= ql,
            forall|t: int| 0 <= t < j ==> s@[i + t] == q@[t],
        decreases ql - j,
    {
        if s.get_char(i + j) != q.get_char(j) {
            proof {
                assert(s@.subrange(i as int, i as int + ql as int)[j as int] != q@[j as int]);
            }
            return false;
        }
        j += 1;
    }
    proof {
        assert(s@.subrange(i as int, i as int + ql as int) =~= q@);
    }
    true
}

/// Substring test behind every filtered view: does `s` contain `q`?
pub fn str_has_substring(s: &str, q: &str) -> (r: bool)
    ensures
        r == has_substring(s@, q@),
{
    let sl = s.unicode_len();
    let ql = q.unicode_len();
    if ql > sl {
        return false;
    }
    if ql == 0 {
        proof {
            assert(0 + q@.len() <= s@.len() && s@.subrange(0, 0 + q@.len() as int) =~= q@);
        }
        return true;
    }
    let mut i: usize = 0;
    while i <= sl - ql
        invariant
            sl == s@.len(),
            ql == q@.len(),
            1 <= ql <= sl,
            i <= sl - ql + 1,
            forall|k: int| 0 <= k < i ==> #[trigger] s@.subrange(k, k + q@.len() as int) != q@,
        decreases sl - ql + 1 - i,
    {
        if match_at(s, q, i) {
            return true;
        }
        i += 1;
    }
    false
}

proof fn lemma_skip_blanks_is_subrange(s: Seq<char>, i: int)
    requires
        0 <= i <= s.len(),
        forall|j: int| 0 <= j < i ==> is_blank_char(s[j]),
        i == s.len() || !is_blank_char(s[i]),
    ensures
        skip_blanks(s) == s.subrange(i, s.len() as int),
    decreases i,
{
    if i == 0 {
        assert(s.subrange(0, s.len() as int) =~= s);
    } else {
        let rest = s.drop_first();
        lemma_skip_blanks_is_subrange(rest, i - 1);
        assert(rest.subrange(i - 1, rest.len() as int) =~= s.subrange(i, s.len() as int));
    }
}

/// `s` with its leading blank characters removed.
pub fn trim_leading(s: &str) -> (r: String)
    ensures
        r@ == skip_blanks(s@),
{
    let l = s.unicode_len();
    let mut i: usize = 0;
    while i < l && is_blank(s.get_char(i))
        invariant
            l == s@.len(),
            i <= l,
            forall|j: int| 0 <= j < i ==> is_blank_char(s@[j]),
        decreases l - i,
    {
        i += 1;
    }
    proof {
        lemma_skip_blanks_is_subrange(s@, i as int);
    }
    s.substring_char(i, l).to_owned()
}

proof fn lemma_trim_is_subrange(s: Seq<char>, lo: int, hi: int)
    requires
        0 <= lo <= hi <= s.len(),
        forall|j: int| 0 <= j < lo ==> is_blank_char(s[j]),
        lo == s.len() || !is_blank_char(s[lo]),
        forall|j: int| hi <= j < s.len() ==> is_blank_char(s[j]),
        hi == lo || !is_blank_char(s[hi - 1]),
    ensures
        trimmed(s) == s.subrange(lo, hi),
{
    lemma_skip_blanks_is_subrange(s, lo);
    let mid = s.subrange(lo, s.len() as int);
    lemma_drop_trailing_is_take(mid, hi - lo);
    assert(mid.subrange(0, hi - lo) =~= s.subrange(lo, hi));
}

proof fn lemma_drop_trailing_is_take(s: Seq<char>, i: int)
    requires
        0 <= i <= s.len(),
        forall|j: int| i <= j < s.len() ==> is_blank_char(s[j]),
        i == 0 || !is_blank_char(s[i - 1]),
    ensures
        drop_trailing_blanks(s) == s.subrange(0, i),
    decreases s.len() - i,
{
    if i == s.len() {
        assert(s.subrange(0, i) =~= s);
    } else {
        let shorter = s.drop_last();
        lemma_drop_trailing_is_take(shorter, i);
        assert(shorter.subrange(0, i) =~= s.subrange(0, i));
    }
}

/// Exact blank test on one character.
pub fn is_blank(c: char) -> (r: bool)
    ensures
        r == is_blank_char(c),
{
    c == ' ' || c == '\t' || c == '\r' || c == '\n'
}

/// `s` with leading and trailing blank characters removed, as handed to the
/// version-control gateway as a branch name.
pub fn trim_ends(s: &str) -> (r: String)
    ensures
        r@ == trimmed(s@),
{
    let l = s.unicode_len();
    let mut lo: usize = 0;
    while lo < l && is_blank(s.get_char(lo))
        invariant
            l == s@.len(),
            lo <= l,
            forall|j: int| 0 <= j < lo ==> is_blank_char(s@[j]),
        decreases l - lo,
    {
        lo += 1;
    }
    let mut hi: usize = l;
    while hi > lo && is_blank(s.get_char(hi - 1))
        invariant
            l == s@.len(),
            lo <= hi <= l,
            forall|j: int| hi <= j < l ==> is_blank_char(s@[j]),
        decreases hi,
    {
        hi -= 1;
    }
    proof {
        lemma_trim_is_subrange(s@, lo as int, hi as int);
    }
    s.substring_char(lo, hi).to_owned()
}

/// The search query with its last character removed; an empty query is left
/// unchanged.
pub fn remove_last_char<'a>(s: &'a str) -> (r: &'a str)
    ensures
        s@.len() == 0 ==> r@ == s@,
        s@.len() > 0 ==> r@ == s@.drop_last(),
{
    let l = s.unicode_len();
    if l == 0 {
        s
    } else {
        let r = s.substring_char(0, l - 1);
        proof {
            assert(s@.drop_last() =~= s@.subrange(0, l - 1));
        }
        r
    }
}

/// Relies on `String::push`: appends the character to the end of the string.
pub assume_specification[ String::push ](s: &mut String, c: char)
    ensures
        final(s)@ == old(s)@.push(c),
;

} // verus!
