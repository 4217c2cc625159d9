//! Character-level text operations, each stated over `Seq<char>`.
//!
//! The functions here work on the characters of a string (`s@`), never on
//! its UTF-8 bytes, so every index is a character index.

use vstd::prelude::*;

verus! {

// ----------------------------------------------------------------------
// Specifications
// ----------------------------------------------------------------------

/// The Unicode `White_Space` property, which is what `char::is_whitespace`
/// and therefore `str::trim` test.
pub open spec fn is_white_space(c: char) -> bool {
    ||| ('\u{9}' <= c && c <= '\u{d}')
    ||| c == ' '
    ||| c == '\u{85}'
    ||| c == '\u{a0}'
    ||| c == '\u{1680}'
    ||| ('\u{2000}' <= c && c <= '\u{200a}')
    ||| c == '\u{2028}'
    ||| c == '\u{2029}'
    ||| c == '\u{202f}'
    ||| c == '\u{205f}'
    ||| c == '\u{3000}'
}

/// `'0'..='9'`.
pub open spec fn is_digit(c: char) -> bool {
    '0' <= c && c <= '9'
}

/// Every character of `s` is white space (so `s.trim()` is empty).
pub open spec fn is_blank(s: Seq<char>) -> bool {
    forall|i: int| 0 <= i < s.len() ==> is_white_space(#[trigger] s[i])
}

/// `s` begins with `p`.
pub open spec fn has_prefix(s: Seq<char>, p: Seq<char>) -> bool {
    p.len() <= s.len() && s.take(p.len() as int) == p
}

/// `p` occurs somewhere in `s`.
pub open spec fn contains_text(s: Seq<char>, p: Seq<char>) -> bool {
    exists|i: int| 0 <= i && i + p.len() <= s.len() && #[trigger] s.subrange(i, i + p.len()) == p
}

/// The position of the first `c` in `s`.
pub open spec fn index_of(s: Seq<char>, c: char) -> Option<int>
    decreases s.len(),
{
    if s.len() == 0 {
        None
    } else if s[0] == c {
        Some(0)
    } else {
        match index_of(s.drop_first(), c) {
            Some(i) => Some(i + 1),
            None => None,
        }
    }
}

/// `s` without its trailing white space (`str::trim_end`).
pub open spec fn trim_end(s: Seq<char>) -> Seq<char>
    decreases s.len(),
{
    if s.len() > 0 && is_white_space(s.last()) {
        trim_end(s.drop_last())
    } else {
        s
    }
}

/// `s` without its leading white space (`str::trim_start`).
pub open spec fn trim_start(s: Seq<char>) -> Seq<char>
    decreases s.len(),
{
    if s.len() > 0 && is_white_space(s[0]) {
        trim_start(s.drop_first())
    } else {
        s
    }
}

/// `s` without white space at either end (`str::trim`).
pub open spec fn trim(s: Seq<char>) -> Seq<char> {
    trim_start(trim_end(s))
}

/// `s` without any trailing `c` (`str::trim_end_matches(c)`).
pub open spec fn trim_end_char(s: Seq<char>, c: char) -> Seq<char>
    decreases s.len(),
{
    if s.len() > 0 && s.last() == c {
        trim_end_char(s.drop_last(), c)
    } else {
        s
    }
}

/// `s` without one leading `c`, where there is one (`str::strip_prefix(c)`).
pub open spec fn strip_char(s: Seq<char>, c: char) -> Seq<char> {
    if s.len() > 0 && s[0] == c {
        s.drop_first()
    } else {
        s
    }
}

// ----------------------------------------------------------------------
// Lemmas
// ----------------------------------------------------------------------

/// What `index_of` finds: the first occurrence, or none at all.
pub proof fn lemma_index_of(s: Seq<char>, c: char)
    ensures
        index_of(s, c) matches Some(i) ==> 0 <= i < s.len() && s[i] == c && forall|j: int|
            0 <= j < i ==> s[j] != c,
        index_of(s, c) is None ==> forall|j: int| 0 <= j < s.len() ==> s[j] != c,
    decreases s.len(),
{
    if s.len() > 0 && s[0] != c {
        lemma_index_of(s.drop_first(), c);
        assert forall|j: int| 1 <= j < s.len() implies s[j] == s.drop_first()[j - 1] by {}
    }
}

/// A first occurrence is what `index_of` reports.
pub proof fn lemma_index_of_found(s: Seq<char>, c: char, i: int)
    requires
        0 <= i < s.len(),
        s[i] == c,
        forall|j: int| 0 <= j < i ==> s[j] != c,
    ensures
        index_of(s, c) == Some(i),
    decreases s.len(),
{
    if i > 0 {
        assert forall|j: int| 0 <= j < i - 1 implies s.drop_first()[j] != c by {
            assert(s.drop_first()[j] == s[j + 1]);
        }
        lemma_index_of_found(s.drop_first(), c, i - 1);
    }
}

/// With no occurrence, `index_of` reports none.
pub proof fn lemma_index_of_absent(s: Seq<char>, c: char)
    requires
        forall|j: int| 0 <= j < s.len() ==> s[j] != c,
    ensures
        index_of(s, c) is None,
    decreases s.len(),
{
    if s.len() > 0 {
        assert forall|j: int| 0 <= j < s.len() - 1 implies s.drop_first()[j] != c by {
            assert(s.drop_first()[j] == s[j + 1]);
        }
        lemma_index_of_absent(s.drop_first(), c);
    }
}

/// `trim_end` of a text that does not end in white space leaves it whole.
pub proof fn lemma_trim_end_stable(s: Seq<char>)
    requires
        s.len() == 0 || !is_white_space(s.last()),
    ensures
        trim_end(s) == s,
{
}

/// `trim_start` of a text that does not begin with white space leaves it whole.
pub proof fn lemma_trim_start_stable(s: Seq<char>)
    requires
        s.len() == 0 || !is_white_space(s[0]),
    ensures
        trim_start(s) == s,
{
}

// ----------------------------------------------------------------------
// Executable operations
// ----------------------------------------------------------------------

/// The characters of `s`, in order.
pub fn chars_of(s: &str) -> (v: Vec<char>)
    ensures
        v@ == s@,
{
    let mut v: Vec<char> = Vec::new();
    for c in it: s.chars()
        invariant
            v@ == it.seq().take(it.index() as int),
            it.seq() == s@,
    {
        v.push(c);
    }
    v
}

/// `char::is_whitespace`.
pub fn is_white_space_char(c: char) -> (r: bool)
    ensures
        r == is_white_space(c),
{
    ('\u{9}' <= c && c <= '\u{d}') || c == ' ' || c == '\u{85}' || c == '\u{a0}' || c
        == '\u{1680}' || ('\u{2000}' <= c && c <= '\u{200a}') || c == '\u{2028}' || c
        == '\u{2029}' || c == '\u{202f}' || c == '\u{205f}' || c == '\u{3000}'
}

/// `char::is_ascii_digit`.
pub fn is_digit_char(c: char) -> (r: bool)
    ensures
        r == is_digit(c),
{
    '0' <= c && c <= '9'
}

/// Whether `s[lo..hi]` equals `p`.
pub fn region_equals(s: &Vec<char>, lo: usize, hi: usize, p: &Vec<char>) -> (r: bool)
    requires
        lo <= hi <= s.len(),
    ensures
        r == (s@.subrange(lo as int, hi as int) == p@),
{
    if hi - lo != p.len() {
        return false;
    }
    let mut k: usize = 0;
    while k < p.len()
        invariant
            lo <= hi <= s.len(),
            hi - lo == p.len(),
            k <= p.len(),
            forall|j: int| 0 <= j < k ==> s@[lo + j] == p@[j],
        decreases p.len() - k,
    {
        if s[lo + k] != p[k] {
            assert(s@.subrange(lo as int, hi as int)[k as int] != p@[k as int]);
            return false;
        }
        k = k + 1;
    }
    assert(s@.subrange(lo as int, hi as int) =~= p@);
    true
}

/// Whether `s[lo..hi]` begins with `p`.
pub fn region_has_prefix(s: &Vec<char>, lo: usize, hi: usize, p: &Vec<char>) -> (r: bool)
    requires
        lo <= hi <= s.len(),
    ensures
        r == has_prefix(s@.subrange(lo as int, hi as int), p@),
{
    if p.len() > hi - lo {
        return false;
    }
    let end: usize = lo + p.len();
    let r = region_equals(s, lo, end, p);
    assert(s@.subrange(lo as int, hi as int).take(p.len() as int) =~= s@.subrange(
        lo as int,
        end as int,
    ));
    r
}

/// Whether `a` and `b` hold the same characters.
pub fn text_equals(a: &str, b: &str) -> (r: bool)
    ensures
        r == (a@ == b@),
{
    let av = chars_of(a);
    let bv = chars_of(b);
    let r = region_equals(&av, 0, av.len(), &bv);
    assert(av@.subrange(0, av.len() as int) =~= av@);
    r
}

/// Whether `p` occurs in `s` (`str::contains`).
pub fn text_contains(s: &Vec<char>, p: &Vec<char>) -> (r: bool)
    ensures
        r == contains_text(s@, p@),
{
    if p.len() > s.len() {
        return false;
    }
    let last: usize = s.len() - p.len();
    let mut i: usize = 0;
    loop
        invariant
            i <= last,
            last + p.len() == s.len(),
            forall|j: int| 0 <= j < i ==> #[trigger] s@.subrange(j, j + p.len()) != p@,
        decreases last - i,
    {
        if region_equals(s, i, i + p.len(), p) {
            return true;
        }
        if i == last {
            return false;
        }
        i = i + 1;
    }
}

/// The first position of `c` in `s[lo..hi]`, counted from `lo`.
pub fn region_index_of(s: &Vec<char>, lo: usize, hi: usize, c: char) -> (r: Option<usize>)
    requires
        lo <= hi <= s.len(),
    ensures
        r matches Some(k) ==> index_of(s@.subrange(lo as int, hi as int), c) == Some(k as int),
        r is None ==> index_of(s@.subrange(lo as int, hi as int), c) is None,
{
    let ghost t = s@.subrange(lo as int, hi as int);
    let mut k: usize = 0;
    while lo + k < hi
        invariant
            lo <= hi <= s.len(),
            lo + k <= hi,
            t == s@.subrange(lo as int, hi as int),
            forall|j: int| 0 <= j < k ==> t[j] != c,
        decreases hi - lo - k,
    {
        if s[lo + k] == c {
            proof {
                lemma_index_of_found(t, c, k as int);
            }
            return Some(k);
        }
        k = k + 1;
    }
    proof {
        lemma_index_of_absent(t, c);
    }
    None
}

/// The end of `s[lo..hi]` once its trailing white space is removed.
pub fn region_trim_end(s: &Vec<char>, lo: usize, hi: usize) -> (k: usize)
    requires
        lo <= hi <= s.len(),
    ensures
        lo <= k <= hi,
        s@.subrange(lo as int, k as int) == trim_end(s@.subrange(lo as int, hi as int)),
{
    let mut k: usize = hi;
    while k > lo && is_white_space_char(s[k - 1])
        invariant
            lo <= k <= hi <= s.len(),
            trim_end(s@.subrange(lo as int, hi as int)) == trim_end(
                s@.subrange(lo as int, k as int),
            ),
        decreases k,
    {
        assert(s@.subrange(lo as int, k as int).drop_last() =~= s@.subrange(
            lo as int,
            k - 1,
        ));
        k = k - 1;
    }
    k
}

/// The start of `s[lo..hi]` once its leading white space is removed.
pub fn region_trim_start(s: &Vec<char>, lo: usize, hi: usize) -> (k: usize)
    requires
        lo <= hi <= s.len(),
    ensures
        lo <= k <= hi,
        s@.subrange(k as int, hi as int) == trim_start(s@.subrange(lo as int, hi as int)),
{
    let mut k: usize = lo;
    while k < hi && is_white_space_char(s[k])
        invariant
            lo <= k <= hi <= s.len(),
            trim_start(s@.subrange(lo as int, hi as int)) == trim_start(
                s@.subrange(k as int, hi as int),
            ),
        decreases hi - k,
    {
        assert(s@.subrange(k as int, hi as int).drop_first() =~= s@.subrange(
            k + 1,
            hi as int,
        ));
        k = k + 1;
    }
    k
}

/// The end of `s[lo..hi]` once every trailing `c` is removed.
pub fn region_trim_end_char(s: &Vec<char>, lo: usize, hi: usize, c: char) -> (k: usize)
    requires
        lo <= hi <= s.len(),
    ensures
        lo <= k <= hi,
        s@.subrange(lo as int, k as int) == trim_end_char(s@.subrange(lo as int, hi as int), c),
{
    let mut k: usize = hi;
    while k > lo && s[k - 1] == c
        invariant
            lo <= k <= hi <= s.len(),
            trim_end_char(s@.subrange(lo as int, hi as int), c) == trim_end_char(
                s@.subrange(lo as int, k as int),
                c,
            ),
        decreases k,
    {
        assert(s@.subrange(lo as int, k as int).drop_last() =~= s@.subrange(
            lo as int,
            k - 1,
        ));
        k = k - 1;
    }
    k
}

/// Whether every character of `s[lo..hi]` is white space.
pub fn region_is_blank(s: &Vec<char>, lo: usize, hi: usize) -> (r: bool)
    requires
        lo <= hi <= s.len(),
    ensures
        r == is_blank(s@.subrange(lo as int, hi as int)),
{
    let mut k: usize = lo;
    while k < hi
        invariant
            lo <= k <= hi <= s.len(),
            forall|j: int| lo <= j < k ==> is_white_space(#[trigger] s@[j]),
        decreases hi - k,
    {
        if !is_white_space_char(s[k]) {
            assert(s@.subrange(lo as int, hi as int)[k - lo] == s@[k as int]);
            return false;
        }
        k = k + 1;
    }
    assert forall|i: int| 0 <= i < hi - lo implies is_white_space(
        #[trigger] s@.subrange(lo as int, hi as int)[i],
    ) by {
        assert(s@.subrange(lo as int, hi as int)[i] == s@[lo + i]);
    }
    true
}

/// Whether `s` consists of white space only (`s.trim().is_empty()`).
pub fn text_is_blank(s: &str) -> (r: bool)
    ensures
        r == is_blank(s@),
{
    let v = chars_of(s);
    let r = region_is_blank(&v, 0, v.len());
    assert(v@.subrange(0, v.len() as int) =~= v@);
    r
}

/// The characters `s[lo..hi]` as a new `String`.
pub fn substring(s: &str, lo: usize, hi: usize) -> (r: String)
    requires
        lo <= hi <= s@.len(),
    ensures
        r@ == s@.subrange(lo as int, hi as int),
{
    String::from_str(s.substring_char(lo, hi))
}

} // verus!
