//! Version numbers as they appear on disk: Squirrel `app-<version>`
//! directories, their numeric sort key, and the choice of the newest one.

use vstd::prelude::*;

use crate::text::{
    chars_of, has_prefix, index_of, is_digit, is_digit_char, lemma_index_of, region_has_prefix,
    region_index_of, substring,
};

verus! {

/// The numeric key by which versions are ordered: the first four
/// dot-separated fields, each read as a number.
pub type SortKey = (u64, u64, u64, u64);

/// A character that may occur in a Squirrel version: a digit or a dot.
pub open spec fn is_version_char(c: char) -> bool {
    is_digit(c) || c == '.'
}

/// The version named by a Squirrel directory `app-<version>`, where
/// `<version>` starts with a digit and holds only digits and dots.
pub open spec fn squirrel_version(name: Seq<char>) -> Option<Seq<char>> {
    if has_prefix(name, "app-"@) {
        let rest = name.skip("app-"@.len() as int);
        if rest.len() > 0 && is_digit(rest[0]) && (forall|i: int|
            0 <= i < rest.len() ==> is_version_char(#[trigger] rest[i])) {
            Some(rest)
        } else {
            None
        }
    } else {
        None
    }
}

/// The pieces of `s` between occurrences of `c` (`str::split(c)`); there is
/// always at least one.
pub open spec fn split_char(s: Seq<char>, c: char) -> Seq<Seq<char>>
    decreases s.len(),
{
    match index_of(s, c) {
        Some(i) => {
            proof {
                lemma_index_of(s, c);
            }
            seq![s.take(i)] + split_char(s.skip(i + 1), c)
        },
        None => seq![s],
    }
}

/// The number a digit character stands for.
pub open spec fn digit_value(c: char) -> nat {
    (c as int - '0' as int) as nat
}

/// The number written by a string of decimal digits.
pub open spec fn digits_value(s: Seq<char>) -> nat
    decreases s.len(),
{
    if s.len() == 0 {
        0
    } else {
        digits_value(s.drop_last()) * 10 + digit_value(s.last())
    }
}

/// Every character is a decimal digit.
pub open spec fn all_digits(s: Seq<char>) -> bool {
    forall|i: int| 0 <= i < s.len() ==> is_digit(#[trigger] s[i])
}

/// One or more decimal digits whose value fits in 64 bits, read as a number.
pub open spec fn parse_digits(d: Seq<char>) -> Option<u64> {
    if d.len() > 0 && all_digits(d) && digits_value(d) <= u64::MAX {
        Some(digits_value(d) as u64)
    } else {
        None
    }
}

/// `u64::from_str`: an optional `+`, then one or more decimal digits whose
/// value fits in 64 bits.
pub open spec fn parse_u64(s: Seq<char>) -> Option<u64> {
    if s.len() > 0 && s[0] == '+' {
        parse_digits(s.drop_first())
    } else {
        parse_digits(s)
    }
}

/// The `k`-th field's number, 0 when the field is absent or not a number.
pub open spec fn field_value(fields: Seq<Seq<char>>, k: int) -> u64 {
    if 0 <= k < fields.len() {
        match parse_u64(fields[k]) {
            Some(n) => n,
            None => 0,
        }
    } else {
        0
    }
}

/// The sort key of a version: its first four dot-separated fields as numbers.
pub open spec fn sort_key(v: Seq<char>) -> SortKey {
    let f = split_char(v, '.');
    (field_value(f, 0), field_value(f, 1), field_value(f, 2), field_value(f, 3))
}

/// `a` orders strictly after `b`, field by field.
pub open spec fn key_after(a: SortKey, b: SortKey) -> bool {
    if a.0 != b.0 {
        a.0 > b.0
    } else if a.1 != b.1 {
        a.1 > b.1
    } else if a.2 != b.2 {
        a.2 > b.2
    } else {
        a.3 > b.3
    }
}

/// A prefix of a digit string is worth no more than the whole.
pub proof fn lemma_digits_value_prefix(s: Seq<char>, j: int)
    requires
        0 <= j <= s.len(),
    ensures
        digits_value(s.take(j)) <= digits_value(s),
    decreases s.len(),
{
    if j < s.len() {
        lemma_digits_value_prefix(s.drop_last(), j);
        assert(s.drop_last().take(j) =~= s.take(j));
    } else {
        assert(s.take(j) =~= s);
    }
}

/// Reads `s[lo..hi]` as `u64::from_str` does.
pub fn parse_u64_region(s: &Vec<char>, lo: usize, hi: usize) -> (r: Option<u64>)
    requires
        lo <= hi <= s.len(),
    ensures
        r == parse_u64(s@.subrange(lo as int, hi as int)),
{
    let ghost t = s@.subrange(lo as int, hi as int);
    let start: usize = if hi > lo && s[lo] == '+' {
        lo + 1
    } else {
        lo
    };
    let ghost d = s@.subrange(start as int, hi as int);
    assert(d =~= (if t.len() > 0 && t[0] == '+' {
        t.drop_first()
    } else {
        t
    }));
    assert(parse_u64(t) == parse_digits(d));
    if start == hi {
        return None;
    }
    let mut k: usize = start;
    while k < hi
        invariant
            lo <= start <= k <= hi <= s.len(),
            d == s@.subrange(start as int, hi as int),
            parse_u64(s@.subrange(lo as int, hi as int)) == parse_digits(d),
            forall|i: int| start <= i < k ==> is_digit(#[trigger] s@[i]),
        decreases hi - k,
    {
        if !is_digit_char(s[k]) {
            assert(!is_digit(d[k - start]));
            return None;
        }
        k = k + 1;
    }
    assert(all_digits(d)) by {
        assert forall|i: int| 0 <= i < d.len() implies is_digit(#[trigger] d[i]) by {
            assert(d[i] == s@[start + i]);
        }
    }
    let mut acc: u64 = 0;
    let mut k: usize = start;
    while k < hi
        invariant
            lo <= start <= k <= hi <= s.len(),
            d == s@.subrange(start as int, hi as int),
            parse_u64(s@.subrange(lo as int, hi as int)) == parse_digits(d),
            all_digits(d),
            acc == digits_value(s@.subrange(start as int, k as int)),
        decreases hi - k,
    {
        let ghost pre = s@.subrange(start as int, k + 1);
        assert(pre.drop_last() =~= s@.subrange(start as int, k as int));
        assert(pre.last() == d[k - start]);
        assert(d.take(k + 1 - start) =~= pre);
        let c: char = s[k];
        let digit: u64 = (c as u32 - '0' as u32) as u64;
        assert(digit == digit_value(pre.last()));
        match acc.checked_mul(10) {
            None => {
                proof {
                    lemma_digits_value_prefix(d, k + 1 - start);
                }
                return None;
            },
            Some(m) => match m.checked_add(digit) {
                None => {
                    proof {
                        lemma_digits_value_prefix(d, k + 1 - start);
                    }
                    return None;
                },
                Some(next) => {
                    acc = next;
                },
            },
        }
        k = k + 1;
    }
    Some(acc)
}

/// "1.2.3" → (1, 2, 3, 0): the first four dot-separated fields as numbers,
/// a field that is not a number counting as 0.
pub fn version_sort_key(v: &str) -> (r: SortKey)
    ensures
        r == sort_key(v@),
{
    let s = chars_of(v);
    let n: usize = s.len();
    let mut fields: Vec<u64> = Vec::new();
    let mut p: usize = 0;
    let mut finished: bool = false;
    let ghost mut done: Seq<Seq<char>> = seq![];
    assert(s@.subrange(0, n as int) =~= s@);
    while fields.len() < 4 && !finished
        invariant
            p <= n == s.len(),
            s@ == v@,
            fields.len() == done.len() <= 4,
            finished ==> split_char(v@, '.') == done,
            !finished ==> split_char(v@, '.') == done + split_char(
                s@.subrange(p as int, n as int),
                '.',
            ),
            forall|t: int| 0 <= t < fields.len() ==> fields@[t] == field_value(done, t),
        decreases 4 - fields.len(),
    {
        let ghost rest = s@.subrange(p as int, n as int);
        let ghost old_done = done;
        let ghost old_fields = fields@;
        proof {
            lemma_index_of(rest, '.');
        }
        match region_index_of(&s, p, n, '.') {
            Some(j) => {
                let ghost old_p = p;
                let ghost end = p + j;
                let value = parse_u64_region(&s, p, p + j);
                proof {
                    assert(rest.take(j as int) =~= s@.subrange(p as int, p + j));
                    assert(rest.skip(j + 1) =~= s@.subrange(p + j + 1, n as int));
                    assert(split_char(rest, '.') == seq![rest.take(j as int)] + split_char(
                        rest.skip(j + 1),
                        '.',
                    ));
                    done = done.push(s@.subrange(p as int, p + j));
                }
                fields.push(
                    match value {
                        Some(x) => x,
                        None => 0,
                    },
                );
                p = p + j + 1;
                proof {
                    assert forall|t: int| 0 <= t < fields.len() implies fields@[t] == field_value(
                        done,
                        t,
                    ) by {
                        if t < old_done.len() {
                            assert(done[t] == old_done[t]);
                            assert(fields@[t] == old_fields[t]);
                            assert(old_fields[t] == field_value(old_done, t));
                        } else {
                            assert(done[t] == s@.subrange(old_p as int, end as int));
                        }
                    }
                    assert(split_char(v@, '.') =~= done + split_char(
                        s@.subrange(p as int, n as int),
                        '.',
                    ));
                }
            },
            None => {
                let ghost old_p = p;
                let ghost end = n;
                let value = parse_u64_region(&s, p, n);
                proof {
                    assert(split_char(rest, '.') == seq![rest]);
                    done = done.push(rest);
                }
                fields.push(
                    match value {
                        Some(x) => x,
                        None => 0,
                    },
                );
                finished = true;
                proof {
                    assert forall|t: int| 0 <= t < fields.len() implies fields@[t] == field_value(
                        done,
                        t,
                    ) by {
                        if t < old_done.len() {
                            assert(done[t] == old_done[t]);
                            assert(fields@[t] == old_fields[t]);
                            assert(old_fields[t] == field_value(old_done, t));
                        } else {
                            assert(done[t] == s@.subrange(old_p as int, end as int));
                        }
                    }
                    assert(split_char(v@, '.') =~= done);
                }
            },
        }
    }
    let ghost f = split_char(v@, '.');
    assert forall|t: int| 0 <= t < fields.len() implies fields@[t] == field_value(f, t) by {
        assert(fields@[t] == field_value(done, t));
        assert(done.len() <= f.len());
        assert(f[t] == done[t]);
    }
    let f0: u64 = if fields.len() > 0 { fields[0] } else { 0 };
    let f1: u64 = if fields.len() > 1 { fields[1] } else { 0 };
    let f2: u64 = if fields.len() > 2 { fields[2] } else { 0 };
    let f3: u64 = if fields.len() > 3 { fields[3] } else { 0 };
    (f0, f1, f2, f3)
}

/// Whether `a` orders strictly after `b`.
pub fn key_is_after(a: SortKey, b: SortKey) -> (r: bool)
    ensures
        r == key_after(a, b),
{
    if a.0 != b.0 {
        a.0 > b.0
    } else if a.1 != b.1 {
        a.1 > b.1
    } else if a.2 != b.2 {
        a.2 > b.2
    } else {
        a.3 > b.3
    }
}

/// Extracts `<version>` from a Squirrel directory name `app-<version>`.
#[verifier::loop_isolation(false)]
pub fn version_from_squirrel_dir_name(name: &str) -> (r: Option<String>)
    ensures
        r is Some <==> squirrel_version(name@) is Some,
        r matches Some(v) ==> squirrel_version(name@) == Some(v@),
{
    let s = chars_of(name);
    let n: usize = s.len();
    let prefix = chars_of("app-");
    assert(s@.subrange(0, n as int) =~= s@);
    if !region_has_prefix(&s, 0, n, &prefix) {
        return None;
    }
    let start: usize = prefix.len();
    let ghost rest = name@.skip("app-"@.len() as int);
    assert(rest =~= s@.subrange(start as int, n as int));
    if start == n {
        return None;
    }
    assert(rest[0] == s@[start as int]);
    if !is_digit_char(s[start]) {
        return None;
    }
    let mut k: usize = start;
    while k < n
        invariant
            start <= k <= n == s.len(),
            rest == s@.subrange(start as int, n as int),
            forall|i: int| start <= i < k ==> is_version_char(#[trigger] s@[i]),
        decreases n - k,
    {
        if !(is_digit_char(s[k]) || s[k] == '.') {
            assert(!is_version_char(rest[k - start]));
            return None;
        }
        k = k + 1;
    }
    assert forall|i: int| 0 <= i < rest.len() implies is_version_char(#[trigger] rest[i]) by {
        assert(rest[i] == s@[start + i]);
    }
    Some(substring(name, start, n))
}

/// The sort key of the `j`-th name, when it is a Squirrel version directory.
pub open spec fn entry_key(names: Seq<String>, j: int) -> Option<SortKey> {
    match squirrel_version(names[j]@) {
        Some(v) => Some(sort_key(v)),
        None => None,
    }
}

/// `v`, the version of the `i`-th name, has a key that no name's key exceeds,
/// and exceeds the keys of all the names before it.
pub open spec fn is_newest_at(names: Seq<String>, i: int, v: Seq<char>) -> bool {
    &&& 0 <= i < names.len()
    &&& squirrel_version(names[i]@) == Some(v)
    &&& forall|j: int|
        0 <= j < names.len() ==> (#[trigger] entry_key(names, j) matches Some(k) ==> !key_after(
            k,
            sort_key(v),
        ))
    &&& forall|j: int|
        0 <= j < i ==> (#[trigger] entry_key(names, j) matches Some(k) ==> key_after(
            sort_key(v),
            k,
        ))
}

/// The version of the newest Squirrel directory among `names`, if any.
pub open spec fn squirrel_newest(names: Seq<String>) -> Option<Seq<char>> {
    if exists|i: int, v: Seq<char>| is_newest_at(names, i, v) {
        Some((choose|i: int, v: Seq<char>| is_newest_at(names, i, v)).1)
    } else {
        None
    }
}

/// At most one position and version is the newest.
pub proof fn lemma_newest_unique(names: Seq<String>, i: int, v: Seq<char>, j: int, w: Seq<char>)
    requires
        is_newest_at(names, i, v),
        is_newest_at(names, j, w),
    ensures
        i == j,
        v == w,
{
    assert(entry_key(names, i) == Some(sort_key(v)));
    assert(entry_key(names, j) == Some(sort_key(w)));
}

/// What `is_newest_at` says of one version is what `squirrel_newest` gives.
pub proof fn lemma_squirrel_newest_is(names: Seq<String>, i: int, v: Seq<char>)
    requires
        is_newest_at(names, i, v),
    ensures
        squirrel_newest(names) == Some(v),
{
    assert(exists|i: int, v: Seq<char>| is_newest_at(names, i, v));
    let (j, w) = choose|j: int, w: Seq<char>| is_newest_at(names, j, w);
    lemma_newest_unique(names, i, v, j, w);
}

/// `key_after` is a strict total order.
pub proof fn lemma_key_after_order(a: SortKey, b: SortKey, c: SortKey)
    ensures
        !key_after(a, a),
        key_after(a, b) && !key_after(c, b) ==> key_after(a, c),
        key_after(a, b) && !key_after(c, b) ==> !key_after(c, a),
        !key_after(a, b) ==> a == b || key_after(b, a),
{
}

/// Among directory names, picks the Squirrel version with the greatest sort
/// key; of equal keys, the one met first wins.
pub fn squirrel_pick_latest(names: &Vec<String>) -> (r: Option<String>)
    ensures
        r is None <==> forall|i: int| 0 <= i < names@.len() ==> #[trigger] entry_key(names@, i) is None,
        r matches Some(v) ==> exists|i: int| is_newest_at(names@, i, v@),
        crate::cli::opt_view(r) == squirrel_newest(names@),
{
    let mut best: Option<(SortKey, String)> = None;
    let ghost mut bi: int = 0;
    for i in 0..names.len()
        invariant
            best is None ==> forall|j: int| 0 <= j < i ==> #[trigger] entry_key(names@, j) is None,
            best matches Some(b) ==> {
                &&& 0 <= bi < i
                &&& squirrel_version(names@[bi]@) == Some(b.1@)
                &&& b.0 == sort_key(b.1@)
                &&& forall|j: int|
                    0 <= j < i ==> (#[trigger] entry_key(names@, j) matches Some(k) ==> !key_after(
                        k,
                        b.0,
                    ))
                &&& forall|j: int|
                    0 <= j < bi ==> (#[trigger] entry_key(names@, j) matches Some(k) ==> key_after(
                        b.0,
                        k,
                    ))
            },
    {
        let ghost old_best = best;
        if let Some(ver) = version_from_squirrel_dir_name(names[i].as_str()) {
            let key = version_sort_key(ver.as_str());
            assert(entry_key(names@, i as int) == Some(key));
            let better: bool = match &best {
                Some(b) => key_is_after(key, b.0),
                None => true,
            };
            if better {
                proof {
                    if let Some(b) = old_best {
                        assert forall|j: int| 0 <= j < i + 1 implies (#[trigger] entry_key(
                            names@,
                            j,
                        ) matches Some(k) ==> !key_after(k, key)) by {
                            if let Some(k) = entry_key(names@, j) {
                                lemma_key_after_order(key, b.0, k);
                            }
                        }
                        assert forall|j: int| 0 <= j < i implies (#[trigger] entry_key(
                            names@,
                            j,
                        ) matches Some(k) ==> key_after(key, k)) by {
                            if let Some(k) = entry_key(names@, j) {
                                lemma_key_after_order(key, b.0, k);
                            }
                        }
                    } else {
                        lemma_key_after_order(key, key, key);
                    }
                }
                best = Some((key, ver));
                proof {
                    bi = i as int;
                }
            } else {
                proof {
                    if let Some(b) = old_best {
                        lemma_key_after_order(key, b.0, key);
                    }
                }
            }
        } else {
            assert(entry_key(names@, i as int) is None);
        }
    }
    match best {
        Some(b) => {
            assert(entry_key(names@, bi) is Some);
            assert(is_newest_at(names@, bi, b.1@));
            let r = Some(b.1);
            assert(is_newest_at(names@, bi, r->0@));
            assert(exists|i: int| is_newest_at(names@, i, r->0@));
            proof {
                lemma_squirrel_newest_is(names@, bi, r->0@);
            }
            r
        },
        None => {
            assert(!exists|i: int, v: Seq<char>| is_newest_at(names@, i, v)) by {
                if exists|i: int, v: Seq<char>| is_newest_at(names@, i, v) {
                    let (i, v) = choose|i: int, v: Seq<char>| is_newest_at(names@, i, v);
                    assert(entry_key(names@, i) is Some);
                }
            }
            None
        },
    }
}

} // verus!
