//! Text helpers over the character view of strings: conversion between
//! `&str` and `Vec<char>`, literal search and replacement, ASCII case folding
//! and decimal parsing.  Each one is proved against a short statement of what
//! it computes.

use vstd::prelude::*;
use crate::foreign::push_char;

verus! {

/// `pat` stands in `s` starting at character index `i`.
pub open spec fn occurs_at(s: Seq<char>, pat: Seq<char>, i: int) -> bool {
    0 <= i && i + pat.len() <= s.len() && s.subrange(i, i + pat.len()) == pat
}

/// `pat` stands somewhere in `s`.
pub open spec fn contains_text(s: Seq<char>, pat: Seq<char>) -> bool {
    exists|i: int| occurs_at(s, pat, i)
}

/// The first index from `i` on at which `pat` stands in `s`.
pub open spec fn first_index_from(s: Seq<char>, pat: Seq<char>, i: int) -> Option<int>
    decreases s.len() + 1 - i,
{
    if i < 0 || i > s.len() {
        None
    } else if occurs_at(s, pat, i) {
        Some(i)
    } else {
        first_index_from(s, pat, i + 1)
    }
}

/// The index found is where `pat` stands, with no earlier place from `i` on.
pub proof fn law_first_index_from_finds_the_first(s: Seq<char>, pat: Seq<char>, i: int)
    ensures
        first_index_from(s, pat, i) matches Some(k) ==> i <= k && occurs_at(s, pat, k) && forall|j: int|
            i <= j < k ==> !#[trigger] occurs_at(s, pat, j),
        first_index_from(s, pat, i) is None && 0 <= i ==> forall|j: int| i <= j ==> !#[trigger] occurs_at(s, pat, j),
    decreases s.len() + 1 - i,
{
    if 0 <= i <= s.len() && !occurs_at(s, pat, i) {
        law_first_index_from_finds_the_first(s, pat, i + 1);
    }
}

/// The first index at which `pat` stands in `s`, as `str::find` gives it.
pub open spec fn first_index(s: Seq<char>, pat: Seq<char>) -> Option<int> {
    first_index_from(s, pat, 0)
}

proof fn lemma_first_index_from(s: Seq<char>, pat: Seq<char>, i: int, k: int)
    requires
        0 <= i <= k,
        forall|j: int| i <= j < k ==> !occurs_at(s, pat, j),
        occurs_at(s, pat, k) || (k == s.len() + 1),
    ensures
        first_index_from(s, pat, i) == if k <= s.len() {
            Some(k)
        } else {
            None::<int>
        },
    decreases k - i,
{
    if i < k {
        lemma_first_index_from(s, pat, i + 1, k);
    }
}

/// The text `s` with every occurrence of `pat`, found left to right without
/// overlap, replaced by `rep`; `s` itself when `pat` is empty.
pub open spec fn replaced(s: Seq<char>, pat: Seq<char>, rep: Seq<char>) -> Seq<char>
    decreases s.len(),
{
    if s.len() == 0 || pat.len() == 0 {
        s
    } else if pat.len() <= s.len() && s.take(pat.len() as int) == pat {
        rep + replaced(s.skip(pat.len() as int), pat, rep)
    } else {
        seq![s[0]] + replaced(s.skip(1), pat, rep)
    }
}

/// A character with the ASCII upper-case letters mapped to lower case.
pub open spec fn ascii_lower_char(c: char) -> char {
    if 'A' <= c && c <= 'Z' {
        ((c as u32) + 32) as char
    } else {
        c
    }
}

/// A text with every ASCII upper-case letter mapped to lower case.
pub open spec fn ascii_lowercase(s: Seq<char>) -> Seq<char> {
    s.map_values(|c: char| ascii_lower_char(c))
}

pub open spec fn is_ascii_digit(c: char) -> bool {
    '0' <= c && c <= '9'
}

pub open spec fn all_ascii_digits(s: Seq<char>) -> bool {
    forall|i: int| 0 <= i < s.len() ==> is_ascii_digit(#[trigger] s[i])
}

/// The value of a string of ASCII decimal digits, most significant first.
pub open spec fn digits_value(s: Seq<char>) -> int
    decreases s.len(),
{
    if s.len() == 0 {
        0
    } else {
        digits_value(s.drop_last()) * 10 + (s.last() as u32 - '0' as u32)
    }
}

/// What `str::parse::<i32>` gives: an optional `+` or `-`, then one or more
/// ASCII digits and nothing else, whose value fits in an `i32`.
/// `s` without a leading sign character.
pub open spec fn unsigned_part(s: Seq<char>) -> Seq<char> {
    if s.len() > 0 && (s[0] == '-' || s[0] == '+') {
        s.skip(1)
    } else {
        s
    }
}

pub open spec fn parsed_i32(s: Seq<char>) -> Option<i32> {
    let negative = s.len() > 0 && s[0] == '-';
    let body = unsigned_part(s);
    let value = if negative { -digits_value(body) } else { digits_value(body) };
    if body.len() == 0 || !all_ascii_digits(body) || value < i32::MIN || value > i32::MAX {
        None
    } else {
        Some(value as i32)
    }
}

/// The part of `s` after the last occurrence of `sep`, or all of `s` when
/// `sep` does not occur.
pub open spec fn after_last(s: Seq<char>, sep: char) -> Seq<char>
    decreases s.len(),
{
    if s.len() == 0 {
        s
    } else if s.last() == sep {
        Seq::empty()
    } else {
        after_last(s.drop_last(), sep).push(s.last())
    }
}

/// How many times the character `c` stands in `s`.
pub open spec fn char_count(s: Seq<char>, c: char) -> nat
    decreases s.len(),
{
    if s.len() == 0 {
        0
    } else {
        char_count(s.drop_last(), c) + if s.last() == c {
            1nat
        } else {
            0nat
        }
    }
}

pub fn chars_of(s: &str) -> (r: Vec<char>)
    ensures
        r@ == s@,
{
    broadcast use vstd::string::group_string_axioms;

    let mut v: Vec<char> = Vec::new();
    for c in iter: s.chars()
        invariant
            v@ == iter.seq().take(iter.index() as int),
    {
        v.push(c);
    }
    v
}

pub fn string_of(v: &Vec<char>) -> (r: String)
    ensures
        r@ == v@,
{
    let mut s = String::new();
    let mut i: usize = 0;
    while i < v.len()
        invariant
            0 <= i <= v.len(),
            s@ == v@.take(i as int),
        decreases v.len() - i,
    {
        push_char(&mut s, v[i]);
        i = i + 1;
        assert(s@ == v@.take(i as int));
    }
    assert(v@.take(v.len() as int) == v@);
    s
}

/// How many times `c` stands in `s`, as `str::matches` counts a one-character pattern.
pub fn count_char(s: &str, c: char) -> (r: usize)
    ensures
        r == char_count(s@, c),
{
    let v = chars_of(s);
    let mut n: usize = 0;
    let mut i: usize = 0;
    while i < v.len()
        invariant
            0 <= i <= v.len(),
            v@ == s@,
            n == char_count(v@.take(i as int), c),
            n <= i,
        decreases v.len() - i,
    {
        assert(v@.take(i + 1).drop_last() =~= v@.take(i as int));
        if v[i] == c {
            n = n + 1;
        }
        i = i + 1;
    }
    assert(v@.take(v.len() as int) =~= v@);
    n
}

pub fn chars_eq(a: &Vec<char>, b: &Vec<char>) -> (r: bool)
    ensures
        r == (a@ == b@),
{
    if a.len() != b.len() {
        return false;
    }
    let mut i: usize = 0;
    while i < a.len()
        invariant
            a.len() == b.len(),
            0 <= i <= a.len(),
            forall|k: int| 0 <= k < i ==> a@[k] == b@[k],
        decreases a.len() - i,
    {
        if a[i] != b[i] {
            return false;
        }
        i = i + 1;
    }
    assert(a@ =~= b@);
    true
}

pub fn str_eq(a: &str, b: &str) -> (r: bool)
    ensures
        r == (a@ == b@),
{
    let av = chars_of(a);
    let bv = chars_of(b);
    chars_eq(&av, &bv)
}

/// Whether `pat` stands in `s` at index `i`.
pub fn occurs_at_index(s: &Vec<char>, pat: &Vec<char>, i: usize) -> (r: bool)
    ensures
        r == occurs_at(s@, pat@, i as int),
{
    if i > s.len() || pat.len() > s.len() - i {
        return false;
    }
    let mut k: usize = 0;
    while k < pat.len()
        invariant
            i + pat.len() <= s.len(),
            0 <= k <= pat.len(),
            forall|j: int| 0 <= j < k ==> s@[i + j] == pat@[j],
        decreases pat.len() - k,
    {
        if s[i + k] != pat[k] {
            assert(s@.subrange(i as int, i + pat.len())[k as int] != pat@[k as int]);
            return false;
        }
        k = k + 1;
    }
    assert(s@.subrange(i as int, i + pat.len()) =~= pat@);
    true
}

/// The first index at which `pat` stands in `s`.
pub fn find_chars(s: &Vec<char>, pat: &Vec<char>) -> (r: Option<usize>)
    ensures
        match r {
            Some(i) => occurs_at(s@, pat@, i as int) && forall|j: int|
                0 <= j < i ==> !occurs_at(s@, pat@, j),
            None => !contains_text(s@, pat@),
        },
        match r {
            Some(i) => first_index(s@, pat@) == Some(i as int),
            None => first_index(s@, pat@) is None,
        },
{
    let mut i: usize = 0;
    while i < s.len()
        invariant
            0 <= i <= s.len(),
            forall|j: int| 0 <= j < i ==> !occurs_at(s@, pat@, j),
        decreases s.len() - i,
    {
        if occurs_at_index(s, pat, i) {
            proof { lemma_first_index_from(s@, pat@, 0, i as int); }
            return Some(i);
        }
        i = i + 1;
    }
    if occurs_at_index(s, pat, i) {
        proof { lemma_first_index_from(s@, pat@, 0, i as int); }
        return Some(i);
    }
    assert forall|j: int| !occurs_at(s@, pat@, j) by {
        if 0 <= j && j <= i {
        }
    }
    proof { lemma_first_index_from(s@, pat@, 0, (s@.len() + 1) as int); }
    None
}

/// The first index at which `pat` stands in `s`.
pub fn find_str(s: &str, pat: &str) -> (r: Option<usize>)
    ensures
        r matches Some(i) ==> occurs_at(s@, pat@, i as int),
        match r {
            Some(i) => first_index(s@, pat@) == Some(i as int),
            None => first_index(s@, pat@) is None,
        },
{
    let sv = chars_of(s);
    let pv = chars_of(pat);
    find_chars(&sv, &pv)
}

/// The first `n` characters of `s`.
pub fn prefix_chars(s: &str, n: usize) -> (r: String)
    requires
        n <= s@.len(),
    ensures
        r@ == s@.take(n as int),
{
    let v = chars_of(s);
    let mut out: Vec<char> = Vec::new();
    let mut i: usize = 0;
    while i < n
        invariant
            0 <= i <= n,
            n <= v.len(),
            v@ == s@,
            out@ == v@.take(i as int),
        decreases n - i,
    {
        out.push(v[i]);
        i = i + 1;
        assert(out@ =~= v@.take(i as int));
    }
    string_of(&out)
}

pub fn contains_str(s: &str, pat: &str) -> (r: bool)
    ensures
        r == contains_text(s@, pat@),
{
    let sv = chars_of(s);
    let pv = chars_of(pat);
    match find_chars(&sv, &pv) {
        Some(_) => true,
        None => false,
    }
}

proof fn lemma_replaced_step(s: Seq<char>, pat: Seq<char>, rep: Seq<char>, i: int)
    requires
        pat.len() > 0,
        0 <= i < s.len(),
    ensures
        occurs_at(s, pat, i) ==> replaced(s.skip(i), pat, rep) == rep + replaced(
            s.skip(i + pat.len()),
            pat,
            rep,
        ),
        !occurs_at(s, pat, i) ==> replaced(s.skip(i), pat, rep) == seq![s[i]] + replaced(
            s.skip(i + 1),
            pat,
            rep,
        ),
{
    let t = s.skip(i);
    assert(t.len() > 0);
    if pat.len() <= t.len() {
        assert(t.take(pat.len() as int) =~= s.subrange(i, i + pat.len()));
        assert(t.skip(pat.len() as int) =~= s.skip(i + pat.len()));
    }
    assert(t.skip(1) =~= s.skip(i + 1));
    assert(t[0] == s[i]);
}

/// `s` with every occurrence of `pat` replaced by `rep`, as `str::replace`
/// does.  An empty pattern is replaced only by an empty text, which leaves `s`
/// as it is.
pub fn replace_str(s: &str, pat: &str, rep: &str) -> (r: String)
    requires
        pat@.len() > 0 || rep@.len() == 0,
    ensures
        r@ == replaced(s@, pat@, rep@),
{
    let sv = chars_of(s);
    let pv = chars_of(pat);
    let rv = chars_of(rep);
    if pv.len() == 0 {
        return string_of(&sv);
    }
    let mut out: Vec<char> = Vec::new();
    let mut i: usize = 0;
    assert(sv@.skip(0) =~= sv@);
    while i < sv.len()
        invariant
            0 <= i <= sv.len(),
            sv@ == s@,
            pv@ == pat@,
            rv@ == rep@,
            pv@.len() > 0,
            out@ + replaced(sv@.skip(i as int), pv@, rv@) == replaced(sv@, pv@, rv@),
        decreases sv.len() - i,
    {
        proof {
            lemma_replaced_step(sv@, pv@, rv@, i as int);
        }
        if occurs_at_index(&sv, &pv, i) {
            let ghost before = out@;
            let mut k: usize = 0;
            while k < rv.len()
                invariant
                    0 <= k <= rv.len(),
                    out@ == before + rv@.take(k as int),
                decreases rv.len() - k,
            {
                out.push(rv[k]);
                k = k + 1;
                assert(out@ =~= before + rv@.take(k as int));
            }
            assert(rv@.take(rv.len() as int) =~= rv@);
            assert(out@ + replaced(sv@.skip(i + pv.len()), pv@, rv@) =~= before + (rv@ + replaced(
                sv@.skip(i + pv.len()),
                pv@,
                rv@,
            )));
            i = i + pv.len();
        } else {
            let ghost before = out@;
            out.push(sv[i]);
            assert(out@ + replaced(sv@.skip(i + 1), pv@, rv@) =~= before + (seq![sv@[i as int]]
                + replaced(sv@.skip(i + 1), pv@, rv@)));
            i = i + 1;
        }
    }
    assert(sv@.skip(i as int) =~= Seq::<char>::empty());
    assert(out@ + Seq::<char>::empty() =~= out@);
    string_of(&out)
}

pub fn ascii_lower(c: char) -> (r: char)
    ensures
        r == ascii_lower_char(c),
{
    if 'A' <= c && c <= 'Z' {
        let n: u32 = c as u32;
        let b: u8 = n as u8;
        assert(b == n);
        (b + 32) as char
    } else {
        c
    }
}

/// `s` with ASCII upper-case letters in lower case, as `str::to_ascii_lowercase` does.
pub fn to_ascii_lower(s: &str) -> (r: String)
    ensures
        r@ == ascii_lowercase(s@),
{
    let v = chars_of(s);
    let mut out: Vec<char> = Vec::new();
    let mut i: usize = 0;
    while i < v.len()
        invariant
            0 <= i <= v.len(),
            v@ == s@,
            out@ == ascii_lowercase(v@.take(i as int)),
        decreases v.len() - i,
    {
        out.push(ascii_lower(v[i]));
        i = i + 1;
        assert(out@ =~= ascii_lowercase(v@.take(i as int)));
    }
    assert(v@.take(v.len() as int) =~= v@);
    string_of(&out)
}

proof fn lemma_digits_value_bounds(s: Seq<char>)
    requires
        all_ascii_digits(s),
    ensures
        digits_value(s) >= 0,
    decreases s.len(),
{
    if s.len() > 0 {
        assert(all_ascii_digits(s.drop_last())) by {
            assert forall|i: int| 0 <= i < s.drop_last().len() implies is_ascii_digit(
                #[trigger] s.drop_last()[i],
            ) by {
                assert(s.drop_last()[i] == s[i]);
            }
        }
        lemma_digits_value_bounds(s.drop_last());
        assert(is_ascii_digit(s[s.len() - 1]));
    }
}

/// The value of `s` read as a decimal `i32`, as `str::parse::<i32>` gives it.
pub fn parse_i32(s: &str) -> (r: Option<i32>)
    ensures
        r == parsed_i32(s@),
{
    let v = chars_of(s);
    let negative = v.len() > 0 && v[0] == '-';
    let start: usize = if v.len() > 0 && (v[0] == '-' || v[0] == '+') { 1 } else { 0 };
    let ghost body = unsigned_part(s@);
    assert(body =~= v@.skip(start as int));
    if start >= v.len() {
        return None;
    }
    // accumulate the magnitude, stopping once it leaves the range of an i32
    let mut value: i64 = 0;
    let mut i: usize = start;
    while i < v.len()
        invariant
            start <= i <= v.len(),
            v@ == s@,
            body == v@.skip(start as int),
            body == unsigned_part(s@),
            all_ascii_digits(v@.subrange(start as int, i as int)),
            value == digits_value(v@.subrange(start as int, i as int)),
            0 <= value <= 2147483648,
        decreases v.len() - i,
    {
        let c = v[i];
        if !('0' <= c && c <= '9') {
            assert(body[i - start] == v@[i as int]);
            assert(!is_ascii_digit(body[i - start]));
            assert(!all_ascii_digits(body));
            return None;
        }
        let d: u32 = (c as u32) - ('0' as u32);
        let ghost prev = v@.subrange(start as int, i as int);
        let next = value * 10 + (d as i64);
        assert(v@.subrange(start as int, i + 1).drop_last() =~= prev);
        assert(v@.subrange(start as int, i + 1).last() == c);
        assert(all_ascii_digits(v@.subrange(start as int, i + 1))) by {
            assert forall|k: int| 0 <= k < v@.subrange(start as int, i + 1).len() implies is_ascii_digit(
                #[trigger] v@.subrange(start as int, i + 1)[k],
            ) by {
                if k < prev.len() {
                    assert(v@.subrange(start as int, i + 1)[k] == prev[k]);
                }
            }
        }
        i = i + 1;
        if next > 2147483648 {
            // every further digit keeps the magnitude above the range
            proof {
                if all_ascii_digits(body) {
                    assert(body.take(i - start) =~= v@.subrange(start as int, i as int));
                    lemma_digits_grow(body, i - start);
                }
            }
            return None;
        }
        value = next;
    }
    assert(v@.subrange(start as int, v.len() as int) =~= body);
    assert(all_ascii_digits(body));
    assert(value == digits_value(body));
    assert(negative == (s@.len() > 0 && s@[0] == '-'));
    if negative {
        Some((0 - value) as i32)
    } else if value > 2147483647 {
        None
    } else {
        Some(value as i32)
    }
}

/// Once a prefix of a digit string is past the range of an `i32`, so is the whole.
proof fn lemma_digits_grow(s: Seq<char>, n: int)
    requires
        all_ascii_digits(s),
        0 < n <= s.len(),
        digits_value(s.take(n)) > 2147483648,
    ensures
        digits_value(s) > 2147483648,
    decreases s.len() - n,
{
    if n == s.len() {
        assert(s.take(n) =~= s);
    } else {
        assert(s.take(n + 1).drop_last() =~= s.take(n));
        assert(is_ascii_digit(s[n]));
        assert(s.take(n + 1).last() == s[n]);
        lemma_digits_grow(s, n + 1);
    }
}

/// The part of `s` after the last `sep`, or all of `s`.
pub fn after_last_char(s: &str, sep: char) -> (r: String)
    ensures
        r@ == after_last(s@, sep),
{
    let v = chars_of(s);
    let mut start: usize = v.len();
    assert(v@.take(v.len() as int) =~= v@);
    assert(v@.subrange(v.len() as int, v.len() as int) =~= Seq::<char>::empty());
    assert(v@ + Seq::<char>::empty() =~= v@);
    // walk back to just after the last separator
    while start > 0 && v[start - 1] != sep
        invariant
            0 <= start <= v.len(),
            v@ == s@,
            after_last(v@, sep) == after_last(v@.take(start as int), sep) + v@.subrange(
                start as int,
                v.len() as int,
            ),
        decreases start,
    {
        let ghost t = v@.take(start as int);
        assert(t.drop_last() =~= v@.take(start - 1));
        assert(v@.subrange(start - 1, v.len() as int) =~= seq![t.last()] + v@.subrange(
            start as int,
            v.len() as int,
        ));
        assert(after_last(t, sep) == after_last(t.drop_last(), sep).push(t.last()));
        assert(after_last(t.drop_last(), sep).push(t.last()) + v@.subrange(
            start as int,
            v.len() as int,
        ) =~= after_last(t.drop_last(), sep) + (seq![t.last()] + v@.subrange(
            start as int,
            v.len() as int,
        )));
        start = start - 1;
    }
    let ghost t = v@.take(start as int);
    if start > 0 {
        assert(t.last() == sep);
        assert(after_last(t, sep) =~= Seq::<char>::empty());
    } else {
        assert(t =~= Seq::<char>::empty());
    }
    let mut out: Vec<char> = Vec::new();
    let mut i = start;
    while i < v.len()
        invariant
            start <= i <= v.len(),
            out@ == v@.subrange(start as int, i as int),
        decreases v.len() - i,
    {
        out.push(v[i]);
        i = i + 1;
        assert(out@ =~= v@.subrange(start as int, i as int));
    }
    assert(Seq::<char>::empty() + out@ =~= out@);
    assert(v@.take(v.len() as int) =~= v@);
    string_of(&out)
}

} // verus!
