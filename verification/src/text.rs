//! Text helpers over character sequences: conversion between strings and
//! character vectors, substring search, splitting and decimal rendering.

use vstd::prelude::*;

verus! {

/// Appends one character to a string. Trusted: states that
/// `String::push` extends the text by exactly that character.
#[verifier::external_body]
fn push_char(s: &mut String, c: char)
    ensures
        final(s)@ == old(s)@.push(c),
{
    s.push(c)
}

/// The characters of `s`, in order.
pub fn to_chars(s: &str) -> (v: Vec<char>)
    ensures
        v@ == s@,
{
    let mut v: Vec<char> = Vec::new();
    for c in it: s.chars()
        invariant
            it.seq() == s@,
            v@ == it.seq().take(it.index() as int),
    {
        v.push(c);
    }
    v
}

/// The string whose characters are `v`, in order.
pub fn from_chars(v: &Vec<char>) -> (s: String)
    ensures
        s@ == v@,
{
    let mut s = String::new();
    let mut i: usize = 0;
    while i < v.len()
        invariant
            i <= v.len(),
            s@ == v@.subrange(0, i as int),
        decreases v.len() - i,
    {
        push_char(&mut s, v[i]);
        i = i + 1;
    }
    s
}

/// Whether two texts hold the same characters.
pub fn same_text(a: &str, b: &str) -> (r: bool)
    ensures
        r == (a@ == b@),
{
    let x = a.to_owned();
    let y = b.to_owned();
    x == y
}

/// The view of each string of a sequence, in order.
pub open spec fn texts(v: Seq<String>) -> Seq<Seq<char>> {
    v.map_values(|s: String| s@)
}

/// The view of an optional string.
pub open spec fn opt_text(o: Option<String>) -> Option<Seq<char>> {
    match o {
        Some(s) => Some(s@),
        None => None,
    }
}

/// `names` without every occurrence of `name`, the rest in order.
pub open spec fn without(names: Seq<Seq<char>>, name: Seq<char>) -> Seq<Seq<char>> {
    names.filter(|c: Seq<char>| c != name)
}

/// What `without` keeps and what it drops.
pub proof fn lemma_without(names: Seq<Seq<char>>, name: Seq<char>)
    ensures
        !without(names, name).contains(name),
        without(names, name).len() <= names.len(),
        forall|c: Seq<char>| #[trigger]
            without(names, name).contains(c) <==> (names.contains(c) && c != name),
        names.contains(name) ==> without(names, name).len() < names.len(),
    decreases names.len(),
{
    let pred = |c: Seq<char>| c != name;
    reveal(Seq::filter);
    if names.len() > 0 {
        let front = names.drop_last();
        lemma_without(front, name);
        assert(names =~= front.push(names.last()));
        assert forall|c: Seq<char>| #[trigger]
            without(names, name).contains(c) <==> (names.contains(c) && c != name) by {
            if names.contains(c) {
                let i = choose|i: int| 0 <= i < names.len() && names[i] == c;
                if i < front.len() {
                    assert(front[i] == c);
                    assert(front.contains(c));
                }
            }
            if front.contains(c) {
                let i = choose|i: int| 0 <= i < front.len() && front[i] == c;
                assert(names[i] == c);
            }
            if pred(names.last()) {
                let w = without(front, name);
                assert(without(names, name) =~= w.push(names.last()));
                if w.contains(c) {
                    let i = choose|i: int| 0 <= i < w.len() && w[i] == c;
                    assert(w.push(names.last())[i] == c);
                }
                if c == names.last() {
                    assert(w.push(names.last())[w.len() as int] == c);
                }
            }
        }
        if names.contains(name) && pred(names.last()) {
            let i = choose|i: int| 0 <= i < names.len() && names[i] == name;
            assert(front[i] == name);
            assert(front.contains(name));
        }
    }
}

/// Drops every occurrence of `name` from `names`.
pub fn remove_text(names: &mut Vec<String>, name: &str)
    ensures
        texts(final(names)@) == without(texts(old(names)@), name@),
{
    let mut kept: Vec<String> = Vec::new();
    let wanted = name.to_owned();
    let mut i: usize = 0;
    while i < names.len()
        invariant
            i <= names.len(),
            wanted@ == name@,
            names@ == old(names)@,
            texts(kept@) == without(texts(names@.take(i as int)), name@),
        decreases names.len() - i,
    {
        proof {
            assert(texts(names@.take(i + 1)) =~= texts(names@.take(i as int)).push(
                names@[i as int]@,
            ));
            texts(names@.take(i as int)).lemma_filter_push(
                names@[i as int]@,
                |c: Seq<char>| c != name@,
            );
        }
        if names[i] != wanted {
            let copy = names[i].clone();
            kept.push(copy);
        }
        i = i + 1;
    }
    assert(names@.take(names.len() as int) =~= names@);
    *names = kept;
}

/// Whether `name` is one of `names`.
pub fn has_text(names: &Vec<String>, name: &str) -> (r: bool)
    ensures
        r == texts(names@).contains(name@),
{
    let wanted = name.to_owned();
    let mut i: usize = 0;
    while i < names.len()
        invariant
            i <= names.len(),
            wanted@ == name@,
            forall|k: int| 0 <= k < i ==> texts(names@)[k] != name@,
        decreases names.len() - i,
    {
        if names[i] == wanted {
            assert(texts(names@)[i as int] == name@);
            return true;
        }
        i = i + 1;
    }
    false
}

/// `pat` stands in `s` at position `i`.
pub open spec fn occurs_at(pat: Seq<char>, s: Seq<char>, i: int) -> bool {
    &&& 0 <= i
    &&& i + pat.len() <= s.len()
    &&& s.subrange(i, i + pat.len()) == pat
}

/// `pat` stands somewhere in `s`. The empty text stands in every text.
pub open spec fn is_substring(pat: Seq<char>, s: Seq<char>) -> bool {
    exists|i: int| occurs_at(pat, s, i)
}

fn matches_at(s: &Vec<char>, pat: &Vec<char>, i: usize) -> (r: bool)
    requires
        i + pat.len() <= s.len(),
    ensures
        r == occurs_at(pat@, s@, i as int),
{
    let mut j: usize = 0;
    while j < pat.len()
        invariant
            j <= pat.len(),
            i + pat.len() <= s.len(),
            forall|k: int| 0 <= k < j ==> s@[i + k] == pat@[k],
        decreases pat.len() - j,
    {
        if s[i + j] != pat[j] {
            return false;
        }
        j = j + 1;
    }
    assert(s@.subrange(i as int, i + pat.len()) =~= pat@);
    true
}

/// Whether `pat` stands somewhere in `s`.
pub fn contains(s: &str, pat: &str) -> (r: bool)
    ensures
        r == is_substring(pat@, s@),
{
    let sv = to_chars(s);
    let pv = to_chars(pat);
    if pv.len() > sv.len() {
        return false;
    }
    let last: usize = sv.len() - pv.len();
    let mut i: usize = 0;
    while i < last
        invariant
            sv@ == s@,
            pv@ == pat@,
            last == sv.len() - pv.len(),
            i <= last,
            forall|k: int| 0 <= k < i ==> !occurs_at(pat@, s@, k),
        decreases last - i,
    {
        if matches_at(&sv, &pv, i) {
            return true;
        }
        i = i + 1;
    }
    matches_at(&sv, &pv, last)
}

/// The pieces of `s` between occurrences of `d`, in order: one more piece
/// than there are occurrences, so a text without `d` is its own single piece
/// and a trailing `d` leaves an empty last piece.
pub open spec fn split_on(s: Seq<char>, d: char) -> Seq<Seq<char>>
    decreases s.len(),
{
    match s.index_of_first(d) {
        Some(i) => if 0 <= i < s.len() {
            seq![s.subrange(0, i)] + split_on(s.subrange(i + 1, s.len() as int), d)
        } else {
            seq![s]
        },
        None => seq![s],
    }
}

/// There is a piece even in a text without the separator.
pub proof fn lemma_split_is_not_empty(s: Seq<char>, d: char)
    ensures
        split_on(s, d).len() >= 1,
{
}

/// The text before the first `d` and the text after it, if `d` occurs.
pub open spec fn split_once_on(s: Seq<char>, d: char) -> Option<(Seq<char>, Seq<char>)> {
    match s.index_of_first(d) {
        Some(i) => Some((s.subrange(0, i), s.subrange(i + 1, s.len() as int))),
        None => None,
    }
}

/// The first occurrence of `d` in `t` is at `k` when `d` stands there and
/// nowhere before.
pub proof fn lemma_first_at<A>(t: Seq<A>, d: A, k: int)
    requires
        0 <= k < t.len(),
        t[k] == d,
        forall|j: int| 0 <= j < k ==> t[j] != d,
    ensures
        t.index_of_first(d) == Some(k),
{
    t.index_of_first_ensures(d);
}

/// There is no first occurrence of `d` in `t` when `d` stands nowhere.
pub proof fn lemma_first_absent<A>(t: Seq<A>, d: A)
    requires
        forall|j: int| 0 <= j < t.len() ==> t[j] != d,
    ensures
        t.index_of_first(d) is None,
{
    t.index_of_first_ensures(d);
}

/// Splits `s` at every occurrence of `d`.
pub fn split(s: &str, d: char) -> (out: Vec<String>)
    ensures
        texts(out@) == split_on(s@, d),
{
    let sv = to_chars(s);
    let n = sv.len();
    let mut out: Vec<String> = Vec::new();
    let mut cur: Vec<char> = Vec::new();
    let mut start: usize = 0;
    let mut i: usize = 0;
    assert(sv@.subrange(0, n as int) =~= sv@);
    while i < n
        invariant
            sv@ == s@,
            n == sv.len(),
            start <= i <= n,
            cur@ == sv@.subrange(start as int, i as int),
            forall|k: int| start <= k < i ==> sv@[k] != d,
            split_on(sv@, d) == texts(out@) + split_on(sv@.subrange(start as int, n as int), d),
        decreases n - i,
    {
        let ghost rest = sv@.subrange(start as int, n as int);
        if sv[i] == d {
            let piece = from_chars(&cur);
            proof {
                lemma_first_at(rest, d, i - start);
                assert(rest.subrange(0, i - start) =~= cur@);
                assert(rest.subrange(i - start + 1, rest.len() as int) =~= sv@.subrange(
                    i + 1,
                    n as int,
                ));
            }
            out.push(piece);
            cur = Vec::new();
            start = i + 1;
            i = i + 1;
        } else {
            cur.push(sv[i]);
            i = i + 1;
        }
    }
    let piece = from_chars(&cur);
    proof {
        lemma_first_absent(sv@.subrange(start as int, n as int), d);
    }
    out.push(piece);
    out
}

/// Splits `s` at the first occurrence of `d`.
pub fn split_once(s: &str, d: char) -> (out: Option<(String, String)>)
    ensures
        match out {
            Some(p) => split_once_on(s@, d) == Some((p.0@, p.1@)),
            None => split_once_on(s@, d) is None,
        },
{
    let sv = to_chars(s);
    let n = sv.len();
    let mut i: usize = 0;
    while i < n
        invariant
            sv@ == s@,
            n == sv.len(),
            i <= n,
            forall|k: int| 0 <= k < i ==> sv@[k] != d,
        decreases n - i,
    {
        if sv[i] == d {
            let mut head: Vec<char> = Vec::new();
            let mut tail: Vec<char> = Vec::new();
            let mut j: usize = 0;
            while j < i
                invariant
                    j <= i < n,
                    n == sv.len(),
                    head@ == sv@.subrange(0, j as int),
                decreases i - j,
            {
                head.push(sv[j]);
                j = j + 1;
            }
            let mut k: usize = i + 1;
            while k < n
                invariant
                    i + 1 <= k <= n,
                    n == sv.len(),
                    tail@ == sv@.subrange(i + 1, k as int),
                decreases n - k,
            {
                tail.push(sv[k]);
                k = k + 1;
            }
            proof {
                lemma_first_at(sv@, d, i as int);
            }
            return Some((from_chars(&head), from_chars(&tail)));
        }
        i = i + 1;
    }
    proof {
        lemma_first_absent(sv@, d);
    }
    None
}

/// The decimal digit for a number below ten.
pub open spec fn digit(n: nat) -> char {
    if n == 0 {
        '0'
    } else if n == 1 {
        '1'
    } else if n == 2 {
        '2'
    } else if n == 3 {
        '3'
    } else if n == 4 {
        '4'
    } else if n == 5 {
        '5'
    } else if n == 6 {
        '6'
    } else if n == 7 {
        '7'
    } else if n == 8 {
        '8'
    } else {
        '9'
    }
}

/// The decimal numeral of `n`, without leading zeros.
pub open spec fn decimal(n: nat) -> Seq<char>
    decreases n,
{
    if n < 10 {
        seq![digit(n)]
    } else {
        decimal(n / 10).push(digit(n % 10))
    }
}

/// The decimal numeral of a signed number: a minus sign before the numeral
/// of the magnitude when it is negative.
pub open spec fn signed_decimal(n: int) -> Seq<char> {
    if n < 0 {
        seq!['-'] + decimal((-n) as nat)
    } else {
        decimal(n as nat)
    }
}

fn digit_char(d: u64) -> (c: char)
    requires
        d < 10,
    ensures
        c == digit(d as nat),
{
    if d == 0 {
        '0'
    } else if d == 1 {
        '1'
    } else if d == 2 {
        '2'
    } else if d == 3 {
        '3'
    } else if d == 4 {
        '4'
    } else if d == 5 {
        '5'
    } else if d == 6 {
        '6'
    } else if d == 7 {
        '7'
    } else if d == 8 {
        '8'
    } else {
        '9'
    }
}

/// Appends the decimal numeral of `n` to `out`.
pub fn push_decimal(out: &mut String, n: u64)
    ensures
        final(out)@ == old(out)@ + decimal(n as nat),
    decreases n,
{
    if n >= 10 {
        push_decimal(out, n / 10);
        push_char(out, digit_char(n % 10));
    } else {
        push_char(out, digit_char(n));
    }
}

/// Appends the decimal numeral of a signed number to `out`.
pub fn push_signed(out: &mut String, n: i64)
    ensures
        final(out)@ == old(out)@ + signed_decimal(n as int),
{
    if n < 0 {
        push_char(out, '-');
        let m: u64 = ((-(n + 1)) as u64) + 1;
        push_decimal(out, m);
    } else {
        push_decimal(out, n as u64);
    }
}

/// Appends `piece` to `out`.
pub fn push_text(out: &mut String, piece: &str)
    ensures
        final(out)@ == old(out)@ + piece@,
{
    out.append(piece);
}

} // verus!
