//! Character-level text operations that the page and routing logic is built on.
//!
//! Strings are modelled by their view, a `Seq<char>`; the functions here work on
//! `Vec<char>` copies of the strings and say what they compute over those views.
use vstd::prelude::*;

verus! {

/// `p` is a prefix of `s`.
pub open spec fn has_prefix(s: Seq<char>, p: Seq<char>) -> bool {
    p.len() <= s.len() && s.subrange(0, p.len() as int) == p
}

/// `p` is a suffix of `s`.
pub open spec fn has_suffix(s: Seq<char>, p: Seq<char>) -> bool {
    p.len() <= s.len() && s.subrange(s.len() - p.len(), s.len() as int) == p
}

/// `p` occurs in `s` starting at index `i`.
pub open spec fn occurs_at(s: Seq<char>, p: Seq<char>, i: int) -> bool {
    0 <= i && i + p.len() <= s.len() && s.subrange(i, i + p.len()) == p
}

/// The first index at or after `k` where `p` occurs in `s`, if there is one.
pub open spec fn first_occurrence_from(s: Seq<char>, p: Seq<char>, k: int) -> Option<int>
    decreases s.len() + 1 - k,
{
    if k < 0 || k + p.len() > s.len() {
        None
    } else if occurs_at(s, p, k) {
        Some(k)
    } else {
        first_occurrence_from(s, p, k + 1)
    }
}

/// The first index where `p` occurs in `s`, if there is one.
pub open spec fn first_occurrence(s: Seq<char>, p: Seq<char>) -> Option<int> {
    first_occurrence_from(s, p, 0)
}

/// The first occurrence found from `k` is an occurrence, at or after `k`, with
/// none between `k` and it; where none is found, `p` occurs nowhere from `k` on.
pub proof fn lemma_first_occurrence_occurs(s: Seq<char>, p: Seq<char>, k: int)
    requires
        0 <= k,
    ensures
        match first_occurrence_from(s, p, k) {
            Some(i) => k <= i && occurs_at(s, p, i) && forall|j: int|
                k <= j < i ==> !#[trigger] occurs_at(s, p, j),
            None => forall|j: int| k <= j ==> !#[trigger] occurs_at(s, p, j),
        },
    decreases s.len() + 1 - k,
{
    if k + p.len() > s.len() {
    } else if occurs_at(s, p, k) {
    } else {
        lemma_first_occurrence_occurs(s, p, k + 1);
    }
}

/// `first_occurrence` finds where `p` first occurs in `s`: an occurrence with
/// none before it; or, where it finds none, `p` occurs nowhere in `s`.
pub proof fn law_first_occurrence_is_first(s: Seq<char>, p: Seq<char>)
    ensures
        match first_occurrence(s, p) {
            Some(i) => occurs_at(s, p, i) && forall|j: int|
                0 <= j < i ==> !#[trigger] occurs_at(s, p, j),
            None => forall|j: int| !#[trigger] occurs_at(s, p, j),
        },
{
    lemma_first_occurrence_occurs(s, p, 0);
}

/// `s` with every trailing copy of a non-empty `p` removed, one after another.
pub open spec fn trim_suffix_all(s: Seq<char>, p: Seq<char>) -> Seq<char>
    decreases s.len(),
{
    if p.len() > 0 && has_suffix(s, p) {
        trim_suffix_all(s.subrange(0, s.len() - p.len()), p)
    } else {
        s
    }
}

/// `s` with every leading copy of a non-empty `p` removed, one after another.
pub open spec fn trim_prefix_all(s: Seq<char>, p: Seq<char>) -> Seq<char>
    decreases s.len(),
{
    if p.len() > 0 && has_prefix(s, p) {
        trim_prefix_all(s.subrange(p.len() as int, s.len() as int), p)
    } else {
        s
    }
}

/// `c`, with a backslash turned into a forward slash.
pub open spec fn forward_slash(c: char) -> char {
    if c == '\\' {
        '/'
    } else {
        c
    }
}

/// `s` with every backslash turned into a forward slash.
pub open spec fn with_forward_slashes(s: Seq<char>) -> Seq<char> {
    s.map_values(|c: char| forward_slash(c))
}

/// Once every trailing copy of a non-empty `p` is removed, `p` is no suffix.
pub proof fn law_trim_suffix_all_leaves_no_suffix(s: Seq<char>, p: Seq<char>)
    requires
        p.len() > 0,
    ensures
        !has_suffix(trim_suffix_all(s, p), p),
    decreases s.len(),
{
    if has_suffix(s, p) {
        law_trim_suffix_all_leaves_no_suffix(s.subrange(0, s.len() - p.len()), p);
    }
}

/// Once every leading copy of a non-empty `p` is removed, `p` is no prefix; what
/// is left is the end of `s`.
pub proof fn law_trim_prefix_all_leaves_no_prefix(s: Seq<char>, p: Seq<char>)
    requires
        p.len() > 0,
    ensures
        !has_prefix(trim_prefix_all(s, p), p),
        exists|k: int| 0 <= k <= s.len() && trim_prefix_all(s, p) == s.subrange(k, s.len() as int),
    decreases s.len(),
{
    if has_prefix(s, p) {
        let rest = s.subrange(p.len() as int, s.len() as int);
        law_trim_prefix_all_leaves_no_prefix(rest, p);
        let k = choose|k: int| 0 <= k <= rest.len() && trim_prefix_all(rest, p) == rest.subrange(k, rest.len() as int);
        assert(rest.subrange(k, rest.len() as int) =~= s.subrange(k + p.len(), s.len() as int));
    } else {
        assert(s.subrange(0, s.len() as int) =~= s);
    }
}

/// `n` copies of `p`, one after another.
pub open spec fn repeat(p: Seq<char>, n: nat) -> Seq<char>
    decreases n,
{
    if n == 0 {
        Seq::<char>::empty()
    } else {
        p + repeat(p, (n - 1) as nat)
    }
}

/// One more copy of `p` at the end makes `n + 1` copies.
pub proof fn lemma_repeat_append(p: Seq<char>, n: nat)
    ensures
        repeat(p, n) + p == repeat(p, n + 1),
    decreases n,
{
    if n == 0 {
        assert(repeat(p, 0) + p =~= p + repeat(p, 0));
    } else {
        lemma_repeat_append(p, (n - 1) as nat);
        assert(repeat(p, n) + p =~= p + (repeat(p, (n - 1) as nat) + p));
    }
}

/// Trimming trailing copies only removes copies: `s` is what is left followed
/// by some number of copies of `p`.
pub proof fn law_trim_suffix_all_removes_copies(s: Seq<char>, p: Seq<char>)
    ensures
        exists|n: nat| s == trim_suffix_all(s, p) + #[trigger] repeat(p, n),
    decreases s.len(),
{
    if p.len() > 0 && has_suffix(s, p) {
        let rest = s.subrange(0, s.len() - p.len());
        law_trim_suffix_all_removes_copies(rest, p);
        let m = choose|m: nat| rest == trim_suffix_all(rest, p) + #[trigger] repeat(p, m);
        lemma_repeat_append(p, m);
        assert(s =~= rest + p);
        assert(s =~= trim_suffix_all(s, p) + repeat(p, m + 1));
    } else {
        assert(s =~= s + repeat(p, 0));
    }
}

/// Trimming leading copies only removes copies: `s` is some number of copies
/// of `p` followed by what is left.
pub proof fn law_trim_prefix_all_removes_copies(s: Seq<char>, p: Seq<char>)
    ensures
        exists|k: nat| s == #[trigger] repeat(p, k) + trim_prefix_all(s, p),
    decreases s.len(),
{
    if p.len() > 0 && has_prefix(s, p) {
        let rest = s.subrange(p.len() as int, s.len() as int);
        law_trim_prefix_all_removes_copies(rest, p);
        let m = choose|m: nat| rest == #[trigger] repeat(p, m) + trim_prefix_all(rest, p);
        assert(s =~= p + rest);
        assert(repeat(p, m + 1) == p + repeat(p, m));
        assert(s =~= repeat(p, m + 1) + trim_prefix_all(s, p));
    } else {
        assert(s =~= repeat(p, 0) + s);
    }
}

/// The end of a sequence that does not end in `p` does not end in `p` either.
pub proof fn lemma_suffix_of_end(s: Seq<char>, k: int, p: Seq<char>)
    requires
        0 <= k <= s.len(),
        !has_suffix(s, p),
    ensures
        !has_suffix(s.subrange(k, s.len() as int), p),
{
    let t = s.subrange(k, s.len() as int);
    if has_suffix(t, p) {
        assert(t.subrange(t.len() - p.len(), t.len() as int) =~= s.subrange(
            s.len() - p.len(),
            s.len() as int,
        ));
    }
}

/// Turning backslashes into forward slashes leaves no backslash, and doing it
/// again changes nothing.
pub proof fn law_forward_slashes(s: Seq<char>)
    ensures
        !with_forward_slashes(s).contains('\\'),
        with_forward_slashes(with_forward_slashes(s)) == with_forward_slashes(s),
{
    assert(with_forward_slashes(with_forward_slashes(s)) =~= with_forward_slashes(s));
}

/// `std`'s `String::push`, which appends one character to the string.
#[verifier::external_body]
pub(crate) fn push_char(s: &mut String, c: char)
    ensures
        final(s)@ == old(s)@.push(c),
{
    s.push(c);
}

/// The characters of `s`, in order.
pub fn chars_of(s: &str) -> (v: Vec<char>)
    ensures
        v@ == s@,
{
    let mut v: Vec<char> = Vec::new();
    for c in it: s.chars()
        invariant
            v@ == it.seq().take(it.index()),
    {
        v.push(c);
    }
    assert(v@ =~= s@);
    v
}

/// The characters of `s` from index `from` up to, not including, `to`, as a `String`.
pub fn substring(s: &str, from: usize, to: usize) -> (r: String)
    requires
        from <= to <= s@.len(),
    ensures
        r@ == s@.subrange(from as int, to as int),
{
    String::from_str(s.substring_char(from, to))
}

/// Whether `p` occurs in `s` at index `i`; `s` has room for `p` there.
pub fn matches_at(s: &Vec<char>, p: &Vec<char>, i: usize) -> (b: bool)
    requires
        i + p.len() <= s.len(),
    ensures
        b == (s@.subrange(i as int, i + p.len()) == p@),
{
    let mut j: usize = 0;
    while j < p.len()
        invariant
            j <= p.len(),
            i + p.len() <= s.len(),
            forall|k: int| 0 <= k < j ==> s@[i + k] == p@[k],
        decreases p.len() - j,
    {
        if s[i + j] != p[j] {
            assert(s@.subrange(i as int, i + p.len())[j as int] != p@[j as int]);
            return false;
        }
        j = j + 1;
    }
    assert(s@.subrange(i as int, i + p.len()) =~= p@);
    true
}

/// Whether `p` is a prefix of `s`.
pub fn starts_with(s: &Vec<char>, p: &Vec<char>) -> (b: bool)
    ensures
        b == has_prefix(s@, p@),
{
    if p.len() > s.len() {
        false
    } else {
        matches_at(s, p, 0)
    }
}

/// Whether `s` and `p` hold the same characters.
pub fn same_chars(s: &Vec<char>, p: &Vec<char>) -> (b: bool)
    ensures
        b == (s@ == p@),
{
    if s.len() != p.len() {
        false
    } else {
        let b = matches_at(s, p, 0);
        assert(s@.subrange(0, s.len() as int) =~= s@);
        b
    }
}

/// The first index at or after `from` where `p` occurs in `s`.
pub fn find_from(s: &Vec<char>, p: &Vec<char>, from: usize) -> (r: Option<usize>)
    ensures
        match r {
            Some(i) => first_occurrence_from(s@, p@, from as int) == Some(i as int),
            None => first_occurrence_from(s@, p@, from as int) is None,
        },
{
    if p.len() > s.len() {
        assert(first_occurrence_from(s@, p@, from as int) is None);
        return None;
    }
    let last = s.len() - p.len();
    if from > last {
        assert(first_occurrence_from(s@, p@, from as int) is None);
        return None;
    }
    let mut k: usize = from;
    loop
        invariant
            last + p.len() == s.len(),
            from <= k <= last,
            first_occurrence_from(s@, p@, from as int) == first_occurrence_from(s@, p@, k as int),
        decreases last - k,
    {
        if matches_at(s, p, k) {
            return Some(k);
        }
        if k == last {
            assert(first_occurrence_from(s@, p@, k + 1) is None);
            return None;
        }
        k = k + 1;
    }
}

/// The first index where `p` occurs in `s`.
pub fn find(s: &Vec<char>, p: &Vec<char>) -> (r: Option<usize>)
    ensures
        match r {
            Some(i) => first_occurrence(s@, p@) == Some(i as int),
            None => first_occurrence(s@, p@) is None,
        },
{
    find_from(s, p, 0)
}

/// Where the characters of `s` before index `end` stop once every trailing
/// copy of `p` is removed.
pub fn trim_suffix_end(s: &Vec<char>, end: usize, p: &Vec<char>) -> (r: usize)
    requires
        end <= s.len(),
    ensures
        r <= end,
        s@.subrange(0, r as int) == trim_suffix_all(s@.subrange(0, end as int), p@),
{
    let mut e: usize = end;
    while p.len() > 0 && p.len() <= e && matches_at(s, p, e - p.len())
        invariant
            e <= end <= s.len(),
            trim_suffix_all(s@.subrange(0, e as int), p@) == trim_suffix_all(
                s@.subrange(0, end as int),
                p@,
            ),
        decreases e,
    {
        let ghost cur = s@.subrange(0, e as int);
        assert(cur.subrange(cur.len() - p.len(), cur.len() as int) =~= s@.subrange(
            e - p.len(),
            e as int,
        ));
        assert(cur.subrange(0, cur.len() - p.len()) =~= s@.subrange(0, e - p.len()));
        e = e - p.len();
    }
    let ghost cur = s@.subrange(0, e as int);
    if p.len() > 0 && p.len() <= e {
        assert(cur.subrange(cur.len() - p.len(), cur.len() as int) =~= s@.subrange(
            e - p.len(),
            e as int,
        ));
    }
    e
}

/// Where the characters of `s` from index `start` up to index `end` begin once
/// every leading copy of `p` is removed.
pub fn trim_prefix_start(s: &Vec<char>, start: usize, end: usize, p: &Vec<char>) -> (r: usize)
    requires
        start <= end <= s.len(),
    ensures
        start <= r <= end,
        s@.subrange(r as int, end as int) == trim_prefix_all(
            s@.subrange(start as int, end as int),
            p@,
        ),
{
    let mut b: usize = start;
    while p.len() > 0 && p.len() <= end - b && matches_at(s, p, b)
        invariant
            start <= b <= end <= s.len(),
            trim_prefix_all(s@.subrange(b as int, end as int), p@) == trim_prefix_all(
                s@.subrange(start as int, end as int),
                p@,
            ),
        decreases end - b,
    {
        let ghost cur = s@.subrange(b as int, end as int);
        assert(cur.subrange(0, p.len() as int) =~= s@.subrange(b as int, b + p.len()));
        assert(cur.subrange(p.len() as int, cur.len() as int) =~= s@.subrange(
            b + p.len(),
            end as int,
        ));
        b = b + p.len();
    }
    let ghost cur = s@.subrange(b as int, end as int);
    if p.len() > 0 && p.len() <= end - b {
        assert(cur.subrange(0, p.len() as int) =~= s@.subrange(b as int, b + p.len()));
    }
    b
}

/// `s` with every backslash turned into a forward slash.
pub fn normalize_separators(s: &str) -> (r: String)
    ensures
        r@ == with_forward_slashes(s@),
{
    let v = chars_of(s);
    let mut r = String::new();
    let mut i: usize = 0;
    while i < v.len()
        invariant
            i <= v.len(),
            v@ == s@,
            r@ == with_forward_slashes(v@.take(i as int)),
        decreases v.len() - i,
    {
        let c = v[i];
        let d = if c == '\\' {
            '/'
        } else {
            c
        };
        push_char(&mut r, d);
        assert(v@.take(i + 1) =~= v@.take(i as int).push(c));
        assert(with_forward_slashes(v@.take(i + 1)) =~= with_forward_slashes(
            v@.take(i as int),
        ).push(d));
        i = i + 1;
    }
    assert(v@.take(v.len() as int) =~= v@);
    r
}

} // verus!
