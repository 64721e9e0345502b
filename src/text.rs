//! Character-level helpers shared by the parsers of this crate.
use vstd::prelude::*;

verus! {

/// `pat` occurs in `s` starting at position `i`.
pub open spec fn occurs_at(s: Seq<char>, pat: Seq<char>, i: int) -> bool {
    0 <= i && i + pat.len() <= s.len() && s.subrange(i, i + pat.len()) == pat
}

/// `pat` occurs somewhere in `s`.
pub open spec fn contains(s: Seq<char>, pat: Seq<char>) -> bool {
    exists|i: int| occurs_at(s, pat, i)
}

/// The characters of a string, one per element.
pub fn chars_of(s: &str) -> (r: Vec<char>)
    ensures
        r@ == s@,
{
    let mut out: Vec<char> = Vec::new();
    for c in it: s.chars()
        invariant
            out@ == it.seq().take(it.index() as int),
    {
        out.push(c);
    }
    out
}

/// First position at or after `i` where `pat` occurs in `s`.
pub open spec fn find_from(s: Seq<char>, pat: Seq<char>, i: int) -> Option<int>
    decreases s.len() + 1 - i,
{
    if i < 0 || i + pat.len() > s.len() {
        None
    } else if occurs_at(s, pat, i) {
        Some(i)
    } else {
        find_from(s, pat, i + 1)
    }
}

/// What `find_from` returns is an occurrence, and the first one from `i` on.
pub proof fn lemma_find_from_result(s: Seq<char>, pat: Seq<char>, i: int)
    ensures
        find_from(s, pat, i) matches Some(k) ==> i <= k && occurs_at(s, pat, k)
            && forall|j: int| i <= j < k ==> !occurs_at(s, pat, j),
    decreases s.len() + 1 - i,
{
    if i < 0 || i + pat.len() > s.len() {
    } else if occurs_at(s, pat, i) {
    } else {
        lemma_find_from_result(s, pat, i + 1);
    }
}

/// An occurrence at `j` is found by a search that starts at or before `j`.
pub proof fn lemma_find_from_finds(s: Seq<char>, pat: Seq<char>, i: int, j: int)
    requires
        0 <= i <= j,
        occurs_at(s, pat, j),
    ensures
        find_from(s, pat, i) is Some,
    decreases j - i,
{
    if !occurs_at(s, pat, i) {
        lemma_find_from_finds(s, pat, i + 1, j);
    }
}

/// `pat` occurs in `s` exactly when a search from the start finds it.
pub proof fn lemma_contains_iff_found(s: Seq<char>, pat: Seq<char>)
    ensures
        contains(s, pat) <==> find_from(s, pat, 0) is Some,
{
    lemma_find_from_result(s, pat, 0);
    if contains(s, pat) {
        let j = choose|j: int| occurs_at(s, pat, j);
        lemma_find_from_finds(s, pat, 0, j);
    }
}

/// The first occurrence of `pat` is at `j` when it occurs there and nowhere before.
pub proof fn lemma_first_occurrence(s: Seq<char>, pat: Seq<char>, j: int)
    requires
        0 <= j,
        occurs_at(s, pat, j),
        forall|i: int| 0 <= i < j ==> !occurs_at(s, pat, i),
    ensures
        find_from(s, pat, 0) == Some(j),
{
    lemma_find_from_finds(s, pat, 0, j);
    lemma_find_from_result(s, pat, 0);
}

/// A search from `i` finds nothing when `pat` occurs nowhere from `i` on.
pub proof fn lemma_absent_from(s: Seq<char>, pat: Seq<char>, i: int)
    requires
        0 <= i,
        forall|j: int| i <= j ==> !occurs_at(s, pat, j),
    ensures
        find_from(s, pat, i) is None,
{
    lemma_find_from_result(s, pat, i);
}

/// A one-character pattern occurs exactly where that character stands.
pub proof fn lemma_single(s: Seq<char>, pat: Seq<char>, i: int)
    requires
        pat.len() == 1,
        0 <= i < s.len(),
    ensures
        occurs_at(s, pat, i) <==> s[i] == pat[0],
{
    if s[i] == pat[0] {
        assert(s.subrange(i, i + 1) =~= pat);
    } else {
        assert(s.subrange(i, i + 1)[0] == s[i]);
    }
}

/// The first position of a one-character pattern.
pub proof fn lemma_single_first(s: Seq<char>, pat: Seq<char>, j: int)
    requires
        pat.len() == 1,
        0 <= j < s.len(),
        s[j] == pat[0],
        forall|i: int| 0 <= i < j ==> s[i] != pat[0],
    ensures
        find_from(s, pat, 0) == Some(j),
{
    lemma_single(s, pat, j);
    assert forall|i: int| 0 <= i < j implies !occurs_at(s, pat, i) by {
        lemma_single(s, pat, i);
    }
    lemma_first_occurrence(s, pat, j);
}

/// A one-character pattern that `s` does not hold is not found.
pub proof fn lemma_single_absent(s: Seq<char>, pat: Seq<char>)
    requires
        pat.len() == 1,
        forall|i: int| 0 <= i < s.len() ==> s[i] != pat[0],
    ensures
        find_from(s, pat, 0) is None,
{
    assert forall|i: int| 0 <= i implies !occurs_at(s, pat, i) by {
        if i < s.len() {
            lemma_single(s, pat, i);
        }
    }
    lemma_absent_from(s, pat, 0);
}

/// Whether `pat` occurs in `s` at position `i`.
pub fn matches_at(s: &Vec<char>, pat: &Vec<char>, i: usize) -> (r: bool)
    ensures
        r == occurs_at(s@, pat@, i as int),
{
    if pat.len() > s.len() || i > s.len() - pat.len() {
        return false;
    }
    let mut j: usize = 0;
    while j < pat.len()
        invariant
            i + pat.len() <= s.len(),
            j <= pat.len(),
            forall|k: int| 0 <= k < j ==> s@[i + k] == pat@[k],
        decreases pat.len() - j,
    {
        if s[i + j] != pat[j] {
            assert(s@.subrange(i as int, i + pat@.len())[j as int] != pat@[j as int]);
            return false;
        }
        j = j + 1;
    }
    assert(s@.subrange(i as int, i + pat@.len()) =~= pat@);
    true
}

/// The first position at or after `from` where `pat` occurs in `s`.
pub fn find(s: &Vec<char>, pat: &Vec<char>, from: usize) -> (r: Option<usize>)
    ensures
        r matches Some(k) ==> find_from(s@, pat@, from as int) == Some(k as int),
        r is None ==> find_from(s@, pat@, from as int) is None,
{
    if pat.len() > s.len() {
        return None;
    }
    let last = s.len() - pat.len();
    let mut i = from;
    while i <= last
        invariant
            last == s@.len() - pat@.len(),
            from <= i,
            find_from(s@, pat@, from as int) == find_from(s@, pat@, i as int),
        decreases last + 1 - i,
    {
        if matches_at(s, pat, i) {
            return Some(i);
        }
        if i == last {
            assert(find_from(s@, pat@, i + 1) is None);
            return None;
        }
        i = i + 1;
    }
    None
}

/// Whether two texts are equal, character for character.
pub fn same_text(a: &str, b: &str) -> (r: bool)
    ensures
        r == (a@ == b@),
{
    let x = chars_of(a);
    let y = chars_of(b);
    if x.len() != y.len() {
        return false;
    }
    let mut i: usize = 0;
    while i < x.len()
        invariant
            x@ == a@,
            y@ == b@,
            x@.len() == y@.len(),
            i <= x@.len(),
            forall|k: int| 0 <= k < i ==> x@[k] == y@[k],
        decreases x.len() - i,
    {
        if x[i] != y[i] {
            assert(a@[i as int] != b@[i as int]);
            return false;
        }
        i = i + 1;
    }
    assert(x@ =~= y@);
    true
}

/// The characters of an optional text.
pub open spec fn opt_view(o: Option<String>) -> Option<Seq<char>> {
    match o {
        Some(t) => Some(t@),
        None => None,
    }
}

/// A copy of an optional text.
pub fn copy_opt(o: &Option<String>) -> (r: Option<String>)
    ensures
        opt_view(r) == opt_view(*o),
{
    match o {
        Some(t) => Some(t.clone()),
        None => None,
    }
}

} // verus!
