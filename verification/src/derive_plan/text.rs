//! Searching the text of attribute tokens, character by character.
use vstd::prelude::*;

verus! {

/// `p` occurs in `h` starting at index `i`.
pub open spec fn occurs_at(h: Seq<char>, p: Seq<char>, i: int) -> bool {
    0 <= i && i + p.len() <= h.len() && h.subrange(i, i + p.len()) == p
}

/// `p` occurs somewhere in `h`.
pub open spec fn contains_text(h: Seq<char>, p: Seq<char>) -> bool {
    exists|i: int| #[trigger] occurs_at(h, p, i)
}

/// The index of the first occurrence of `p` in `h`, if any.
pub open spec fn is_first_occurrence(h: Seq<char>, p: Seq<char>, r: Option<usize>) -> bool {
    match r {
        Some(i) => occurs_at(h, p, i as int) && forall|j: int| 0 <= j < i ==> !#[trigger] occurs_at(h, p, j),
        None => forall|j: int| !#[trigger] occurs_at(h, p, j),
    }
}

/// The characters of a string.
pub fn chars_of(s: &str) -> (r: Vec<char>)
    ensures
        r@ == s@,
{
    let mut r: Vec<char> = Vec::new();
    for c in it: s.chars()
        invariant
            it.seq() == s@,
            r@ == s@.take(it.index() as int),
    {
        proof {
            let i = it.index() as int;
            assert(c == s@[i]);
            assert(s@.take(i + 1) =~= s@.take(i).push(c));
        }
        r.push(c);
    }
    proof {
        assert(s@.take(s@.len() as int) =~= s@);
    }
    r
}

/// Whether two character sequences are equal.
pub fn text_eq(a: &Vec<char>, b: &Vec<char>) -> (r: bool)
    ensures
        r == (a@ == b@),
{
    if a.len() != b.len() {
        return false;
    }
    let mut j: usize = 0;
    while j < a.len()
        invariant
            a@.len() == b@.len(),
            j <= a@.len(),
            forall|k: int| 0 <= k < j ==> a@[k] == b@[k],
        decreases a@.len() - j,
    {
        if a[j] != b[j] {
            return false;
        }
        j = j + 1;
    }
    proof {
        assert(a@ =~= b@);
    }
    true
}

/// Whether `p` occurs in `h` at index `i`.
fn matches_at(h: &Vec<char>, p: &Vec<char>, i: usize) -> (r: bool)
    requires
        i + p@.len() <= h@.len(),
    ensures
        r == occurs_at(h@, p@, i as int),
{
    let hl = h.len();
    let mut j: usize = 0;
    while j < p.len()
        invariant
            hl == h@.len(),
            i + p@.len() <= h@.len(),
            j <= p@.len(),
            forall|k: int| 0 <= k < j ==> h@[i + k] == p@[k],
        decreases p@.len() - j,
    {
        if h[i + j] != p[j] {
            proof {
                assert(h@.subrange(i as int, i + p@.len())[j as int] != p@[j as int]);
            }
            return false;
        }
        j = j + 1;
    }
    proof {
        assert(h@.subrange(i as int, i + p@.len()) =~= p@);
    }
    true
}

/// The index of the first occurrence of `p` in `h`, if any.
pub fn find_text(h: &Vec<char>, p: &Vec<char>) -> (r: Option<usize>)
    ensures
        is_first_occurrence(h@, p@, r),
{
    if p.len() > h.len() {
        return None;
    }
    let last = h.len() - p.len();
    let mut i: usize = 0;
    loop
        invariant
            last == h@.len() - p@.len(),
            i <= last,
            forall|j: int| 0 <= j < i ==> !#[trigger] occurs_at(h@, p@, j),
        decreases last - i,
    {
        if matches_at(h, p, i) {
            return Some(i);
        }
        if i == last {
            return None;
        }
        i = i + 1;
    }
}

/// Whether the text `lit` occurs in `h`.
pub fn text_contains(h: &Vec<char>, lit: &str) -> (r: bool)
    ensures
        r == contains_text(h@, lit@),
{
    let p = chars_of(lit);
    let f = find_text(h, &p);
    proof {
        if let Some(i) = f {
            assert(occurs_at(h@, p@, i as int));
        }
    }
    f.is_some()
}

/// Whether the text of `s` is `lit`.
pub fn text_is(s: &str, lit: &str) -> (r: bool)
    ensures
        r == (s@ == lit@),
{
    let a = chars_of(s);
    let b = chars_of(lit);
    text_eq(&a, &b)
}

} // verus!
