//! Byte strings: copies, equality, and the case-insensitive order used to
//! list command names.

use vstd::prelude::*;

verus! {

/// The contents of a list of byte strings.
pub open spec fn texts(v: Seq<Vec<u8>>) -> Seq<Seq<u8>> {
    Seq::new(v.len(), |i: int| v[i]@)
}

/// Whether two byte strings hold the same bytes.
pub fn bytes_eq(a: &Vec<u8>, b: &Vec<u8>) -> (same: bool)
    ensures
        same == (a@ == b@),
{
    if a.len() != b.len() {
        return false;
    }
    let mut i: usize = 0;
    while i < a.len()
        invariant
            a.len() == b.len(),
            i <= a.len(),
            a@.take(i as int) == b@.take(i as int),
        decreases a.len() - i,
    {
        if a[i] != b[i] {
            return false;
        }
        proof {
            assert(a@.take(i + 1) == a@.take(i as int).push(a@[i as int]));
            assert(b@.take(i + 1) == b@.take(i as int).push(b@[i as int]));
        }
        i += 1;
    }
    proof {
        assert(a@.take(a@.len() as int) == a@);
        assert(b@.take(b@.len() as int) == b@);
    }
    true
}

/// `front` followed by `back`.
pub fn followed_by(front: &Vec<u8>, back: &Vec<u8>) -> (out: Vec<u8>)
    ensures
        out@ == front@ + back@,
{
    let mut out = front.clone();
    out.extend_from_slice(back.as_slice());
    out
}

/// Copies a list of byte strings.
pub fn copy_texts(list: &Vec<Vec<u8>>) -> (out: Vec<Vec<u8>>)
    ensures
        texts(out@) == texts(list@),
{
    let mut out: Vec<Vec<u8>> = Vec::new();
    let mut i: usize = 0;
    while i < list.len()
        invariant
            i <= list.len(),
            out@.len() == i,
            forall|j: int| 0 <= j < i ==> out@[j]@ == list@[j]@,
        decreases list.len() - i,
    {
        out.push(list[i].clone());
        i += 1;
    }
    proof {
        assert(texts(out@) =~= texts(list@));
    }
    out
}

/// An ASCII upper-case letter becomes its lower-case form; every other byte
/// stays.
pub open spec fn fold_byte(b: u8) -> u8 {
    if 65 <= b && b <= 90 {
        (b + 32) as u8
    } else {
        b
    }
}

/// A byte string with its ASCII letters in lower case.
pub open spec fn folded(s: Seq<u8>) -> Seq<u8> {
    Seq::new(s.len(), |i: int| fold_byte(s[i]))
}

/// The order of byte strings: byte by byte, a proper prefix first.
pub open spec fn lex_le(a: Seq<u8>, b: Seq<u8>) -> bool
    decreases a.len(),
{
    if a.len() == 0 {
        true
    } else if b.len() == 0 {
        false
    } else if a[0] != b[0] {
        a[0] < b[0]
    } else {
        lex_le(a.skip(1), b.skip(1))
    }
}

/// The order in which names are listed: `lex_le` on the names with their
/// ASCII letters in lower case.
pub open spec fn fold_le(a: Seq<u8>, b: Seq<u8>) -> bool {
    lex_le(folded(a), folded(b))
}

/// Of two byte strings, one comes no later than the other.
pub proof fn lex_le_total(a: Seq<u8>, b: Seq<u8>)
    ensures
        lex_le(a, b) || lex_le(b, a),
    decreases a.len(),
{
    if a.len() > 0 && b.len() > 0 && a[0] == b[0] {
        lex_le_total(a.skip(1), b.skip(1));
    }
}

/// The order of byte strings is transitive.
pub proof fn lex_le_transitive(a: Seq<u8>, b: Seq<u8>, c: Seq<u8>)
    requires
        lex_le(a, b),
        lex_le(b, c),
    ensures
        lex_le(a, c),
    decreases a.len(),
{
    if a.len() > 0 && b.len() > 0 && c.len() > 0 && a[0] == b[0] && b[0] == c[0] {
        lex_le_transitive(a.skip(1), b.skip(1), c.skip(1));
    }
}

/// The lower-case form of one byte.
pub fn fold(b: u8) -> (out: u8)
    ensures
        out == fold_byte(b),
{
    if 65 <= b && b <= 90 {
        b + 32
    } else {
        b
    }
}

/// Whether `a` is listed no later than `b`.
pub fn folded_le(a: &Vec<u8>, b: &Vec<u8>) -> (le: bool)
    ensures
        le == fold_le(a@, b@),
{
    let mut i: usize = 0;
    proof {
        assert(folded(a@).skip(0) =~= folded(a@));
        assert(folded(b@).skip(0) =~= folded(b@));
    }
    while i < a.len() && i < b.len()
        invariant
            i <= a.len(),
            i <= b.len(),
            fold_le(a@, b@) == lex_le(folded(a@).skip(i as int), folded(b@).skip(i as int)),
        decreases a.len() - i,
    {
        let x = fold(a[i]);
        let y = fold(b[i]);
        proof {
            let fa = folded(a@).skip(i as int);
            let fb = folded(b@).skip(i as int);
            assert(fa[0] == x && fb[0] == y);
            assert(fa.skip(1) =~= folded(a@).skip(i + 1));
            assert(fb.skip(1) =~= folded(b@).skip(i + 1));
        }
        if x != y {
            return x < y;
        }
        i += 1;
    }
    i == a.len()
}

} // verus!
