//! Bitboards: a `u64` read as a set of board squares, square `s` being bit `s`.
//! Square 0 is a8, square 7 is h8, square 56 is a1 and square 63 is h1.
use vstd::prelude::*;

verus! {

/// Whether square `sq` belongs to the set `b` (bit `sq` of `b` is one).
pub open spec fn in_set(b: u64, sq: int) -> bool {
    0 <= sq < 64 && (b >> (sq as u64)) & 1 == 1
}

/// The set `b` with square `sq` added.
pub open spec fn with_square(b: u64, sq: int) -> u64 {
    b | (1u64 << (sq as u64))
}

/// The set `b` with square `sq` removed.
pub open spec fn without_square(b: u64, sq: int) -> u64 {
    b & !(1u64 << (sq as u64))
}

/// The file of a square, 0 for the a-file up to 7 for the h-file.
pub open spec fn file_of(sq: int) -> int {
    sq % 8
}

/// The row of a square, 0 for the eighth rank up to 7 for the first rank.
pub open spec fn row_of(sq: int) -> int {
    sq / 8
}

/// Whether bit `sq` of `b` is set.
pub fn get_bit(b: u64, sq: u8) -> (r: bool)
    requires
        sq < 64,
    ensures
        r == in_set(b, sq as int),
{
    (b >> sq) & 1 == 1
}

/// Adds square `sq` to `b`.
pub fn set_bit(b: u64, sq: u8) -> (r: u64)
    requires
        sq < 64,
    ensures
        r == with_square(b, sq as int),
{
    b | (1u64 << sq)
}

/// Removes square `sq` from `b`.
pub fn unset_bit(b: u64, sq: u8) -> (r: u64)
    requires
        sq < 64,
    ensures
        r == without_square(b, sq as int),
{
    b & !(1u64 << sq)
}

/// Membership after adding a square.
pub proof fn lemma_with_square(b: u64, sq: int, t: int)
    requires
        0 <= sq < 64,
        0 <= t < 64,
    ensures
        in_set(with_square(b, sq), t) <==> (in_set(b, t) || t == sq),
{
    let s = sq as u64;
    let u = t as u64;
    assert(((b | (1u64 << s)) >> u) & 1 == 1 <==> ((b >> u) & 1 == 1 || u == s))
        by (bit_vector)
        requires
            s < 64,
            u < 64,
    ;
}

/// Membership after removing a square.
pub proof fn lemma_without_square(b: u64, sq: int, t: int)
    requires
        0 <= sq < 64,
        0 <= t < 64,
    ensures
        in_set(without_square(b, sq), t) <==> (in_set(b, t) && t != sq),
{
    let s = sq as u64;
    let u = t as u64;
    assert(((b & !(1u64 << s)) >> u) & 1 == 1 <==> ((b >> u) & 1 == 1 && u != s))
        by (bit_vector)
        requires
            s < 64,
            u < 64,
    ;
}

/// Membership in a union; a set with a member is not empty.
pub proof fn lemma_or_nonempty(a: u64, b: u64, t: int)
    requires
        0 <= t < 64,
    ensures
        in_set(a | b, t) <==> (in_set(a, t) || in_set(b, t)),
        in_set(a, t) ==> a != 0,
{
    let u = t as u64;
    assert(((a | b) >> u) & 1 == 1 <==> ((a >> u) & 1 == 1 || (b >> u) & 1 == 1))
        by (bit_vector)
        requires
            u < 64,
    ;
    assert((a >> u) & 1 == 1 ==> a != 0) by (bit_vector)
        requires
            u < 64,
    ;
}

/// Membership in an intersection and in a complement.
pub proof fn lemma_and_not(a: u64, b: u64, t: int)
    requires
        0 <= t < 64,
    ensures
        in_set(a & b, t) <==> (in_set(a, t) && in_set(b, t)),
        in_set(!a, t) == !in_set(a, t),
{
    let u = t as u64;
    assert(((a & b) >> u) & 1 == 1 <==> ((a >> u) & 1 == 1 && (b >> u) & 1 == 1))
        by (bit_vector)
        requires
            u < 64,
    ;
    assert(((!a) >> u) & 1 == 1 <==> !((a >> u) & 1 == 1)) by (bit_vector)
        requires
            u < 64,
    ;
}

/// A square of `mask` is not in `b` when `b` and `mask` are disjoint.
pub proof fn lemma_disjoint(b: u64, mask: u64, t: int)
    requires
        0 <= t < 64,
        b & mask == 0,
        in_set(mask, t),
    ensures
        !in_set(b, t),
{
    let u = t as u64;
    assert((b & mask) == 0 && (mask >> u) & 1 == 1 ==> (b >> u) & 1 != 1) by (bit_vector)
        requires
            u < 64,
    ;
}

} // verus!
