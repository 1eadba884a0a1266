//! Attack tables: the squares a piece standing on a square could move to or capture
//! on, ignoring pins and checks. Sliding pieces stop at the first occupied square.
use vstd::prelude::*;
use crate::bitboard::{in_set, file_of, row_of, get_bit};
use crate::types::Color;

verus! {

/// How a piece moves when it attacks.
#[derive(Clone, Copy, Debug, PartialEq, Eq, Structural)]
pub enum Reach {
    WhitePawn,
    BlackPawn,
    Knight,
    Bishop,
    Rook,
    Queen,
    King,
}

pub open spec fn abs(x: int) -> int {
    if x < 0 {
        -x
    } else {
        x
    }
}

/// The change of square index for one step from `s` toward `t`, along a rank, a
/// file or a diagonal.
pub open spec fn step_toward(s: int, t: int) -> int {
    (if row_of(t) > row_of(s) {
        8int
    } else if row_of(t) < row_of(s) {
        -8int
    } else {
        0int
    }) + (if file_of(t) > file_of(s) {
        1int
    } else if file_of(t) < file_of(s) {
        -1int
    } else {
        0int
    })
}

/// Walking from `cur` by `step`, every square met before `t` is empty in `occ`
/// (the walk gives up, clear, after `fuel` steps).
pub open spec fn path_clear(cur: int, t: int, step: int, occ: u64, fuel: nat) -> bool
    decreases fuel,
{
    if fuel == 0 {
        true
    } else if cur + step == t {
        true
    } else {
        !in_set(occ, cur + step) && path_clear(cur + step, t, step, occ, (fuel - 1) as nat)
    }
}

/// Every square strictly between `s` and `t` on their common line is empty in `occ`.
pub open spec fn clear_between(s: int, t: int, occ: u64) -> bool {
    path_clear(s, t, step_toward(s, t), occ, 7)
}

/// Whether a piece moving as `r` from `s` attacks `t`, with the squares of `occ` occupied.
pub open spec fn reaches(r: Reach, s: int, t: int, occ: u64) -> bool {
    let df = file_of(t) - file_of(s);
    let dr = row_of(t) - row_of(s);
    match r {
        Reach::WhitePawn => dr == -1 && abs(df) == 1,
        Reach::BlackPawn => dr == 1 && abs(df) == 1,
        Reach::Knight => (abs(df) == 1 && abs(dr) == 2) || (abs(df) == 2 && abs(dr) == 1),
        Reach::King => abs(df) <= 1 && abs(dr) <= 1 && !(df == 0 && dr == 0),
        Reach::Rook => ((df == 0) != (dr == 0)) && clear_between(s, t, occ),
        Reach::Bishop => df != 0 && abs(df) == abs(dr) && clear_between(s, t, occ),
        Reach::Queen => (((df == 0) != (dr == 0)) || (df != 0 && abs(df) == abs(dr)))
            && clear_between(s, t, occ),
    }
}

/// The set of squares below `n` that a piece moving as `r` from `s` attacks.
pub open spec fn attack_bits(r: Reach, s: int, occ: u64, n: nat) -> u64
    decreases n,
{
    if n == 0 {
        0
    } else if reaches(r, s, n - 1, occ) {
        attack_bits(r, s, occ, (n - 1) as nat) | (1u64 << ((n - 1) as u64))
    } else {
        attack_bits(r, s, occ, (n - 1) as nat)
    }
}

/// The attack set of a piece moving as `r` from `s`.
pub open spec fn attacks(r: Reach, s: int, occ: u64) -> u64 {
    attack_bits(r, s, occ, 64)
}

/// The way a pawn of color `c` attacks.
pub open spec fn pawn_reach(c: Color) -> Reach {
    match c {
        Color::White => Reach::WhitePawn,
        Color::Black => Reach::BlackPawn,
    }
}

fn path_is_clear(s: u8, t: u8, occ: u64) -> (r: bool)
    requires
        s < 64,
        t < 64,
    ensures
        r == clear_between(s as int, t as int, occ),
{
    let fs = (s % 8) as i32;
    let rs = (s / 8) as i32;
    let ft = (t % 8) as i32;
    let rt = (t / 8) as i32;
    let step: i32 = (if rt > rs {
        8i32
    } else if rt < rs {
        -8i32
    } else {
        0i32
    }) + (if ft > fs {
        1i32
    } else if ft < fs {
        -1i32
    } else {
        0i32
    });
    assert(step == step_toward(s as int, t as int));
    let mut cur: i32 = s as i32;
    let mut fuel: u32 = 7;
    while fuel > 0
        invariant
            fuel <= 7,
            -9 <= step <= 9,
            s as int - 9 * (7 - fuel) <= cur <= s as int + 9 * (7 - fuel),
            step == step_toward(s as int, t as int),
            clear_between(s as int, t as int, occ) == path_clear(
                cur as int,
                t as int,
                step as int,
                occ,
                fuel as nat,
            ),
        decreases fuel,
    {
        let next = cur + step;
        if next == t as i32 {
            return true;
        }
        if 0 <= next && next < 64 && get_bit(occ, next as u8) {
            return false;
        }
        cur = next;
        fuel = fuel - 1;
    }
    true
}

/// Whether a piece moving as `r` from `s` attacks `t`.
pub fn reaches_exec(r: Reach, s: u8, t: u8, occ: u64) -> (b: bool)
    requires
        s < 64,
        t < 64,
    ensures
        b == reaches(r, s as int, t as int, occ),
{
    let df: i32 = (t % 8) as i32 - (s % 8) as i32;
    let dr: i32 = (t / 8) as i32 - (s / 8) as i32;
    let adf: i32 = if df < 0 {
        -df
    } else {
        df
    };
    let adr: i32 = if dr < 0 {
        -dr
    } else {
        dr
    };
    match r {
        Reach::WhitePawn => dr == -1 && adf == 1,
        Reach::BlackPawn => dr == 1 && adf == 1,
        Reach::Knight => (adf == 1 && adr == 2) || (adf == 2 && adr == 1),
        Reach::King => adf <= 1 && adr <= 1 && !(df == 0 && dr == 0),
        Reach::Rook => ((df == 0) != (dr == 0)) && path_is_clear(s, t, occ),
        Reach::Bishop => df != 0 && adf == adr && path_is_clear(s, t, occ),
        Reach::Queen => (((df == 0) != (dr == 0)) || (df != 0 && adf == adr)) && path_is_clear(
            s,
            t,
            occ,
        ),
    }
}

/// The attack set of a piece moving as `r` from `s`, with the squares of `occ`
/// occupied (only sliding pieces look at `occ`).
pub fn attack_table(r: Reach, s: u8, occ: u64) -> (b: u64)
    requires
        s < 64,
    ensures
        b == attacks(r, s as int, occ),
        forall|t: int| 0 <= t < 64 ==> (in_set(b, t) <==> reaches(r, s as int, t, occ)),
{
    let mut b: u64 = 0;
    let mut t: u8 = 0;
    while t < 64
        invariant
            t <= 64,
            s < 64,
            b == attack_bits(r, s as int, occ, t as nat),
        decreases 64 - t,
    {
        if reaches_exec(r, s, t, occ) {
            b = b | (1u64 << t);
        }
        t = t + 1;
    }
    proof {
        assert forall|t: int| 0 <= t < 64 implies (in_set(b, t) <==> reaches(r, s as int, t, occ)) by {
            lemma_attacks(r, s as int, occ, t, 64);
        }
    }
    b
}

/// Membership in an attack set is the attack relation.
pub proof fn lemma_attacks(r: Reach, s: int, occ: u64, t: int, n: nat)
    requires
        0 <= t < 64,
        n <= 64,
    ensures
        in_set(attack_bits(r, s, occ, n), t) <==> (t < n && reaches(r, s, t, occ)),
    decreases n,
{
    if n > 0 {
        lemma_attacks(r, s, occ, t, (n - 1) as nat);
        let prev = attack_bits(r, s, occ, (n - 1) as nat);
        if reaches(r, s, n - 1, occ) {
            crate::bitboard::lemma_with_square(prev, n - 1, t);
        }
    } else {
        let u = t as u64;
        assert((0u64 >> u) & 1 == 0) by (bit_vector);
    }
}

} // verus!
