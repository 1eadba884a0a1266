//! Square names. Square 0 is a8, square 7 is h8, square 56 is a1, square 63 is h1.
#![allow(non_upper_case_globals)]
use vstd::prelude::*;

verus! {

pub const a8: u8 = 0;

pub const b8: u8 = 1;

pub const c8: u8 = 2;

pub const d8: u8 = 3;

pub const e8: u8 = 4;

pub const f8: u8 = 5;

pub const g8: u8 = 6;

pub const h8: u8 = 7;

pub const a7: u8 = 8;

pub const b7: u8 = 9;

pub const c7: u8 = 10;

pub const d7: u8 = 11;

pub const e7: u8 = 12;

pub const f7: u8 = 13;

pub const g7: u8 = 14;

pub const h7: u8 = 15;

pub const a6: u8 = 16;

pub const b6: u8 = 17;

pub const c6: u8 = 18;

pub const d6: u8 = 19;

pub const e6: u8 = 20;

pub const f6: u8 = 21;

pub const g6: u8 = 22;

pub const h6: u8 = 23;

pub const a5: u8 = 24;

pub const b5: u8 = 25;

pub const c5: u8 = 26;

pub const d5: u8 = 27;

pub const e5: u8 = 28;

pub const f5: u8 = 29;

pub const g5: u8 = 30;

pub const h5: u8 = 31;

pub const a4: u8 = 32;

pub const b4: u8 = 33;

pub const c4: u8 = 34;

pub const d4: u8 = 35;

pub const e4: u8 = 36;

pub const f4: u8 = 37;

pub const g4: u8 = 38;

pub const h4: u8 = 39;

pub const a3: u8 = 40;

pub const b3: u8 = 41;

pub const c3: u8 = 42;

pub const d3: u8 = 43;

pub const e3: u8 = 44;

pub const f3: u8 = 45;

pub const g3: u8 = 46;

pub const h3: u8 = 47;

pub const a2: u8 = 48;

pub const b2: u8 = 49;

pub const c2: u8 = 50;

pub const d2: u8 = 51;

pub const e2: u8 = 52;

pub const f2: u8 = 53;

pub const g2: u8 = 54;

pub const h2: u8 = 55;

pub const a1: u8 = 56;

pub const b1: u8 = 57;

pub const c1: u8 = 58;

pub const d1: u8 = 59;

pub const e1: u8 = 60;

pub const f1: u8 = 61;

pub const g1: u8 = 62;

pub const h1: u8 = 63;

/// The letter of the file of square `sq`.
pub fn file_letter(sq: u8) -> (c: char)
    requires
        sq < 64,
    ensures
        c == seq!['a', 'b', 'c', 'd', 'e', 'f', 'g', 'h'][sq as int % 8],
{
    let f = sq % 8;
    if f == 0 {
        'a'
    } else if f == 1 {
        'b'
    } else if f == 2 {
        'c'
    } else if f == 3 {
        'd'
    } else if f == 4 {
        'e'
    } else if f == 5 {
        'f'
    } else if f == 6 {
        'g'
    } else {
        'h'
    }
}

/// The digit of the rank of square `sq`.
pub fn rank_digit(sq: u8) -> (c: char)
    requires
        sq < 64,
    ensures
        c == seq!['8', '7', '6', '5', '4', '3', '2', '1'][sq as int / 8],
{
    let r = sq / 8;
    if r == 0 {
        '8'
    } else if r == 1 {
        '7'
    } else if r == 2 {
        '6'
    } else if r == 3 {
        '5'
    } else if r == 4 {
        '4'
    } else if r == 5 {
        '3'
    } else if r == 6 {
        '2'
    } else {
        '1'
    }
}

} // verus!
