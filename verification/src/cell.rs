//! The cells of the tape: unsigned numbers whose arithmetic wraps around.

use vstd::prelude::*;

verus! {

/// A kind of tape cell.
///
/// A cell stands for a number from zero up to, but not including, its modulus; `value` and
/// `from_value` lead from one to the other and back. Adding one to the greatest number
/// gives zero and taking one from zero gives the greatest number, so that no arithmetic on
/// cells can fail.
pub trait Cell: Copy + Sized {
    /// How many numbers a cell can hold.
    spec fn modulus() -> int;

    /// The number that the cell holds.
    spec fn value(self) -> int;

    /// The cell that holds the number `v`.
    spec fn from_value(v: int) -> Self;

    /// Cells and the numbers below the modulus correspond one for one.
    proof fn lemma_cell_numbers(c: Self, v: int)
        ensures
            Self::modulus() >= 1,
            0 <= c.value() < Self::modulus(),
            Self::from_value(c.value()) == c,
            0 <= v < Self::modulus() ==> Self::from_value(v).value() == v,
    ;

    /// The cell that a fresh tape is filled with.
    fn zero() -> (r: Self)
        ensures
            r == Self::from_value(0),
    ;

    /// Whether the cell holds zero.
    fn is_zero(self) -> (r: bool)
        ensures
            r == (self.value() == 0),
    ;

    /// The cell that holds one more, or zero where this one holds the greatest number.
    fn wrapping_increment(self) -> (r: Self)
        ensures
            r == Self::from_value((self.value() + 1) % Self::modulus()),
    ;

    /// The cell that holds one less, or the greatest number where this one holds zero.
    fn wrapping_decrement(self) -> (r: Self)
        ensures
            r == Self::from_value((self.value() - 1) % Self::modulus()),
    ;

    /// The cell that stores a byte read from the input.
    fn from_byte(b: u8) -> (r: Self)
        ensures
            r == Self::from_value((b as int) % Self::modulus()),
    ;

    /// The byte that is written when the cell is put out: its number, reduced to eight bits.
    fn to_byte(self) -> (r: u8)
        ensures
            r == self.value() % 256,
    ;
}

impl Cell for u8 {
    open spec fn modulus() -> int {
        0x100
    }

    open spec fn value(self) -> int {
        self as int
    }

    open spec fn from_value(v: int) -> Self {
        v as u8
    }

    proof fn lemma_cell_numbers(c: Self, v: int) {
    }

    fn zero() -> (r: Self) {
        0
    }

    fn is_zero(self) -> (r: bool) {
        self == 0
    }

    fn wrapping_increment(self) -> (r: Self) {
        self.wrapping_add(1)
    }

    fn wrapping_decrement(self) -> (r: Self) {
        self.wrapping_sub(1)
    }

    fn from_byte(b: u8) -> (r: Self) {
        b
    }

    fn to_byte(self) -> (r: u8) {
        self
    }
}

impl Cell for u16 {
    open spec fn modulus() -> int {
        0x1_0000
    }

    open spec fn value(self) -> int {
        self as int
    }

    open spec fn from_value(v: int) -> Self {
        v as u16
    }

    proof fn lemma_cell_numbers(c: Self, v: int) {
    }

    fn zero() -> (r: Self) {
        0
    }

    fn is_zero(self) -> (r: bool) {
        self == 0
    }

    fn wrapping_increment(self) -> (r: Self) {
        self.wrapping_add(1)
    }

    fn wrapping_decrement(self) -> (r: Self) {
        self.wrapping_sub(1)
    }

    fn from_byte(b: u8) -> (r: Self) {
        b as u16
    }

    fn to_byte(self) -> (r: u8) {
        (self % 256) as u8
    }
}

impl Cell for u32 {
    open spec fn modulus() -> int {
        0x1_0000_0000
    }

    open spec fn value(self) -> int {
        self as int
    }

    open spec fn from_value(v: int) -> Self {
        v as u32
    }

    proof fn lemma_cell_numbers(c: Self, v: int) {
    }

    fn zero() -> (r: Self) {
        0
    }

    fn is_zero(self) -> (r: bool) {
        self == 0
    }

    fn wrapping_increment(self) -> (r: Self) {
        self.wrapping_add(1)
    }

    fn wrapping_decrement(self) -> (r: Self) {
        self.wrapping_sub(1)
    }

    fn from_byte(b: u8) -> (r: Self) {
        b as u32
    }

    fn to_byte(self) -> (r: u8) {
        (self % 256) as u8
    }
}

} // verus!
