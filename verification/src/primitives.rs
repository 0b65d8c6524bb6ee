//! Fixed-width chain primitives: 256-bit unsigned integers, 20-byte addresses
//! and 32-byte hashes, each with the mathematical value it stands for.

use vstd::prelude::*;

verus! {

/// Two to the power 64: the weight of the second-lowest word of a [`U256`].
pub open spec fn word_base() -> nat {
    0x1_0000_0000_0000_0000
}

/// An unsigned 256-bit integer held as four 64-bit words, `w0` the least
/// significant.
#[derive(Clone, Copy, Debug, PartialEq, Eq, Structural)]
pub struct U256 {
    pub w0: u64,
    pub w1: u64,
    pub w2: u64,
    pub w3: u64,
}

impl View for U256 {
    type V = nat;

    /// The number the four words spell.
    open spec fn view(&self) -> nat {
        self.w0 as nat + word_base() * (self.w1 as nat + word_base() * (self.w2 as nat
            + word_base() * (self.w3 as nat)))
    }
}

impl U256 {
    /// The number zero.
    pub fn zero() -> (r: U256)
        ensures
            r@ == 0,
    {
        U256 { w0: 0, w1: 0, w2: 0, w3: 0 }
    }

    /// Widens a 64-bit number.
    pub fn from_u64(v: u64) -> (r: U256)
        ensures
            r@ == v as nat,
    {
        U256 { w0: v, w1: 0, w2: 0, w3: 0 }
    }

    /// Strict numeric order.
    pub fn lt(&self, other: &U256) -> (r: bool)
        ensures
            r == (self@ < other@),
    {
        proof {
            lemma_order_by_words(*self, *other);
        }
        if self.w3 != other.w3 {
            self.w3 < other.w3
        } else if self.w2 != other.w2 {
            self.w2 < other.w2
        } else if self.w1 != other.w1 {
            self.w1 < other.w1
        } else {
            self.w0 < other.w0
        }
    }

    /// Numeric order, equal values included.
    pub fn le(&self, other: &U256) -> (r: bool)
        ensures
            r == (self@ <= other@),
    {
        !other.lt(self)
    }
}

/// The value of a [`U256`] orders as its words do, compared from the most
/// significant down; equal values have equal words.
pub proof fn lemma_order_by_words(a: U256, b: U256)
    ensures
        a@ < b@ <==> (a.w3 < b.w3 || (a.w3 == b.w3 && (a.w2 < b.w2 || (a.w2 == b.w2 && (a.w1 < b.w1
            || (a.w1 == b.w1 && a.w0 < b.w0)))))),
        a@ == b@ <==> a == b,
        a@ < word_base() * word_base() * word_base() * word_base(),
{
    let base = word_base() as int;
    let a1 = a.w1 as int + base * (a.w2 as int + base * (a.w3 as int));
    let b1 = b.w1 as int + base * (b.w2 as int + base * (b.w3 as int));
    let a2 = a.w2 as int + base * (a.w3 as int);
    let b2 = b.w2 as int + base * (b.w3 as int);
    lemma_digit_order(a.w3 as int, 0, b.w3 as int, 0, base);
    lemma_digit_order(a.w2 as int, a.w3 as int, b.w2 as int, b.w3 as int, base);
    lemma_digit_order(a.w1 as int, a2, b.w1 as int, b2, base);
    lemma_digit_order(a.w0 as int, a1, b.w0 as int, b1, base);
    assert(a2 < base * base) by (nonlinear_arith)
        requires
            a2 == a.w2 as int + base * (a.w3 as int),
            0 <= a.w2 as int,
            (a.w2 as int) < base,
            0 <= a.w3 as int,
            (a.w3 as int) < base,
    ;
    assert(a1 < base * base * base) by (nonlinear_arith)
        requires
            a1 == a.w1 as int + base * a2,
            0 <= a.w1 as int,
            (a.w1 as int) < base,
            0 <= a2,
            a2 < base * base,
    ;
    assert(a@ < base * base * base * base) by (nonlinear_arith)
        requires
            a@ == a.w0 as int + base * a1,
            0 <= a.w0 as int,
            (a.w0 as int) < base,
            0 <= a1,
            a1 < base * base * base,
    ;
}

/// A digit below `base` in front of a higher part: the pair orders by the higher
/// part first, then by the digit.
proof fn lemma_digit_order(lo_a: int, hi_a: int, lo_b: int, hi_b: int, base: int)
    requires
        0 <= lo_a < base,
        0 <= lo_b < base,
    ensures
        lo_a + base * hi_a < lo_b + base * hi_b <==> (hi_a < hi_b || (hi_a == hi_b && lo_a < lo_b)),
        lo_a + base * hi_a == lo_b + base * hi_b <==> (hi_a == hi_b && lo_a == lo_b),
{
    if hi_a < hi_b {
        assert(base * hi_a + base <= base * hi_b) by (nonlinear_arith)
            requires
                hi_a + 1 <= hi_b,
                base > 0,
        ;
    } else if hi_b < hi_a {
        assert(base * hi_b + base <= base * hi_a) by (nonlinear_arith)
            requires
                hi_b + 1 <= hi_a,
                base > 0,
        ;
    }
}

/// A 20-byte account or contract address.
#[derive(Clone, Copy, Debug, PartialEq, Eq)]
pub struct Address {
    pub bytes: [u8; 20],
}

impl View for Address {
    type V = Seq<u8>;

    /// The twenty bytes, first byte first.
    open spec fn view(&self) -> Seq<u8> {
        self.bytes@
    }
}

impl Address {
    /// Byte-for-byte comparison of two addresses.
    pub fn same_as(&self, other: &Address) -> (r: bool)
        ensures
            r == (self@ == other@),
            r == (*self == *other),
    {
        let mut i: usize = 0;
        while i < 20
            invariant
                i <= 20,
                forall|k: int| 0 <= k < i ==> self.bytes@[k] == other.bytes@[k],
            decreases 20 - i,
        {
            if self.bytes[i] != other.bytes[i] {
                return false;
            }
            i = i + 1;
        }
        assert(self.bytes == other.bytes);
        true
    }
}

/// A 32-byte hash: the identifier of a transaction or of a block.
#[derive(Clone, Copy, Debug, PartialEq, Eq)]
pub struct Hash256 {
    pub bytes: [u8; 32],
}

impl View for Hash256 {
    type V = Seq<u8>;

    /// The thirty-two bytes, first byte first.
    open spec fn view(&self) -> Seq<u8> {
        self.bytes@
    }
}

} // verus!
