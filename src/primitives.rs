//! Fixed-width chain values: addresses, 32-byte words and the integer types
//! that pool events carry.

use vstd::prelude::*;
use crate::bytes::{be_bytes, be_value, lemma_be_bytes_value, lemma_be_value_bytes,
    lemma_be_value_bound, lemma_pow256_values, push_be, u128_from_be};

verus! {

/// `2^128`.
pub open spec fn two128() -> int {
    u128::MAX as int + 1
}

/// `2^256`.
pub open spec fn two256() -> int {
    two128() * two128()
}

pub proof fn lemma_two256()
    ensures
        two128() == 0x1_0000_0000_0000_0000_0000_0000_0000_0000,
        two256() == 0x1_0000_0000_0000_0000_0000_0000_0000_0000_0000_0000_0000_0000_0000_0000_0000_0000,
{
    let x = two128();
    assert(x == 0x1_0000_0000_0000_0000_0000_0000_0000_0000);
    assert(x * x == 0x1_0000_0000_0000_0000_0000_0000_0000_0000_0000_0000_0000_0000_0000_0000_0000_0000)
        by (nonlinear_arith)
        requires
            x == 0x1_0000_0000_0000_0000_0000_0000_0000_0000,
    ;
}

/// A 20-byte account or contract address, as its top four bytes and its
/// low sixteen bytes.
#[derive(Clone, Copy, Debug, PartialEq, Eq, Structural)]
pub struct Address {
    pub hi: u32,
    pub lo: u128,
}

/// A 32-byte value: a transaction hash, a log topic or an ABI word, as its
/// high and low sixteen bytes.
#[derive(Clone, Copy, Debug, PartialEq, Eq, Structural)]
pub struct Bytes32 {
    pub hi: u128,
    pub lo: u128,
}

impl Address {
    pub open spec fn bytes(self) -> Seq<u8> {
        be_bytes(self.hi as nat, 4) + be_bytes(self.lo as nat, 16)
    }

    /// The address as 20 big-endian bytes.
    pub fn to_bytes(&self) -> (r: Vec<u8>)
        ensures
            r@ == self.bytes(),
            r@.len() == 20,
    {
        let mut v: Vec<u8> = Vec::new();
        push_be(&mut v, self.hi as u128, 4);
        push_be(&mut v, self.lo, 16);
        proof {
            lemma_pow256_values();
            lemma_be_bytes_value(self.hi as nat, 4);
            lemma_be_bytes_value(self.lo as nat, 16);
        }
        v
    }

    /// The address that 20 big-endian bytes spell; `None` for any other length.
    pub fn from_bytes(b: &Vec<u8>) -> (r: Option<Address>)
        ensures
            r is Some <==> b@.len() == 20,
            r matches Some(a) ==> a.bytes() == b@,
    {
        if b.len() != 20 {
            return None;
        }
        let hi = u128_from_be(b, 0, 4);
        let lo = u128_from_be(b, 4, 20);
        proof {
            lemma_pow256_values();
            let h = b@.subrange(0, 4);
            let l = b@.subrange(4, 20);
            lemma_be_value_bound(h);
            lemma_be_value_bytes(h);
            lemma_be_value_bytes(l);
            assert(b@ == h + l);
        }
        Some(Address { hi: hi as u32, lo })
    }
}

/// Lemma: converting an address to bytes and back gives the address.
pub proof fn lemma_address_bytes_round_trip(a: Address)
    ensures
        a.bytes().len() == 20,
        a.bytes().subrange(0, 4) == be_bytes(a.hi as nat, 4),
        a.bytes().subrange(4, 20) == be_bytes(a.lo as nat, 16),
        be_value(be_bytes(a.hi as nat, 4)) == a.hi,
        be_value(be_bytes(a.lo as nat, 16)) == a.lo,
{
    lemma_pow256_values();
    lemma_be_bytes_value(a.hi as nat, 4);
    lemma_be_bytes_value(a.lo as nat, 16);
    assert(a.bytes().subrange(0, 4) =~= be_bytes(a.hi as nat, 4));
    assert(a.bytes().subrange(4, 20) =~= be_bytes(a.lo as nat, 16));
}

impl Bytes32 {
    pub open spec fn bytes(self) -> Seq<u8> {
        be_bytes(self.hi as nat, 16) + be_bytes(self.lo as nat, 16)
    }

    /// The value as 32 big-endian bytes.
    pub fn to_bytes(&self) -> (r: Vec<u8>)
        ensures
            r@ == self.bytes(),
            r@.len() == 32,
    {
        let mut v: Vec<u8> = Vec::new();
        push_be(&mut v, self.hi, 16);
        push_be(&mut v, self.lo, 16);
        proof {
            lemma_pow256_values();
            lemma_be_bytes_value(self.hi as nat, 16);
            lemma_be_bytes_value(self.lo as nat, 16);
        }
        v
    }

    /// The value that 32 big-endian bytes spell; `None` for any other length.
    pub fn from_bytes(b: &Vec<u8>) -> (r: Option<Bytes32>)
        ensures
            r is Some <==> b@.len() == 32,
            r matches Some(w) ==> w.bytes() == b@,
    {
        if b.len() != 32 {
            return None;
        }
        let hi = u128_from_be(b, 0, 16);
        let lo = u128_from_be(b, 16, 32);
        proof {
            let h = b@.subrange(0, 16);
            let l = b@.subrange(16, 32);
            lemma_be_value_bytes(h);
            lemma_be_value_bytes(l);
            assert(b@ == h + l);
        }
        Some(Bytes32 { hi, lo })
    }

    /// The value that a slice of 32 bytes spells, read in place.
    pub fn read(b: &Vec<u8>, start: usize) -> (r: Bytes32)
        requires
            start + 32 <= b.len(),
        ensures
            r.hi == be_value(b@.subrange(start as int, start + 16)),
            r.lo == be_value(b@.subrange(start + 16, start + 32)),
    {
        let hi = u128_from_be(b, start, start + 16);
        let lo = u128_from_be(b, start + 16, start + 32);
        Bytes32 { hi, lo }
    }
}

/// Lemma: converting a word to bytes and back gives the word.
pub proof fn lemma_bytes32_round_trip(w: Bytes32)
    ensures
        w.bytes().len() == 32,
        w.bytes().subrange(0, 16) == be_bytes(w.hi as nat, 16),
        w.bytes().subrange(16, 32) == be_bytes(w.lo as nat, 16),
        be_value(be_bytes(w.hi as nat, 16)) == w.hi,
        be_value(be_bytes(w.lo as nat, 16)) == w.lo,
{
    lemma_pow256_values();
    lemma_be_bytes_value(w.hi as nat, 16);
    lemma_be_bytes_value(w.lo as nat, 16);
    assert(w.bytes().subrange(0, 16) =~= be_bytes(w.hi as nat, 16));
    assert(w.bytes().subrange(16, 32) =~= be_bytes(w.lo as nat, 16));
}

/// A signed 24-bit integer (a tick or a tick spacing).
#[derive(Clone, Copy, Debug, PartialEq, Eq, Structural)]
pub struct Int24 {
    pub value: i32,
}

impl Int24 {
    pub open spec fn fits(v: int) -> bool {
        -0x80_0000 <= v < 0x80_0000
    }

    pub open spec fn wf(self) -> bool {
        Int24::fits(self.value as int)
    }

    /// The 24-bit integer `v`; `None` where `v` lies outside the 24-bit range.
    pub fn new(v: i32) -> (r: Option<Int24>)
        ensures
            r is Some <==> Int24::fits(v as int),
            r matches Some(x) ==> x.value == v && x.wf(),
    {
        if -0x80_0000 <= v && v < 0x80_0000 {
            Some(Int24 { value: v })
        } else {
            None
        }
    }
}

/// An unsigned 24-bit integer (a fee).
#[derive(Clone, Copy, Debug, PartialEq, Eq, Structural)]
pub struct Uint24 {
    pub value: u32,
}

impl Uint24 {
    pub open spec fn fits(v: int) -> bool {
        0 <= v < 0x100_0000
    }

    pub open spec fn wf(self) -> bool {
        Uint24::fits(self.value as int)
    }

    /// The 24-bit integer `v`; `None` where `v` does not fit in 24 bits.
    pub fn new(v: u32) -> (r: Option<Uint24>)
        ensures
            r is Some <==> Uint24::fits(v as int),
            r matches Some(x) ==> x.value == v && x.wf(),
    {
        if v < 0x100_0000 {
            Some(Uint24 { value: v })
        } else {
            None
        }
    }
}

/// An unsigned 160-bit integer (a square-root price), as its top 32 bits and
/// its low 128 bits.
#[derive(Clone, Copy, Debug, PartialEq, Eq, Structural)]
pub struct Uint160 {
    pub hi: u32,
    pub lo: u128,
}

impl Uint160 {
    pub open spec fn value(self) -> int {
        self.hi as int * two128() + self.lo as int
    }

    pub open spec fn fits(v: int) -> bool {
        0 <= v < 0x1_0000_0000 * two128()
    }

    pub open spec fn from_value(v: int) -> Uint160 {
        Uint160 { hi: (v / two128()) as u32, lo: (v % two128()) as u128 }
    }

    /// The 160-bit integer `v`.
    pub fn from_u128(v: u128) -> (r: Uint160)
        ensures
            r.value() == v,
    {
        Uint160 { hi: 0, lo: v }
    }
}

/// An unsigned 256-bit integer, as its high and low 128 bits.
#[derive(Clone, Copy, Debug, PartialEq, Eq, Structural)]
pub struct Uint256 {
    pub hi: u128,
    pub lo: u128,
}

impl Uint256 {
    pub open spec fn value(self) -> int {
        self.hi as int * two128() + self.lo as int
    }

    pub open spec fn fits(v: int) -> bool {
        0 <= v < two256()
    }

    pub open spec fn from_value(v: int) -> Uint256 {
        Uint256 { hi: (v / two128()) as u128, lo: (v % two128()) as u128 }
    }

    /// The 256-bit integer `v`.
    pub fn from_u128(v: u128) -> (r: Uint256)
        ensures
            r == (Uint256 { hi: 0, lo: v }),
            r.value() == v,
    {
        Uint256 { hi: 0, lo: v }
    }
}

/// A signed 256-bit integer in two's complement, as its high and low 128 bits.
#[derive(Clone, Copy, Debug, PartialEq, Eq, Structural)]
pub struct Int256 {
    pub hi: u128,
    pub lo: u128,
}

impl Int256 {
    pub open spec fn unsigned(self) -> int {
        self.hi as int * two128() + self.lo as int
    }

    pub open spec fn value(self) -> int {
        if self.hi >= 0x8000_0000_0000_0000_0000_0000_0000_0000 {
            self.unsigned() - two256()
        } else {
            self.unsigned()
        }
    }

    pub open spec fn fits(v: int) -> bool {
        -(two256() / 2) <= v < two256() / 2
    }

    pub open spec fn from_value(v: int) -> Int256 {
        let u = if v < 0 {
            v + two256()
        } else {
            v
        };
        Int256 { hi: (u / two128()) as u128, lo: (u % two128()) as u128 }
    }

    /// The 256-bit integer `v`.
    pub fn from_i128(v: i128) -> (r: Int256)
        ensures
            r.value() == v,
    {
        proof {
            lemma_two256();
        }
        if v < 0 {
            let m: u128 = if v == i128::MIN {
                0x8000_0000_0000_0000_0000_0000_0000_0000
            } else {
                (-v) as u128
            };
            let n = negate_parts(0, m);
            Int256 { hi: n.0, lo: n.1 }
        } else {
            Int256 { hi: 0, lo: v as u128 }
        }
    }
}

/// Two's complement negation of a nonzero 256-bit value given in halves.
pub fn negate_parts(hi: u128, lo: u128) -> (r: (u128, u128))
    requires
        hi > 0 || lo > 0,
    ensures
        r.0 as int * two128() + r.1 as int == two256() - (hi as int * two128() + lo as int),
{
    proof {
        lemma_two256();
    }
    if lo == 0 {
        ((u128::MAX - hi) + 1, 0)
    } else {
        (u128::MAX - hi, (u128::MAX - lo) + 1)
    }
}

} // verus!
