//! Arbitrary-precision decimal storage values and the checked conversions
//! between them and the fixed-width integer types.

use vstd::prelude::*;
use crate::bytes::{be_bytes, be_value, lemma_be_bytes_value, lemma_be_value_append,
    lemma_be_value_bound, lemma_be_value_leading_nonzero, lemma_be_value_skip_zeros,
    lemma_pow256_monotone, lemma_pow256_values, push_be, u128_from_be};
use crate::primitives::{lemma_two256, negate_parts, two128, two256, Int24, Int256, Uint160,
    Uint24, Uint256};

verus! {

/// Why a value could not be converted to the requested type.
#[derive(Clone, Copy, Debug, PartialEq, Eq, Structural)]
pub enum ConversionError {
    /// The value lies outside the destination type's range.
    OutOfRange,
    /// A byte string does not have the destination type's length.
    InvalidLength,
}

/// An integer as a storage column of arbitrary precision holds it: a sign and
/// a big-endian magnitude of any length.
#[derive(Clone, Debug)]
pub struct Numeric {
    pub negative: bool,
    pub magnitude: Vec<u8>,
}

/// The checked reading of a stored integer as `u128`.
pub open spec fn decode_u128(v: int) -> Result<u128, ConversionError> {
    if 0 <= v < two128() {
        Ok(v as u128)
    } else {
        Err(ConversionError::OutOfRange)
    }
}

/// The checked reading of a stored integer as a signed 24-bit integer.
pub open spec fn decode_int24(v: int) -> Result<Int24, ConversionError> {
    if Int24::fits(v) {
        Ok(Int24 { value: v as i32 })
    } else {
        Err(ConversionError::OutOfRange)
    }
}

/// The checked reading of a stored integer as an unsigned 24-bit integer.
pub open spec fn decode_uint24(v: int) -> Result<Uint24, ConversionError> {
    if Uint24::fits(v) {
        Ok(Uint24 { value: v as u32 })
    } else {
        Err(ConversionError::OutOfRange)
    }
}

/// The checked reading of a stored integer as an unsigned 160-bit integer.
pub open spec fn decode_uint160(v: int) -> Result<Uint160, ConversionError> {
    if Uint160::fits(v) {
        Ok(Uint160::from_value(v))
    } else {
        Err(ConversionError::OutOfRange)
    }
}

/// The checked reading of a stored integer as an unsigned 256-bit integer.
pub open spec fn decode_uint256(v: int) -> Result<Uint256, ConversionError> {
    if Uint256::fits(v) {
        Ok(Uint256::from_value(v))
    } else {
        Err(ConversionError::OutOfRange)
    }
}

/// The checked reading of a stored integer as a signed 256-bit integer.
pub open spec fn decode_int256(v: int) -> Result<Int256, ConversionError> {
    if Int256::fits(v) {
        Ok(Int256::from_value(v))
    } else {
        Err(ConversionError::OutOfRange)
    }
}

proof fn lemma_split(h: int, l: int)
    requires
        h >= 0,
        0 <= l < two128(),
    ensures
        (h * two128() + l) / two128() == h,
        (h * two128() + l) % two128() == l,
{
    let c = two128();
    assert((h * c + l) / c == h && (h * c + l) % c == l) by (nonlinear_arith)
        requires
            h >= 0,
            0 <= l < c,
    ;
}

impl Numeric {
    pub open spec fn value(&self) -> int {
        if self.negative {
            -(be_value(self.magnitude@) as int)
        } else {
            be_value(self.magnitude@) as int
        }
    }

    /// The stored form of `±(hi * 2^128 + lo)`.
    fn from_parts(negative: bool, hi: u128, lo: u128) -> (r: Numeric)
        ensures
            r.negative == negative,
            be_value(r.magnitude@) == hi as int * two128() + lo as int,
    {
        let mut magnitude: Vec<u8> = Vec::new();
        push_be(&mut magnitude, hi, 16);
        push_be(&mut magnitude, lo, 16);
        proof {
            lemma_pow256_values();
            lemma_two256();
            lemma_be_bytes_value(hi as nat, 16);
            lemma_be_bytes_value(lo as nat, 16);
            lemma_be_value_append(be_bytes(hi as nat, 16), be_bytes(lo as nat, 16));
            assert(magnitude@ == be_bytes(hi as nat, 16) + be_bytes(lo as nat, 16));
        }
        Numeric { negative, magnitude }
    }

    /// The stored form of `v`.
    pub fn from_i64(v: i64) -> (r: Numeric)
        ensures
            r.value() == v,
    {
        if v < 0 {
            let m: u128 = (0 - (v as i128)) as u128;
            Numeric::from_parts(true, 0, m)
        } else {
            Numeric::from_parts(false, 0, v as u128)
        }
    }

    /// The magnitude as two 128-bit halves, where it is below `2^256`.
    fn magnitude_u256(&self) -> (r: Option<(u128, u128)>)
        ensures
            r is Some <==> be_value(self.magnitude@) < two256(),
            r matches Some(p) ==> p.0 as int * two128() + p.1 as int == be_value(self.magnitude@),
    {
        let n = self.magnitude.len();
        let mut k: usize = 0;
        while k < n && self.magnitude[k] == 0
            invariant
                k <= n == self.magnitude@.len(),
                forall|i: int| 0 <= i < k ==> self.magnitude@[i] == 0,
            decreases n - k,
        {
            k = k + 1;
        }
        proof {
            lemma_pow256_values();
            lemma_two256();
            lemma_be_value_skip_zeros(self.magnitude@, k as int);
        }
        let ghost rest = self.magnitude@.subrange(k as int, n as int);
        if n - k > 32 {
            proof {
                lemma_be_value_leading_nonzero(rest);
                lemma_pow256_monotone(32, (rest.len() - 1) as nat);
            }
            return None;
        }
        proof {
            lemma_be_value_bound(rest);
            lemma_pow256_monotone(rest.len(), 32);
        }
        if n - k <= 16 {
            let lo = u128_from_be(&self.magnitude, k, n);
            Some((0, lo))
        } else {
            let hi = u128_from_be(&self.magnitude, k, n - 16);
            let lo = u128_from_be(&self.magnitude, n - 16, n);
            proof {
                let a = self.magnitude@.subrange(k as int, n - 16);
                let b = self.magnitude@.subrange(n - 16, n as int);
                assert(rest == a + b);
                lemma_be_value_append(a, b);
            }
            Some((hi, lo))
        }
    }

    /// Reads the stored integer as `u128`, failing where it does not fit.
    pub fn to_u128(&self) -> (r: Result<u128, ConversionError>)
        ensures
            r == decode_u128(self.value()),
    {
        proof {
            lemma_two256();
        }
        match self.magnitude_u256() {
            None => Err(ConversionError::OutOfRange),
            Some((hi, lo)) => {
                if hi == 0 && (!self.negative || lo == 0) {
                    Ok(lo)
                } else {
                    Err(ConversionError::OutOfRange)
                }
            },
        }
    }

    /// Reads the stored integer as a signed 24-bit integer, failing where it
    /// does not fit.
    pub fn to_int24(&self) -> (r: Result<Int24, ConversionError>)
        ensures
            r == decode_int24(self.value()),
    {
        proof {
            lemma_two256();
        }
        match self.magnitude_u256() {
            None => Err(ConversionError::OutOfRange),
            Some((hi, lo)) => {
                if hi != 0 {
                    Err(ConversionError::OutOfRange)
                } else if self.negative {
                    if lo <= 0x80_0000 {
                        Ok(Int24 { value: 0 - (lo as i32) })
                    } else {
                        Err(ConversionError::OutOfRange)
                    }
                } else if lo < 0x80_0000 {
                    Ok(Int24 { value: lo as i32 })
                } else {
                    Err(ConversionError::OutOfRange)
                }
            },
        }
    }

    /// Reads the stored integer as an unsigned 24-bit integer, failing where
    /// it does not fit.
    pub fn to_uint24(&self) -> (r: Result<Uint24, ConversionError>)
        ensures
            r == decode_uint24(self.value()),
    {
        proof {
            lemma_two256();
        }
        match self.magnitude_u256() {
            None => Err(ConversionError::OutOfRange),
            Some((hi, lo)) => {
                if hi == 0 && (!self.negative || lo == 0) && lo < 0x100_0000 {
                    Ok(Uint24 { value: lo as u32 })
                } else {
                    Err(ConversionError::OutOfRange)
                }
            },
        }
    }

    /// Reads the stored integer as an unsigned 160-bit integer, failing where
    /// it does not fit.
    pub fn to_uint160(&self) -> (r: Result<Uint160, ConversionError>)
        ensures
            r == decode_uint160(self.value()),
            r matches Ok(x) ==> x.value() == self.value(),
    {
        proof {
            lemma_two256();
        }
        match self.magnitude_u256() {
            None => Err(ConversionError::OutOfRange),
            Some((hi, lo)) => {
                if (!self.negative || (hi == 0 && lo == 0)) && hi < 0x1_0000_0000 {
                    proof {
                        lemma_split(hi as int, lo as int);
                    }
                    Ok(Uint160 { hi: hi as u32, lo })
                } else {
                    Err(ConversionError::OutOfRange)
                }
            },
        }
    }

    /// Reads the stored integer as an unsigned 256-bit integer, failing where
    /// it does not fit.
    pub fn to_uint256(&self) -> (r: Result<Uint256, ConversionError>)
        ensures
            r == decode_uint256(self.value()),
            r matches Ok(x) ==> x.value() == self.value(),
    {
        proof {
            lemma_two256();
        }
        match self.magnitude_u256() {
            None => Err(ConversionError::OutOfRange),
            Some((hi, lo)) => {
                if !self.negative || (hi == 0 && lo == 0) {
                    proof {
                        lemma_split(hi as int, lo as int);
                    }
                    Ok(Uint256 { hi, lo })
                } else {
                    Err(ConversionError::OutOfRange)
                }
            },
        }
    }

    /// Reads the stored integer as a signed 256-bit integer, failing where it
    /// does not fit.
    pub fn to_int256(&self) -> (r: Result<Int256, ConversionError>)
        ensures
            r == decode_int256(self.value()),
            r matches Ok(x) ==> x.value() == self.value(),
    {
        proof {
            lemma_two256();
        }
        match self.magnitude_u256() {
            None => Err(ConversionError::OutOfRange),
            Some((hi, lo)) => {
                if hi == 0 && lo == 0 {
                    proof {
                        lemma_split(0, 0);
                    }
                    Ok(Int256 { hi: 0, lo: 0 })
                } else if !self.negative {
                    if hi < 0x8000_0000_0000_0000_0000_0000_0000_0000 {
                        proof {
                            lemma_split(hi as int, lo as int);
                        }
                        Ok(Int256 { hi, lo })
                    } else {
                        Err(ConversionError::OutOfRange)
                    }
                } else if hi < 0x8000_0000_0000_0000_0000_0000_0000_0000 || (hi
                    == 0x8000_0000_0000_0000_0000_0000_0000_0000 && lo == 0) {
                    let n = negate_parts(hi, lo);
                    proof {
                        lemma_split(n.0 as int, n.1 as int);
                    }
                    Ok(Int256 { hi: n.0, lo: n.1 })
                } else {
                    Err(ConversionError::OutOfRange)
                }
            },
        }
    }
}

impl Int24 {
    /// The stored form of the value.
    pub fn to_numeric(&self) -> (r: Numeric)
        ensures
            r.value() == self.value,
    {
        proof {
            lemma_two256();
        }
        if self.value < 0 {
            Numeric::from_parts(true, 0, (0 - (self.value as i64)) as u128)
        } else {
            Numeric::from_parts(false, 0, self.value as u128)
        }
    }
}

impl Uint24 {
    /// The stored form of the value.
    pub fn to_numeric(&self) -> (r: Numeric)
        ensures
            r.value() == self.value,
    {
        Numeric::from_parts(false, 0, self.value as u128)
    }
}

/// The stored form of a `u128`.
pub fn u128_to_numeric(v: u128) -> (r: Numeric)
    ensures
        r.value() == v,
{
    Numeric::from_parts(false, 0, v)
}

impl Uint160 {
    /// The stored form of the value.
    pub fn to_numeric(&self) -> (r: Numeric)
        ensures
            r.value() == self.value(),
    {
        Numeric::from_parts(false, self.hi as u128, self.lo)
    }
}

impl Uint256 {
    /// The stored form of the value.
    pub fn to_numeric(&self) -> (r: Numeric)
        ensures
            r.value() == self.value(),
    {
        Numeric::from_parts(false, self.hi, self.lo)
    }
}

impl Int256 {
    /// The stored form of the value.
    pub fn to_numeric(&self) -> (r: Numeric)
        ensures
            r.value() == self.value(),
    {
        proof {
            lemma_two256();
        }
        if self.hi >= 0x8000_0000_0000_0000_0000_0000_0000_0000 {
            let n = negate_parts(self.hi, self.lo);
            Numeric::from_parts(true, n.0, n.1)
        } else {
            Numeric::from_parts(false, self.hi, self.lo)
        }
    }
}

/// Lemma: every value of each fixed-width type reads back, from the stored
/// integer that it denotes, as itself.
pub proof fn lemma_numeric_round_trip(a: Int24, b: Uint24, c: u128, d: Uint160, e: Uint256, f: Int256)
    requires
        a.wf(),
        b.wf(),
    ensures
        decode_int24(a.value as int) == Ok::<Int24, ConversionError>(a),
        decode_uint24(b.value as int) == Ok::<Uint24, ConversionError>(b),
        decode_u128(c as int) == Ok::<u128, ConversionError>(c),
        decode_uint160(d.value()) == Ok::<Uint160, ConversionError>(d),
        decode_uint256(e.value()) == Ok::<Uint256, ConversionError>(e),
        decode_int256(f.value()) == Ok::<Int256, ConversionError>(f),
{
    lemma_two256();
    lemma_split(d.hi as int, d.lo as int);
    lemma_split(e.hi as int, e.lo as int);
    lemma_split(f.hi as int, f.lo as int);
}

/// Lemma: a stored integer outside a type's range is refused, never wrapped.
pub proof fn lemma_numeric_out_of_range(v: int)
    ensures
        !Int24::fits(v) ==> decode_int24(v) == Err::<Int24, ConversionError>(ConversionError::OutOfRange),
        !Uint24::fits(v) ==> decode_uint24(v) == Err::<Uint24, ConversionError>(ConversionError::OutOfRange),
        !(0 <= v < two128()) ==> decode_u128(v) == Err::<u128, ConversionError>(ConversionError::OutOfRange),
        !Uint160::fits(v) ==> decode_uint160(v) == Err::<Uint160, ConversionError>(ConversionError::OutOfRange),
        !Uint256::fits(v) ==> decode_uint256(v) == Err::<Uint256, ConversionError>(ConversionError::OutOfRange),
        !Int256::fits(v) ==> decode_int256(v) == Err::<Int256, ConversionError>(ConversionError::OutOfRange),
{
}

} // verus!
