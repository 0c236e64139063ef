//! Recipe numbers that are binary64 floating-point values.
//!
//! A [`Real`] carries the IEEE 754 binary64 bit pattern of the value (what the
//! checks compare) and its shortest decimal rendering (what the configuration
//! writers print). Comparisons follow IEEE 754: NaN compares false with
//! everything, `-0` equals `+0`, otherwise order is by value.

use vstd::prelude::*;

verus! {

/// A binary64 value: its bit pattern and its decimal rendering.
#[derive(Debug, Clone)]
pub struct Real {
    /// IEEE 754 binary64 bit pattern.
    pub bits: u64,
    /// Shortest decimal rendering of the value (no exponent), e.g. `0.0001`.
    pub text: String,
}

/// Bit pattern of `0.0`.
pub const ZERO_BITS: u64 = 0;

/// Bit pattern of the binary64 value nearest to `0.1`.
pub const TENTH_BITS: u64 = 0x3FB9_9999_9999_999A;

/// Bit pattern of `0.5`.
pub const HALF_BITS: u64 = 0x3FE0_0000_0000_0000;

/// Magnitude bits (everything but the sign).
pub open spec fn magnitude(b: u64) -> u64 {
    b & 0x7FFF_FFFF_FFFF_FFFFu64
}

/// Sign bit set.
pub open spec fn negative(b: u64) -> bool {
    (b >> 63u64) == 1
}

/// The bit pattern is a NaN.
pub open spec fn is_nan(b: u64) -> bool {
    magnitude(b) > 0x7FF0_0000_0000_0000u64
}

/// Position of a non-NaN value on the number line: binary64 values of one sign
/// are ordered like their magnitude bits.
pub open spec fn order_key(b: u64) -> int {
    if negative(b) {
        -(magnitude(b) as int)
    } else {
        magnitude(b) as int
    }
}

/// `a < b` as binary64 values.
pub open spec fn f64_lt(a: u64, b: u64) -> bool {
    !is_nan(a) && !is_nan(b) && order_key(a) < order_key(b)
}

/// `a <= b` as binary64 values.
pub open spec fn f64_le(a: u64, b: u64) -> bool {
    !is_nan(a) && !is_nan(b) && order_key(a) <= order_key(b)
}

/// Bit pattern of `2.0 * x` (exact doubling: the exponent grows by one,
/// subnormals shift left, overflow gives infinity, infinities and NaN stay).
pub open spec fn f64_double(b: u64) -> u64 {
    let e = (b >> 52u64) & 0x7FFu64;
    let s = b & 0x8000_0000_0000_0000u64;
    if e == 0x7FF {
        b
    } else if e == 0 {
        s | (magnitude(b) << 1u64)
    } else if e == 0x7FE {
        s | 0x7FF0_0000_0000_0000u64
    } else {
        (b + 0x0010_0000_0000_0000u64) as u64
    }
}

fn magnitude_of(b: u64) -> (m: u64)
    ensures
        m == magnitude(b),
{
    b & 0x7FFF_FFFF_FFFF_FFFF
}

/// `a < b` as binary64 values.
pub fn real_lt(a: u64, b: u64) -> (r: bool)
    ensures
        r == f64_lt(a, b),
{
    let ma = magnitude_of(a);
    let mb = magnitude_of(b);
    if ma > 0x7FF0_0000_0000_0000 || mb > 0x7FF0_0000_0000_0000 {
        return false;
    }
    let na = (a >> 63) == 1;
    let nb = (b >> 63) == 1;
    if !na && !nb {
        ma < mb
    } else if na && nb {
        ma > mb
    } else if na {
        ma != 0 || mb != 0
    } else {
        false
    }
}

/// `a <= b` as binary64 values.
pub fn real_le(a: u64, b: u64) -> (r: bool)
    ensures
        r == f64_le(a, b),
{
    let ma = magnitude_of(a);
    let mb = magnitude_of(b);
    if ma > 0x7FF0_0000_0000_0000 || mb > 0x7FF0_0000_0000_0000 {
        return false;
    }
    let na = (a >> 63) == 1;
    let nb = (b >> 63) == 1;
    if !na && !nb {
        ma <= mb
    } else if na && nb {
        ma >= mb
    } else if na {
        true
    } else {
        ma == 0 && mb == 0
    }
}

/// Bit pattern of `2.0 * x`.
pub fn real_double(b: u64) -> (r: u64)
    ensures
        r == f64_double(b),
{
    let e = (b >> 52) & 0x7FF;
    let s = b & 0x8000_0000_0000_0000;
    if e == 0x7FF {
        b
    } else if e == 0 {
        s | (magnitude_of(b) << 1)
    } else if e == 0x7FE {
        s | 0x7FF0_0000_0000_0000
    } else {
        proof {
            assert(e != 0x7FF && e != 0x7FE && e == ((b >> 52u64) & 0x7FFu64) ==> b < 0xFFF0_0000_0000_0000u64)
                by (bit_vector);
        }
        b + 0x0010_0000_0000_0000
    }
}


/// A value from its bit pattern and its decimal rendering.
pub fn real_of(bits: u64, text: &str) -> (r: Real)
    ensures
        r.bits == bits,
        r.text@ == text@,
{
    Real { bits, text: String::from_str(text) }
}


/// A positive finite value (bits below those of +infinity) is ordered by its
/// bits.
pub proof fn lemma_positive_finite(b: u64)
    requires
        b < 0x7FF0_0000_0000_0000u64,
    ensures
        magnitude(b) == b,
        !negative(b),
        !is_nan(b),
        order_key(b) == b as int,
{
    assert(b & 0x7FFF_FFFF_FFFF_FFFFu64 == b && (b >> 63u64) == 0) by (bit_vector)
        requires
            b < 0x7FF0_0000_0000_0000u64,
    ;
}

} // verus!
