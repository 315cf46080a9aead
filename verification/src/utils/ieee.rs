//! IEEE 754 numbers kept as their bit patterns.
//!
//! The library stores and compares floating-point values, and makes them from small integers. It
//! does no other arithmetic on them: callers do that and hand the bits over.
use vstd::arithmetic::power2::pow2;
use vstd::prelude::*;

verus! {

/// A double-precision number, by its bits.
#[derive(Debug, Clone, Copy, PartialEq, Eq, Structural)]
pub struct F64 {
    pub bits: u64,
}

/// A single-precision number, by its bits.
#[derive(Debug, Clone, Copy, PartialEq, Eq, Structural)]
pub struct F32 {
    pub bits: u32,
}

/// The bits below the sign bit of a double.
pub open spec fn magnitude64(bits: u64) -> int {
    bits as int % 0x8000_0000_0000_0000
}

/// The bits below the sign bit of a single.
pub open spec fn magnitude32(bits: u32) -> int {
    bits as int % 0x8000_0000
}

/// The magnitude bits of the double that encodes the positive integer `n`, where `2^e` is the
/// largest power of two not above `n`.
pub open spec fn integer_magnitude64(n: int, e: nat) -> int {
    (1023 + e) * 0x10_0000_0000_0000 + (n - pow2(e)) * pow2((52 - e) as nat)
}

/// Whether `magnitude` encodes the positive integer `n`.
pub open spec fn has_integer_magnitude(magnitude: int, n: int) -> bool {
    exists|e: nat|
        e <= 52 && pow2(e) <= n < 2 * pow2(e) && magnitude == #[trigger] integer_magnitude64(n, e)
}

/// The double that equals an integer, where there is one.
pub open spec fn integer(n: int) -> F64 {
    choose|f: F64| f.is_integer(n)
}

proof fn lemma_integer(f: F64, n: int)
    requires
        f.is_integer(n),
    ensures
        f == integer(n),
{
    integer_encoding_is_unique(f, integer(n), n);
}

impl F64 {
    /// Both zeros are zero.
    pub open spec fn is_zero(self) -> bool {
        magnitude64(self.bits) == 0
    }

    pub open spec fn is_nan(self) -> bool {
        magnitude64(self.bits) > 0x7FF0_0000_0000_0000
    }

    /// Equality of the numbers: not-a-number equals nothing, and the two zeros are equal.
    pub open spec fn ieee_eq(self, other: F64) -> bool {
        &&& !self.is_nan()
        &&& !other.is_nan()
        &&& self.bits == other.bits || (self.is_zero() && other.is_zero())
    }

    /// Whether this is exactly the integer `n`, zero being the positive one.
    pub open spec fn is_integer(self, n: int) -> bool {
        if n == 0 {
            self.bits == 0
        } else {
            if n < 0 {
                has_integer_magnitude(self.bits - 0x8000_0000_0000_0000, -n)
            } else {
                has_integer_magnitude(self.bits as int, n)
            }
        }
    }

    pub fn same(&self, other: &F64) -> (r: bool)
        ensures
            r == self.ieee_eq(*other),
    {
        let a: u64 = self.bits % 0x8000_0000_0000_0000;
        let b: u64 = other.bits % 0x8000_0000_0000_0000;
        a <= 0x7FF0_0000_0000_0000 && b <= 0x7FF0_0000_0000_0000 && (self.bits == other.bits || (a
            == 0 && b == 0))
    }

    /// The double that equals an integer of 32 bits.
    pub fn from_i32(n: i32) -> (r: F64)
        ensures
            r.is_integer(n as int),
            r == integer(n as int),
    {
        if n == 0 {
            proof {
                lemma_integer(F64 { bits: 0 }, 0);
            }
            return F64 { bits: 0 };
        }
        let m: u64 = if n < 0 {
            (-(n as i64)) as u64
        } else {
            n as u64
        };
        let mut e: u64 = 0;
        let mut low: u64 = 1;
        let mut high: u64 = 0x10_0000_0000_0000;
        proof {
            vstd::arithmetic::power2::lemma2_to64();
            vstd::arithmetic::power2::lemma2_to64_rest();
        }
        while low * 2 <= m
            invariant
                m <= 0x8000_0000,
                e <= 31,
                low == pow2(e as nat),
                high == pow2((52 - e) as nat),
                low <= m,
                low * high == 0x10_0000_0000_0000,
            decreases 31 - e,
        {
            proof {
                vstd::arithmetic::power2::lemma_pow2_unfold((e + 1) as nat);
                vstd::arithmetic::power2::lemma_pow2_unfold((52 - e) as nat);
                if e == 31 {
                    vstd::arithmetic::power2::lemma2_to64();
                    assert(false);
                }
                assert((low * 2) * (high / 2) == low * high) by (nonlinear_arith)
                    requires
                        high % 2 == 0,
                ;
            }
            e = e + 1;
            low = low * 2;
            high = high / 2;
        }
        proof {
            assert((m - low) * high < low * high) by (nonlinear_arith)
                requires
                    m - low < low,
                    high > 0,
            ;
            assert((m - low) * high >= 0) by (nonlinear_arith)
                requires
                    m - low >= 0,
                    high > 0,
            ;
            assert(pow2((52 - e) as nat) > 0) by {
                vstd::arithmetic::power2::lemma_pow2_pos((52 - e) as nat);
            }
        }
        let magnitude: u64 = (1023 + e) * 0x10_0000_0000_0000 + (m - low) * high;
        let sign: u64 = if n < 0 {
            0x8000_0000_0000_0000
        } else {
            0
        };
        assert(magnitude == integer_magnitude64(m as int, e as nat));
        assert(has_integer_magnitude(magnitude as int, m as int));
        let r = F64 { bits: sign + magnitude };
        proof {
            lemma_integer(r, n as int);
        }
        r
    }
}

impl F32 {
    pub open spec fn is_zero(self) -> bool {
        magnitude32(self.bits) == 0
    }

    pub open spec fn is_nan(self) -> bool {
        magnitude32(self.bits) > 0x7F80_0000
    }

    pub open spec fn ieee_eq(self, other: F32) -> bool {
        &&& !self.is_nan()
        &&& !other.is_nan()
        &&& self.bits == other.bits || (self.is_zero() && other.is_zero())
    }

    pub fn same(&self, other: &F32) -> (r: bool)
        ensures
            r == self.ieee_eq(*other),
    {
        let a: u32 = self.bits % 0x8000_0000;
        let b: u32 = other.bits % 0x8000_0000;
        a <= 0x7F80_0000 && b <= 0x7F80_0000 && (self.bits == other.bits || (a == 0 && b == 0))
    }
}

/// An integer has one encoding, so `is_integer` pins the bits down.
pub proof fn integer_encoding_is_unique(a: F64, b: F64, n: int)
    requires
        a.is_integer(n),
        b.is_integer(n),
    ensures
        a == b,
{
    if n != 0 {
        let m = if n < 0 { -n } else { n };
        let x = if n < 0 { a.bits - 0x8000_0000_0000_0000 } else { a.bits as int };
        let y = if n < 0 { b.bits - 0x8000_0000_0000_0000 } else { b.bits as int };
        assert(has_integer_magnitude(x, m));
        assert(has_integer_magnitude(y, m));
        let i = choose|e: nat|
            e <= 52 && pow2(e) <= m < 2 * pow2(e) && x == #[trigger] integer_magnitude64(m, e);
        let j = choose|e: nat|
            e <= 52 && pow2(e) <= m < 2 * pow2(e) && y == #[trigger] integer_magnitude64(m, e);
        if i < j {
            vstd::arithmetic::power2::lemma_pow2_unfold((i + 1) as nat);
            if i + 1 < j {
                vstd::arithmetic::power2::lemma_pow2_strictly_increases((i + 1) as nat, j);
            }
        } else if j < i {
            vstd::arithmetic::power2::lemma_pow2_unfold((j + 1) as nat);
            if j + 1 < i {
                vstd::arithmetic::power2::lemma_pow2_strictly_increases((j + 1) as nat, i);
            }
        }
    }
}

} // verus!
