//! Real numbers as the renderer's logic sees them.
//!
//! Every quantity of the renderer is a binary64 number. Arithmetic on such
//! numbers is done by the caller; what this library decides, it decides by
//! comparing them. A [`Scalar`] therefore holds a binary64 number as one
//! signed integer, its *key*: the number's 64 bits read as sign and magnitude.
//! Keys grow as the numbers grow, so that every comparison is a comparison of
//! integers, and a key gives back the very bits it was made from.

use vstd::prelude::*;

verus! {

/// Key of positive infinity.
pub const INFINITY_KEY: i64 = 0x7FF0_0000_0000_0000;

/// Key of negative infinity.
pub const NEG_INFINITY_KEY: i64 = -0x7FF0_0000_0000_0001;

/// Key of the number one.
pub const ONE_KEY: i64 = 0x3FF0_0000_0000_0000;

/// Key of the binary64 number nearest to 1e-9, the smallest ray parameter
/// at which an intersection counts.
pub const EPSILON_KEY: i64 = 0x3E11_2E0B_E826_D695;

/// A binary64 number, held by its key.
///
/// A number whose sign bit is clear has its bit pattern as key; one whose
/// sign bit is set, with magnitude bits `m`, has the key `-m - 1`.
#[derive(Clone, Copy, Debug, PartialEq, Eq, Structural)]
pub struct Scalar {
    pub key: i64,
}

impl Scalar {
    /// The key that stands for the bit pattern `bits`.
    pub open spec fn key_of_bits(bits: u64) -> int {
        if bits < 0x8000_0000_0000_0000 {
            bits as int
        } else {
            -(bits - 0x8000_0000_0000_0000) - 1
        }
    }

    /// The bit pattern that the key `key` stands for.
    pub open spec fn bits_of_key(key: int) -> int {
        if key >= 0 {
            key
        } else {
            0x8000_0000_0000_0000 - key - 1
        }
    }

    /// Whether the value is not a number.
    pub open spec fn nan(self) -> bool {
        self.key > INFINITY_KEY || self.key < NEG_INFINITY_KEY
    }

    /// Whether the value is a number other than an infinity.
    pub open spec fn finite(self) -> bool {
        NEG_INFINITY_KEY < self.key < INFINITY_KEY
    }

    /// The signed magnitude: the position of the value on the number line.
    /// Both zeros have rank 0; of two numbers, the smaller has the smaller
    /// rank.
    pub open spec fn rank(self) -> int {
        if self.key >= 0 {
            self.key as int
        } else {
            self.key + 1
        }
    }

    /// `self < other` as numbers: false when either is not a number.
    pub open spec fn lt_spec(self, other: Scalar) -> bool {
        !self.nan() && !other.nan() && self.rank() < other.rank()
    }

    /// `self <= other` as numbers: false when either is not a number.
    pub open spec fn le_spec(self, other: Scalar) -> bool {
        !self.nan() && !other.nan() && self.rank() <= other.rank()
    }

    /// The larger of two numbers, where one that is not a number gives way
    /// to the other. Of the two zeros, the one with its sign bit clear is
    /// the larger; of two values that are not numbers, the one with the
    /// larger key is kept.
    pub open spec fn max_spec(self, other: Scalar) -> Scalar {
        if self.nan() != other.nan() {
            if self.nan() {
                other
            } else {
                self
            }
        } else if self.key < other.key {
            other
        } else {
            self
        }
    }

    /// The smaller of two numbers, where one that is not a number gives way
    /// to the other. Of the two zeros, the one with its sign bit set is the
    /// smaller; of two values that are not numbers, the one with the smaller
    /// key is kept.
    pub open spec fn min_spec(self, other: Scalar) -> Scalar {
        if self.nan() != other.nan() {
            if self.nan() {
                other
            } else {
                self
            }
        } else if other.key < self.key {
            other
        } else {
            self
        }
    }

    /// The value with its sign bit flipped.
    pub open spec fn neg_spec(self) -> Scalar {
        Scalar { key: (-self.key - 1) as i64 }
    }

    /// The number zero (with its sign bit clear).
    pub fn zero() -> (r: Scalar)
        ensures
            r == (Scalar { key: 0 }),
    {
        Scalar { key: 0 }
    }

    /// The number one.
    pub fn one() -> (r: Scalar)
        ensures
            r == (Scalar { key: ONE_KEY }),
    {
        Scalar { key: ONE_KEY }
    }

    /// Positive infinity.
    pub fn infinity() -> (r: Scalar)
        ensures
            r == (Scalar { key: INFINITY_KEY }),
    {
        Scalar { key: INFINITY_KEY }
    }

    /// The smallest ray parameter at which an intersection counts.
    pub fn epsilon() -> (r: Scalar)
        ensures
            r == (Scalar { key: EPSILON_KEY }),
    {
        Scalar { key: EPSILON_KEY }
    }

    /// The scalar of a binary64 bit pattern.
    pub fn from_bits(bits: u64) -> (r: Scalar)
        ensures
            r.key == Self::key_of_bits(bits),
            Self::bits_of_key(r.key as int) == bits,
    {
        if bits < 0x8000_0000_0000_0000 {
            Scalar { key: bits as i64 }
        } else {
            let magnitude: u64 = bits - 0x8000_0000_0000_0000;
            Scalar { key: -(magnitude as i64) - 1 }
        }
    }

    /// The binary64 bit pattern of the scalar.
    pub fn to_bits(self) -> (bits: u64)
        ensures
            bits == Self::bits_of_key(self.key as int),
            Self::key_of_bits(bits) == self.key,
    {
        if self.key >= 0 {
            self.key as u64
        } else {
            let magnitude: u64 = (-(self.key + 1)) as u64;
            magnitude + 0x8000_0000_0000_0000
        }
    }

    /// Whether the value is not a number.
    pub fn is_nan(self) -> (r: bool)
        ensures
            r == self.nan(),
    {
        self.key > INFINITY_KEY || self.key < NEG_INFINITY_KEY
    }

    /// Whether the value is a number other than an infinity.
    pub fn is_finite(self) -> (r: bool)
        ensures
            r == self.finite(),
    {
        NEG_INFINITY_KEY < self.key && self.key < INFINITY_KEY
    }

    /// `self < other` as numbers.
    pub fn lt(self, other: Scalar) -> (r: bool)
        ensures
            r == self.lt_spec(other),
    {
        if self.is_nan() || other.is_nan() {
            return false;
        }
        let a: i64 = if self.key >= 0 { self.key } else { self.key + 1 };
        let b: i64 = if other.key >= 0 { other.key } else { other.key + 1 };
        a < b
    }

    /// `self <= other` as numbers.
    pub fn le(self, other: Scalar) -> (r: bool)
        ensures
            r == self.le_spec(other),
    {
        if self.is_nan() || other.is_nan() {
            return false;
        }
        let a: i64 = if self.key >= 0 { self.key } else { self.key + 1 };
        let b: i64 = if other.key >= 0 { other.key } else { other.key + 1 };
        a <= b
    }

    /// The larger of the two, ignoring a value that is not a number.
    pub fn max(self, other: Scalar) -> (r: Scalar)
        ensures
            r == self.max_spec(other),
    {
        if self.is_nan() != other.is_nan() {
            if self.is_nan() {
                other
            } else {
                self
            }
        } else if self.key < other.key {
            other
        } else {
            self
        }
    }

    /// The smaller of the two, ignoring a value that is not a number.
    pub fn min(self, other: Scalar) -> (r: Scalar)
        ensures
            r == self.min_spec(other),
    {
        if self.is_nan() != other.is_nan() {
            if self.is_nan() {
                other
            } else {
                self
            }
        } else if other.key < self.key {
            other
        } else {
            self
        }
    }

    /// The signed magnitude of the value, as a machine integer.
    pub fn signed_magnitude(self) -> (r: i64)
        ensures
            r == self.rank(),
    {
        if self.key >= 0 {
            self.key
        } else {
            self.key + 1
        }
    }

    /// The value with its sign flipped. Exact: only the sign bit changes.
    pub fn neg(self) -> (r: Scalar)
        ensures
            r == self.neg_spec(),
            r.rank() == -self.rank(),
            r.nan() == self.nan(),
    {
        if self.key >= 0 {
            Scalar { key: -self.key - 1 }
        } else {
            Scalar { key: -(self.key + 1) }
        }
    }
}

/// Minimum and maximum do not depend on the order in which values are
/// combined.
pub proof fn lemma_min_max_lattice(a: Scalar, b: Scalar, c: Scalar)
    ensures
        a.min_spec(b) == b.min_spec(a),
        a.max_spec(b) == b.max_spec(a),
        a.min_spec(b).min_spec(c) == a.min_spec(b.min_spec(c)),
        a.max_spec(b).max_spec(c) == a.max_spec(b.max_spec(c)),
{
}


} // verus!
