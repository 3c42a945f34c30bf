//! What the output of a picture needs besides arithmetic: the brightest
//! luminance, by which the picture is tone mapped, and the size of the
//! buffer of its 8-bit channels.

use vstd::prelude::*;
use vstd::arithmetic::power2::pow2;
use vstd::bits::lemma_u64_shr_is_div;
use crate::scalar::{Scalar, ONE_KEY};

verus! {

/// No luminance of the list is not a number.
pub open spec fn all_numbers(luminances: Seq<Scalar>) -> bool {
    forall|i: int| 0 <= i < luminances.len() ==> !(#[trigger] luminances[i]).nan()
}

/// The luminance by which a picture is tone mapped: the greatest of its
/// pixels' luminances, and one for a picture without pixels. Of equal
/// luminances the last is returned.
pub fn max_luminance(luminances: &Vec<Scalar>) -> (r: Scalar)
    requires
        all_numbers(luminances@),
    ensures
        luminances.len() == 0 ==> r == (Scalar { key: ONE_KEY }),
        forall|i: int| 0 <= i < luminances.len() ==> (#[trigger] luminances[i]).rank() <= r.rank(),
        luminances.len() > 0 ==> exists|k: int|
            {
                &&& 0 <= k < luminances.len()
                &&& r == #[trigger] luminances[k]
                &&& forall|i: int|
                    k < i < luminances.len() ==> (#[trigger] luminances[i]).rank() < r.rank()
            },
{
    let n = luminances.len();
    if n == 0 {
        return Scalar::one();
    }
    let mut best = luminances[0];
    let ghost mut at: int = 0;
    let mut i: usize = 1;
    while i < n
        invariant
            1 <= i <= n,
            n == luminances.len(),
            all_numbers(luminances@),
            0 <= at < i,
            best == luminances[at],
            forall|j: int| 0 <= j < at ==> (#[trigger] luminances[j]).rank() <= best.rank(),
            forall|j: int| at < j < i ==> (#[trigger] luminances[j]).rank() < best.rank(),
        decreases n - i,
    {
        let candidate = luminances[i];
        if !candidate.lt(best) {
            best = candidate;
            proof {
                at = i as int;
            }
        }
        i += 1;
    }
    best
}

/// The number of bytes of a picture with three 8-bit channels to the pixel,
/// where a 32-bit count can hold it.
pub fn rgb_len(width: u32, height: u32) -> (r: Option<u32>)
    ensures
        r is Some <==> width * height * 3 <= u32::MAX,
        r matches Some(n) ==> n == width * height * 3,
{
    assert(width * height <= 0xFFFF_FFFF * 0xFFFF_FFFF) by (nonlinear_arith)
        requires
            width <= 0xFFFF_FFFF,
            height <= 0xFFFF_FFFF,
    ;
    let pixels: u64 = (width as u64) * (height as u64);
    if pixels <= (u32::MAX / 3) as u64 {
        Some((pixels * 3) as u32)
    } else {
        None
    }
}

/// Key of the binary64 number nearest to 0.0031308: up to this brightness
/// the display curve is a straight line.
pub const LINEAR_END_KEY: i64 = 0x3F69_A5C3_7387_B719;

/// Whether a brightness lies on the straight part of the display curve,
/// where it is scaled, and not on the part where it is raised to a power:
/// it does where it is at most 0.0031308.
pub fn gamma_is_linear(v: Scalar) -> (r: bool)
    ensures
        r == v.le_spec(Scalar { key: LINEAR_END_KEY }),
{
    v.le(Scalar { key: LINEAR_END_KEY })
}

/// Key of the number 255, the brightest level of an 8-bit channel.
pub const BRIGHTEST_KEY: i64 = 0x406F_E000_0000_0000;

/// Two to the power 52: the weight of the leading bit of a binary64
/// number's significand, and the step of its exponent field in the key.
pub const SIGNIFICAND: u64 = 0x10_0000_0000_0000;

/// The level of an 8-bit channel for a brightness on the scale from 0 to
/// 255: the brightness rounded down, after what lies outside the scale is
/// brought to its nearer end; zero for what is not a number.
///
/// A number of at least one whose key has the exponent field `e` and the
/// fraction `m` is `(2^52 + m) * 2^(e - 1075)`; below 255, `e` is at most
/// 1030, and the number rounded down is `2^52 + m` divided by `2^(1075 - e)`.
pub open spec fn quantize_spec(brightness: Scalar) -> int {
    if brightness.nan() || brightness.key < ONE_KEY {
        0
    } else if brightness.key >= BRIGHTEST_KEY {
        255
    } else {
        let key = brightness.key as int;
        let e = key / (SIGNIFICAND as int);
        let m = key % (SIGNIFICAND as int);
        (SIGNIFICAND + m) / (pow2((1075 - e) as nat) as int)
    }
}

/// The level of an 8-bit channel for a brightness on the scale from 0 to
/// 255.
pub fn quantize(brightness: Scalar) -> (r: u8)
    ensures
        r == quantize_spec(brightness),
{
    if brightness.is_nan() || brightness.key < ONE_KEY {
        return 0;
    }
    if brightness.key >= BRIGHTEST_KEY {
        return 255;
    }
    let bits: u64 = brightness.key as u64;
    let e: u64 = bits >> 52;
    let m: u64 = bits & 0xF_FFFF_FFFF_FFFF;
    assert(1023 <= e <= 1030 && e == bits / 0x10_0000_0000_0000 && m == bits % 0x10_0000_0000_0000
        && (e == 1030 ==> m < 0xF_E000_0000_0000)) by (bit_vector)
        requires
            0x3FF0_0000_0000_0000 <= bits < 0x406F_E000_0000_0000,
            e == bits >> 52,
            m == bits & 0xF_FFFF_FFFF_FFFF,
    ;
    let shift: u64 = 1075 - e;
    let full: u64 = 0x10_0000_0000_0000 + m;
    let whole: u64 = full >> shift;
    assert(whole <= 254) by (bit_vector)
        requires
            45 <= shift <= 52,
            0x10_0000_0000_0000 <= full < 0x20_0000_0000_0000,
            shift == 45 ==> full < 0x1F_E000_0000_0000,
            whole == full >> shift,
    ;
    proof {
        lemma_u64_shr_is_div(full, shift);
    }
    whole as u8
}

} // verus!
