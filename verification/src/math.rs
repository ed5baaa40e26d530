//! Vectors, rotations and placements.
//!
//! A scalar is a single-precision number carried as its IEEE 754 bit pattern
//! in a `u32`. The library moves scalars around and compares them bit for bit;
//! the only arithmetic it does on them is the conversion from an integer.

use vstd::arithmetic::power2::{lemma2_to64, lemma2_to64_rest, lemma_pow2_adds, lemma_pow2_pos, lemma_pow2_strictly_increases, lemma_pow2_unfold, pow2};
use vstd::prelude::*;

verus! {

/// The scalar `0.0`.
pub const ZERO: u32 = 0;

/// The scalar `1.0`.
pub const ONE: u32 = 0x3F80_0000;

/// The scalar `0.75`.
pub const THREE_QUARTERS: u32 = 0x3F40_0000;

/// The scalar nearest to the square root of one half.
pub const HALF_SQRT_2: u32 = 0x3F35_04F3;

/// The position of the highest set bit of `a`, counted from zero, that is
/// the integer part of its binary logarithm; `0` for `a < 2`.
pub open spec fn floor_log2(a: nat) -> nat
    decreases a,
{
    if a <= 1 {
        0
    } else {
        1 + floor_log2(a / 2)
    }
}

/// The bit pattern, without the sign bit, of the scalar nearest to the
/// positive integer `a`: a biased exponent above a 23-bit fraction, the
/// significand rounded to 24 bits with ties going to the even neighbour.
pub open spec fn magnitude_bits(a: nat) -> int {
    let e = floor_log2(a);
    if e <= 23 {
        (127 + e) * pow2(23) + (a - pow2(e)) * pow2((23 - e) as nat)
    } else {
        let q = pow2((e - 23) as nat);
        let kept = a / q;
        let lost = a % q;
        let up: int = if 2 * lost > q || (2 * lost == q && kept % 2 == 1) {
            1
        } else {
            0
        };
        (127 + e) * pow2(23) + (kept - pow2(23)) + up
    }
}

/// The bit pattern of the scalar nearest to the integer `v`.
pub open spec fn scalar_of_int(v: int) -> int {
    if v == 0 {
        0
    } else if v > 0 {
        magnitude_bits(v as nat)
    } else {
        pow2(31) + magnitude_bits((-v) as nat)
    }
}

proof fn lemma_floor_log2_bounds(a: nat)
    requires
        a >= 1,
    ensures
        pow2(floor_log2(a)) <= a < 2 * pow2(floor_log2(a)),
    decreases a,
{
    lemma2_to64();
    if a > 1 {
        lemma_floor_log2_bounds(a / 2);
        lemma_pow2_unfold(floor_log2(a));
    }
}

proof fn lemma_floor_log2_limit(a: nat, bits: nat)
    requires
        1 <= a < pow2(bits),
    ensures
        floor_log2(a) < bits,
{
    lemma_floor_log2_bounds(a);
    if floor_log2(a) >= bits {
        if floor_log2(a) > bits {
            lemma_pow2_strictly_increases(bits, floor_log2(a));
        }
    }
}

/// `2^k` for `k` up to 32.
fn power_of_two(k: u32) -> (p: u64)
    requires
        k <= 32,
    ensures
        p == pow2(k as nat),
{
    let mut p: u64 = 1;
    let mut i: u32 = 0;
    proof {
        lemma2_to64();
    }
    while i < k
        invariant
            i <= k <= 32,
            p == pow2(i as nat),
        decreases k - i,
    {
        proof {
            lemma_pow2_unfold((i + 1) as nat);
            lemma2_to64();
            if i + 1 < 32 {
                lemma_pow2_strictly_increases((i + 1) as nat, 32);
            }
        }
        p = p * 2;
        i = i + 1;
    }
    p
}

/// The integer part of the binary logarithm of `a`.
fn highest_bit(a: u32) -> (e: u32)
    requires
        a >= 1,
    ensures
        e == floor_log2(a as nat),
        e <= 31,
{
    let mut rest: u32 = a;
    let mut e: u32 = 0;
    proof {
        lemma2_to64();
        lemma2_to64_rest();
        lemma_floor_log2_limit(a as nat, 32);
    }
    while rest > 1
        invariant
            rest >= 1,
            floor_log2(a as nat) == e + floor_log2(rest as nat),
            floor_log2(a as nat) <= 31,
        decreases rest,
    {
        rest = rest / 2;
        e = e + 1;
    }
    e
}

/// The bit pattern, without the sign bit, of the scalar nearest to `a`.
fn magnitude_to_bits(a: u32) -> (bits: u32)
    requires
        1 <= a <= 0x8000_0000,
    ensures
        bits == magnitude_bits(a as nat),
        bits < 0x8000_0000,
{
    let e = highest_bit(a);
    let low = power_of_two(e);
    let unit = power_of_two(23);
    proof {
        lemma2_to64();
        lemma2_to64_rest();
        lemma_floor_log2_bounds(a as nat);
    }
    if e <= 23 {
        let scale = power_of_two(23 - e);
        proof {
            lemma_pow2_adds(e as nat, (23 - e) as nat);
            assert((a - low) * scale < low * scale) by (nonlinear_arith)
                requires
                    low <= a < 2 * low,
                    scale > 0,
                    a - low < low,
            ;
        }
        let fraction = (a as u64 - low) * scale;
        ((127 + e as u64) * unit + fraction) as u32
    } else {
        let q = power_of_two(e - 23);
        proof {
            lemma_pow2_adds((e - 23) as nat, 23);
            lemma_pow2_pos((e - 23) as nat);
            assert(unit <= a as u64 / q < 2 * unit) by (nonlinear_arith)
                requires
                    q * unit <= a as u64,
                    (a as u64) < 2 * (q * unit),
                    q > 0,
            ;
        }
        let kept = a as u64 / q;
        let lost = a as u64 % q;
        let up: u64 = if 2 * lost > q || (2 * lost == q && kept % 2 == 1) {
            1
        } else {
            0
        };
        ((127 + e as u64) * unit + (kept - unit) + up) as u32
    }
}

/// The bit pattern of the scalar nearest to `v`, as a cast of `v` to single
/// precision gives it: exact up to 24 significant bits, beyond that rounded
/// to the nearest representable number, a tie to the one with an even
/// significand.
pub fn scalar_from_i32(v: i32) -> (bits: u32)
    ensures
        bits == scalar_of_int(v as int),
{
    proof {
        lemma2_to64();
        lemma2_to64_rest();
    }
    if v == 0 {
        0
    } else if v > 0 {
        magnitude_to_bits(v as u32)
    } else {
        let a: u32 = if v == i32::MIN {
            0x8000_0000
        } else {
            (-v) as u32
        };
        0x8000_0000 + magnitude_to_bits(a)
    }
}

/// Three scalars.
#[derive(Clone, Copy, Debug, PartialEq, Eq, Structural)]
pub struct Vec3 {
    pub x: u32,
    pub y: u32,
    pub z: u32,
}

impl Vec3 {
    /// The vector of three zeros.
    pub open spec fn zero() -> Vec3 {
        Vec3 { x: ZERO, y: ZERO, z: ZERO }
    }

    /// The vector of three ones.
    pub open spec fn one() -> Vec3 {
        Vec3 { x: ONE, y: ONE, z: ONE }
    }

    /// The vector of the three scalars.
    pub fn new(x: u32, y: u32, z: u32) -> (v: Vec3)
        ensures
            v == (Vec3 { x, y, z }),
    {
        Vec3 { x, y, z }
    }
}

/// Three integers: a position on the block grid.
#[derive(Clone, Copy, Debug, PartialEq, Eq, Structural)]
pub struct IVec3 {
    pub x: i32,
    pub y: i32,
    pub z: i32,
}

impl IVec3 {
    /// The vector of the three integers.
    pub fn new(x: i32, y: i32, z: i32) -> (v: IVec3)
        ensures
            v == (IVec3 { x, y, z }),
    {
        IVec3 { x, y, z }
    }

    /// The vector of scalars that this vector of integers converts to.
    pub open spec fn spec_as_vec3(self) -> Vec3 {
        Vec3 {
            x: scalar_of_int(self.x as int) as u32,
            y: scalar_of_int(self.y as int) as u32,
            z: scalar_of_int(self.z as int) as u32,
        }
    }

    /// Converts each component to the nearest scalar.
    pub fn as_vec3(self) -> (v: Vec3)
        ensures
            v == self.spec_as_vec3(),
    {
        Vec3 { x: scalar_from_i32(self.x), y: scalar_from_i32(self.y), z: scalar_from_i32(self.z) }
    }
}

/// A rotation as a unit quaternion of four scalars.
#[derive(Clone, Copy, Debug, PartialEq, Eq, Structural)]
pub struct Quat {
    pub x: u32,
    pub y: u32,
    pub z: u32,
    pub w: u32,
}

impl Quat {
    /// The rotation that turns nothing.
    pub open spec fn identity() -> Quat {
        Quat { x: ZERO, y: ZERO, z: ZERO, w: ONE }
    }

    /// A quarter turn about the z axis.
    pub open spec fn quarter_turn_z() -> Quat {
        Quat { x: ZERO, y: ZERO, z: HALF_SQRT_2, w: HALF_SQRT_2 }
    }
}

/// Where an object stands: translation, rotation and scale.
#[derive(Clone, Copy, Debug, PartialEq, Eq, Structural)]
pub struct Transform {
    pub translation: Vec3,
    pub rotation: Quat,
    pub scale: Vec3,
}

impl Transform {
    /// The placement at the origin, unrotated, at scale one.
    pub open spec fn identity() -> Transform {
        Transform { translation: Vec3::zero(), rotation: Quat::identity(), scale: Vec3::one() }
    }

    /// The placement moved to `translation`, unrotated, at scale one.
    pub open spec fn at(translation: Vec3) -> Transform {
        Transform { translation, rotation: Quat::identity(), scale: Vec3::one() }
    }

    /// The placement moved to `translation`, unrotated, at scale one.
    pub fn from_translation(translation: Vec3) -> (t: Transform)
        ensures
            t == Transform::at(translation),
    {
        Transform {
            translation,
            rotation: Quat { x: ZERO, y: ZERO, z: ZERO, w: ONE },
            scale: Vec3 { x: ONE, y: ONE, z: ONE },
        }
    }
}

impl Default for Transform {
    fn default() -> (t: Transform)
        ensures
            t == Transform::identity(),
    {
        Transform {
            translation: Vec3 { x: ZERO, y: ZERO, z: ZERO },
            rotation: Quat { x: ZERO, y: ZERO, z: ZERO, w: ONE },
            scale: Vec3 { x: ONE, y: ONE, z: ONE },
        }
    }
}

/// A colour: red, green, blue and opacity, each a scalar.
#[derive(Clone, Copy, Debug, PartialEq, Eq, Structural)]
pub struct Color {
    pub r: u32,
    pub g: u32,
    pub b: u32,
    pub a: u32,
}

impl Color {
    /// Opaque white.
    pub open spec fn spec_white() -> Color {
        Color { r: ONE, g: ONE, b: ONE, a: ONE }
    }

    /// Opaque black.
    pub open spec fn spec_black() -> Color {
        Color { r: ZERO, g: ZERO, b: ZERO, a: ONE }
    }

    /// Opaque blue.
    pub open spec fn spec_blue() -> Color {
        Color { r: ZERO, g: ZERO, b: ONE, a: ONE }
    }

    /// Opaque silver: three quarters of white.
    pub open spec fn spec_silver() -> Color {
        Color { r: THREE_QUARTERS, g: THREE_QUARTERS, b: THREE_QUARTERS, a: ONE }
    }

    /// Opaque white.
    #[verifier::when_used_as_spec(spec_white)]
    pub fn white() -> (c: Color)
        ensures
            c == Color::spec_white(),
    {
        Color { r: ONE, g: ONE, b: ONE, a: ONE }
    }

    /// Opaque black.
    #[verifier::when_used_as_spec(spec_black)]
    pub fn black() -> (c: Color)
        ensures
            c == Color::spec_black(),
    {
        Color { r: ZERO, g: ZERO, b: ZERO, a: ONE }
    }

    /// Opaque blue.
    #[verifier::when_used_as_spec(spec_blue)]
    pub fn blue() -> (c: Color)
        ensures
            c == Color::spec_blue(),
    {
        Color { r: ZERO, g: ZERO, b: ONE, a: ONE }
    }

    /// Opaque silver: three quarters of white.
    #[verifier::when_used_as_spec(spec_silver)]
    pub fn silver() -> (c: Color)
        ensures
            c == Color::spec_silver(),
    {
        Color { r: THREE_QUARTERS, g: THREE_QUARTERS, b: THREE_QUARTERS, a: ONE }
    }
}

} // verus!
