//! Single-precision numbers, held by their IEEE 754 bit patterns: what the
//! player needs of them without doing arithmetic on them.

use vstd::arithmetic::power2;
use vstd::prelude::*;

verus! {

/// A single-precision number, by its bit pattern.
#[derive(Debug, Clone, Copy, PartialEq, Eq, Structural)]
pub struct Single {
    pub bits: u32,
}

/// The pattern of 0.0.
pub const ZERO_BITS: u32 = 0;

/// The pattern of 0.7, to the nearest single-precision number.
pub const SEVEN_TENTHS_BITS: u32 = 0x3f33_3333;

/// The pattern of 1.0.
pub const ONE_BITS: u32 = 0x3f80_0000;

/// The pattern of positive infinity.
pub const INFINITY_BITS: u32 = 0x7f80_0000;

/// The pattern of -0.0, and the sign bit.
pub const NEGATIVE_ZERO_BITS: u32 = 0x8000_0000;

/// The pattern of negative infinity.
pub const NEGATIVE_INFINITY_BITS: u32 = 0xff80_0000;

impl Single {
    /// Not a number.
    pub open spec fn is_nan(self) -> bool {
        ||| INFINITY_BITS < self.bits < NEGATIVE_ZERO_BITS
        ||| NEGATIVE_INFINITY_BITS < self.bits
    }

    /// A number less than zero. Among numbers of one sign, the patterns grow
    /// with the magnitude.
    pub open spec fn below_zero(self) -> bool {
        NEGATIVE_ZERO_BITS < self.bits <= NEGATIVE_INFINITY_BITS
    }

    /// A number greater than one.
    pub open spec fn above_one(self) -> bool {
        ONE_BITS < self.bits <= INFINITY_BITS
    }

    /// A number from 0.0 to 1.0; -0.0 equals 0.0.
    pub open spec fn in_unit(self) -> bool {
        self.bits <= ONE_BITS || self.bits == NEGATIVE_ZERO_BITS
    }

    /// The nearest number from 0.0 to 1.0; not-a-number gives 0.0.
    pub open spec fn clamped(self) -> Single {
        if self.below_zero() || self.is_nan() {
            Single { bits: ZERO_BITS }
        } else if self.above_one() {
            Single { bits: ONE_BITS }
        } else {
            self
        }
    }

    /// The whole part of the number: the fraction is cut off, what is not above
    /// zero and not-a-number give zero, and what is too large gives the
    /// greatest number of 32 bits. A positive number is its 24 leading bits,
    /// moved by its exponent.
    pub open spec fn whole(self) -> nat {
        let exponent = (self.bits / 0x0080_0000) as nat;
        let leading = (0x0080_0000 + self.bits % 0x0080_0000) as nat;
        if self.is_nan() || self.bits >= NEGATIVE_ZERO_BITS || exponent < 127 {
            0
        } else if exponent <= 150 {
            leading / power2::pow2((150 - exponent) as nat)
        } else if exponent <= 158 {
            leading * power2::pow2((exponent - 150) as nat)
        } else {
            u32::MAX as nat
        }
    }

    pub fn zero() -> (r: Single)
        ensures
            r == (Single { bits: ZERO_BITS }),
    {
        Single { bits: ZERO_BITS }
    }

    pub fn one() -> (r: Single)
        ensures
            r == (Single { bits: ONE_BITS }),
    {
        Single { bits: ONE_BITS }
    }

    pub fn clamp_unit(self) -> (r: Single)
        ensures
            r == self.clamped(),
    {
        if self.bits <= ONE_BITS || self.bits == NEGATIVE_ZERO_BITS {
            self
        } else if self.bits <= INFINITY_BITS {
            Single { bits: ONE_BITS }
        } else {
            Single { bits: ZERO_BITS }
        }
    }

    /// The whole part of the number.
    pub fn whole_part(self) -> (r: u32)
        ensures
            r == self.whole(),
    {
        let exponent: u32 = self.bits / 0x0080_0000;
        let leading: u32 = 0x0080_0000 + self.bits % 0x0080_0000;
        if self.bits > INFINITY_BITS || exponent < 127 {
            0
        } else if exponent <= 150 {
            let power: u32 = power_of_two(150 - exponent);
            leading / power
        } else if exponent <= 158 {
            let power: u32 = power_of_two(exponent - 150);
            assert(leading * power <= 0xffff_ffff) by (nonlinear_arith)
                requires
                    leading < 0x0100_0000,
                    power <= 256,
            ;
            leading * power
        } else {
            u32::MAX
        }
    }
}

fn power_of_two(n: u32) -> (r: u32)
    requires
        n <= 23,
    ensures
        r == power2::pow2(n as nat),
        0 < r,
        n <= 8 ==> r <= 256,
{
    let mut r: u32 = 1;
    let mut i: u32 = 0;
    proof {
        power2::lemma2_to64();
    }
    while i < n
        invariant
            i <= n <= 23,
            r == power2::pow2(i as nat),
        decreases n - i,
    {
        proof {
            power2::lemma2_to64();
            power2::lemma_pow2_unfold((i + 1) as nat);
            power2::lemma_pow2_strictly_increases((i + 1) as nat, 24);
        }
        r = r * 2;
        i = i + 1;
    }
    proof {
        power2::lemma2_to64();
        power2::lemma_pow2_pos(n as nat);
        if n < 8 {
            power2::lemma_pow2_strictly_increases(n as nat, 8);
        }
    }
    r
}

/// The whole part of a number from zero to one is zero, but for one itself, and
/// the whole part of a number below zero is zero.
pub proof fn law_whole_part(x: Single)
    ensures
        x.is_nan() || x.below_zero() ==> x.whole() == 0,
        x.in_unit() ==> x.whole() == (if x.bits == ONE_BITS {
            1nat
        } else {
            0
        }),
        x.whole() <= u32::MAX,
{
    power2::lemma2_to64();
    let exponent = (x.bits / 0x0080_0000) as nat;
    let leading = (0x0080_0000 + x.bits % 0x0080_0000) as nat;
    if 127 <= exponent <= 150 {
        let power = power2::pow2((150 - exponent) as nat);
        power2::lemma_pow2_pos((150 - exponent) as nat);
        assert(leading / power <= leading) by (nonlinear_arith)
            requires
                power > 0,
        ;
        if x.bits == ONE_BITS {
            assert(power == 0x0080_0000);
            assert(leading / power == 1) by (nonlinear_arith)
                requires
                    leading == 0x0080_0000,
                    power == 0x0080_0000,
            ;
        }
    } else if 150 < exponent <= 158 {
        let power = power2::pow2((exponent - 150) as nat);
        if exponent < 158 {
            power2::lemma_pow2_strictly_increases((exponent - 150) as nat, 8);
        }
        assert(leading * power <= 0xffff_ffff) by (nonlinear_arith)
            requires
                leading < 0x0100_0000,
                power <= 256,
        ;
    }
}

/// A number is below zero, from zero to one, above one, or none at all, and
/// only one of these. Clamping always gives one from zero to one, and leaves such
/// a one alone.
pub proof fn law_clamping(x: Single)
    ensures
        x.is_nan() || x.below_zero() || x.in_unit() || x.above_one(),
        x.is_nan() ==> !x.below_zero() && !x.in_unit() && !x.above_one(),
        x.below_zero() ==> !x.in_unit() && !x.above_one(),
        x.in_unit() ==> !x.above_one(),
        x.clamped().in_unit(),
        x.in_unit() ==> x.clamped() == x,
        x.is_nan() ==> x.clamped() == (Single { bits: ZERO_BITS }),
        x.clamped().clamped() == x.clamped(),
{
}

/// The distance between neighbouring single-precision numbers at `n`, for whole
/// numbers of 32 bits; it is never less than one here.
pub open spec fn single_step(n: u32) -> nat {
    if n < 0x0100_0000 {
        1
    } else if n < 0x0200_0000 {
        2
    } else if n < 0x0400_0000 {
        4
    } else if n < 0x0800_0000 {
        8
    } else if n < 0x1000_0000 {
        16
    } else if n < 0x2000_0000 {
        32
    } else if n < 0x4000_0000 {
        64
    } else if n < 0x8000_0000 {
        128
    } else {
        256
    }
}

/// `n` after a passage through single precision: the nearest multiple of the
/// step, the even one of two that are as near, and at most the greatest number
/// of 32 bits.
pub open spec fn through_single(n: u32) -> nat {
    let step = single_step(n);
    let down = n as nat / step;
    let rest = n as nat % step;
    let near = if 2 * rest > step || (2 * rest == step && down % 2 == 1) {
        down + 1
    } else {
        down
    };
    if near * step > u32::MAX {
        u32::MAX as nat
    } else {
        near * step
    }
}

/// Up to two to the twenty-fourth, single precision loses nothing.
pub proof fn law_small_numbers_are_exact(n: u32)
    requires
        n <= 0x0100_0000,
    ensures
        through_single(n) == n,
{
    let step = single_step(n);
    let down = n as nat / step;
    let rest = n as nat % step;
    if n < 0x0100_0000 {
        assert(down == n && rest == 0) by (nonlinear_arith)
            requires
                step == 1,
                down == n as nat / step,
                rest == n as nat % step,
        ;
        assert(down * step == n) by (nonlinear_arith)
            requires
                step == 1,
                down == n,
        ;
    } else {
        assert(down == 0x0080_0000 && rest == 0) by (nonlinear_arith)
            requires
                step == 2,
                n == 0x0100_0000,
                down == n as nat / step,
                rest == n as nat % step,
        ;
    }
}

fn single_step_of(n: u32) -> (r: u64)
    ensures
        r == single_step(n),
        1 <= r <= 256,
{
    if n < 0x0100_0000 {
        1
    } else if n < 0x0200_0000 {
        2
    } else if n < 0x0400_0000 {
        4
    } else if n < 0x0800_0000 {
        8
    } else if n < 0x1000_0000 {
        16
    } else if n < 0x2000_0000 {
        32
    } else if n < 0x4000_0000 {
        64
    } else if n < 0x8000_0000 {
        128
    } else {
        256
    }
}

/// A whole number of seconds as single precision keeps it.
pub fn round_to_single(n: u32) -> (r: u32)
    ensures
        r == through_single(n),
{
    let step: u64 = single_step_of(n);
    let wide: u64 = n as u64;
    let down: u64 = wide / step;
    let rest: u64 = wide % step;
    let near: u64 = if 2 * rest > step || (2 * rest == step && down % 2 == 1) {
        down + 1
    } else {
        down
    };
    assert(near * step <= 0x1_0000_0000 * 512) by (nonlinear_arith)
        requires
            near <= 0x1_0000_0000,
            step <= 256,
            1 <= step,
    ;
    let value: u64 = near * step;
    if value > u32::MAX as u64 {
        u32::MAX
    } else {
        value as u32
    }
}

/// Clamping goes by the pattern: from that of 0.0 to that of 1.0, and for -0.0, it
/// keeps the number; above, up to infinity, it gives 1.0; and for what is negative, or
/// no number, 0.0. It never changes the order of two numbers that are not negative.
pub proof fn law_clamping_by_pattern(x: Single, y: Single)
    ensures
        x.bits <= 0x3f80_0000 ==> x.clamped() == x,
        0x3f80_0000 < x.bits <= 0x7f80_0000 ==> x.clamped() == (Single { bits: 0x3f80_0000 }),
        0x7f80_0000 < x.bits < 0x8000_0000 ==> x.clamped() == (Single { bits: 0 }),
        x.bits == 0x8000_0000 ==> x.clamped() == x,
        0x8000_0000 < x.bits ==> x.clamped() == (Single { bits: 0 }),
        x.bits <= y.bits <= 0x7f80_0000 ==> x.clamped().bits <= y.clamped().bits,
        x.in_unit() <==> x.bits <= 0x3f80_0000 || x.bits == 0x8000_0000,
{
}

/// The whole part is the greatest whole number that is not above the number. A number
/// of which the pattern holds the exponent and the leading bits is these bits times a
/// power of two, and the whole part brackets that; a whole number is its own whole
/// part, as long as 32 bits hold it, and what they cannot hold gives their greatest.
pub proof fn law_whole_part_is_below(x: Single, exponent: nat, fraction: nat)
    requires
        fraction < 0x0080_0000,
        exponent < 255,
        x.bits == exponent * 0x0080_0000 + fraction,
    ensures
        exponent < 127 ==> x.whole() == 0,
        127 <= exponent <= 150 ==> {
            let power = power2::pow2((150 - exponent) as nat);
            x.whole() * power <= 0x0080_0000 + fraction < (x.whole() + 1) * power
        },
        150 < exponent <= 158 ==> x.whole() == (0x0080_0000 + fraction) * power2::pow2(
            (exponent - 150) as nat,
        ),
        158 < exponent ==> x.whole() == 0xffff_ffff,
{
    assert(x.bits / 0x0080_0000 == exponent);
    assert(x.bits % 0x0080_0000 == fraction);
    if 127 <= exponent <= 150 {
        let power = power2::pow2((150 - exponent) as nat);
        power2::lemma_pow2_pos((150 - exponent) as nat);
        let leading = 0x0080_0000 + fraction;
        let whole = leading / power;
        assert(whole * power <= leading < (whole + 1) * power) by (nonlinear_arith)
            requires
                power > 0,
                whole == leading / power,
        ;
    }
}

/// What is infinite gives the greatest number of 32 bits, and what is negative, or no
/// number, zero.
pub proof fn law_whole_part_of_the_rest(x: Single)
    ensures
        x.bits == 0x7f80_0000 ==> x.whole() == 0xffff_ffff,
        x.bits > 0x7f80_0000 ==> x.whole() == 0,
{
}

/// Single precision keeps twenty-four binary digits: a number that needs more becomes
/// the nearest one that does not, the even one of two that are as near. Only what would
/// pass the greatest number of 32 bits stays there.
pub proof fn law_single_precision_rounds(n: u32, spare: nat)
    requires
        spare <= 8,
        n < 0x0100_0000 * power2::pow2(spare),
        spare > 0 ==> n >= 0x0080_0000 * power2::pow2(spare),
    ensures
        n >= 0xffff_ff80 ==> through_single(n) == 0xffff_ffff,
        n < 0xffff_ff80 ==> {
            let step = power2::pow2(spare) as int;
            let r = through_single(n) as int;
            &&& r % step == 0
            &&& -step <= 2 * (r - n) <= step
            &&& 2 * (r - n) == step || 2 * (n - r) == step ==> (r / step) % 2 == 0
        },
{
    power2::lemma2_to64();
    let step = power2::pow2(spare);
    assert(step == single_step(n)) by {
        assert(spare == 0 || spare == 1 || spare == 2 || spare == 3 || spare == 4 || spare == 5
            || spare == 6 || spare == 7 || spare == 8);
    }
    let down = n as nat / step;
    let rest = n as nat % step;
    let near = if 2 * rest > step || (2 * rest == step && down % 2 == 1) {
        down + 1
    } else {
        down
    };
    assert(n == down * step + rest && rest < step) by (nonlinear_arith)
        requires
            step > 0,
            down == n as nat / step,
            rest == n as nat % step,
    ;
    assert((down + 1) * step == down * step + step) by (nonlinear_arith);
    assert((near * step) as int % step as int == 0 && (near * step) as int / step as int == near)
        by (nonlinear_arith)
        requires
            step > 0,
    ;
    if n >= 0xffff_ff80 {
        assert(step == 256);
    } else if spare < 8 {
        assert(near * step <= n + step);
    }
}

} // verus!
