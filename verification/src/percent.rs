//! Percentages as they are reported: IEEE 754 doubles, compared exactly.
//!
//! Touch devices and configuration files state positions in percent of the
//! screen as doubles. A [`Percent`] holds the 64-bit pattern of the double
//! as it came, never a rounded value, and every comparison is decided on
//! the exact value that the pattern stands for, in integer arithmetic.
//!
//! Every finite double is a whole multiple of `2^-1074`. The model of a
//! value is its number of such steps, [`Percent::steps`]. Thresholds are
//! whole numbers of units, a unit being a thousandth of a percent.

use vstd::prelude::*;
use vstd::arithmetic::div_mod::{
    lemma_basic_div, lemma_fundamental_div_mod, lemma_fundamental_div_mod_converse,
    lemma_mod_bound,
};
use vstd::arithmetic::power2::{
    lemma2_to64, lemma2_to64_rest, lemma_pow2_adds, lemma_pow2_pos,
    lemma_pow2_strictly_increases, lemma_pow2_unfold, pow2,
};
use vstd::bits::lemma_u64_shl_is_mul;

verus! {

/// Number of units in one percent of an axis.
pub const UNITS_PER_PERCENT: i32 = 1_000;

/// The far end of each axis, 100 percent, in units.
pub const FULL_SCALE: i32 = 100_000;

/// Number of steps in one percent: `2^1074`.
pub open spec fn steps_per_percent() -> int {
    pow2(1074) as int
}

/// The eleven exponent bits of a pattern.
pub open spec fn exponent_of(bits: u64) -> int {
    (bits as int / 0x10_0000_0000_0000) % 0x800
}

/// The fifty-two fraction bits of a pattern.
pub open spec fn fraction_of(bits: u64) -> int {
    bits as int % 0x10_0000_0000_0000
}

/// The number of steps that an exponent field and a fraction field stand
/// for, without the sign. With the highest exponent field and no fraction
/// this is the count that stands for an infinity: more than any finite
/// double has.
pub open spec fn magnitude_of(exponent: int, fraction: int) -> int {
    if exponent == 0 {
        fraction
    } else {
        (0x10_0000_0000_0000 + fraction) * pow2((exponent - 1) as nat)
    }
}

/// A percentage of the screen, held as the bit pattern of the double that
/// reported it.
#[derive(Clone, Copy, Debug, PartialEq, Eq, Structural)]
pub struct Percent {
    pub bits: u64,
}

impl Percent {
    /// Whether the sign bit is set.
    pub open spec fn is_negative(self) -> bool {
        self.bits >= 0x8000_0000_0000_0000
    }

    /// Whether the pattern is a NaN, which stands for no value and
    /// compares false with everything.
    pub open spec fn is_nan(self) -> bool {
        exponent_of(self.bits) == 0x7ff && fraction_of(self.bits) != 0
    }

    /// The value in steps of `2^-1074` percent, without its sign.
    pub open spec fn magnitude(self) -> int {
        magnitude_of(exponent_of(self.bits), fraction_of(self.bits))
    }

    /// The value in steps of `2^-1074` percent. Both zeros have none.
    pub open spec fn steps(self) -> int {
        if self.is_negative() {
            -self.magnitude()
        } else {
            self.magnitude()
        }
    }

    /// Whether this value is less than the other. False if either is a NaN.
    pub open spec fn lt(self, other: Percent) -> bool {
        !self.is_nan() && !other.is_nan() && self.steps() < other.steps()
    }

    /// Whether this value is at most the other. False if either is a NaN.
    pub open spec fn le(self, other: Percent) -> bool {
        !self.is_nan() && !other.is_nan() && self.steps() <= other.steps()
    }

    /// Whether this value is less than `units` thousandths of a percent.
    /// False for a NaN.
    pub open spec fn below(self, units: int) -> bool {
        !self.is_nan() && self.steps() * UNITS_PER_PERCENT < units * steps_per_percent()
    }

    /// Whether this value is more than `units` thousandths of a percent.
    /// False for a NaN.
    pub open spec fn above(self, units: int) -> bool {
        !self.is_nan() && self.steps() * UNITS_PER_PERCENT > units * steps_per_percent()
    }

    /// The pattern's place in the order of all patterns by value.
    spec fn key(self) -> int {
        let unsigned = exponent_of(self.bits) * 0x10_0000_0000_0000 + fraction_of(self.bits);
        if self.is_negative() {
            -unsigned
        } else {
            unsigned
        }
    }

    /// The percentage that a double with this bit pattern states.
    pub fn new(bits: u64) -> (percent: Percent)
        ensures
            percent.bits == bits,
    {
        Percent { bits }
    }

    /// Decides [`Percent::is_nan`].
    pub fn is_not_a_number(&self) -> (nan: bool)
        ensures
            nan == self.is_nan(),
    {
        let bits: u64 = self.bits;
        let field: u64 = (bits >> 52) & 0x7ff;
        let fraction: u64 = bits & 0xf_ffff_ffff_ffff;
        assert(field == (bits / 0x10_0000_0000_0000) % 0x800) by (bit_vector)
            requires
                field == (bits >> 52) & 0x7ff,
        ;
        assert(fraction == bits % 0x10_0000_0000_0000) by (bit_vector)
            requires
                fraction == bits & 0xf_ffff_ffff_ffff,
        ;
        field == 0x7ff && fraction != 0
    }

    /// The same value with the other sign.
    fn negated(&self) -> (opposite: Percent)
        ensures
            opposite.steps() == -self.steps(),
            opposite.is_nan() == self.is_nan(),
    {
        let bits: u64 = self.bits;
        let flipped: u64 = bits ^ 0x8000_0000_0000_0000;
        assert(flipped / 0x10_0000_0000_0000 % 0x800 == bits / 0x10_0000_0000_0000 % 0x800)
            by (bit_vector)
            requires
                flipped == bits ^ 0x8000_0000_0000_0000,
        ;
        assert(flipped % 0x10_0000_0000_0000 == bits % 0x10_0000_0000_0000) by (bit_vector)
            requires
                flipped == bits ^ 0x8000_0000_0000_0000,
        ;
        assert((flipped >= 0x8000_0000_0000_0000) == !(bits >= 0x8000_0000_0000_0000))
            by (bit_vector)
            requires
                flipped == bits ^ 0x8000_0000_0000_0000,
        ;
        Percent { bits: flipped }
    }

    /// Computes [`Percent::key`].
    fn order_key(&self) -> (key: i64)
        ensures
            key == self.key(),
    {
        let bits: u64 = self.bits;
        let unsigned: u64 = bits & 0x7fff_ffff_ffff_ffff;
        assert(unsigned == ((bits / 0x10_0000_0000_0000) % 0x800) * 0x10_0000_0000_0000 + bits
            % 0x10_0000_0000_0000 && unsigned <= 0x7fff_ffff_ffff_ffff) by (bit_vector)
            requires
                unsigned == bits & 0x7fff_ffff_ffff_ffff,
        ;
        if bits >= 0x8000_0000_0000_0000 {
            -(unsigned as i64)
        } else {
            unsigned as i64
        }
    }

    /// Decides [`Percent::lt`].
    pub fn less_than(&self, other: &Percent) -> (less: bool)
        ensures
            less == self.lt(*other),
    {
        if self.is_not_a_number() || other.is_not_a_number() {
            return false;
        }
        proof {
            lemma_key_order(*self, *other);
        }
        self.order_key() < other.order_key()
    }

    /// Decides [`Percent::le`].
    pub fn at_most(&self, other: &Percent) -> (within: bool)
        ensures
            within == self.le(*other),
    {
        if self.is_not_a_number() || other.is_not_a_number() {
            return false;
        }
        proof {
            lemma_key_order(*self, *other);
        }
        self.order_key() <= other.order_key()
    }

    /// Decides [`Percent::below`] for a bound of moderate size.
    pub(crate) fn below_bound(&self, units: i64) -> (below: bool)
        requires
            -0x2_0000_0000 <= units <= 0x2_0000_0000,
        ensures
            below == self.below(units as int),
    {
        if self.is_not_a_number() {
            return false;
        }
        match floor_scaled(self.bits, 1000) {
            Some(floor) => {
                proof {
                    lemma_below_is_floor(*self, units as int);
                }
                floor < units
            },
            None => {
                proof {
                    lemma_beyond_every_bound(*self, units as int);
                }
                self.bits >= 0x8000_0000_0000_0000
            },
        }
    }

    /// Decides [`Percent::above`] for a bound of moderate size.
    pub(crate) fn above_bound(&self, units: i64) -> (above: bool)
        requires
            -0x2_0000_0000 <= units <= 0x2_0000_0000,
        ensures
            above == self.above(units as int),
    {
        let opposite = self.negated();
        assert(opposite.below(-units) == self.above(units as int)) by (nonlinear_arith)
            requires
                opposite.steps() == -self.steps(),
                opposite.is_nan() == self.is_nan(),
                opposite.below(-units) == (!opposite.is_nan() && opposite.steps() * 1000 < (-units)
                    * steps_per_percent()),
                self.above(units as int) == (!self.is_nan() && self.steps() * 1000 > units
                    * steps_per_percent()),
        ;
        opposite.below_bound(-units)
    }

    /// Decides [`Percent::below`].
    pub fn below_units(&self, units: i32) -> (below: bool)
        ensures
            below == self.below(units as int),
    {
        self.below_bound(units as i64)
    }

    /// Decides [`Percent::above`].
    pub fn above_units(&self, units: i32) -> (above: bool)
        ensures
            above == self.above(units as int),
    {
        self.above_bound(units as i64)
    }
}

/// The integer `m`, with its sign, of a pattern's value `m / 2^p`.
spec fn signed_significand(bits: u64) -> int {
    let magnitude = if exponent_of(bits) == 0 {
        fraction_of(bits)
    } else {
        0x10_0000_0000_0000 + fraction_of(bits)
    };
    if bits >= 0x8000_0000_0000_0000 {
        -magnitude
    } else {
        magnitude
    }
}

/// The number `p` of a pattern's value `m / 2^p`.
spec fn binary_places(bits: u64) -> int {
    if exponent_of(bits) == 0 {
        1074
    } else {
        1075 - exponent_of(bits)
    }
}

/// The value of a pattern with at least one binary place, times `factor`,
/// rounded down to an integer.
spec fn scaled_floor(bits: u64, factor: int) -> int {
    (signed_significand(bits) * factor) / (pow2(binary_places(bits) as nat) as int)
}

/// Computes [`scaled_floor`] for a pattern whose value is below `2^53` in
/// magnitude. For every other pattern the result is `None`.
fn floor_scaled(bits: u64, factor: u64) -> (scaled: Option<i64>)
    requires
        0 < factor <= 2000,
    ensures
        match scaled {
            Some(floor) => exponent_of(bits) < 1075 && floor == scaled_floor(bits, factor as int),
            None => exponent_of(bits) >= 1075,
        },
{
    let field: u64 = (bits >> 52) & 0x7ff;
    let fraction: u64 = bits & 0xf_ffff_ffff_ffff;
    let negative: bool = bits >= 0x8000_0000_0000_0000;
    assert(field == (bits / 0x10_0000_0000_0000) % 0x800) by (bit_vector)
        requires
            field == (bits >> 52) & 0x7ff,
    ;
    assert(fraction == bits % 0x10_0000_0000_0000) by (bit_vector)
        requires
            fraction == bits & 0xf_ffff_ffff_ffff,
    ;
    if field >= 1075 {
        return None;
    }
    let significand: u64 = if field == 0 {
        fraction
    } else {
        fraction + 0x10_0000_0000_0000
    };
    if significand == 0 {
        assert(scaled_floor(bits, factor as int) == 0) by {
            lemma_pow2_pos(1074);
            lemma_basic_div(0, pow2(1074) as int);
            assert(signed_significand(bits) * factor == 0) by (nonlinear_arith)
                requires
                    signed_significand(bits) == 0,
            ;
        }
        return Some(0);
    }
    assert(significand * factor <= 0x1f_ffff_ffff_ffff * 2000) by (nonlinear_arith)
        requires
            significand <= 0x1f_ffff_ffff_ffff,
            0 < factor <= 2000,
    ;
    assert(significand * factor >= significand) by (nonlinear_arith)
        requires
            0 < factor,
    ;
    let scaled: u64 = significand * factor;
    let ghost signed: int = signed_significand(bits) * factor;
    assert(signed == if negative { -(scaled as int) } else { scaled as int }) by (nonlinear_arith)
        requires
            scaled == significand * factor,
            signed == signed_significand(bits) * factor,
            signed_significand(bits) == if negative { -(significand as int) } else { significand as int },
    ;
    let places: u64 = if field == 0 {
        1074
    } else {
        1075 - field
    };
    if places >= 64 {
        proof {
            lemma2_to64();
            if places > 64 {
                lemma_pow2_strictly_increases(64, places as nat);
            }
            let unit = pow2(places as nat) as int;
            if negative {
                lemma_fundamental_div_mod_converse(signed, unit, -1, unit - scaled);
            } else {
                lemma_basic_div(signed, unit);
            }
        }
        return if negative {
            Some(-1)
        } else {
            Some(0)
        };
    }
    let unit: u64 = 1u64 << places;
    proof {
        lemma2_to64();
        lemma2_to64_rest();
        lemma_pow2_strictly_increases(places as nat, 64);
        lemma_pow2_strictly_increases(0, places as nat);
        lemma_u64_shl_is_mul(1, places);
    }
    let whole: u64 = scaled / unit;
    let rest: u64 = scaled % unit;
    assert(scaled == whole * unit + rest && 2 * whole <= scaled) by (nonlinear_arith)
        requires
            unit >= 2,
            whole == scaled as int / unit as int,
            rest == scaled as int % unit as int,
            scaled >= 0,
    ;
    if negative {
        let down: u64 = if rest == 0 {
            whole
        } else {
            whole + 1
        };
        proof {
            if rest == 0 {
                assert(signed == (-(down as int)) * unit + 0) by (nonlinear_arith)
                    requires
                        signed == -(scaled as int),
                        scaled == down * unit,
                ;
                lemma_fundamental_div_mod_converse(signed, unit as int, -(down as int), 0);
            } else {
                assert(signed == (-(down as int)) * unit + (unit - rest)) by (nonlinear_arith)
                    requires
                        signed == -(scaled as int),
                        scaled == (down - 1) * unit + rest,
                ;
                lemma_fundamental_div_mod_converse(
                    signed,
                    unit as int,
                    -(down as int),
                    unit - rest,
                );
            }
        }
        Some(-(down as i64))
    } else {
        Some(whole as i64)
    }
}

/// For a pattern with the value `m / 2^p`, the product with `factor`,
/// rounded down, is below an integer `bound` exactly when the product
/// itself is: when `m * factor` is below `bound * 2^p`.
proof fn lemma_rounding_down_keeps_order(bits: u64, factor: int, bound: int)
    requires
        binary_places(bits) >= 0,
    ensures
        scaled_floor(bits, factor) < bound <==> signed_significand(bits) * factor < bound * pow2(
            binary_places(bits) as nat,
        ),
        scaled_floor(bits, factor) >= bound <==> signed_significand(bits) * factor >= bound
            * pow2(binary_places(bits) as nat),
{
    let product = signed_significand(bits) * factor;
    let unit = pow2(binary_places(bits) as nat) as int;
    lemma_pow2_pos(binary_places(bits) as nat);
    lemma_fundamental_div_mod(product, unit);
    lemma_mod_bound(product, unit);
    let whole = product / unit;
    let rest = product % unit;
    assert(whole < bound <==> product < bound * unit) by (nonlinear_arith)
        requires
            product == unit * whole + rest,
            0 <= rest < unit,
    ;
}


/// The product with a thousand, rounded down, is below a whole number of
/// units exactly when the value is.
proof fn lemma_below_is_floor(percent: Percent, units: int)
    requires
        exponent_of(percent.bits) < 1075,
    ensures
        scaled_floor(percent.bits, 1000) < units <==> percent.steps() * UNITS_PER_PERCENT < units
            * steps_per_percent(),
{
    let bits = percent.bits;
    let places = binary_places(bits) as nat;
    let scale = (1074 - places) as nat;
    let product = signed_significand(bits) * 1000;
    let unit = pow2(places) as int;
    let lift = pow2(scale) as int;
    lemma_rounding_down_keeps_order(bits, 1000, units);
    lemma_pow2_adds(places, scale);
    lemma_pow2_pos(scale);
    lemma2_to64();
    assert(percent.steps() == signed_significand(bits) * lift) by (nonlinear_arith)
        requires
            percent.steps() == if bits >= 0x8000_0000_0000_0000 {
                -percent.magnitude()
            } else {
                percent.magnitude()
            },
            percent.magnitude() == if exponent_of(bits) == 0 {
                fraction_of(bits)
            } else {
                (0x10_0000_0000_0000 + fraction_of(bits)) * lift
            },
            exponent_of(bits) == 0 ==> lift == 1,
            signed_significand(bits) == if bits >= 0x8000_0000_0000_0000 {
                -(if exponent_of(bits) == 0 {
                    fraction_of(bits)
                } else {
                    0x10_0000_0000_0000 + fraction_of(bits)
                })
            } else {
                (if exponent_of(bits) == 0 {
                    fraction_of(bits)
                } else {
                    0x10_0000_0000_0000 + fraction_of(bits)
                })
            },
    ;
    assert((product < units * unit) <==> (percent.steps() * 1000 < units * steps_per_percent()))
        by (nonlinear_arith)
        requires
            lift > 0,
            percent.steps() == signed_significand(bits) * lift,
            product == signed_significand(bits) * 1000,
            steps_per_percent() == unit * lift,
    ;
}

/// A value of `2^53` or more in magnitude, an infinity included, lies
/// beyond every bound of moderate size, on the side of its sign.
proof fn lemma_beyond_every_bound(percent: Percent, units: int)
    requires
        exponent_of(percent.bits) >= 1075,
        -0x2_0000_0000 <= units <= 0x2_0000_0000,
    ensures
        percent.is_negative() ==> percent.steps() * UNITS_PER_PERCENT < units * steps_per_percent(),
        !percent.is_negative() ==> percent.steps() * UNITS_PER_PERCENT > units
            * steps_per_percent(),
{
    let scale = (exponent_of(percent.bits) - 1) as nat;
    let lift = pow2(scale) as int;
    let grid = steps_per_percent();
    if scale > 1074 {
        lemma_pow2_strictly_increases(1074, scale);
    }
    lemma_pow2_pos(1074);
    let fraction = fraction_of(percent.bits);
    assert(percent.magnitude() * 1000 > 0x2_0000_0000 * grid) by (nonlinear_arith)
        requires
            percent.magnitude() == (0x10_0000_0000_0000 + fraction) * lift,
            fraction >= 0,
            lift >= grid,
            grid > 0,
    ;
    assert(-0x2_0000_0000 * grid <= units * grid <= 0x2_0000_0000 * grid) by (nonlinear_arith)
        requires
            grid > 0,
            -0x2_0000_0000 <= units <= 0x2_0000_0000,
    ;
}

/// A larger pattern, read without its sign, stands for a larger magnitude.
proof fn lemma_magnitude_order(e1: int, f1: int, e2: int, f2: int)
    requires
        0 <= e1 < 0x800,
        0 <= e2 < 0x800,
        0 <= f1 < 0x10_0000_0000_0000,
        0 <= f2 < 0x10_0000_0000_0000,
        e1 * 0x10_0000_0000_0000 + f1 < e2 * 0x10_0000_0000_0000 + f2,
    ensures
        magnitude_of(e1, f1) < magnitude_of(e2, f2),
{
    if e1 == e2 {
        if e1 != 0 {
            let lift = pow2((e1 - 1) as nat) as int;
            lemma_pow2_pos((e1 - 1) as nat);
            assert((0x10_0000_0000_0000 + f1) * lift < (0x10_0000_0000_0000 + f2) * lift)
                by (nonlinear_arith)
                requires
                    f1 < f2,
                    lift > 0,
            ;
        }
    } else {
        assert(e1 < e2);
        let lift2 = pow2((e2 - 1) as nat) as int;
        lemma_pow2_pos((e2 - 1) as nat);
        assert((0x10_0000_0000_0000 + f2) * lift2 >= 0x10_0000_0000_0000 * lift2
            >= 0x10_0000_0000_0000) by (nonlinear_arith)
            requires
                f2 >= 0,
                lift2 >= 1,
        ;
        if e1 != 0 {
            let lift1 = pow2((e1 - 1) as nat) as int;
            lemma_pow2_pos((e1 - 1) as nat);
            lemma_pow2_unfold(e1 as nat);
            if e1 < e2 - 1 {
                lemma_pow2_strictly_increases(e1 as nat, (e2 - 1) as nat);
            }
            assert((0x10_0000_0000_0000 + f1) * lift1 < 0x10_0000_0000_0000 * lift2)
                by (nonlinear_arith)
                requires
                    f1 < 0x10_0000_0000_0000,
                    lift1 > 0,
                    2 * lift1 <= lift2,
            ;
        }
    }
}

/// Patterns that are no NaN are ordered by their keys as by their values.
proof fn lemma_key_order(a: Percent, b: Percent)
    ensures
        a.key() < b.key() <==> a.steps() < b.steps(),
        a.key() <= b.key() <==> a.steps() <= b.steps(),
{
    let ea = exponent_of(a.bits);
    let fa = fraction_of(a.bits);
    let eb = exponent_of(b.bits);
    let fb = fraction_of(b.bits);
    let ka = ea * 0x10_0000_0000_0000 + fa;
    let kb = eb * 0x10_0000_0000_0000 + fb;
    if ka < kb {
        lemma_magnitude_order(ea, fa, eb, fb);
    } else if kb < ka {
        lemma_magnitude_order(eb, fb, ea, fa);
    } else {
        assert(ea == eb && fa == fb);
    }
    if 0 < ka {
        lemma_magnitude_order(0, 0, ea, fa);
    }
    if 0 < kb {
        lemma_magnitude_order(0, 0, eb, fb);
    }
}

/// The order of values is a strict order with the usual ties to `le`, and
/// a NaN stands in no relation to anything.
pub proof fn lemma_value_order(a: Percent, b: Percent, c: Percent)
    ensures
        !a.lt(a),
        a.lt(b) ==> !b.lt(a) && a.le(b),
        a.lt(b) && b.lt(c) ==> a.lt(c),
        a.le(b) && b.lt(c) ==> a.lt(c),
        a.lt(b) && b.le(c) ==> a.lt(c),
        a.le(b) <==> !a.is_nan() && !b.is_nan() && !b.lt(a),
        a.is_nan() ==> !a.lt(b) && !b.lt(a) && !a.le(b) && !b.le(a),
{
}

/// A bound that a value lies below, every smaller value lies below too,
/// and a bound that a value lies above, every larger value lies above too.
pub proof fn lemma_bound_follows_order(a: Percent, b: Percent, units: int)
    requires
        a.le(b),
    ensures
        b.below(units) ==> a.below(units),
        a.above(units) ==> b.above(units),
{
}

/// A value lies below a whole number of units, above it, or on it, and
/// never two of these.
pub proof fn lemma_bound_sides(a: Percent, units: int)
    ensures
        !(a.below(units) && a.above(units)),
        !a.is_nan() ==> a.below(units) || a.above(units) || a.steps() * UNITS_PER_PERCENT == units
            * steps_per_percent(),
{
}

} // verus!
