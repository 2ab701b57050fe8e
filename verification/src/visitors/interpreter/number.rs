//! Numbers are 64-bit floating-point values in the IEEE 754 binary64 format,
//! held as their bit patterns. What can be read off the bits is computed
//! here, on integers: sign, order, equality and the conversions from and to
//! whole numbers. Sums, products and quotients, and the conversions from and
//! to text, are handed in by the caller (see [`Numbers`]).
use vstd::prelude::*;

verus! {

/// The sign bit.
pub const SIGN: u64 = 0x8000_0000_0000_0000;

/// The bits of positive infinity: every exponent bit set, no fraction bit.
pub const INFINITY: u64 = 0x7ff0_0000_0000_0000;

/// Two to the power 52: the weight of the lowest exponent bit, and the
/// leading bit of a normal number's significand.
pub const HIDDEN: u64 = 0x10_0000_0000_0000;

/// The largest whole number below which every whole number has bits of its
/// own: two to the power 53.
pub const EXACT: u64 = 0x20_0000_0000_0000;

/// The four operations that the caller hands in.
#[derive(Debug, Clone, Copy, PartialEq, Eq, Structural)]
pub enum Arithmetic {
    Add,
    Subtract,
    Multiply,
    Divide,
}

/// The operations on numbers that the caller hands in, as mathematical
/// functions on bit patterns and text.
pub struct NumberModel {
    pub arithmetic: spec_fn(Arithmetic, u64, u64) -> u64,
    pub parse: spec_fn(Seq<char>) -> Option<u64>,
    pub format: spec_fn(u64) -> Seq<char>,
}

/// The operations on numbers that the caller hands in: `arithmetic` computes
/// a sum, difference, product or quotient of two bit patterns, `parse` reads
/// a number from text (`None` where the text is no number) and `format`
/// writes one as text.
pub struct Numbers<A, P, F> {
    pub arithmetic: A,
    pub parse: P,
    pub format: F,
}

impl<A: Fn(Arithmetic, u64, u64) -> u64, P: Fn(&String) -> Option<u64>, F: Fn(u64) -> String> Numbers<
    A,
    P,
    F,
> {
    /// `parse` may give `result` for the text `text`.
    pub open spec fn parses(&self, text: Seq<char>, result: Option<u64>) -> bool {
        exists|t: String| t@ == text && #[trigger] call_ensures(self.parse, (&t,), result)
    }

    /// `format` may give the text `text` for `bits`.
    pub open spec fn formats(&self, bits: u64, text: Seq<char>) -> bool {
        exists|t: String| t@ == text && #[trigger] call_ensures(self.format, (bits,), t)
    }

    /// The functions that the three operations compute.
    pub open spec fn model(&self) -> NumberModel {
        NumberModel {
            arithmetic: |operation: Arithmetic, a: u64, b: u64|
                choose|r: u64| call_ensures(self.arithmetic, (operation, a, b), r),
            parse: |text: Seq<char>| choose|r: Option<u64>| self.parses(text, r),
            format: |bits: u64| choose|text: Seq<char>| self.formats(bits, text),
        }
    }

    /// The three operations take every argument, and what they give depends
    /// on the values of their arguments alone.
    pub open spec fn sound(&self) -> bool {
        &&& forall|operation: Arithmetic, a: u64, b: u64| call_requires(self.arithmetic, (operation, a, b))
        &&& forall|operation: Arithmetic, a: u64, b: u64, r: u64|
            call_ensures(self.arithmetic, (operation, a, b), r) ==> r == (self.model().arithmetic)(
                operation,
                a,
                b,
            )
        &&& forall|text: &String| call_requires(self.parse, (text,))
        &&& forall|text: &String, r: Option<u64>|
            call_ensures(self.parse, (text,), r) ==> r == (self.model().parse)(text@)
        &&& forall|bits: u64| call_requires(self.format, (bits,))
        &&& forall|bits: u64, text: String|
            call_ensures(self.format, (bits,), text) ==> text@ == (self.model().format)(bits)
    }
}

/// The bits without the sign.
pub open spec fn magnitude(bits: u64) -> u64 {
    if bits >= SIGN {
        (bits - SIGN) as u64
    } else {
        bits
    }
}

/// The sign bit is set. This holds of negative zero too.
pub open spec fn is_negative(bits: u64) -> bool {
    bits >= SIGN
}

/// The bits are no number: every exponent bit set, and some fraction bit.
pub open spec fn is_nan(bits: u64) -> bool {
    magnitude(bits) > INFINITY
}

/// The bits with the sign changed.
pub open spec fn negated(bits: u64) -> u64 {
    if bits >= SIGN {
        (bits - SIGN) as u64
    } else {
        (bits + SIGN) as u64
    }
}

/// The place of a number in the order of all numbers: among numbers of one
/// sign a larger magnitude is further from zero, and both zeros have the
/// place 0.
pub open spec fn rank(bits: u64) -> int {
    if is_negative(bits) {
        -(magnitude(bits) as int)
    } else {
        magnitude(bits) as int
    }
}

/// `a < b`. What is no number is neither less nor more than anything.
pub open spec fn less(a: u64, b: u64) -> bool {
    !is_nan(a) && !is_nan(b) && rank(a) < rank(b)
}

/// `a == b`. What is no number is equal to nothing, not even to itself;
/// the two zeros are equal.
pub open spec fn same(a: u64, b: u64) -> bool {
    !is_nan(a) && !is_nan(b) && rank(a) == rank(b)
}

/// `whole` halved `times` times, each time rounding down.
pub open spec fn halved(whole: int, times: nat) -> int
    decreases times,
{
    if times == 0 {
        whole
    } else {
        halved(whole / 2, (times - 1) as nat)
    }
}

/// `whole` times two to the power `shift`, for the shifts up to 10.
pub open spec fn scaled(whole: int, shift: int) -> int {
    if shift <= 0 {
        whole
    } else if shift == 1 {
        whole * 2
    } else if shift == 2 {
        whole * 4
    } else if shift == 3 {
        whole * 8
    } else if shift == 4 {
        whole * 16
    } else if shift == 5 {
        whole * 32
    } else if shift == 6 {
        whole * 64
    } else if shift == 7 {
        whole * 128
    } else if shift == 8 {
        whole * 256
    } else if shift == 9 {
        whole * 512
    } else {
        whole * 1024
    }
}

/// The whole number that a number is cut to, towards zero. What is no
/// number gives 0, and what lies beyond the 64-bit signed integers gives the
/// nearest of them.
pub open spec fn truncated(bits: u64) -> i64 {
    let exponent = magnitude(bits) / HIDDEN;
    let whole = HIDDEN + magnitude(bits) % HIDDEN;
    if is_nan(bits) || exponent < 1023 {
        0
    } else if exponent >= 1086 {
        if is_negative(bits) {
            i64::MIN
        } else {
            i64::MAX
        }
    } else {
        let size = if exponent >= 1075 {
            scaled(whole as int, exponent - 1075)
        } else {
            halved(whole as int, (1075 - exponent) as nat)
        };
        if is_negative(bits) {
            (-size) as i64
        } else {
            size as i64
        }
    }
}

/// The bits of the number with the significand `significand` and the biased
/// exponent `exponent`, once the significand is doubled, and the exponent
/// lowered by one each time, until its leading bit is the hidden one.
pub open spec fn normalised(significand: int, exponent: int) -> Option<u64>
    decreases exponent,
{
    if significand >= HIDDEN {
        if significand <= EXACT && 0 <= exponent <= 1075 {
            Some((exponent * HIDDEN + (significand - HIDDEN)) as u64)
        } else {
            None
        }
    } else if significand <= 0 || exponent <= 0 {
        None
    } else {
        normalised(2 * significand, exponent - 1)
    }
}

/// The bits of a whole number. Every whole number up to two to the power 53
/// has bits of its own; beyond that the result is `None`.
pub open spec fn from_integer(n: u64) -> Option<u64> {
    if n == 0 {
        Some(0)
    } else if n > EXACT {
        None
    } else {
        normalised(n as int, 1075)
    }
}

/// See [`is_negative`].
pub fn sign_negative(bits: u64) -> (negative: bool)
    ensures
        negative == is_negative(bits),
{
    bits >= SIGN
}

/// See [`magnitude`].
pub fn absolute(bits: u64) -> (result: u64)
    ensures
        result == magnitude(bits),
{
    if bits >= SIGN {
        bits - SIGN
    } else {
        bits
    }
}

/// See [`is_nan`].
pub fn not_a_number(bits: u64) -> (nan: bool)
    ensures
        nan == is_nan(bits),
{
    absolute(bits) > INFINITY
}

/// See [`negated`].
pub fn negate(bits: u64) -> (result: u64)
    ensures
        result == negated(bits),
{
    if bits >= SIGN {
        bits - SIGN
    } else {
        bits + SIGN
    }
}

/// See [`less`].
pub fn is_less(a: u64, b: u64) -> (result: bool)
    ensures
        result == less(a, b),
{
    if not_a_number(a) || not_a_number(b) {
        return false;
    }
    let x = absolute(a);
    let y = absolute(b);
    if sign_negative(a) {
        if sign_negative(b) {
            x > y
        } else {
            x > 0 || y > 0
        }
    } else {
        if sign_negative(b) {
            false
        } else {
            x < y
        }
    }
}

/// See [`same`].
pub fn is_same(a: u64, b: u64) -> (result: bool)
    ensures
        result == same(a, b),
{
    if not_a_number(a) || not_a_number(b) {
        return false;
    }
    let x = absolute(a);
    let y = absolute(b);
    if sign_negative(a) == sign_negative(b) {
        x == y
    } else {
        x == 0 && y == 0
    }
}

fn scale(whole: u64, shift: u64) -> (result: u64)
    requires
        whole < EXACT,
        shift <= 10,
    ensures
        result == scaled(whole as int, shift as int),
        result < 0x8000_0000_0000_0000,
{
    if shift == 0 {
        whole
    } else if shift == 1 {
        whole * 2
    } else if shift == 2 {
        whole * 4
    } else if shift == 3 {
        whole * 8
    } else if shift == 4 {
        whole * 16
    } else if shift == 5 {
        whole * 32
    } else if shift == 6 {
        whole * 64
    } else if shift == 7 {
        whole * 128
    } else if shift == 8 {
        whole * 256
    } else if shift == 9 {
        whole * 512
    } else {
        whole * 1024
    }
}

fn halve(whole: u64, times: u64) -> (result: u64)
    ensures
        result == halved(whole as int, times as nat),
        result <= whole,
{
    let mut value = whole;
    let mut left = times;
    while left > 0
        invariant
            halved(whole as int, times as nat) == halved(value as int, left as nat),
            value <= whole,
        decreases left,
    {
        value = value / 2;
        left = left - 1;
    }
    value
}

/// See [`truncated`].
pub fn truncate(bits: u64) -> (result: i64)
    ensures
        result == truncated(bits),
{
    let size = absolute(bits);
    let exponent = size / HIDDEN;
    let whole = HIDDEN + size % HIDDEN;
    if not_a_number(bits) || exponent < 1023 {
        0
    } else if exponent >= 1086 {
        if sign_negative(bits) {
            i64::MIN
        } else {
            i64::MAX
        }
    } else {
        let value = if exponent >= 1075 {
            scale(whole, exponent - 1075)
        } else {
            halve(whole, 1075 - exponent)
        };
        if sign_negative(bits) {
            -(value as i64)
        } else {
            value as i64
        }
    }
}

/// See [`from_integer`].
pub fn integer(n: u64) -> (result: Option<u64>)
    ensures
        result == from_integer(n),
{
    if n == 0 {
        return Some(0);
    }
    if n > EXACT {
        return None;
    }
    let mut significand = n;
    let mut exponent: u64 = 1075;
    while significand < HIDDEN && exponent > 0
        invariant
            0 < significand <= EXACT,
            exponent <= 1075,
            normalised(n as int, 1075) == normalised(significand as int, exponent as int),
        decreases exponent,
    {
        significand = significand * 2;
        exponent = exponent - 1;
    }
    if significand >= HIDDEN {
        Some(exponent * HIDDEN + (significand - HIDDEN))
    } else {
        None
    }
}

} // verus!

verus! {

/// Halving never leaves the range from zero to the number halved.
proof fn lemma_halved_bounds(whole: int, times: nat)
    requires
        0 <= whole,
    ensures
        0 <= halved(whole, times) <= whole,
    decreases times,
{
    if times > 0 {
        lemma_halved_bounds(whole / 2, (times - 1) as nat);
    }
}

/// Normalising keeps the whole number that the significand and the exponent
/// stand for.
proof fn lemma_normalised_keeps_the_number(significand: int, exponent: int)
    requires
        0 < significand <= EXACT,
        0 <= exponent <= 1075,
        significand >= vstd::arithmetic::power2::pow2((1075 - exponent) as nat),
    ensures
        normalised(significand, exponent) matches Some(bits) && !is_negative(bits) && !is_nan(bits)
            && truncated(bits) == halved(significand, (1075 - exponent) as nat),
    decreases exponent,
{
    vstd::arithmetic::power2::lemma2_to64();
    vstd::arithmetic::power2::lemma2_to64_rest();
    let shift = (1075 - exponent) as nat;
    lemma_halved_bounds(significand, shift);
    if significand >= HIDDEN {
        if shift > 53 {
            vstd::arithmetic::power2::lemma_pow2_strictly_increases(53, shift);
        }
        assert(shift <= 53);
        let bits = (exponent * HIDDEN + (significand - HIDDEN)) as u64;
        assert(normalised(significand, exponent) == Some(bits));
        assert(bits == exponent * HIDDEN + (significand - HIDDEN));
        assert(magnitude(bits) == bits);
        if significand == EXACT {
            assert(bits == (exponent + 1) * HIDDEN);
            assert(bits / HIDDEN == exponent + 1);
            assert(bits % HIDDEN == 0);
            if shift == 0 {
                assert(scaled(HIDDEN as int, 1) == EXACT);
                assert(halved(significand, 0) == significand);
            } else if shift == 1 {
                assert(halved(significand, 1) == halved(significand / 2, 0));
                assert(halved(significand / 2, 0) == HIDDEN);
            } else {
                assert(halved(significand, shift) == halved(significand / 2, (shift - 1) as nat));
                assert(significand / 2 == HIDDEN);
                lemma_halved_bounds(HIDDEN as int, (shift - 1) as nat);
            }
        } else {
            if shift >= 53 {
                assert(vstd::arithmetic::power2::pow2(53) == EXACT);
                assert(false);
            }
            assert(bits / HIDDEN == exponent);
            assert(bits % HIDDEN == significand - HIDDEN);
            if shift == 0 {
                assert(halved(significand, 0) == significand);
            }
        }
    } else {
        if shift >= 52 {
            if shift > 52 {
                vstd::arithmetic::power2::lemma_pow2_strictly_increases(52, shift);
            }
            assert(false);
        }
        vstd::arithmetic::power2::lemma_pow2_unfold(shift + 1);
        lemma_normalised_keeps_the_number(2 * significand, exponent - 1);
        assert(halved(2 * significand, shift + 1) == halved((2 * significand) / 2, shift));
    }
}

/// Every whole number up to two to the power 53 has bits, they are neither
/// negative nor no number, and cutting them to a whole number gives the
/// number back.
pub proof fn law_whole_numbers_come_back(n: u64)
    requires
        n <= EXACT,
    ensures
        from_integer(n) matches Some(bits) && !is_negative(bits) && !is_nan(bits) && truncated(bits) == n,
{
    if n > 0 {
        vstd::arithmetic::power2::lemma2_to64();
        lemma_normalised_keeps_the_number(n as int, 1075);
    }
}

/// The order of numbers is strict and total on what is a number, and a
/// number negated twice is the number.
pub proof fn law_order_is_strict(a: u64, b: u64)
    ensures
        !(less(a, b) && less(b, a)),
        !(less(a, b) && same(a, b)),
        same(a, b) == same(b, a),
        !is_nan(a) && !is_nan(b) ==> less(a, b) || same(a, b) || less(b, a),
        negated(negated(a)) == a,
        !is_nan(a) ==> same(a, a),
{
}

} // verus!
