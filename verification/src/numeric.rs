//! Exact rational numbers with 64-bit magnitude components.
//!
//! The language's numeric literals are finite decimals and its arithmetic
//! is the usual field arithmetic, so runtime numbers are kept as exact
//! rationals instead of floating point: a sign, a numerator, and a
//! denominator.  The denominator is stored minus one, so every value of
//! [`Rat`] denotes a well-defined rational; no well-formedness side
//! condition is ever needed.  Each operation either returns the exact
//! mathematical result (with the numerator and denominator given by the
//! textbook cross-multiplication formulas, unreduced) or reports that the
//! result does not fit the representation.

use vstd::prelude::*;

use crate::text::dec_digits;
use crate::text::digit_char;
use crate::text::push_digit;
use crate::text::push_u64;

verus! {

/// The mathematical value of a rational: `num / den`, with `den >= 1`.
pub struct RatV {
    pub num: int,
    pub den: int,
}

/// The largest representable denominator: `u64::MAX + 1`.
pub open spec fn max_den() -> int {
    u64::MAX as int + 1
}

/// A value is representable when its numerator magnitude fits in 64 bits
/// and its denominator is positive and at most [`max_den`].
pub open spec fn rat_fits(v: RatV) -> bool {
    &&& -(u64::MAX as int) <= v.num <= u64::MAX as int
    &&& 1 <= v.den <= max_den()
}

/// Value equality of two rationals, by cross multiplication.
pub open spec fn rat_eq(a: RatV, b: RatV) -> bool {
    a.num * b.den == b.num * a.den
}

/// Strict order on rationals (valid because denominators are positive).
pub open spec fn rat_lt(a: RatV, b: RatV) -> bool {
    a.num * b.den < b.num * a.den
}

/// Non-strict order on rationals.
pub open spec fn rat_le(a: RatV, b: RatV) -> bool {
    a.num * b.den <= b.num * a.den
}

/// The exact (unreduced) sum.
pub open spec fn rat_add(a: RatV, b: RatV) -> RatV {
    RatV { num: a.num * b.den + b.num * a.den, den: a.den * b.den }
}

/// The exact (unreduced) difference.
pub open spec fn rat_sub(a: RatV, b: RatV) -> RatV {
    RatV { num: a.num * b.den - b.num * a.den, den: a.den * b.den }
}

/// The exact (unreduced) product.
pub open spec fn rat_mul(a: RatV, b: RatV) -> RatV {
    RatV { num: a.num * b.num, den: a.den * b.den }
}

/// The exact quotient, with the denominator kept positive; only
/// meaningful for `b.num != 0`.
pub open spec fn rat_div(a: RatV, b: RatV) -> RatV {
    if b.num >= 0 {
        RatV { num: a.num * b.den, den: a.den * b.num }
    } else {
        RatV { num: -(a.num * b.den), den: a.den * -b.num }
    }
}

/// An exact rational number.  The denominator is `den1 + 1`, so every
/// bit pattern is a valid rational.
#[derive(Clone, Copy, Debug, PartialEq, Eq, Structural)]
pub struct Rat {
    neg: bool,
    num: u64,
    den1: u64,
}

impl View for Rat {
    type V = RatV;

    closed spec fn view(&self) -> RatV {
        RatV {
            num: if self.neg {
                -(self.num as int)
            } else {
                self.num as int
            },
            den: self.den1 as int + 1,
        }
    }
}

impl Rat {
    /// The rational `numerator / denominator`, negative when `negative`
    /// is set; `None` exactly when the denominator is zero.
    pub fn new(negative: bool, numerator: u64, denominator: u64) -> (r: Option<Rat>)
        ensures
            denominator == 0 <==> r is None,
            r matches Some(q) ==> q@ == (RatV {
                num: if negative {
                    -(numerator as int)
                } else {
                    numerator as int
                },
                den: denominator as int,
            }),
    {
        if denominator == 0 {
            None
        } else {
            Some(Rat { neg: negative, num: numerator, den1: denominator - 1 })
        }
    }

    /// The rational `numerator / (den_minus_one + 1)`: the denominator
    /// arrives minus one, so the full range up to `u64::MAX + 1` is
    /// expressible.
    pub fn new_den1(negative: bool, numerator: u64, den_minus_one: u64) -> (r: Rat)
        ensures
            r@ == (RatV {
                num: if negative {
                    -(numerator as int)
                } else {
                    numerator as int
                },
                den: den_minus_one as int + 1,
            }),
    {
        Rat { neg: negative, num: numerator, den1: den_minus_one }
    }

    /// The integer `n` as a rational.
    pub fn from_u64(n: u64) -> (r: Rat)
        ensures
            r@ == (RatV { num: n as int, den: 1int }),
    {
        Rat { neg: false, num: n, den1: 0 }
    }

    /// Whether the value is zero.
    pub fn is_zero(&self) -> (r: bool)
        ensures
            r == (self@.num == 0),
    {
        self.num == 0
    }

    /// The same magnitude with the opposite sign.
    pub fn negate(&self) -> (r: Rat)
        ensures
            r@.num == -self@.num,
            r@.den == self@.den,
    {
        Rat { neg: !self.neg, num: self.num, den1: self.den1 }
    }

    /// The denominator, widened so it always fits.
    fn den_u128(&self) -> (d: u128)
        ensures
            d == self@.den,
            1 <= d <= max_den(),
    {
        self.den1 as u128 + 1
    }

    /// Packs a sign, a numerator magnitude, and a denominator computed in
    /// 128 bits back into a `Rat`; `None` exactly when either component is
    /// out of range.
    fn pack(negative: bool, mag: u128, den: u128) -> (r: Option<Rat>)
        requires
            1 <= den,
        ensures
            r matches Some(s) ==> s@ == (RatV {
                num: if negative {
                    -(mag as int)
                } else {
                    mag as int
                },
                den: den as int,
            }),
            r is None <==> (mag > u64::MAX || den > max_den()),
    {
        if mag > u64::MAX as u128 || den > u64::MAX as u128 + 1 {
            None
        } else {
            Some(Rat { neg: negative, num: mag as u64, den1: (den - 1) as u64 })
        }
    }

    /// The exact sum, or `None` when it is not representable.
    pub fn add(&self, other: &Rat) -> (r: Option<Rat>)
        ensures
            r matches Some(s) ==> s@ == rat_add(self@, other@),
            r is None <==> !rat_fits(rat_add(self@, other@)),
    {
        let ad = self.den_u128();
        let bd = other.den_u128();
        proof {
            lemma_mag_product(self.num as int, bd as int);
            lemma_mag_product(other.num as int, ad as int);
            lemma_den_product(ad as int, bd as int);
            lemma_neg_mul(self.num as int, bd as int);
            lemma_neg_mul(other.num as int, ad as int);
        }
        let p1 = (self.num as u128) * bd;
        let p2 = (other.num as u128) * ad;
        let (negative, mag) = if self.neg == other.neg {
            match p1.checked_add(p2) {
                None => {
                    return None;
                },
                Some(m) => (self.neg, m),
            }
        } else if p1 >= p2 {
            (self.neg, p1 - p2)
        } else {
            (other.neg, p2 - p1)
        };
        match ad.checked_mul(bd) {
            None => None,
            Some(den) => Self::pack(negative, mag, den),
        }
    }

    /// The exact difference, or `None` when it is not representable.
    pub fn sub(&self, other: &Rat) -> (r: Option<Rat>)
        ensures
            r matches Some(s) ==> s@ == rat_sub(self@, other@),
            r is None <==> !rat_fits(rat_sub(self@, other@)),
    {
        let flipped = other.negate();
        proof {
            lemma_neg_mul(other@.num, self@.den);
            assert(rat_add(self@, flipped@) == rat_sub(self@, other@));
        }
        self.add(&flipped)
    }

    /// The exact product, or `None` when it is not representable.
    pub fn mul(&self, other: &Rat) -> (r: Option<Rat>)
        ensures
            r matches Some(s) ==> s@ == rat_mul(self@, other@),
            r is None <==> !rat_fits(rat_mul(self@, other@)),
    {
        let ad = self.den_u128();
        let bd = other.den_u128();
        proof {
            lemma_mag_product(self.num as int, other.num as int);
            lemma_den_product(ad as int, bd as int);
            lemma_sign_products(self.num as int, other.num as int);
        }
        let mag = (self.num as u128) * (other.num as u128);
        match ad.checked_mul(bd) {
            None => None,
            Some(den) => Self::pack(self.neg != other.neg, mag, den),
        }
    }

    /// The exact quotient, or `None` when it is not representable.
    /// Callers must rule out a zero divisor first (see [`Rat::is_zero`]).
    pub fn div(&self, other: &Rat) -> (r: Option<Rat>)
        requires
            other@.num != 0,
        ensures
            r matches Some(s) ==> s@ == rat_div(self@, other@),
            r is None <==> !rat_fits(rat_div(self@, other@)),
    {
        let ad = self.den_u128();
        let bd = other.den_u128();
        proof {
            lemma_mag_product(self.num as int, bd as int);
            lemma_den_product(ad as int, other.num as int);
            lemma_neg_mul(self.num as int, bd as int);
            lemma_neg_mul(ad as int, other.num as int);
        }
        let mag = (self.num as u128) * bd;
        match ad.checked_mul(other.num as u128) {
            None => None,
            Some(den) => Self::pack(self.neg != other.neg, mag, den),
        }
    }

    /// The sign of the value: `-1`, `0`, or `1`.
    fn signum(&self) -> (s: i8)
        ensures
            s == 1 <==> self@.num > 0,
            s == 0 <==> self@.num == 0,
            s == -1 <==> self@.num < 0,
    {
        if self.num == 0 {
            0
        } else if self.neg {
            -1
        } else {
            1
        }
    }

    /// Value equality: whether the two rationals denote the same number.
    pub fn eq_val(&self, other: &Rat) -> (r: bool)
        ensures
            r == rat_eq(self@, other@),
    {
        let sa = self.signum();
        let sb = other.signum();
        proof {
            lemma_cross_signs(self@, other@, self.num as int, other.num as int);
        }
        if sa != sb {
            return false;
        }
        if sa == 0 {
            return true;
        }
        let ad = self.den_u128();
        let bd = other.den_u128();
        proof {
            lemma_mag_product(self.num as int, bd as int);
            lemma_mag_product(other.num as int, ad as int);
        }
        let p1 = (self.num as u128) * bd;
        let p2 = (other.num as u128) * ad;
        p1 == p2
    }

    /// Strict order: whether `self` is strictly below `other`.
    pub fn lt(&self, other: &Rat) -> (r: bool)
        ensures
            r == rat_lt(self@, other@),
    {
        let sa = self.signum();
        let sb = other.signum();
        proof {
            lemma_cross_signs(self@, other@, self.num as int, other.num as int);
        }
        if sa != sb {
            return sa < sb;
        }
        if sa == 0 {
            return false;
        }
        let ad = self.den_u128();
        let bd = other.den_u128();
        proof {
            lemma_mag_product(self.num as int, bd as int);
            lemma_mag_product(other.num as int, ad as int);
        }
        let p1 = (self.num as u128) * bd;
        let p2 = (other.num as u128) * ad;
        if sa == 1 {
            p1 < p2
        } else {
            p2 < p1
        }
    }

    /// Non-strict order.
    pub fn le(&self, other: &Rat) -> (r: bool)
        ensures
            r == rat_le(self@, other@),
    {
        !other.lt(self)
    }

    /// The repetition count the value denotes: its integer part,
    /// clamped to zero from below and `usize::MAX` from above.
    pub fn to_count(&self) -> (n: usize)
        ensures
            n as int == rat_count(self@),
    {
        if self.neg || self.num == 0 {
            return 0;
        }
        let den = self.den_u128();
        proof {
            lemma_mag_div(self.num as int, den as int);
        }
        let q = (self.num as u128) / den;
        if q > usize::MAX as u128 {
            usize::MAX
        } else {
            q as usize
        }
    }

    /// Whether the value is an integer.
    pub fn is_integer(&self) -> (r: bool)
        ensures
            r == (self@.num % self@.den == 0),
    {
        let den = self.den_u128();
        let rem = (self.num as u128) % den;
        proof {
            lemma_mag_mod(self.num as int, den as int);
        }
        rem == 0
    }

    /// The decimal rendering of the value: optional minus sign, integer
    /// part, and — only when the value is not an integer — a point and
    /// the fraction digits of the long division, which are exact whenever
    /// the expansion terminates within [`frac_cap`] digits (it always
    /// does for a denominator that divides a power of ten).
    pub fn to_decimal_string(&self) -> (s: String)
        ensures
            s@ == rat_dec_str(self@),
    {
        let mut s = String::new();
        if self.neg && self.num != 0 {
            proof {
                reveal_strlit("-");
            }
            s.append("-");
        }
        let den = self.den_u128();
        proof {
            lemma_mag_div(self.num as int, den as int);
            lemma_mag_mod(self.num as int, den as int);
        }
        let q = (self.num as u128) / den;
        let r = (self.num as u128) % den;
        push_u64(&mut s, q as u64);
        if r != 0 {
            proof {
                reveal_strlit(".");
            }
            s.append(".");
            let ghost target = s@ + frac_digit_seq(r as int, den as int, frac_cap());
            let mut rem = r;
            let mut fuel: u64 = 64;
            while rem != 0 && fuel > 0
                invariant
                    0 <= rem < den,
                    1 <= den <= max_den(),
                    fuel <= 64,
                    s@ + frac_digit_seq(rem as int, den as int, fuel as nat) == target,
                decreases fuel,
            {
                proof {
                    lemma_frac_step(rem as int, den as int);
                }
                let d = rem * 10 / den;
                push_digit(&mut s, d as u64);
                proof {
                    assert(s@ + frac_digit_seq(rem as int * 10 % (den as int), den as int, (fuel
                        - 1) as nat) =~= target);
                }
                rem = rem * 10 % den;
                fuel = fuel - 1;
            }
            proof {
                assert(frac_digit_seq(rem as int, den as int, fuel as nat) =~= Seq::<char>::empty());
                assert(s@ =~= target);
            }
        }
        proof {
            assert(s@ =~= rat_dec_str(self@));
        }
        s
    }

    /// The rendering used for number literals in token listings: always
    /// with at least one digit after the point (`42` renders as `42.0`).
    pub fn to_value_string(&self) -> (s: String)
        ensures
            s@ == rat_value_str(self@),
    {
        let mut s = self.to_decimal_string();
        if self.is_integer() {
            proof {
                reveal_strlit(".0");
                assert(".0"@ =~= seq!['.', '0']);
            }
            s.append(".0");
            proof {
                assert(s@ =~= rat_value_str(self@));
            }
        }
        s
    }
}

/// The number of fraction digits after which long division is cut off.
/// Every terminating expansion of a representable rational is shorter.
pub open spec fn frac_cap() -> nat {
    64
}

/// The digits produced by long division of `r / den`, at most `fuel` of
/// them, stopping when the remainder hits zero.
pub open spec fn frac_digit_seq(r: int, den: int, fuel: nat) -> Seq<char>
    recommends
        0 <= r < den,
    decreases fuel,
{
    if fuel == 0 || r <= 0 {
        Seq::empty()
    } else {
        seq![digit_char(r * 10 / den)] + frac_digit_seq(r * 10 % den, den, (fuel - 1) as nat)
    }
}

/// The decimal rendering of a rational value; see
/// [`Rat::to_decimal_string`].
pub open spec fn rat_dec_str(v: RatV) -> Seq<char> {
    let m = if v.num >= 0 {
        v.num
    } else {
        -v.num
    };
    let sign: Seq<char> = if v.num < 0 {
        seq!['-']
    } else {
        Seq::empty()
    };
    if m % v.den == 0 {
        sign + dec_digits((m / v.den) as nat)
    } else {
        sign + dec_digits((m / v.den) as nat) + seq!['.'] + frac_digit_seq(
            m % v.den,
            v.den,
            frac_cap(),
        )
    }
}

/// The repetition count a value denotes; see [`Rat::to_count`].
pub open spec fn rat_count(v: RatV) -> int {
    if v.num <= 0 {
        0
    } else if v.num / v.den > usize::MAX as int {
        usize::MAX as int
    } else {
        v.num / v.den
    }
}

/// The rendering with a forced fraction part for integer values.
pub open spec fn rat_value_str(v: RatV) -> Seq<char> {
    if v.num % v.den == 0 {
        rat_dec_str(v) + seq!['.', '0']
    } else {
        rat_dec_str(v)
    }
}

/// Dividing a 64-bit magnitude by a positive denominator keeps it within
/// 64 bits.
proof fn lemma_mag_div(x: int, den: int)
    requires
        0 <= x <= u64::MAX as int,
        1 <= den,
    ensures
        0 <= x / den <= x,
{
    assert(0 <= x / den <= x) by (nonlinear_arith)
        requires
            0 <= x && 1 <= den,
    ;
}

/// The remainder of a division by a positive denominator is in range,
/// and the magnitude relates to the signed value's remainder.
proof fn lemma_mag_mod(x: int, den: int)
    requires
        0 <= x,
        1 <= den,
    ensures
        0 <= x % den < den,
        x % den == 0 <==> (-x) % den == 0,
{
    vstd::arithmetic::div_mod::lemma_fundamental_div_mod(x, den);
    vstd::arithmetic::div_mod::lemma_fundamental_div_mod(-x, den);
    assert(0 <= x % den < den) by (nonlinear_arith)
        requires
            0 <= x && 1 <= den,
    ;
    if x % den == 0 {
        let q = x / den;
        assert(-x == (-q) * den) by (nonlinear_arith)
            requires
                x == den * q,
        ;
        vstd::arithmetic::div_mod::lemma_mod_multiples_basic(-q, den);
    }
    if (-x) % den == 0 {
        let q = (-x) / den;
        assert(x == (-q) * den) by (nonlinear_arith)
            requires
                -x == den * q,
        ;
        vstd::arithmetic::div_mod::lemma_mod_multiples_basic(-q, den);
    }
}

/// One step of decimal long division: the produced digit is a single
/// digit and the new remainder stays in range.
pub(crate) proof fn lemma_frac_step(r: int, den: int)
    requires
        0 < r < den <= max_den(),
    ensures
        0 <= r * 10 / den < 10,
        0 <= r * 10 % den < den,
        r * 10 <= u128::MAX as int,
{
    assert(0 <= r * 10 / den < 10 && 0 <= r * 10 % den < den && r * 10
        <= 0xffffffffffffffffffffffffffffffff) by (nonlinear_arith)
        requires
            0 < r < den <= 0x1_0000_0000_0000_0000,
    ;
}

/// A product of a 64-bit magnitude and a denominator fits in 128 bits
/// and is non-negative.
proof fn lemma_mag_product(x: int, y: int)
    requires
        0 <= x <= u64::MAX as int,
        0 <= y <= max_den(),
    ensures
        0 <= x * y <= u128::MAX as int,
        x > 0 && y > 0 ==> x * y > 0,
        y >= 1 ==> x * y >= x,
        x >= 1 ==> x * y >= y,
{
    assert(0 <= x * y <= 0xffffffffffffffffffffffffffffffff && (x > 0 && y > 0 ==> x * y > 0) && (
    y >= 1 ==> x * y >= x) && (x >= 1 ==> x * y >= y)) by (nonlinear_arith)
        requires
            0 <= x <= 0xffff_ffff_ffff_ffff,
            0 <= y <= 0x1_0000_0000_0000_0000,
    ;
}

/// A product of two positive denominators is at least each factor.
proof fn lemma_den_product(x: int, y: int)
    requires
        1 <= x,
        1 <= y,
    ensures
        x * y >= x,
        x * y >= y,
        x * y >= 1,
{
    assert(x * y >= x && x * y >= y && x * y >= 1) by (nonlinear_arith)
        requires
            1 <= x && 1 <= y,
    ;
}

/// Multiplication distributes over negation.
proof fn lemma_neg_mul(x: int, y: int)
    ensures
        (-x) * y == -(x * y),
        x * (-y) == -(x * y),
{
    assert((-x) * y == -(x * y) && x * (-y) == -(x * y)) by (nonlinear_arith);
}

/// Sign identities for products of magnitudes.
proof fn lemma_sign_products(x: int, y: int)
    ensures
        (-x) * (-y) == x * y,
        (-x) * y == -(x * y),
        x * (-y) == -(x * y),
{
    assert((-x) * (-y) == x * y && (-x) * y == -(x * y) && x * (-y) == -(x * y))
        by (nonlinear_arith);
}

/// How the cross products `a.num * b.den` and `b.num * a.den` relate to
/// the signs and magnitudes of the two values.
proof fn lemma_cross_signs(a: RatV, b: RatV, ma: int, mb: int)
    requires
        a.den >= 1,
        b.den >= 1,
        ma == if a.num >= 0 {
            a.num
        } else {
            -a.num
        },
        mb == if b.num >= 0 {
            b.num
        } else {
            -b.num
        },
    ensures
        a.num == 0 && b.num == 0 ==> rat_eq(a, b) && !rat_lt(a, b),
        a.num > 0 && b.num <= 0 ==> !rat_eq(a, b) && !rat_lt(a, b),
        a.num < 0 && b.num >= 0 ==> !rat_eq(a, b) && rat_lt(a, b),
        a.num == 0 && b.num > 0 ==> !rat_eq(a, b) && rat_lt(a, b),
        a.num == 0 && b.num < 0 ==> !rat_eq(a, b) && !rat_lt(a, b),
        a.num > 0 && b.num > 0 ==> (rat_eq(a, b) <==> ma * b.den == mb * a.den) && (rat_lt(a, b)
            <==> ma * b.den < mb * a.den),
        a.num < 0 && b.num < 0 ==> (rat_eq(a, b) <==> ma * b.den == mb * a.den) && (rat_lt(a, b)
            <==> mb * a.den < ma * b.den),
{
    assert((a.num == 0 && b.num == 0 ==> rat_eq(a, b) && !rat_lt(a, b)) && (a.num > 0 && b.num <= 0
        ==> !rat_eq(a, b) && !rat_lt(a, b)) && (a.num < 0 && b.num >= 0 ==> !rat_eq(a, b) && rat_lt(
        a,
        b,
    )) && (a.num == 0 && b.num > 0 ==> !rat_eq(a, b) && rat_lt(a, b)) && (a.num == 0 && b.num < 0
        ==> !rat_eq(a, b) && !rat_lt(a, b)) && (a.num > 0 && b.num > 0 ==> (rat_eq(a, b) <==> ma
        * b.den == mb * a.den) && (rat_lt(a, b) <==> ma * b.den < mb * a.den)) && (a.num < 0
        && b.num < 0 ==> (rat_eq(a, b) <==> ma * b.den == mb * a.den) && (rat_lt(a, b) <==> mb
        * a.den < ma * b.den))) by (nonlinear_arith)
        requires
            a.den >= 1,
            b.den >= 1,
            ma == if a.num >= 0 {
                a.num
            } else {
                -a.num
            },
            mb == if b.num >= 0 {
                b.num
            } else {
                -b.num
            },
    ;
}

} // verus!
