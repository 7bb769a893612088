//! Exact rational numbers over `i64`, the numeric values of the language.
//!
//! A value is `num / den` with `den > 0`. Operations compute the exact
//! result in wide intermediates, reduce it by the greatest common divisor,
//! and fail (`None`) only when even the reduced result has a magnitude
//! beyond `i64::MAX`.

use vstd::arithmetic::div_mod::{lemma_div_multiples_vanish, lemma_fundamental_div_mod};
use vstd::string::StringExecFns;
use vstd::prelude::*;

verus! {

/// Greatest common divisor, by Euclid's recursion.
pub open spec fn gcd(a: nat, b: nat) -> nat
    decreases b,
{
    if b == 0 {
        a
    } else {
        gcd(b, a % b)
    }
}

/// `d` divides `n` exactly.
pub open spec fn divides(d: int, n: int) -> bool {
    exists|k: int| n == #[trigger] (k * d)
}

/// The magnitude of an integer.
pub open spec fn abs_int(n: int) -> int {
    if n >= 0 {
        n
    } else {
        -n
    }
}

proof fn lemma_gcd_divides(a: nat, b: nat)
    ensures
        divides(gcd(a, b) as int, a as int),
        divides(gcd(a, b) as int, b as int),
    decreases b,
{
    if b == 0 {
        assert(a as int == 1 * (gcd(a, b) as int));
        assert(0int == 0 * (gcd(a, b) as int));
    } else {
        lemma_gcd_divides(b, a % b);
        let g = gcd(b, a % b) as int;
        let k1 = choose|k: int| b as int == #[trigger] (k * g);
        let k2 = choose|k: int| (a % b) as int == #[trigger] (k * g);
        lemma_fundamental_div_mod(a as int, b as int);
        let q = a as int / b as int;
        assert(a as int == (k1 * g) * q + k2 * g);
        assert((k1 * g) * q + k2 * g == (k1 * q + k2) * g) by (nonlinear_arith);
        assert(a as int == (k1 * q + k2) * g);
    }
}

proof fn lemma_gcd_pos(a: nat, b: nat)
    ensures
        b > 0 ==> gcd(a, b) >= 1,
    decreases b,
{
    if b > 0 {
        if a % b == 0 {
            assert(gcd(a, b) == gcd(b, 0));
        } else {
            lemma_gcd_pos(b, a % b);
        }
    }
}

/// An exact rational number: `num / den`, kept with a positive denominator.
#[derive(Debug, Clone, Copy, PartialEq, Eq, Structural)]
pub struct Number {
    pub num: i64,
    pub den: i64,
}

/// The exact reduced form of `n / d` as a `Number`, or `None` when even
/// the reduced numerator or denominator magnitude is beyond `i64::MAX`.
pub open spec fn norm_spec(n: int, d: int) -> Option<Number>
    recommends
        d >= 1,
{
    let g = gcd(abs_int(n) as nat, d as nat) as int;
    let m = abs_int(n) / g;
    let dd = d / g;
    if m <= i64::MAX && dd <= i64::MAX {
        Some(
            Number {
                num: (if n >= 0 {
                    m
                } else {
                    -m
                }) as i64,
                den: dd as i64,
            },
        )
    } else {
        None
    }
}

/// What `norm_spec` keeps: a positive denominator and the exact value.
pub proof fn lemma_norm_spec_props(n: int, d: int)
    requires
        d >= 1,
    ensures
        norm_spec(n, d) is Some ==> {
            let c = norm_spec(n, d)->Some_0;
            &&& c.den >= 1
            &&& (c.num as int) * d == n * (c.den as int)
        },
{
    let m0 = abs_int(n) as nat;
    lemma_gcd_pos(m0, d as nat);
    lemma_gcd_divides(m0, d as nat);
    let g = gcd(m0, d as nat) as int;
    let k1 = choose|k: int| m0 as int == #[trigger] (k * g);
    let k2 = choose|k: int| d == #[trigger] (k * g);
    assert(m0 as int / g == k1) by {
        lemma_div_multiples_vanish(k1, g);
        assert(g * k1 == k1 * g) by (nonlinear_arith);
    }
    assert(d / g == k2) by {
        lemma_div_multiples_vanish(k2, g);
        assert(g * k2 == k2 * g) by (nonlinear_arith);
    }
    assert(k1 >= 0) by (nonlinear_arith)
        requires
            k1 * g >= 0,
            g >= 1,
    ;
    assert(k2 >= 1) by (nonlinear_arith)
        requires
            k2 * g >= 1,
            g >= 1,
    ;
    if norm_spec(n, d) is Some {
        if n >= 0 {
            assert(k1 * d == n * k2) by (nonlinear_arith)
                requires
                    n == k1 * g,
                    d == k2 * g,
            ;
        } else {
            assert((-k1) * d == n * k2) by (nonlinear_arith)
                requires
                    -n == k1 * g,
                    d == k2 * g,
            ;
        }
    }
}

/// Euclid's algorithm; the result is the greatest common divisor of the
/// arguments.
pub fn gcd_u128(a0: u128, b0: u128) -> (g: u128)
    ensures
        g as nat == gcd(a0 as nat, b0 as nat),
{
    let mut a = a0;
    let mut b = b0;
    while b != 0
        invariant
            gcd(a as nat, b as nat) == gcd(a0 as nat, b0 as nat),
        decreases b,
    {
        let t = a % b;
        proof {
            assert(gcd(a as nat, b as nat) == gcd(b as nat, (a % b) as nat));
        }
        a = b;
        b = t;
    }
    assert(gcd(a as nat, 0) == a as nat);
    a
}

/// Reduces `n / d` and narrows it to `i64` fields.
fn normalize(n: i128, d: i128) -> (r: Option<Number>)
    requires
        1 <= d,
        -i128::MAX <= n,
    ensures
        r == norm_spec(n as int, d as int),
{
    let neg = n < 0;
    let m0: u128 = if neg {
        (-n) as u128
    } else {
        n as u128
    };
    let d0 = d as u128;
    let g = gcd_u128(m0, d0);
    proof {
        lemma_gcd_pos(m0 as nat, d0 as nat);
    }
    let m = m0 / g;
    let dd = d0 / g;
    if m <= i64::MAX as u128 && dd <= i64::MAX as u128 {
        let num: i64 = if neg {
            -(m as i64)
        } else {
            m as i64
        };
        Some(Number { num, den: dd as i64 })
    } else {
        None
    }
}

impl Number {
    /// A valid number has a positive denominator.
    pub open spec fn wf(self) -> bool {
        self.den >= 1
    }

    /// Two numbers stand for the same value when their cross products agree.
    pub open spec fn same_value(self, other: Number) -> bool {
        (self.num as int) * (other.den as int) == (other.num as int) * (self.den as int)
    }

    /// This number stands for a value strictly below the other's.
    pub open spec fn value_below(self, other: Number) -> bool {
        (self.num as int) * (other.den as int) < (other.num as int) * (self.den as int)
    }

    /// The whole number `n`.
    pub fn from_i64(n: i64) -> (r: Number)
        ensures
            r.num == n,
            r.den == 1,
            r.wf(),
    {
        Number { num: n, den: 1 }
    }

    /// The reduced form of `num / den`, or `None` when it cannot be held.
    pub fn new_rational(num: i64, den: i64) -> (r: Option<Number>)
        requires
            den >= 1,
        ensures
            r == norm_spec(num as int, den as int),
            r is Some ==> r->Some_0.wf() && (r->Some_0.num as int) * den == num * (
            r->Some_0.den as int),
    {
        proof {
            lemma_norm_spec_props(num as int, den as int);
        }
        normalize(num as i128, den as i128)
    }

    /// Whether this number is exactly zero.
    pub fn is_zero(&self) -> (r: bool)
        ensures
            r == (self.num == 0),
    {
        self.num == 0
    }

    /// The exact sum, reduced; `None` when it cannot be held in `i64`s.
    pub fn checked_add(self, other: Number) -> (r: Option<Number>)
        requires
            self.wf(),
            other.wf(),
        ensures
            r == norm_spec(
                (self.num as int) * (other.den as int) + (other.num as int) * (self.den as int),
                (self.den as int) * (other.den as int),
            ),
            r is Some ==> r->Some_0.wf() && (r->Some_0.num as int) * ((self.den as int) * (
            other.den as int)) == ((self.num as int) * (other.den as int) + (other.num as int) * (
            self.den as int)) * (r->Some_0.den as int),
    {
        proof {
            lemma_num_den_prod_bounds(self, other);
            lemma_norm_spec_props(
                (self.num as int) * (other.den as int) + (other.num as int) * (self.den as int),
                (self.den as int) * (other.den as int),
            );
        }
        let n = (self.num as i128) * (other.den as i128) + (other.num as i128) * (self.den as i128);
        let d = (self.den as i128) * (other.den as i128);
        normalize(n, d)
    }

    /// The exact difference, reduced; `None` when it cannot be held.
    pub fn checked_sub(self, other: Number) -> (r: Option<Number>)
        requires
            self.wf(),
            other.wf(),
        ensures
            r == norm_spec(
                (self.num as int) * (other.den as int) - (other.num as int) * (self.den as int),
                (self.den as int) * (other.den as int),
            ),
            r is Some ==> r->Some_0.wf() && (r->Some_0.num as int) * ((self.den as int) * (
            other.den as int)) == ((self.num as int) * (other.den as int) - (other.num as int) * (
            self.den as int)) * (r->Some_0.den as int),
    {
        proof {
            lemma_num_den_prod_bounds(self, other);
            lemma_norm_spec_props(
                (self.num as int) * (other.den as int) - (other.num as int) * (self.den as int),
                (self.den as int) * (other.den as int),
            );
        }
        let n = (self.num as i128) * (other.den as i128) - (other.num as i128) * (self.den as i128);
        let d = (self.den as i128) * (other.den as i128);
        normalize(n, d)
    }

    /// The exact product, reduced; `None` when it cannot be held.
    pub fn checked_mul(self, other: Number) -> (r: Option<Number>)
        requires
            self.wf(),
            other.wf(),
        ensures
            r == norm_spec(
                (self.num as int) * (other.num as int),
                (self.den as int) * (other.den as int),
            ),
            r is Some ==> r->Some_0.wf() && (r->Some_0.num as int) * ((self.den as int) * (
            other.den as int)) == ((self.num as int) * (other.num as int)) * (
            r->Some_0.den as int),
    {
        proof {
            lemma_num_den_prod_bounds(self, other);
            lemma_norm_spec_props(
                (self.num as int) * (other.num as int),
                (self.den as int) * (other.den as int),
            );
        }
        let n = (self.num as i128) * (other.num as i128);
        let d = (self.den as i128) * (other.den as i128);
        normalize(n, d)
    }

    /// The exact quotient, reduced; `None` when it cannot be held.
    /// The divisor must not be zero.
    pub fn checked_div(self, other: Number) -> (r: Option<Number>)
        requires
            self.wf(),
            other.wf(),
            other.num != 0,
        ensures
            other.num > 0 ==> r == norm_spec(
                (self.num as int) * (other.den as int),
                (self.den as int) * (other.num as int),
            ),
            other.num < 0 ==> r == norm_spec(
                -((self.num as int) * (other.den as int)),
                -((self.den as int) * (other.num as int)),
            ),
            r is Some ==> r->Some_0.wf() && (r->Some_0.num as int) * ((self.den as int) * (
            other.num as int)) == ((self.num as int) * (other.den as int)) * (
            r->Some_0.den as int),
    {
        proof {
            lemma_num_den_prod_bounds(self, other);
        }
        let n0 = (self.num as i128) * (other.den as i128);
        let d0 = (self.den as i128) * (other.num as i128);
        if other.num > 0 {
            proof {
                assert(d0 >= 1) by (nonlinear_arith)
                    requires
                        d0 == (self.den as int) * (other.num as int),
                        self.den >= 1,
                        other.num >= 1,
                ;
                lemma_norm_spec_props(n0 as int, d0 as int);
            }
            normalize(n0, d0)
        } else {
            proof {
                assert(-d0 >= 1) by (nonlinear_arith)
                    requires
                        d0 == (self.den as int) * (other.num as int),
                        self.den >= 1,
                        other.num <= -1,
                ;
                lemma_norm_spec_props(-n0 as int, -d0 as int);
                assert((-n0) * d0 == n0 * d0 * -1 && n0 * (-d0) == n0 * d0 * -1)
                    by (nonlinear_arith);
            }
            let r = normalize(-n0, -d0);
            proof {
                if r is Some {
                    let c = r->Some_0;
                    assert((c.num as int) * ((self.den as int) * (other.num as int)) == ((
                    self.num as int) * (other.den as int)) * (c.den as int)) by (nonlinear_arith)
                        requires
                            (c.num as int) * (-d0 as int) == (-n0 as int) * (c.den as int),
                            d0 == (self.den as int) * (other.num as int),
                            n0 == (self.num as int) * (other.den as int),
                    ;
                }
            }
            r
        }
    }

    /// The exact negation; `None` only for the one value whose magnitude
    /// has no `i64` form.
    pub fn checked_neg(self) -> (r: Option<Number>)
        requires
            self.wf(),
        ensures
            self.num > i64::MIN ==> r == Some(Number { num: (-self.num as int) as i64, den: self.den }),
            self.num == i64::MIN ==> r is None,
            r is Some ==> r->Some_0.wf() && (r->Some_0.num as int) == -(self.num as int)
                && r->Some_0.den == self.den,
    {
        if self.num == i64::MIN {
            None
        } else {
            Some(Number { num: -self.num, den: self.den })
        }
    }

    /// Whether the two numbers stand for the same value.
    pub fn value_eq(&self, other: &Number) -> (r: bool)
        requires
            self.wf(),
            other.wf(),
        ensures
            r == self.same_value(*other),
    {
        proof {
            lemma_num_den_prod_bounds(*self, *other);
        }
        (self.num as i128) * (other.den as i128) == (other.num as i128) * (self.den as i128)
    }

    /// Whether this number's value is strictly below the other's.
    pub fn value_lt(&self, other: &Number) -> (r: bool)
        requires
            self.wf(),
            other.wf(),
        ensures
            r == self.value_below(*other),
    {
        proof {
            lemma_num_den_prod_bounds(*self, *other);
        }
        (self.num as i128) * (other.den as i128) < (other.num as i128) * (self.den as i128)
    }
}

/// The character for one decimal digit.
pub open spec fn digit_char_of(d: nat) -> char {
    if d == 0 {
        '0'
    } else if d == 1 {
        '1'
    } else if d == 2 {
        '2'
    } else if d == 3 {
        '3'
    } else if d == 4 {
        '4'
    } else if d == 5 {
        '5'
    } else if d == 6 {
        '6'
    } else if d == 7 {
        '7'
    } else if d == 8 {
        '8'
    } else {
        '9'
    }
}

/// The decimal text of a natural number.
pub open spec fn dec_str(v: nat) -> Seq<char>
    decreases v,
{
    if v < 10 {
        seq![digit_char_of(v)]
    } else {
        dec_str(v / 10).push(digit_char_of(v % 10))
    }
}

/// The text of a number: its numerator in decimal with a trailing `.0`
/// when it is whole, or `numerator/denominator` otherwise.
pub open spec fn spec_number_text(n: int, d: int) -> Seq<char> {
    let mag = if n < 0 {
        seq!['-'] + dec_str((-n) as nat)
    } else {
        dec_str(n as nat)
    };
    if d == 1 {
        mag + ".0"@
    } else {
        mag + "/"@ + dec_str(d as nat)
    }
}

/// Appends one decimal digit.
fn append_digit(out: &mut String, d: u64)
    requires
        d < 10,
    ensures
        final(out)@ == old(out)@ + seq![digit_char_of(d as nat)],
{
    if d == 0 {
        out.append("0");
        proof {
            reveal_strlit("0");
            assert(final(out)@ =~= old(out)@ + seq![digit_char_of(d as nat)]);
        }
    } else if d == 1 {
        out.append("1");
        proof {
            reveal_strlit("1");
            assert(final(out)@ =~= old(out)@ + seq![digit_char_of(d as nat)]);
        }
    } else if d == 2 {
        out.append("2");
        proof {
            reveal_strlit("2");
            assert(final(out)@ =~= old(out)@ + seq![digit_char_of(d as nat)]);
        }
    } else if d == 3 {
        out.append("3");
        proof {
            reveal_strlit("3");
            assert(final(out)@ =~= old(out)@ + seq![digit_char_of(d as nat)]);
        }
    } else if d == 4 {
        out.append("4");
        proof {
            reveal_strlit("4");
            assert(final(out)@ =~= old(out)@ + seq![digit_char_of(d as nat)]);
        }
    } else if d == 5 {
        out.append("5");
        proof {
            reveal_strlit("5");
            assert(final(out)@ =~= old(out)@ + seq![digit_char_of(d as nat)]);
        }
    } else if d == 6 {
        out.append("6");
        proof {
            reveal_strlit("6");
            assert(final(out)@ =~= old(out)@ + seq![digit_char_of(d as nat)]);
        }
    } else if d == 7 {
        out.append("7");
        proof {
            reveal_strlit("7");
            assert(final(out)@ =~= old(out)@ + seq![digit_char_of(d as nat)]);
        }
    } else if d == 8 {
        out.append("8");
        proof {
            reveal_strlit("8");
            assert(final(out)@ =~= old(out)@ + seq![digit_char_of(d as nat)]);
        }
    } else {
        out.append("9");
        proof {
            reveal_strlit("9");
            assert(final(out)@ =~= old(out)@ + seq![digit_char_of(d as nat)]);
        }
    }
}

/// Appends the decimal text of a natural number.
fn push_decimal(out: &mut String, v: u64)
    ensures
        final(out)@ == old(out)@ + dec_str(v as nat),
    decreases v,
{
    let ghost prefix = old(out)@;
    if v >= 10 {
        push_decimal(out, v / 10);
    }
    let d = v % 10;
    append_digit(out, d);
    proof {
        if v >= 10 {
            assert(dec_str(v as nat) == dec_str((v as nat) / 10).push(
                digit_char_of((v as nat) % 10),
            ));
            assert(final(out)@ =~= prefix + dec_str(v as nat));
        } else {
            assert(dec_str(v as nat) =~= seq![digit_char_of(v as nat)]);
            assert(final(out)@ =~= prefix + dec_str(v as nat));
        }
    }
}

impl Number {
    /// The number's text: a whole value renders with a trailing `.0`;
    /// any other value renders as `numerator/denominator`.
    pub fn to_text(&self) -> (r: String)
        requires
            self.wf(),
        ensures
            r@ == spec_number_text(self.num as int, self.den as int),
    {
        let mut out = String::new();
        if self.num < 0 {
            out.append("-");
            proof {
                reveal_strlit("-");
            }
            let mag = (-(self.num as i128)) as u64;
            push_decimal(&mut out, mag);
        } else {
            push_decimal(&mut out, self.num as u64);
        }
        if self.den == 1 {
            out.append(".0");
        } else {
            out.append("/");
            push_decimal(&mut out, self.den as u64);
        }
        proof {
            assert(out@ =~= spec_number_text(self.num as int, self.den as int));
        }
        out
    }
}

/// Products of `i64` numerators and denominators stay well inside `i128`.
proof fn lemma_num_den_prod_bounds(a: Number, b: Number)
    requires
        a.wf(),
        b.wf(),
    ensures
        -i128::MAX < (a.num as int) * (b.den as int) + (b.num as int) * (a.den as int)
            < i128::MAX,
        -i128::MAX < (a.num as int) * (b.den as int) - (b.num as int) * (a.den as int)
            < i128::MAX,
        -i128::MAX < (a.num as int) * (b.num as int) < i128::MAX,
        1 <= (a.den as int) * (b.den as int) < i128::MAX,
        -i128::MAX < (a.num as int) * (b.den as int) < i128::MAX,
        -i128::MAX < (a.den as int) * (b.num as int) < i128::MAX,
        -i128::MAX < (b.num as int) * (a.den as int) < i128::MAX,
{
    lemma_mixed_prod_bound(a.num as int, b.den as int);
    lemma_mixed_prod_bound(b.num as int, a.den as int);
    lemma_mixed_prod_bound(a.den as int, b.den as int);
    lemma_mixed_prod_bound(a.den as int, b.num as int);
    lemma_num_prod_bound(a.num as int, b.num as int);
    assert((a.den as int) * (b.den as int) >= 1) by (nonlinear_arith)
        requires
            a.den >= 1,
            b.den >= 1,
    ;
}

/// A product of an `i64` and a positive `i64` stays far enough inside
/// `i128` that two of them can be added.
proof fn lemma_mixed_prod_bound(x: int, y: int) by (nonlinear_arith)
    requires
        -0x8000_0000_0000_0000 <= x <= 0x7fff_ffff_ffff_ffff,
        -0x8000_0000_0000_0000 <= y <= 0x7fff_ffff_ffff_ffff,
        x >= 1 || y >= 1,
    ensures
        -0x3fff_ffff_ffff_ffff_8000_0000_0000_0000 <= x * y
            <= 0x3fff_ffff_ffff_ffff_8000_0000_0000_0000,
{
}

/// A product of two `i64` values fits in `i128`.
proof fn lemma_num_prod_bound(x: int, y: int) by (nonlinear_arith)
    requires
        -0x8000_0000_0000_0000 <= x <= 0x7fff_ffff_ffff_ffff,
        -0x8000_0000_0000_0000 <= y <= 0x7fff_ffff_ffff_ffff,
    ensures
        -0x4000_0000_0000_0000_0000_0000_0000_0000 <= x * y
            <= 0x4000_0000_0000_0000_0000_0000_0000_0000,
{
}

} // verus!
