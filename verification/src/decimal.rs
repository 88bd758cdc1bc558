//! Fixed-point decimal numbers used for prices, quantities and money.
//!
//! A [`Dec`] holds the two plain values that make up a `rust_decimal::Decimal`:
//! a signed mantissa of at most 96 bits and a scale (number of fractional
//! digits) of at most 28. Its view is the exact value of the number counted in
//! units of 10^-28, so that every decimal value is an integer in the spec.
//! Arithmetic is done by `rust_decimal`; the contracts of the calls say when
//! the result is exact.
use crate::common::time::decimal_digits;
use vstd::prelude::*;
use rust_decimal::Decimal;

verus! {

/// Declares `rust_decimal::Decimal` so that the calls below can mention it.
#[verifier::external_type_specification]
#[verifier::external_body]
pub struct ExDecimal(Decimal);

/// 10 to the power `n`.
pub open spec fn pow10(n: nat) -> nat
    decreases n,
{
    if n == 0 {
        1
    } else {
        10 * pow10((n - 1) as nat)
    }
}

/// The largest mantissa a decimal can hold: 2^96 - 1.
pub open spec fn max_mantissa() -> int {
    79228162514264337593543950335
}

/// The largest magnitude of a decimal value, in units of 10^-28.
pub open spec fn max_units() -> int {
    max_mantissa() * pow10(28)
}

/// Whether an exact value (in units of 10^-28) lies within the range of decimals.
pub open spec fn in_range(v: int) -> bool {
    -max_units() <= v <= max_units()
}

pub open spec fn abs_int(v: int) -> int {
    if v < 0 {
        -v
    } else {
        v
    }
}

pub open spec fn max_nat(a: nat, b: nat) -> nat {
    if a >= b {
        a
    } else {
        b
    }
}

/// A decimal number `mantissa * 10^-scale`.
#[derive(Clone, Copy, Debug)]
pub struct Dec {
    mantissa: i128,
    scale: u32,
}

impl Dec {
    #[verifier::type_invariant]
    closed spec fn dec_inv(self) -> bool {
        &&& self.scale <= 28
        &&& -max_mantissa() <= self.mantissa <= max_mantissa()
    }

    /// The mantissa, as an integer.
    pub closed spec fn mant(self) -> int {
        self.mantissa as int
    }

    /// The scale (number of fractional digits).
    pub closed spec fn scl(self) -> nat {
        self.scale as nat
    }

    /// The exact value in units of 10^-28.
    pub closed spec fn units(self) -> int {
        self.mantissa * pow10((28 - self.scale) as nat)
    }

    /// The scale and mantissa bounds that every decimal obeys, made available
    /// to the caller's proof.
    pub fn bounds(&self)
        ensures
            self.scl() <= 28,
            -max_mantissa() <= self.mant() <= max_mantissa(),
            in_range(self@),
    {
        proof {
            use_type_invariant(self);
            lemma_units_in_range(self.mantissa as int, self.scale as nat);
        }
    }
}

proof fn lemma_units_in_range(m: int, s: nat)
    requires
        s <= 28,
        -max_mantissa() <= m <= max_mantissa(),
    ensures
        in_range(m * pow10((28 - s) as nat)),
{
    lemma_pow10_mono((28 - s) as nat, 28);
    lemma_pow10_pos((28 - s) as nat);
    let p = pow10((28 - s) as nat);
    let q = pow10(28);
    assert(-max_mantissa() * q <= m * p <= max_mantissa() * q) by (nonlinear_arith)
        requires
            0 < p <= q,
            -max_mantissa() <= m <= max_mantissa(),
    ;
    assert(max_units() == max_mantissa() * q);
    assert(-max_mantissa() * q == -(max_mantissa() * q)) by (nonlinear_arith);
}

impl View for Dec {
    type V = int;

    closed spec fn view(&self) -> int {
        self.units()
    }
}

pub proof fn lemma_pow10_pos(n: nat)
    ensures
        pow10(n) >= 1,
    decreases n,
{
    if n > 0 {
        lemma_pow10_pos((n - 1) as nat);
    }
}

pub proof fn lemma_pow10_mono(a: nat, b: nat)
    requires
        a <= b,
    ensures
        pow10(a) <= pow10(b),
    decreases b,
{
    lemma_pow10_pos(b);
    if a < b {
        lemma_pow10_mono(a, (b - 1) as nat);
    }
}

pub proof fn lemma_pow10_add(a: nat, b: nat)
    ensures
        pow10(a + b) == pow10(a) * pow10(b),
    decreases a,
{
    if a > 0 {
        lemma_pow10_add((a - 1) as nat, b);
        assert(pow10(a + b) == 10 * pow10((a - 1 + b) as nat));
        assert(pow10(a) == 10 * pow10((a - 1) as nat));
        assert(10 * (pow10((a - 1) as nat) * pow10(b)) == (10 * pow10((a - 1) as nat)) * pow10(b))
            by (nonlinear_arith);
    } else {
        assert(pow10(a) == 1);
    }
}

/// The aligned mantissa of a sum or difference fits in 96 bits, so the
/// result is exact.
pub open spec fn sum_fits(a: Dec, b: Dec, v: int) -> bool {
    abs_int(v) <= max_mantissa() * pow10((28 - max_nat(a.scl(), b.scl())) as nat)
}

/// `a + b` stays within the range of decimals.
pub open spec fn add_ok(a: Dec, b: Dec) -> bool {
    in_range(a@ + b@)
}

/// `a - b` stays within the range of decimals.
pub open spec fn sub_ok(a: Dec, b: Dec) -> bool {
    in_range(a@ - b@)
}

/// `a * b` stays within the range of decimals.
pub open spec fn mul_ok(a: Dec, b: Dec) -> bool {
    abs_int(a@ * b@) <= max_units() * pow10(28)
}

/// `a / b` has a nonzero divisor and a quotient within the range of decimals.
pub open spec fn div_ok(a: Dec, b: Dec) -> bool {
    b@ != 0 && abs_int(a@) < max_mantissa() * abs_int(b@)
}

/// The product's scale and mantissa fit, so the result is exact.
pub open spec fn product_fits(a: Dec, b: Dec) -> bool {
    &&& a.scl() + b.scl() <= 28
    &&& abs_int(a.mant() * b.mant()) <= max_mantissa()
}

/// The decimal that `rust_decimal` gives for `a + b` (by mantissa and scale).
pub uninterp spec fn decimal_sum(am: int, ascale: nat, bm: int, bscale: nat) -> (int, nat);

/// The decimal that `rust_decimal` gives for `a - b` (by mantissa and scale).
pub uninterp spec fn decimal_difference(am: int, ascale: nat, bm: int, bscale: nat) -> (int, nat);

/// The decimal that `rust_decimal` gives for `a * b` (by mantissa and scale).
pub uninterp spec fn decimal_product(am: int, ascale: nat, bm: int, bscale: nat) -> (int, nat);

/// The decimal that `rust_decimal` gives for `a / b` (by mantissa and scale).
pub uninterp spec fn decimal_quotient(am: int, ascale: nat, bm: int, bscale: nat) -> (int, nat);

/// `n` zero digits.
pub open spec fn zero_digits(n: nat) -> Seq<char> {
    Seq::new(n, |i: int| '0')
}

/// The decimal digits of `m` (none for zero), padded with zeros on the left
/// to at least `scale` digits.
pub open spec fn padded_digits(m: nat, scale: nat) -> Seq<char> {
    let d = if m == 0 {
        Seq::<char>::empty()
    } else {
        decimal_digits(m)
    };
    if d.len() < scale {
        zero_digits((scale - d.len()) as nat) + d
    } else {
        d
    }
}

/// The text that `rust_decimal` writes for a decimal (`Display`): a minus
/// sign for a negative mantissa, then the digits of the mantissa's
/// magnitude with a point `scale` places from the right (a `0` before the
/// point when no digit is left for the whole part; just `0` for zero at
/// scale zero).
pub open spec fn decimal_text(m: int, scale: nat) -> Seq<char> {
    let p = padded_digits(abs_int(m) as nat, scale);
    let sign = if m < 0 {
        seq!['-']
    } else {
        Seq::<char>::empty()
    };
    let body = if scale == 0 {
        if p.len() == 0 {
            seq!['0']
        } else {
            p
        }
    } else {
        let w = p.len() - scale;
        (if w == 0 {
            seq!['0']
        } else {
            p.take(w)
        }) + seq!['.'] + p.skip(w)
    };
    sign + body
}

/// The decimal that `rust_decimal` reads from a text, if it accepts it.
pub uninterp spec fn decimal_parse(s: Seq<char>) -> Option<(int, nat)>;

/// The representation of a decimal as a pair (mantissa, scale).
pub open spec fn parts(d: Dec) -> (int, nat) {
    (d.mant(), d.scl())
}

/// `Decimal` from the plain parts of a `Dec`.
#[verifier::external_body]
fn to_rd(d: Dec) -> Decimal {
    Decimal::from_i128_with_scale(d.mantissa, d.scale)
}

/// `Dec` from a `Decimal` produced by one of the calls below.
#[verifier::external_body]
fn from_rd(d: Decimal) -> Dec {
    Dec { mantissa: d.mantissa(), scale: d.scale() }
}

/// `Decimal + Decimal` (`rust_decimal::Decimal::add`). It panics only when the
/// result does not fit, which the precondition excludes. A zero operand
/// gives the other operand back as it is (mantissa and scale); when both are
/// nonzero and the operands' aligned mantissa sum fits in 96 bits the source
/// adds at the larger of the two scales, without rounding.
#[verifier::external_body]
fn rd_add(a: Dec, b: Dec) -> (r: Dec)
    requires
        in_range(a@ + b@),
    ensures
        parts(r) == decimal_sum(a.mant(), a.scl(), b.mant(), b.scl()),
        sum_fits(a, b, a@ + b@) ==> r@ == a@ + b@,
        a.mant() == 0 ==> parts(r) == parts(b),
        a.mant() != 0 && b.mant() == 0 ==> parts(r) == parts(a),
        a.mant() != 0 && b.mant() != 0 && sum_fits(a, b, a@ + b@) ==> r.scl() == max_nat(a.scl(), b.scl()),
{
    from_rd(to_rd(a) + to_rd(b))
}

/// `Decimal - Decimal` (`rust_decimal::Decimal::sub`), exact and at the larger
/// scale under the same conditions as the sum. Zero minus a decimal is its
/// negation at its own scale; a decimal minus zero is itself.
#[verifier::external_body]
fn rd_sub(a: Dec, b: Dec) -> (r: Dec)
    requires
        in_range(a@ - b@),
    ensures
        parts(r) == decimal_difference(a.mant(), a.scl(), b.mant(), b.scl()),
        sum_fits(a, b, a@ - b@) ==> r@ == a@ - b@,
        a.mant() == 0 ==> parts(r) == (-b.mant(), b.scl()),
        a.mant() != 0 && b.mant() == 0 ==> parts(r) == parts(a),
        a.mant() != 0 && b.mant() != 0 && sum_fits(a, b, a@ - b@) ==> r.scl() == max_nat(a.scl(), b.scl()),
{
    from_rd(to_rd(a) - to_rd(b))
}

/// `Decimal * Decimal` (`rust_decimal::Decimal::mul`). Exact when the scales
/// add up to at most 28 and the mantissa product fits in 96 bits; otherwise
/// the source rounds to the nearest value at a scale of at least zero, so the
/// result is within one of the exact product. It panics only when the rounded
/// product is too large, which the precondition excludes. A zero operand
/// gives `Decimal::ZERO` (mantissa 0, scale 0); two nonzero operands whose
/// product fits give the product of the mantissas at the sum of the scales.
#[verifier::external_body]
fn rd_mul(a: Dec, b: Dec) -> (r: Dec)
    requires
        abs_int(a@ * b@) <= max_units() * pow10(28),
    ensures
        parts(r) == decimal_product(a.mant(), a.scl(), b.mant(), b.scl()),
        product_fits(a, b) ==> r@ * pow10(28) == a@ * b@,
        abs_int(r@) * pow10(28) <= abs_int(a@ * b@) + pow10(28) * pow10(28),
        a.mant() == 0 || b.mant() == 0 ==> parts(r) == (0int, 0nat),
        a.mant() != 0 && b.mant() != 0 && product_fits(a, b) ==> parts(r) == (
            a.mant() * b.mant(),
            a.scl() + b.scl(),
        ),
{
    from_rd(to_rd(a) * to_rd(b))
}

/// `Decimal / Decimal` (`rust_decimal::Decimal::div`), which rounds; apart
/// from a zero dividend, which gives `Decimal::ZERO`, its result is left to
/// the name (the source's long division with rounding and trailing-zero
/// removal is not restated here). It panics on a zero divisor and when the
/// quotient is too large, which the precondition excludes.
#[verifier::external_body]
fn rd_div(a: Dec, b: Dec) -> (r: Dec)
    requires
        b@ != 0,
        abs_int(a@) < max_mantissa() * abs_int(b@),
    ensures
        parts(r) == decimal_quotient(a.mant(), a.scl(), b.mant(), b.scl()),
        a.mant() == 0 ==> parts(r) == (0int, 0nat),
{
    from_rd(to_rd(a) / to_rd(b))
}

/// The decimal whose parts are `p`.
pub closed spec fn dec_of(p: (int, nat)) -> Dec {
    choose|d: Dec| parts(d) == p
}

/// The result of `a + b`.
pub open spec fn dadd(a: Dec, b: Dec) -> Dec {
    dec_of(decimal_sum(a.mant(), a.scl(), b.mant(), b.scl()))
}

/// The result of `a - b`.
pub open spec fn dsub(a: Dec, b: Dec) -> Dec {
    dec_of(decimal_difference(a.mant(), a.scl(), b.mant(), b.scl()))
}

/// The result of `a * b`.
pub open spec fn dmul(a: Dec, b: Dec) -> Dec {
    dec_of(decimal_product(a.mant(), a.scl(), b.mant(), b.scl()))
}

/// The result of `a / b`.
pub open spec fn ddiv(a: Dec, b: Dec) -> Dec {
    dec_of(decimal_quotient(a.mant(), a.scl(), b.mant(), b.scl()))
}

pub proof fn lemma_dec_of(d: Dec)
    ensures
        dec_of(parts(d)) == d,
{
    let e = dec_of(parts(d));
    assert(parts(e) == parts(d));
    assert(e.mantissa == d.mantissa);
    assert(e.scale == d.scale);
}

/// A decimal is determined by its mantissa and scale.
pub proof fn lemma_parts_determine(a: Dec, b: Dec)
    requires
        parts(a) == parts(b),
    ensures
        a == b,
{
    lemma_dec_of(a);
    lemma_dec_of(b);
}

/// The decimal zero (mantissa 0, scale 0), as `Decimal::ZERO`.
pub open spec fn zero_dec() -> Dec {
    dec_of((0int, 0nat))
}

/// Zero is the decimal with mantissa 0 and scale 0, of value 0.
pub proof fn lemma_zero_dec_view()
    ensures
        zero_dec()@ == 0,
        zero_dec().mant() == 0,
        zero_dec().scl() == 0,
{
    let z = Dec { mantissa: 0, scale: 0 };
    assert(parts(z) == (0int, 0nat));
    lemma_dec_of(z);
}

/// The absolute value of a decimal, with the same scale.
pub closed spec fn dabs(d: Dec) -> Dec {
    if d.mantissa < 0 {
        Dec { mantissa: (-d.mantissa) as i128, scale: d.scale }
    } else {
        d
    }
}

/// The decimal two (mantissa 2, scale 0), as `Decimal::TWO`.
pub open spec fn two_dec() -> Dec {
    dec_of((2int, 0nat))
}

/// The sum of a sequence of decimals, added from the left starting at zero.
pub open spec fn dsum(s: Seq<Dec>) -> Dec
    decreases s.len(),
{
    if s.len() == 0 {
        zero_dec()
    } else {
        dadd(dsum(s.drop_last()), s.last())
    }
}

/// No partial sum of `s` leaves the range of decimals.
pub open spec fn dsum_ok(s: Seq<Dec>) -> bool
    decreases s.len(),
{
    if s.len() == 0 {
        true
    } else {
        dsum_ok(s.drop_last()) && in_range(dsum(s.drop_last())@ + s.last()@)
    }
}

/// The mantissa of `a + b` at the larger of the two scales.
pub open spec fn aligned_sum(a: Dec, b: Dec) -> int {
    let m = max_nat(a.scl(), b.scl());
    a.mant() * pow10((m - a.scl()) as nat) + b.mant() * pow10((m - b.scl()) as nat)
}

/// The mantissa of `a - b` at the larger of the two scales.
pub open spec fn aligned_difference(a: Dec, b: Dec) -> int {
    let m = max_nat(a.scl(), b.scl());
    a.mant() * pow10((m - a.scl()) as nat) - b.mant() * pow10((m - b.scl()) as nat)
}

/// A decimal's value is its mantissa times 10 to the power `28 - scale`, in
/// units of 10^-28.
pub proof fn lemma_view_parts(d: Dec)
    ensures
        d@ == d.mant() * pow10((28 - d.scl()) as nat),
{
}

/// The value of `a + b` (or `a - b`) is the aligned mantissa at the larger
/// scale, so the sum is exact exactly when that mantissa fits in 96 bits.
pub proof fn lemma_aligned(a: Dec, b: Dec)
    requires
        a.scl() <= 28,
        b.scl() <= 28,
    ensures
        a@ + b@ == aligned_sum(a, b) * pow10((28 - max_nat(a.scl(), b.scl())) as nat),
        a@ - b@ == aligned_difference(a, b) * pow10((28 - max_nat(a.scl(), b.scl())) as nat),
        sum_fits(a, b, a@ + b@) <==> abs_int(aligned_sum(a, b)) <= max_mantissa(),
        sum_fits(a, b, a@ - b@) <==> abs_int(aligned_difference(a, b)) <= max_mantissa(),
{
    let m = max_nat(a.scl(), b.scl());
    let p = pow10((28 - m) as nat);
    let pa = pow10((m - a.scl()) as nat);
    let pb = pow10((m - b.scl()) as nat);
    lemma_pow10_add((m - a.scl()) as nat, (28 - m) as nat);
    lemma_pow10_add((m - b.scl()) as nat, (28 - m) as nat);
    lemma_pow10_pos((28 - m) as nat);
    assert(a@ == a.mant() * (pa * p));
    assert(b@ == b.mant() * (pb * p));
    assert(a@ + b@ == aligned_sum(a, b) * p) by (nonlinear_arith)
        requires
            a@ == a.mant() * (pa * p),
            b@ == b.mant() * (pb * p),
            aligned_sum(a, b) == a.mant() * pa + b.mant() * pb,
    ;
    assert(a@ - b@ == aligned_difference(a, b) * p) by (nonlinear_arith)
        requires
            a@ == a.mant() * (pa * p),
            b@ == b.mant() * (pb * p),
            aligned_difference(a, b) == a.mant() * pa - b.mant() * pb,
    ;
    assert(abs_int(aligned_sum(a, b) * p) == abs_int(aligned_sum(a, b)) * p) by (nonlinear_arith)
        requires
            p > 0,
    ;
    assert(abs_int(aligned_difference(a, b) * p) == abs_int(aligned_difference(a, b)) * p)
        by (nonlinear_arith)
        requires
            p > 0,
    ;
    assert((abs_int(aligned_sum(a, b)) * p <= max_mantissa() * p) <==> (abs_int(aligned_sum(a, b))
        <= max_mantissa())) by (nonlinear_arith)
        requires
            p > 0,
    ;
    assert((abs_int(aligned_difference(a, b)) * p <= max_mantissa() * p) <==> (abs_int(
        aligned_difference(a, b),
    ) <= max_mantissa())) by (nonlinear_arith)
        requires
            p > 0,
    ;
}

/// A decimal whose value is `v * 10^(28 - s)` at scale `s` has mantissa `v`.
proof fn lemma_mantissa_of_value(r: Dec, v: int)
    requires
        r@ == v * pow10((28 - r.scl()) as nat),
    ensures
        r.mant() == v,
{
    let p = pow10((28 - r.scl()) as nat);
    lemma_pow10_pos((28 - r.scl()) as nat);
    assert(r.mant() * p == v * p);
    assert(r.mant() == v) by (nonlinear_arith)
        requires
            r.mant() * p == v * p,
            p > 0,
    ;
}

impl Dec {
    /// `self + other`.
    pub fn plus(&self, other: &Dec) -> (r: Dec)
        requires
            in_range(self@ + other@),
        ensures
            r == dadd(*self, *other),
            sum_fits(*self, *other, self@ + other@) ==> r@ == self@ + other@,
            self.mant() == 0 ==> r == *other,
            self.mant() != 0 && other.mant() == 0 ==> r == *self,
            self.mant() != 0 && other.mant() != 0 && sum_fits(*self, *other, self@ + other@)
                ==> r.scl() == max_nat(self.scl(), other.scl()),
            self.mant() != 0 && other.mant() != 0 && abs_int(aligned_sum(*self, *other))
                <= max_mantissa() ==> parts(r) == (aligned_sum(*self, *other), max_nat(self.scl(), other.scl())),
    {
        let r = rd_add(*self, *other);
        proof {
            lemma_dec_of(r);
            use_type_invariant(self);
            use_type_invariant(other);
            lemma_aligned(*self, *other);
            if self.mant() != 0 && other.mant() != 0 && abs_int(aligned_sum(*self, *other)) <= max_mantissa() {
                lemma_mantissa_of_value(r, aligned_sum(*self, *other));
            }
        }
        r
    }

    /// `self - other`.
    pub fn minus(&self, other: &Dec) -> (r: Dec)
        requires
            in_range(self@ - other@),
        ensures
            r == dsub(*self, *other),
            sum_fits(*self, *other, self@ - other@) ==> r@ == self@ - other@,
            self.mant() == 0 ==> parts(r) == (-other.mant(), other.scl()),
            self.mant() != 0 && other.mant() == 0 ==> r == *self,
            self.mant() != 0 && other.mant() != 0 && sum_fits(*self, *other, self@ - other@)
                ==> r.scl() == max_nat(self.scl(), other.scl()),
            self.mant() != 0 && other.mant() != 0 && abs_int(aligned_difference(*self, *other))
                <= max_mantissa() ==> parts(r) == (
                aligned_difference(*self, *other),
                max_nat(self.scl(), other.scl()),
            ),
    {
        let r = rd_sub(*self, *other);
        proof {
            lemma_dec_of(r);
            use_type_invariant(self);
            use_type_invariant(other);
            lemma_aligned(*self, *other);
            if self.mant() != 0 && other.mant() != 0 && abs_int(aligned_difference(*self, *other))
                <= max_mantissa() {
                lemma_mantissa_of_value(r, aligned_difference(*self, *other));
            }
        }
        r
    }

    /// `self * other`.
    pub fn times(&self, other: &Dec) -> (r: Dec)
        requires
            abs_int(self@ * other@) <= max_units() * pow10(28),
        ensures
            r == dmul(*self, *other),
            product_fits(*self, *other) ==> r@ * pow10(28) == self@ * other@,
            abs_int(r@) * pow10(28) <= abs_int(self@ * other@) + pow10(28) * pow10(28),
            self.mant() == 0 || other.mant() == 0 ==> parts(r) == (0int, 0nat),
            self.mant() != 0 && other.mant() != 0 && product_fits(*self, *other) ==> parts(r) == (
                self.mant() * other.mant(),
                self.scl() + other.scl(),
            ),
    {
        let r = rd_mul(*self, *other);
        proof {
            lemma_dec_of(r);
        }
        r
    }

    /// `self / other`.
    pub fn divided_by(&self, other: &Dec) -> (r: Dec)
        requires
            other@ != 0,
            abs_int(self@) < max_mantissa() * abs_int(other@),
        ensures
            r == ddiv(*self, *other),
            self.mant() == 0 ==> parts(r) == (0int, 0nat),
    {
        let r = rd_div(*self, *other);
        proof {
            lemma_dec_of(r);
        }
        r
    }
}

/// Three-way comparison of two decimals by value (`Ord::cmp` of
/// `rust_decimal::Decimal`, which compares the exact values): -1, 0 or 1.
#[verifier::external_body]
fn dec_compare(a: Dec, b: Dec) -> (r: i8)
    ensures
        r == -1 <==> a@ < b@,
        r == 0 <==> a@ == b@,
        r == 1 <==> a@ > b@,
{
    match to_rd(a).cmp(&to_rd(b)) {
        core::cmp::Ordering::Less => -1,
        core::cmp::Ordering::Equal => 0,
        core::cmp::Ordering::Greater => 1,
    }
}

/// The text of a decimal (`Display` of `rust_decimal::Decimal`).
#[verifier::external_body]
pub(crate) fn dec_to_string(d: Dec) -> (r: String)
    ensures
        r@ == decimal_text(d.mant(), d.scl()),
{
    to_rd(d).to_string()
}

/// Reading a decimal from text (`FromStr` of `rust_decimal::Decimal`).
#[verifier::external_body]
fn dec_from_str(s: &str) -> (r: Option<Dec>)
    ensures
        match r {
            Some(d) => decimal_parse(s@) == Some(parts(d)),
            None => decimal_parse(s@) is None,
        },
{
    match s.parse::<Decimal>() {
        Ok(d) => Some(from_rd(d)),
        Err(_) => None,
    }
}

/// A text that could not be read as a decimal.
#[derive(Clone, Copy, Debug, PartialEq, Eq, Structural)]
pub struct DecimalParseError;

/// Reads a decimal number from a string.
pub fn parse_decimal(s: &str) -> (r: Result<Dec, DecimalParseError>)
    ensures
        match r {
            Ok(d) => decimal_parse(s@) == Some(parts(d)),
            Err(_) => decimal_parse(s@) is None,
        },
{
    match dec_from_str(s) {
        Some(d) => Ok(d),
        None => Err(DecimalParseError),
    }
}

impl Dec {
    /// The decimal `num * 10^-scale` (as `Decimal::new`).
    pub fn new(num: i64, scale: u32) -> (r: Dec)
        requires
            scale <= 28,
        ensures
            r.mant() == num,
            r.scl() == scale,
            r@ == num * pow10((28 - scale) as nat),
    {
        Dec { mantissa: num as i128, scale }
    }

    /// The decimal with the given mantissa and scale, if they are within the
    /// limits of a decimal.
    pub fn from_parts(mantissa: i128, scale: u32) -> (r: Option<Dec>)
        ensures
            match r {
                Some(d) => d.mant() == mantissa && d.scl() == scale,
                None => scale > 28 || mantissa > max_mantissa() || mantissa < -max_mantissa(),
            },
    {
        if scale > 28 || mantissa > 79228162514264337593543950335i128
            || mantissa < -79228162514264337593543950335i128 {
            None
        } else {
            Some(Dec { mantissa, scale })
        }
    }

    pub fn zero() -> (r: Dec)
        ensures
            r@ == 0,
            r.mant() == 0,
            r.scl() == 0,
            r == zero_dec(),
    {
        let r = Dec { mantissa: 0, scale: 0 };
        proof {
            lemma_dec_of(r);
        }
        r
    }

    pub fn one() -> (r: Dec)
        ensures
            r@ == pow10(28),
            r.mant() == 1,
            r.scl() == 0,
    {
        Dec { mantissa: 1, scale: 0 }
    }

    pub fn two() -> (r: Dec)
        ensures
            r@ == 2 * pow10(28),
            r.mant() == 2,
            r.scl() == 0,
            r == two_dec(),
    {
        let r = Dec { mantissa: 2, scale: 0 };
        proof {
            lemma_dec_of(r);
        }
        r
    }

    /// The decimal's text, as `rust_decimal` displays it.
    pub fn to_string(&self) -> (r: String)
        ensures
            r@ == decimal_text(self.mant(), self.scl()),
    {
        dec_to_string(*self)
    }

    pub fn mantissa(&self) -> (r: i128)
        ensures
            r == self.mant(),
    {
        self.mantissa
    }

    pub fn scale(&self) -> (r: u32)
        ensures
            r == self.scl(),
    {
        self.scale
    }

    /// Whether the value is zero.
    pub fn is_zero(&self) -> (r: bool)
        ensures
            r == (self@ == 0),
    {
        proof {
            lemma_pow10_pos((28 - self.scale) as nat);
            let p = pow10((28 - self.scale) as nat);
            let m = self.mantissa as int;
            assert(m * p == 0 <==> m == 0) by (nonlinear_arith)
                requires
                    p >= 1,
            ;
        }
        self.mantissa == 0
    }

    /// The absolute value.
    pub fn abs(&self) -> (r: Dec)
        ensures
            r@ == abs_int(self@),
            r.scl() == self.scl(),
            r == dabs(*self),
    {
        proof {
            use_type_invariant(self);
            let p = pow10((28 - self.scale) as nat);
            let m = self.mantissa as int;
            assert((-m) * p == -(m * p)) by (nonlinear_arith);
            lemma_pow10_pos((28 - self.scale) as nat);
            assert(m < 0 <==> m * p < 0) by (nonlinear_arith)
                requires
                    p >= 1,
            ;
        }
        if self.mantissa < 0 {
            Dec { mantissa: -self.mantissa, scale: self.scale }
        } else {
            *self
        }
    }

    /// The negated value.
    pub fn neg(&self) -> (r: Dec)
        ensures
            r@ == -self@,
            r.scl() == self.scl(),
    {
        proof {
            use_type_invariant(self);
            let p = pow10((28 - self.scale) as nat);
            let m = self.mantissa as int;
            assert((-m) * p == -(m * p)) by (nonlinear_arith);
        }
        Dec { mantissa: -self.mantissa, scale: self.scale }
    }

    /// `self < other` by value.
    pub fn lt(&self, other: &Dec) -> (r: bool)
        ensures
            r == (self@ < other@),
    {
        dec_compare(*self, *other) == -1
    }

    /// `self <= other` by value.
    pub fn le(&self, other: &Dec) -> (r: bool)
        ensures
            r == (self@ <= other@),
    {
        dec_compare(*self, *other) != 1
    }

    /// `self == other` by value.
    pub fn eq_value(&self, other: &Dec) -> (r: bool)
        ensures
            r == (self@ == other@),
    {
        dec_compare(*self, *other) == 0
    }

    /// The larger of two values (the first on a tie).
    pub fn max_value(&self, other: &Dec) -> (r: Dec)
        ensures
            r@ == if self@ >= other@ { self@ } else { other@ },
            r == if self@ >= other@ { *self } else { *other },
    {
        if other.lt(self) || other.eq_value(self) {
            *self
        } else {
            *other
        }
    }
}

impl PartialEq for Dec {
    fn eq(&self, other: &Dec) -> (r: bool) {
        self.eq_value(other)
    }
}

impl vstd::std_specs::cmp::PartialEqSpecImpl for Dec {
    open spec fn obeys_eq_spec() -> bool {
        true
    }

    open spec fn eq_spec(&self, other: &Dec) -> bool {
        self@ == other@
    }
}

impl Eq for Dec {
}

proof fn lemma_pow10_28()
    ensures
        pow10(28) == 10000000000000000000000000000,
{
    reveal_with_fuel(pow10, 29);
}

/// 10 to the power `n`, for `n` up to 28.
fn pow10_u128(n: u32) -> (r: u128)
    requires
        n <= 28,
    ensures
        r == pow10(n as nat),
{
    let mut r: u128 = 1;
    let mut i: u32 = 0;
    while i < n
        invariant
            i <= n <= 28,
            r == pow10(i as nat),
        decreases n - i,
    {
        proof {
            lemma_pow10_mono((i + 1) as nat, 28);
            reveal_with_fuel(pow10, 29);
        }
        r = r * 10;
        i = i + 1;
    }
    r
}

/// The value of `d` in units of 10^-28 as `hi * 10^28 + lo`: the whole part
/// and the fraction, both with the sign of `d`.
fn split_units(d: &Dec) -> (r: (i128, i128))
    ensures
        r.0 * pow10(28) + r.1 == d@,
        -max_mantissa() <= r.0 <= max_mantissa(),
        -pow10(28) < r.1 < pow10(28),
{
    proof {
        use_type_invariant(d);
    }
    let m = d.mantissa;
    let s = d.scale;
    let am: u128 = if m < 0 {
        (-m) as u128
    } else {
        m as u128
    };
    let p = pow10_u128(s);
    let q = pow10_u128(28 - s);
    proof {
        lemma_pow10_add(s as nat, (28 - s) as nat);
        lemma_pow10_pos(s as nat);
        lemma_pow10_pos((28 - s) as nat);
        lemma_pow10_28();
    }
    let ih = am / p;
    let fl = am % p;
    assert(am == ih * p + fl) by (nonlinear_arith)
        requires
            p > 0,
            ih == am / p,
            fl == am % p,
    ;
    assert(fl * q < p * q) by (nonlinear_arith)
        requires
            fl < p,
            q > 0,
    ;
    let lo = fl * q;
    assert(am * q == ih * (p * q) + lo) by (nonlinear_arith)
        requires
            am == ih * p + fl,
            lo == fl * q,
    ;
    assert(ih <= am) by (nonlinear_arith)
        requires
            ih == am / p,
            p >= 1,
    ;
    let ghost pp = pow10(28) as int;
    assert(p * q == pp);
    if m < 0 {
        assert(d@ == -(ih * pp + lo)) by (nonlinear_arith)
            requires
                d@ == m * (q as int),
                am == -m,
                am * q == ih * pp + lo,
        ;
        (-(ih as i128), -(lo as i128))
    } else {
        assert(d@ == ih * pp + lo) by (nonlinear_arith)
            requires
                d@ == m * (q as int),
                am == m,
                am * q == ih * pp + lo,
        ;
        (ih as i128, lo as i128)
    }
}

/// Whether `a + b` lies within the range of decimals, decided exactly.
pub fn sum_in_range(a: &Dec, b: &Dec) -> (r: bool)
    ensures
        r == in_range(a@ + b@),
{
    let (ha, la) = split_units(a);
    let (hb, lb) = split_units(b);
    proof {
        lemma_pow10_28();
    }
    within_range(ha + hb, la + lb)
}

/// Whether `a - b` lies within the range of decimals, decided exactly.
pub fn difference_in_range(a: &Dec, b: &Dec) -> (r: bool)
    ensures
        r == in_range(a@ - b@),
{
    let (ha, la) = split_units(a);
    let (hb, lb) = split_units(b);
    proof {
        lemma_pow10_28();
    }
    within_range(ha - hb, la - lb)
}

/// Whether `hi * 10^28 + lo` lies within the range of decimals.
fn within_range(hi: i128, lo: i128) -> (r: bool)
    requires
        -2 * max_mantissa() <= hi <= 2 * max_mantissa(),
        -2 * pow10(28) < lo < 2 * pow10(28),
    ensures
        r == in_range(hi * pow10(28) + lo),
{
    proof {
        lemma_pow10_28();
    }
    let big: i128 = 79228162514264337593543950335;
    let unit: i128 = 10000000000000000000000000000;
    let d = hi - big;
    let upper = if d >= 2 {
        false
    } else if d <= -2 {
        true
    } else {
        d * unit + lo <= 0
    };
    let e = hi + big;
    let lower = if e <= -2 {
        false
    } else if e >= 2 {
        true
    } else {
        e * unit + lo >= 0
    };
    upper && lower
}

/// Whether `x * y <= c * 10^k`, decided by long division of `c * 10^k` by `x`.
fn product_le_scaled(x: u128, y: u128, c: u128, k: u32) -> (r: bool)
    requires
        0 < x < 0x1_0000_0000_0000_0000_0000_0000,
        y < 0x1_0000_0000_0000_0000_0000_0000,
        c < 0x1_0000_0000_0000_0000_0000_0000,
        k <= 28,
    ensures
        r == (x * y <= c * pow10(k as nat)),
{
    let bound: u128 = 0x1_0000_0000_0000_0000_0000_0000;
    let mut q: u128 = c / x;
    let mut rem: u128 = c % x;
    assert(q * x + rem == c) by (nonlinear_arith)
        requires
            x > 0,
            q == c / x,
            rem == c % x,
    ;
    assert(q <= c) by (nonlinear_arith)
        requires
            x >= 1,
            q == c / x,
    ;
    let mut i: u32 = 0;
    assert(pow10(0) == 1);
    while i < k
        invariant
            0 < x < bound,
            y < bound,
            c < bound,
            bound == 0x1_0000_0000_0000_0000_0000_0000,
            k <= 28,
            i <= k,
            q * x + rem == c * pow10(i as nat),
            rem < x,
            q < bound,
        decreases k - i,
    {
        let ten_rem = rem * 10;
        let carry = ten_rem / x;
        let r2 = ten_rem % x;
        assert(carry * x + r2 == ten_rem) by (nonlinear_arith)
            requires
                x > 0,
                carry == ten_rem / x,
                r2 == ten_rem % x,
        ;
        assert(carry < 10) by (nonlinear_arith)
            requires
                x > 0,
                rem < x,
                ten_rem == rem * 10,
                carry == ten_rem / x,
        ;
        let q2 = q * 10 + carry;
        proof {
            assert(pow10((i + 1) as nat) == 10 * pow10(i as nat));
            assert(q2 * x + r2 == c * pow10((i + 1) as nat)) by (nonlinear_arith)
                requires
                    q2 == q * 10 + carry,
                    carry * x + r2 == rem * 10,
                    q * x + rem == c * pow10(i as nat),
                    pow10((i + 1) as nat) == 10 * pow10(i as nat),
            ;
        }
        i = i + 1;
        if q2 >= bound {
            proof {
                lemma_pow10_mono(i as nat, k as nat);
                assert(x * y <= c * pow10(k as nat)) by (nonlinear_arith)
                    requires
                        x > 0,
                        y < q2,
                        q2 * x + r2 == c * pow10(i as nat),
                        pow10(i as nat) <= pow10(k as nat),
                ;
            }
            return true;
        }
        q = q2;
        rem = r2;
    }
    assert((y <= q) == (x * y <= c * pow10(k as nat))) by (nonlinear_arith)
        requires
            x > 0,
            rem < x,
            q * x + rem == c * pow10(k as nat),
    ;
    y <= q
}

/// The magnitude of a decimal's mantissa, and the facts about it that the
/// range checks below use.
fn mantissa_magnitude(d: &Dec) -> (r: u128)
    ensures
        r == abs_int(d.mant()),
        r <= max_mantissa(),
        abs_int(d@) == r * pow10((28 - d.scl()) as nat),
        d.scl() <= 28,
{
    proof {
        use_type_invariant(d);
        lemma_pow10_pos((28 - d.scale) as nat);
        let p = pow10((28 - d.scale) as nat);
        assert(abs_int(d.mant() * p) == abs_int(d.mant()) * p) by (nonlinear_arith)
            requires
                p > 0,
        ;
    }
    if d.mantissa < 0 {
        (-d.mantissa) as u128
    } else {
        d.mantissa as u128
    }
}

/// Whether the exact product of two decimals lies within the range of
/// decimals (the condition under which `times` does not panic).
pub fn product_in_range(a: &Dec, b: &Dec) -> (r: bool)
    ensures
        r == (abs_int(a@ * b@) <= max_units() * pow10(28)),
{
    let x = mantissa_magnitude(a);
    let y = mantissa_magnitude(b);
    let k: u32 = a.scale + b.scale;
    let ghost pa = pow10((28 - a.scl()) as nat);
    let ghost pb = pow10((28 - b.scl()) as nat);
    let ghost pr = pow10((56 - k) as nat);
    proof {
        lemma_pow10_add((28 - a.scl()) as nat, (28 - b.scl()) as nat);
        lemma_pow10_add(k as nat, (56 - k) as nat);
        lemma_pow10_add(28, 28);
        lemma_pow10_pos((56 - k) as nat);
        assert(abs_int(a@ * b@) == abs_int(a@) * abs_int(b@)) by (nonlinear_arith);
        assert(abs_int(a@ * b@) == (x * y) * pr) by (nonlinear_arith)
            requires
                abs_int(a@ * b@) == abs_int(a@) * abs_int(b@),
                abs_int(a@) == x * pa,
                abs_int(b@) == y * pb,
                pa * pb == pr,
        ;
        assert(max_units() * pow10(28) == (max_mantissa() * pow10(k as nat)) * pr) by (nonlinear_arith)
            requires
                max_units() == max_mantissa() * pow10(28),
                pow10(28) * pow10(28) == pow10(56),
                pow10(k as nat) * pr == pow10(56),
        ;
        assert(((x * y) * pr <= (max_mantissa() * pow10(k as nat)) * pr) == (x * y <= max_mantissa()
            * pow10(k as nat))) by (nonlinear_arith)
            requires
                pr > 0,
        ;
    }
    if x == 0 || y == 0 {
        proof {
            assert(x * y == 0) by (nonlinear_arith)
                requires
                    x == 0 || y == 0,
            ;
            lemma_pow10_pos(k as nat);
        }
        return true;
    }
    if k > 28 {
        proof {
            lemma_pow10_mono(29, k as nat);
            reveal_with_fuel(pow10, 30);
            assert(x * y <= max_mantissa() * pow10(k as nat)) by (nonlinear_arith)
                requires
                    x <= max_mantissa(),
                    y <= max_mantissa(),
                    max_mantissa() < pow10(29),
                    pow10(29) <= pow10(k as nat),
            ;
        }
        return true;
    }
    product_le_scaled(x, y, 79228162514264337593543950335, k)
}

/// Whether the quotient of two decimals is defined and within the range of
/// decimals (the condition under which `divided_by` does not panic).
pub fn quotient_in_range(a: &Dec, b: &Dec) -> (r: bool)
    ensures
        r == div_ok(*a, *b),
{
    let x = mantissa_magnitude(a);
    let y = mantissa_magnitude(b);
    let ghost pa = pow10((28 - a.scl()) as nat);
    let ghost pb = pow10((28 - b.scl()) as nat);
    proof {
        lemma_pow10_pos((28 - a.scl()) as nat);
        lemma_pow10_pos((28 - b.scl()) as nat);
    }
    if y == 0 {
        assert(abs_int(b@) == 0) by (nonlinear_arith)
            requires
                abs_int(b@) == y * pb,
                y == 0,
        ;
        return false;
    }
    assert(b@ != 0) by (nonlinear_arith)
        requires
            abs_int(b@) == y * pb,
            y > 0,
            pb > 0,
    ;
    if a.scale > b.scale {
        proof {
            lemma_pow10_add(1, (28 - a.scl()) as nat);
            lemma_pow10_mono((28 - a.scl() + 1) as nat, (28 - b.scl()) as nat);
            reveal_with_fuel(pow10, 2);
            assert(pow10(1) == 10);
            assert(abs_int(a@) < max_mantissa() * abs_int(b@)) by (nonlinear_arith)
                requires
                    abs_int(a@) == x * pa,
                    abs_int(b@) == y * pb,
                    x <= max_mantissa(),
                    y >= 1,
                    pa > 0,
                    10 * pa <= pb,
            ;
        }
        return true;
    }
    let j: u32 = b.scale - a.scale;
    proof {
        lemma_pow10_add(j as nat, (28 - b.scl()) as nat);
        assert(((max_mantissa() * y) * pb <= (x * pow10(j as nat)) * pb) == (y * max_mantissa() <= x
            * pow10(j as nat))) by (nonlinear_arith)
            requires
                pb > 0,
        ;
        assert(abs_int(a@) == (x * pow10(j as nat)) * pb) by (nonlinear_arith)
            requires
                abs_int(a@) == x * pa,
                pa == pow10(j as nat) * pb,
        ;
        assert(max_mantissa() * abs_int(b@) == (max_mantissa() * y) * pb) by (nonlinear_arith)
            requires
                abs_int(b@) == y * pb,
        ;
    }
    !product_le_scaled(y, 79228162514264337593543950335, x, j)
}

} // verus!
