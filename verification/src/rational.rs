//! Exact rational scalars.
//!
//! The differentiation engine works on exact rational numbers rather than on
//! machine floats, so that gradient laws can be stated and checked with zero
//! tolerance.  A [`Rat`] is a fraction `num / den` with a 64-bit numerator
//! and a positive 64-bit denominator; fractions are not normalised, so two
//! values are compared by cross multiplication (`ratio_eq`).
//!
//! Every arithmetic operation is partial: it returns `None` when the exact
//! result cannot be represented (an overflowing numerator or denominator, a
//! division by zero, or a square root outside the representable domain).
//! `None` plays the role that a NaN plays for floats: it propagates through
//! arithmetic and compares false under every ordering.

use vstd::prelude::*;

verus! {

/// Whether a mathematical integer fits in an `i64`.
pub open spec fn in_i64(x: int) -> bool {
    i64::MIN <= x <= i64::MAX
}

/// An exact (unnormalised) rational number.  Well-formed values have a
/// positive denominator; see [`Rat::wf`].
#[derive(Clone, Copy, Debug, PartialEq, Eq, Structural)]
pub struct Rat {
    pub num: i64,
    pub den: i64,
}

impl Rat {
    /// The denominator is positive, so the sign of the value is the sign of
    /// the numerator and cross multiplication preserves order.
    pub open spec fn wf(self) -> bool {
        self.den >= 1
    }

    /// `self` and `other` denote the same rational value.
    pub open spec fn ratio_eq(self, other: Rat) -> bool {
        self.num * other.den == other.num * self.den
    }

    /// `self` denotes a strictly smaller value than `other` (for well-formed
    /// operands).
    pub open spec fn ratio_lt(self, other: Rat) -> bool {
        self.num * other.den < other.num * self.den
    }

    /// `self` denotes exactly the integer `k`.
    pub open spec fn is_int(self, k: int) -> bool {
        self.num == k * self.den
    }

    /// The rational zero.
    pub fn zero() -> (r: Rat)
        ensures
            r == (Rat { num: 0, den: 1 }),
    {
        Rat { num: 0, den: 1 }
    }

    /// The rational one.
    pub fn one() -> (r: Rat)
        ensures
            r == (Rat { num: 1, den: 1 }),
    {
        Rat { num: 1, den: 1 }
    }

    /// The rational with value `i`.
    pub fn from_int(i: i64) -> (r: Rat)
        ensures
            r.wf(),
            r.num == i,
            r.den == 1,
    {
        Rat { num: i, den: 1 }
    }

    /// Builds `num / den`, normalising the sign into the numerator.  Fails
    /// exactly when `den` is zero or when the sign flip does not fit.
    pub fn new(num: i64, den: i64) -> (r: Option<Rat>)
        ensures
            r == rat_new(num as int, den as int),
    {
        if den == 0 {
            None
        } else if den > 0 {
            Some(Rat { num, den })
        } else if num == i64::MIN || den == i64::MIN {
            None
        } else {
            Some(Rat { num: -num, den: -den })
        }
    }

    /// Exact addition; `None` on overflow.
    pub fn checked_add(self, other: Rat) -> (r: Option<Rat>)
        requires
            self.wf(),
            other.wf(),
        ensures
            r == rat_add(self, other),
    {
        proof {
            lemma_prod_num_den(self.num as int, other.den as int);
            lemma_prod_num_den(other.num as int, self.den as int);
            lemma_prod_num_den(self.den as int, other.den as int);
        }
        let n: i128 = self.num as i128 * other.den as i128 + other.num as i128 * self.den as i128;
        let d: i128 = self.den as i128 * other.den as i128;
        if n >= i64::MIN as i128 && n <= i64::MAX as i128 && d <= i64::MAX as i128 {
            Some(Rat { num: n as i64, den: d as i64 })
        } else {
            None
        }
    }

    /// Exact subtraction; `None` on overflow.
    pub fn checked_sub(self, other: Rat) -> (r: Option<Rat>)
        requires
            self.wf(),
            other.wf(),
        ensures
            r == rat_sub(self, other),
    {
        proof {
            lemma_prod_num_den(self.num as int, other.den as int);
            lemma_prod_num_den(other.num as int, self.den as int);
            lemma_prod_num_den(self.den as int, other.den as int);
        }
        let n: i128 = self.num as i128 * other.den as i128 - other.num as i128 * self.den as i128;
        let d: i128 = self.den as i128 * other.den as i128;
        if n >= i64::MIN as i128 && n <= i64::MAX as i128 && d <= i64::MAX as i128 {
            Some(Rat { num: n as i64, den: d as i64 })
        } else {
            None
        }
    }

    /// Exact multiplication; `None` on overflow.
    pub fn checked_mul(self, other: Rat) -> (r: Option<Rat>)
        requires
            self.wf(),
            other.wf(),
        ensures
            r == rat_mul(self, other),
    {
        proof {
            lemma_prod_num_num(self.num as int, other.num as int);
            lemma_prod_num_den(self.den as int, other.den as int);
        }
        let n: i128 = self.num as i128 * other.num as i128;
        let d: i128 = self.den as i128 * other.den as i128;
        if n >= i64::MIN as i128 && n <= i64::MAX as i128 && d <= i64::MAX as i128 {
            Some(Rat { num: n as i64, den: d as i64 })
        } else {
            None
        }
    }

    /// Exact negation; `None` only for the one numerator with no negative.
    pub fn checked_neg(self) -> (r: Option<Rat>)
        requires
            self.wf(),
        ensures
            r == rat_neg(self),
    {
        if self.num == i64::MIN {
            None
        } else {
            Some(Rat { num: -self.num, den: self.den })
        }
    }

    /// Exact division; `None` on a zero divisor or on overflow.
    pub fn checked_div(self, other: Rat) -> (r: Option<Rat>)
        requires
            self.wf(),
            other.wf(),
        ensures
            r == rat_div(self, other),
    {
        if other.num == 0 {
            return None;
        }
        proof {
            lemma_prod_num_den(self.num as int, other.den as int);
            lemma_prod_num_num(self.den as int, other.num as int);
        }
        let n0: i128 = self.num as i128 * other.den as i128;
        let d0: i128 = self.den as i128 * other.num as i128;
        let n1: i128 = if d0 < 0 { -n0 } else { n0 };
        let d1: i128 = if d0 < 0 { -d0 } else { d0 };
        if n1 >= i64::MIN as i128 && n1 <= i64::MAX as i128 && d1 <= i64::MAX as i128 {
            Some(Rat { num: n1 as i64, den: d1 as i64 })
        } else {
            None
        }
    }

    /// Whether `self` denotes a strictly smaller value than `other`.
    pub fn less_than(self, other: Rat) -> (r: bool)
        requires
            self.wf(),
            other.wf(),
        ensures
            r == self.ratio_lt(other),
    {
        proof {
            lemma_prod_num_den(self.num as int, other.den as int);
            lemma_prod_num_den(other.num as int, self.den as int);
        }
        (self.num as i128 * other.den as i128) < (other.num as i128 * self.den as i128)
    }

    /// Whether `self` and `other` denote the same value.
    pub fn same_ratio(self, other: Rat) -> (r: bool)
        requires
            self.wf(),
            other.wf(),
        ensures
            r == self.ratio_eq(other),
    {
        proof {
            lemma_prod_num_den(self.num as int, other.den as int);
            lemma_prod_num_den(other.num as int, self.den as int);
        }
        (self.num as i128 * other.den as i128) == (other.num as i128 * self.den as i128)
    }

    /// Exact absolute value; `None` only for the one numerator with no
    /// negative.
    pub fn checked_abs(self) -> (r: Option<Rat>)
        requires
            self.wf(),
        ensures
            r == rat_abs(self),
    {
        if self.num >= 0 {
            Some(self)
        } else if self.num == i64::MIN {
            None
        } else {
            Some(Rat { num: -self.num, den: self.den })
        }
    }

    /// Exact square root: defined when the value is non-negative and both
    /// components of this representation are perfect squares.
    pub fn checked_sqrt(self) -> (r: Option<Rat>)
        requires
            self.wf(),
        ensures
            r == rat_sqrt(self),
    {
        if self.num < 0 {
            return None;
        }
        let sn: u64 = isqrt(self.num as u64);
        let sd: u64 = isqrt(self.den as u64);
        proof {
            lemma_sqrt_small(self.num as nat);
            lemma_sqrt_small(self.den as nat);
            assert(sn * sn <= 3037000499 * 3037000499 < u64::MAX) by (nonlinear_arith)
                requires
                    0 <= sn <= 3037000499,
            ;
            assert(sd * sd <= 3037000499 * 3037000499 < u64::MAX) by (nonlinear_arith)
                requires
                    0 <= sd <= 3037000499,
            ;
        }
        if sn * sn == self.num as u64 && sd * sd == self.den as u64 {
            Some(Rat { num: sn as i64, den: sd as i64 })
        } else {
            None
        }
    }
}

/// The exact result of building `n / d`, with the sign moved to the
/// numerator; `None` when `d` is zero or the sign flip overflows.
pub open spec fn rat_new(n: int, d: int) -> Option<Rat> {
    if d == 0 {
        None
    } else if d > 0 {
        if in_i64(n) && in_i64(d) {
            Some(Rat { num: n as i64, den: d as i64 })
        } else {
            None
        }
    } else {
        if in_i64(-n) && in_i64(-d) {
            Some(Rat { num: (-n) as i64, den: (-d) as i64 })
        } else {
            None
        }
    }
}

/// The exact sum, when it is representable.
pub open spec fn rat_add(a: Rat, b: Rat) -> Option<Rat> {
    let n: int = a.num * b.den + b.num * a.den;
    let d: int = a.den * b.den;
    if in_i64(n) && in_i64(d) {
        Some(Rat { num: n as i64, den: d as i64 })
    } else {
        None
    }
}

/// The exact difference, when it is representable.
pub open spec fn rat_sub(a: Rat, b: Rat) -> Option<Rat> {
    let n: int = a.num * b.den - b.num * a.den;
    let d: int = a.den * b.den;
    if in_i64(n) && in_i64(d) {
        Some(Rat { num: n as i64, den: d as i64 })
    } else {
        None
    }
}

/// The exact product, when it is representable.
pub open spec fn rat_mul(a: Rat, b: Rat) -> Option<Rat> {
    let n: int = a.num * b.num;
    let d: int = a.den * b.den;
    if in_i64(n) && in_i64(d) {
        Some(Rat { num: n as i64, den: d as i64 })
    } else {
        None
    }
}

/// The exact negation, when it is representable.
pub open spec fn rat_neg(a: Rat) -> Option<Rat> {
    if in_i64(-a.num) {
        Some(Rat { num: (-a.num) as i64, den: a.den })
    } else {
        None
    }
}

/// The exact absolute value, when it is representable.
pub open spec fn rat_abs(a: Rat) -> Option<Rat> {
    if a.num >= 0 {
        Some(a)
    } else if in_i64(-a.num) {
        Some(Rat { num: (-a.num) as i64, den: a.den })
    } else {
        None
    }
}

/// The exact quotient, when the divisor is non-zero and the result is
/// representable.
pub open spec fn rat_div(a: Rat, b: Rat) -> Option<Rat> {
    if b.num == 0 {
        None
    } else {
        let n0: int = a.num * b.den;
        let d0: int = a.den * b.num;
        let n: int = if d0 < 0 { -n0 } else { n0 };
        let d: int = if d0 < 0 { -d0 } else { d0 };
        if in_i64(n) && in_i64(d) {
            Some(Rat { num: n as i64, den: d as i64 })
        } else {
            None
        }
    }
}

/// The exact square root of `a`'s representation: defined when the value is
/// non-negative and numerator and denominator are both perfect squares.
pub open spec fn rat_sqrt(a: Rat) -> Option<Rat> {
    if a.num < 0 {
        None
    } else {
        let sn: nat = sqrt_floor(a.num as nat);
        let sd: nat = sqrt_floor(a.den as nat);
        if sn * sn == a.num && sd * sd == a.den {
            Some(Rat { num: sn as i64, den: sd as i64 })
        } else {
            None
        }
    }
}

/// The integer square root, rounded down.
pub open spec fn sqrt_floor(n: nat) -> nat
    decreases n,
{
    if n == 0 {
        0
    } else {
        let r: nat = sqrt_floor((n - 1) as nat);
        if (r + 1) * (r + 1) <= n {
            r + 1
        } else {
            r
        }
    }
}

/// `sqrt_floor(n)` really is the rounded-down square root.
pub proof fn lemma_sqrt_floor_bounds(n: nat)
    ensures
        sqrt_floor(n) * sqrt_floor(n) <= n,
        n < (sqrt_floor(n) + 1) * (sqrt_floor(n) + 1),
    decreases n,
{
    if n == 0 {
        assert(sqrt_floor(0) == 0);
        assert(n < (sqrt_floor(n) + 1) * (sqrt_floor(n) + 1)) by (nonlinear_arith)
            requires
                n == 0,
                sqrt_floor(n) == 0,
        ;
    } else {
        let r: nat = sqrt_floor((n - 1) as nat);
        lemma_sqrt_floor_bounds((n - 1) as nat);
        assert(r * r <= n - 1);
        assert(n - 1 < (r + 1) * (r + 1));
        if (r + 1) * (r + 1) <= n {
            assert(sqrt_floor(n) == r + 1);
            assert(sqrt_floor(n) * sqrt_floor(n) <= n);
            assert(n < (r + 1 + 1) * (r + 1 + 1)) by (nonlinear_arith)
                requires
                    n <= (r + 1) * (r + 1),
                    r >= 0,
            ;
            assert(n < (sqrt_floor(n) + 1) * (sqrt_floor(n) + 1));
        } else {
            assert(sqrt_floor(n) == r);
            assert(sqrt_floor(n) * sqrt_floor(n) <= n);
            assert(n < (sqrt_floor(n) + 1) * (sqrt_floor(n) + 1));
        }
    }
}

/// Any `r` bracketing `n` between consecutive squares is `sqrt_floor(n)`.
pub proof fn lemma_sqrt_floor_unique(n: nat, r: nat)
    requires
        r * r <= n,
        n < (r + 1) * (r + 1),
    ensures
        r == sqrt_floor(n),
{
    let s: nat = sqrt_floor(n);
    lemma_sqrt_floor_bounds(n);
    assert(r == s) by (nonlinear_arith)
        requires
            r * r <= n,
            n < (r + 1) * (r + 1),
            s * s <= n,
            n < (s + 1) * (s + 1),
            r >= 0,
            s >= 0,
    ;
}

/// For arguments bounded by `i64::MAX`, the rounded-down square root fits
/// well under the 32-bit mark.
proof fn lemma_sqrt_small(n: nat)
    requires
        n <= i64::MAX,
    ensures
        sqrt_floor(n) <= 3037000499,
{
    let s: nat = sqrt_floor(n);
    lemma_sqrt_floor_bounds(n);
    assert(s <= 3037000499) by (nonlinear_arith)
        requires
            s * s <= n,
            n <= i64::MAX,
            s >= 0,
    ;
}

/// The integer square root, rounded down, of any `n` up to `i64::MAX`.
pub fn isqrt(n: u64) -> (r: u64)
    requires
        n <= i64::MAX,
    ensures
        r == sqrt_floor(n as nat),
{
    let mut lo: u64 = 0;
    let mut hi: u64 = 3037000499;
    proof {
        assert((3037000499 + 1) * (3037000499 + 1) > i64::MAX) by (nonlinear_arith);
    }
    while lo < hi
        invariant
            lo <= hi,
            hi <= 3037000499,
            lo * lo <= n,
            n < (hi + 1) * (hi + 1),
        decreases hi - lo,
    {
        let mid: u64 = lo + (hi - lo + 1) / 2;
        proof {
            assert(mid * mid <= 3037000499 * 3037000499 < u64::MAX) by (nonlinear_arith)
                requires
                    0 <= mid <= 3037000499,
            ;
        }
        if mid * mid <= n {
            lo = mid;
        } else {
            hi = mid - 1;
        }
    }
    proof {
        lemma_sqrt_floor_unique(n as nat, lo as nat);
    }
    lo
}

/// Whether an optional scalar is well-formed when present.
pub open spec fn val_wf(v: Option<Rat>) -> bool {
    v matches Some(c) ==> c.wf()
}

/// Addition lifted to the partial domain: `None` is absorbing.
pub open spec fn oadd(a: Option<Rat>, b: Option<Rat>) -> Option<Rat> {
    match (a, b) {
        (Some(x), Some(y)) => rat_add(x, y),
        _ => None,
    }
}

/// Subtraction lifted to the partial domain: `None` is absorbing.
pub open spec fn osub(a: Option<Rat>, b: Option<Rat>) -> Option<Rat> {
    match (a, b) {
        (Some(x), Some(y)) => rat_sub(x, y),
        _ => None,
    }
}

/// Multiplication lifted to the partial domain: `None` is absorbing.
pub open spec fn omul(a: Option<Rat>, b: Option<Rat>) -> Option<Rat> {
    match (a, b) {
        (Some(x), Some(y)) => rat_mul(x, y),
        _ => None,
    }
}

/// Division lifted to the partial domain: `None` is absorbing.
pub open spec fn odiv(a: Option<Rat>, b: Option<Rat>) -> Option<Rat> {
    match (a, b) {
        (Some(x), Some(y)) => rat_div(x, y),
        _ => None,
    }
}

/// Negation lifted to the partial domain: `None` is absorbing.
pub open spec fn oneg(a: Option<Rat>) -> Option<Rat> {
    match a {
        Some(x) => rat_neg(x),
        None => None,
    }
}

/// Square root lifted to the partial domain: `None` is absorbing.
pub open spec fn osqrt(a: Option<Rat>) -> Option<Rat> {
    match a {
        Some(x) => rat_sqrt(x),
        None => None,
    }
}

/// Absolute value lifted to the partial domain: `None` is absorbing.
pub open spec fn oabs(a: Option<Rat>) -> Option<Rat> {
    match a {
        Some(x) => rat_abs(x),
        None => None,
    }
}

/// Strict order lifted to the partial domain: any undefined operand compares
/// false, as a NaN does.
pub open spec fn ogt(a: Option<Rat>, b: Option<Rat>) -> bool {
    match (a, b) {
        (Some(x), Some(y)) => y.ratio_lt(x),
        _ => false,
    }
}

/// Strict order lifted to the partial domain: any undefined operand compares
/// false, as a NaN does.
pub open spec fn olt(a: Option<Rat>, b: Option<Rat>) -> bool {
    match (a, b) {
        (Some(x), Some(y)) => x.ratio_lt(y),
        _ => false,
    }
}

/// All lifted operations keep optional scalars well-formed.
pub proof fn lemma_ops_preserve_wf(a: Option<Rat>, b: Option<Rat>)
    requires
        val_wf(a),
        val_wf(b),
    ensures
        val_wf(oadd(a, b)),
        val_wf(osub(a, b)),
        val_wf(omul(a, b)),
        val_wf(odiv(a, b)),
        val_wf(oneg(a)),
        val_wf(osqrt(a)),
        val_wf(oabs(a)),
{
    if let (Some(x), Some(y)) = (a, b) {
        assert(x.den * y.den >= 1) by (nonlinear_arith)
            requires
                x.den >= 1,
                y.den >= 1,
        ;
        if y.num != 0 {
            assert(x.den * y.num >= 1 || x.den * y.num <= -1) by (nonlinear_arith)
                requires
                    x.den >= 1,
                    y.num != 0,
            ;
        }
    }
    if let Some(x) = a {
        if x.num >= 0 {
            let sd: nat = sqrt_floor(x.den as nat);
            lemma_sqrt_small(x.den as nat);
            if sd * sd == x.den {
                assert(sd >= 1) by (nonlinear_arith)
                    requires
                        sd * sd >= 1,
                        sd >= 0,
                ;
            }
        }
    }
}

/// Exact addition on the partial domain.
pub fn opt_add(a: Option<Rat>, b: Option<Rat>) -> (r: Option<Rat>)
    requires
        val_wf(a),
        val_wf(b),
    ensures
        r == oadd(a, b),
{
    match (a, b) {
        (Some(x), Some(y)) => x.checked_add(y),
        _ => None,
    }
}

/// Exact subtraction on the partial domain.
pub fn opt_sub(a: Option<Rat>, b: Option<Rat>) -> (r: Option<Rat>)
    requires
        val_wf(a),
        val_wf(b),
    ensures
        r == osub(a, b),
{
    match (a, b) {
        (Some(x), Some(y)) => x.checked_sub(y),
        _ => None,
    }
}

/// Exact multiplication on the partial domain.
pub fn opt_mul(a: Option<Rat>, b: Option<Rat>) -> (r: Option<Rat>)
    requires
        val_wf(a),
        val_wf(b),
    ensures
        r == omul(a, b),
{
    match (a, b) {
        (Some(x), Some(y)) => x.checked_mul(y),
        _ => None,
    }
}

/// Exact division on the partial domain.
pub fn opt_div(a: Option<Rat>, b: Option<Rat>) -> (r: Option<Rat>)
    requires
        val_wf(a),
        val_wf(b),
    ensures
        r == odiv(a, b),
{
    match (a, b) {
        (Some(x), Some(y)) => x.checked_div(y),
        _ => None,
    }
}

/// Exact negation on the partial domain.
pub fn opt_neg(a: Option<Rat>) -> (r: Option<Rat>)
    requires
        val_wf(a),
    ensures
        r == oneg(a),
{
    match a {
        Some(x) => x.checked_neg(),
        None => None,
    }
}

/// Exact square root on the partial domain.
pub fn opt_sqrt(a: Option<Rat>) -> (r: Option<Rat>)
    requires
        val_wf(a),
    ensures
        r == osqrt(a),
{
    match a {
        Some(x) => x.checked_sqrt(),
        None => None,
    }
}

/// Exact absolute value on the partial domain.
pub fn opt_abs(a: Option<Rat>) -> (r: Option<Rat>)
    requires
        val_wf(a),
    ensures
        r == oabs(a),
{
    match a {
        Some(x) => x.checked_abs(),
        None => None,
    }
}

/// Strict order on the partial domain.
pub fn opt_gt(a: Option<Rat>, b: Option<Rat>) -> (r: bool)
    requires
        val_wf(a),
        val_wf(b),
    ensures
        r == ogt(a, b),
{
    match (a, b) {
        (Some(x), Some(y)) => y.less_than(x),
        _ => false,
    }
}

/// Strict order on the partial domain.
pub fn opt_lt(a: Option<Rat>, b: Option<Rat>) -> (r: bool)
    requires
        val_wf(a),
        val_wf(b),
    ensures
        r == olt(a, b),
{
    match (a, b) {
        (Some(x), Some(y)) => x.less_than(y),
        _ => false,
    }
}

/// Bounds the product of an `i64` with a positive `i64`, so that 128-bit
/// intermediates cannot overflow.
proof fn lemma_prod_num_den(a: int, d: int)
    requires
        in_i64(a),
        1 <= d <= i64::MAX,
    ensures
        i64::MIN * i64::MAX <= a * d <= i64::MAX * i64::MAX,
{
    assert(i64::MIN * i64::MAX <= a * d <= i64::MAX * i64::MAX) by (nonlinear_arith)
        requires
            i64::MIN <= a <= i64::MAX,
            1 <= d <= i64::MAX,
    ;
}

/// Bounds the product of two arbitrary `i64` values.
proof fn lemma_prod_num_num(a: int, b: int)
    requires
        in_i64(a),
        in_i64(b),
    ensures
        i64::MIN * i64::MAX <= a * b <= i64::MIN * i64::MIN,
{
    assert(i64::MIN * i64::MAX <= a * b <= i64::MIN * i64::MIN) by (nonlinear_arith)
        requires
            i64::MIN <= a <= i64::MAX,
            i64::MIN <= b <= i64::MAX,
    ;
}

} // verus!
