//! Decimal fixed-point quantities.
//!
//! Every physical quantity of the simulation (metres, watts, hertz, degrees)
//! is a [`Fixed`]: a whole number of 10⁻¹² units.  A quantity is either
//! finite, with a magnitude of at most 10¹⁴ units, or non-finite.  Arithmetic
//! never wraps and never panics: a result that leaves the finite range, a
//! division by zero or the root of a negative number is non-finite, and a
//! non-finite operand makes the result non-finite.

use vstd::prelude::*;

verus! {

/// Raw units per whole unit.
pub const SCALE: i128 = 1_000_000_000_000;

/// Largest magnitude, in raw units, of a finite quantity.
pub const LIMIT: i128 = 100_000_000_000_000_000_000_000_000;

/// The raw value that operations give to a non-finite result.
pub const NON_FINITE_RAW: i128 = 170_141_183_460_469_231_731_687_303_715_884_105_727;

/// A fixed-point quantity, counted in raw units of 10⁻¹².
#[derive(Clone, Copy, Debug, PartialEq, Eq, Structural)]
pub struct Fixed {
    pub raw: i128,
}

/// Whether a count of raw units lies in the finite range.
pub open spec fn fits(v: int) -> bool {
    -LIMIT <= v <= LIMIT
}

/// A count of raw units as a quantity: itself when it fits, nothing otherwise.
pub open spec fn bounded(v: int) -> Option<int> {
    if fits(v) {
        Some(v)
    } else {
        None
    }
}

/// Sum of two quantities.
pub open spec fn sum(a: Option<int>, b: Option<int>) -> Option<int> {
    match (a, b) {
        (Some(x), Some(y)) => bounded(x + y),
        _ => None,
    }
}

/// Difference of two quantities.
pub open spec fn difference(a: Option<int>, b: Option<int>) -> Option<int> {
    match (a, b) {
        (Some(x), Some(y)) => bounded(x - y),
        _ => None,
    }
}

/// Product of two quantities, rounded down to a whole raw unit.
pub open spec fn product(a: Option<int>, b: Option<int>) -> Option<int> {
    match (a, b) {
        (Some(x), Some(y)) => bounded((x * y) / (SCALE as int)),
        _ => None,
    }
}

/// Quotient of two quantities, rounded by Euclidean division; nothing when
/// the divisor is zero.
pub open spec fn quotient(a: Option<int>, b: Option<int>) -> Option<int> {
    match (a, b) {
        (Some(x), Some(y)) => if y == 0 {
            None
        } else {
            bounded((x * SCALE) / y)
        },
        _ => None,
    }
}

/// Remainder of a quantity by a positive modulus, in `[0, modulus)`; nothing
/// when the modulus is not positive.
pub open spec fn remainder(a: Option<int>, m: Option<int>) -> Option<int> {
    match (a, m) {
        (Some(x), Some(y)) => if y <= 0 {
            None
        } else {
            Some(x % y)
        },
        _ => None,
    }
}

/// Half of a quantity, rounded down to a whole raw unit.
pub open spec fn half(a: Option<int>) -> Option<int> {
    match a {
        Some(x) => Some(x / 2),
        None => None,
    }
}

/// `r` is the integer square root of `n`: the largest `r` with `r² ≤ n`.
pub open spec fn is_floor_sqrt(n: int, r: int) -> bool {
    0 <= r && r * r <= n < (r + 1) * (r + 1)
}

/// The integer square root of a non-negative `n`.
pub open spec fn floor_sqrt(n: int) -> int {
    choose|r: int| is_floor_sqrt(n, r)
}

/// Square root of a quantity, rounded down to a whole raw unit; nothing for
/// a negative quantity.
pub open spec fn root(a: Option<int>) -> Option<int> {
    match a {
        Some(x) => if x < 0 {
            None
        } else {
            Some(floor_sqrt(x * SCALE))
        },
        None => None,
    }
}

/// At most one number is the integer square root of `n`.
pub proof fn lemma_floor_sqrt_unique(n: int, r1: int, r2: int)
    requires
        is_floor_sqrt(n, r1),
        is_floor_sqrt(n, r2),
    ensures
        r1 == r2,
{
    if r1 < r2 {
        assert((r1 + 1) * (r1 + 1) <= r2 * r2) by (nonlinear_arith)
            requires
                0 <= r1,
                r1 + 1 <= r2,
        ;
    } else if r2 < r1 {
        assert((r2 + 1) * (r2 + 1) <= r1 * r1) by (nonlinear_arith)
            requires
                0 <= r2,
                r2 + 1 <= r1,
        ;
    }
}

/// The integer square root of `n`, by bisection.
pub fn integer_sqrt(n: u128) -> (r: u128)
    ensures
        is_floor_sqrt(n as int, r as int),
        r == floor_sqrt(n as int),
{
    let mut lo: u128 = 0;
    let mut hi: u128 = 18_446_744_073_709_551_616;
    assert(hi * hi > n) by (nonlinear_arith)
        requires
            hi == 18_446_744_073_709_551_616u128,
            n <= u128::MAX,
    ;
    while hi - lo > 1
        invariant
            lo < hi <= 18_446_744_073_709_551_616u128,
            lo * lo <= n < hi * hi,
        decreases hi - lo,
    {
        let mid: u128 = lo + (hi - lo) / 2;
        assert(mid * mid <= 18_446_744_073_709_551_615u128 * 18_446_744_073_709_551_615u128)
            by (nonlinear_arith)
            requires
                0 <= mid <= 18_446_744_073_709_551_615u128,
        ;
        if mid * mid <= n {
            lo = mid;
        } else {
            hi = mid;
        }
    }
    proof {
        assert(is_floor_sqrt(n as int, lo as int));
        lemma_floor_sqrt_unique(n as int, lo as int, floor_sqrt(n as int));
    }
    lo
}

impl View for Fixed {
    type V = Option<int>;

    /// The quantity in raw units, or nothing when it is non-finite.
    open spec fn view(&self) -> Option<int> {
        bounded(self.raw as int)
    }
}

impl Fixed {
    /// The quantity that a model value stands for; every non-finite value
    /// is packed into the one raw value [`NON_FINITE_RAW`].
    pub open spec fn of(v: Option<int>) -> Fixed {
        match v {
            Some(x) => if fits(x) {
                Fixed { raw: x as i128 }
            } else {
                Fixed { raw: NON_FINITE_RAW }
            },
            None => Fixed { raw: NON_FINITE_RAW },
        }
    }

    pub open spec fn finite(self) -> bool {
        fits(self.raw as int)
    }

    pub open spec fn spec_add(self, rhs: Fixed) -> Fixed {
        Fixed::of(sum(self@, rhs@))
    }

    pub open spec fn spec_sub(self, rhs: Fixed) -> Fixed {
        Fixed::of(difference(self@, rhs@))
    }

    pub open spec fn spec_mul(self, rhs: Fixed) -> Fixed {
        Fixed::of(product(self@, rhs@))
    }

    pub open spec fn spec_div(self, rhs: Fixed) -> Fixed {
        Fixed::of(quotient(self@, rhs@))
    }

    pub open spec fn spec_rem(self, modulus: Fixed) -> Fixed {
        Fixed::of(remainder(self@, modulus@))
    }

    pub open spec fn spec_half(self) -> Fixed {
        Fixed::of(half(self@))
    }

    pub open spec fn spec_sqrt(self) -> Fixed {
        Fixed::of(root(self@))
    }

    /// Both finite and the left strictly below the right.
    pub open spec fn spec_lt(self, rhs: Fixed) -> bool {
        self.finite() && rhs.finite() && self.raw < rhs.raw
    }

    /// Both finite and the left at most the right.
    pub open spec fn spec_le(self, rhs: Fixed) -> bool {
        self.finite() && rhs.finite() && self.raw <= rhs.raw
    }

    /// Both finite and equal.
    pub open spec fn spec_same(self, rhs: Fixed) -> bool {
        self.finite() && rhs.finite() && self.raw == rhs.raw
    }

    /// The quantity of `n` whole units.
    pub open spec fn spec_from_int(n: i64) -> Fixed {
        Fixed::of(bounded(n * SCALE))
    }

    /// The quantity of `raw` units of 10⁻¹².
    pub fn from_raw(raw: i128) -> (r: Fixed)
        ensures
            r.raw == raw,
    {
        Fixed { raw }
    }

    /// The non-finite quantity.
    pub fn non_finite() -> (r: Fixed)
        ensures
            r == Fixed::of(None),
            r@ is None,
    {
        Fixed { raw: NON_FINITE_RAW }
    }

    /// The quantity of `n` whole units; non-finite when `n` exceeds 10¹⁴
    /// in magnitude.
    #[verifier::when_used_as_spec(spec_from_int)]
    pub fn from_int(n: i64) -> (r: Fixed)
        ensures
            r == Fixed::spec_from_int(n),
    {
        let wide: i128 = n as i128;
        let raw: i128 = wide * SCALE;
        Fixed::pack(raw)
    }

    /// A raw count as a quantity, packed when it does not fit.
    fn pack(raw: i128) -> (r: Fixed)
        ensures
            r == Fixed::of(bounded(raw as int)),
            r@ == bounded(raw as int),
    {
        if -LIMIT <= raw && raw <= LIMIT {
            Fixed { raw }
        } else {
            Fixed { raw: NON_FINITE_RAW }
        }
    }

    /// Whether the quantity is finite.
    #[verifier::when_used_as_spec(finite)]
    pub fn is_finite(self) -> (r: bool)
        ensures
            r == self.finite(),
            r == (self@ is Some),
    {
        -LIMIT <= self.raw && self.raw <= LIMIT
    }

    /// The sum; non-finite when it leaves the finite range.
    #[verifier::when_used_as_spec(spec_add)]
    pub fn add(self, rhs: Fixed) -> (r: Fixed)
        ensures
            r == self.spec_add(rhs),
            r@ == sum(self@, rhs@),
    {
        if self.is_finite() && rhs.is_finite() {
            let raw: i128 = self.raw + rhs.raw;
            Fixed::pack(raw)
        } else {
            Fixed::non_finite()
        }
    }

    /// The difference; non-finite when it leaves the finite range.
    #[verifier::when_used_as_spec(spec_sub)]
    pub fn sub(self, rhs: Fixed) -> (r: Fixed)
        ensures
            r == self.spec_sub(rhs),
            r@ == difference(self@, rhs@),
    {
        if self.is_finite() && rhs.is_finite() {
            let raw: i128 = self.raw - rhs.raw;
            Fixed::pack(raw)
        } else {
            Fixed::non_finite()
        }
    }

    /// The product, rounded down; non-finite when it leaves the finite range.
    #[verifier::when_used_as_spec(spec_mul)]
    pub fn mul(self, rhs: Fixed) -> (r: Fixed)
        ensures
            r == self.spec_mul(rhs),
            r@ == product(self@, rhs@),
    {
        if self.is_finite() && rhs.is_finite() {
            let ghost exact: int = self.raw * rhs.raw;
            match self.raw.checked_mul(rhs.raw) {
                Some(wide) => {
                    match wide.checked_div_euclid(SCALE) {
                        Some(raw) => Fixed::pack(raw),
                        None => Fixed::non_finite(),
                    }
                },
                None => {
                    assert(!fits(exact / (SCALE as int)));
                    Fixed::non_finite()
                },
            }
        } else {
            Fixed::non_finite()
        }
    }

    /// The quotient, by Euclidean division; non-finite when the divisor is
    /// zero or the quotient leaves the finite range.
    #[verifier::when_used_as_spec(spec_div)]
    pub fn div(self, rhs: Fixed) -> (r: Fixed)
        ensures
            r == self.spec_div(rhs),
            r@ == quotient(self@, rhs@),
    {
        if self.is_finite() && rhs.is_finite() && rhs.raw != 0 {
            let wide: i128 = self.raw * SCALE;
            match wide.checked_div_euclid(rhs.raw) {
                Some(raw) => Fixed::pack(raw),
                None => Fixed::non_finite(),
            }
        } else {
            Fixed::non_finite()
        }
    }

    /// The remainder by a positive modulus, in `[0, modulus)`; non-finite
    /// when the modulus is not positive.
    #[verifier::when_used_as_spec(spec_rem)]
    pub fn rem(self, modulus: Fixed) -> (r: Fixed)
        ensures
            r == self.spec_rem(modulus),
            r@ == remainder(self@, modulus@),
    {
        if self.is_finite() && modulus.is_finite() && modulus.raw > 0 {
            let ghost x: int = self.raw as int;
            let ghost m: int = modulus.raw as int;
            assert(0 <= x % m < m) by (nonlinear_arith)
                requires
                    m > 0,
            ;
            match self.raw.checked_rem_euclid(modulus.raw) {
                Some(raw) => Fixed::pack(raw),
                None => Fixed::non_finite(),
            }
        } else {
            Fixed::non_finite()
        }
    }

    /// Half the quantity, rounded down.
    #[verifier::when_used_as_spec(spec_half)]
    pub fn halve(self) -> (r: Fixed)
        ensures
            r == self.spec_half(),
            r@ == half(self@),
    {
        if self.is_finite() {
            match self.raw.checked_div_euclid(2) {
                Some(raw) => Fixed::pack(raw),
                None => Fixed::non_finite(),
            }
        } else {
            Fixed::non_finite()
        }
    }

    /// The square root, rounded down; non-finite for a negative quantity.
    #[verifier::when_used_as_spec(spec_sqrt)]
    pub fn sqrt(self) -> (r: Fixed)
        ensures
            r == self.spec_sqrt(),
            r@ == root(self@),
    {
        if self.is_finite() && self.raw >= 0 {
            let wide: i128 = self.raw * SCALE;
            let r: u128 = integer_sqrt(wide as u128);
            assert(r <= LIMIT) by (nonlinear_arith)
                requires
                    r * r <= wide,
                    wide <= LIMIT * SCALE,
                    0 <= r,
            ;
            Fixed::pack(r as i128)
        } else {
            Fixed::non_finite()
        }
    }

    /// Both finite and `self < rhs`.
    #[verifier::when_used_as_spec(spec_lt)]
    pub fn lt(self, rhs: Fixed) -> (r: bool)
        ensures
            r == self.spec_lt(rhs),
    {
        self.is_finite() && rhs.is_finite() && self.raw < rhs.raw
    }

    /// Both finite and `self <= rhs`.
    #[verifier::when_used_as_spec(spec_le)]
    pub fn le(self, rhs: Fixed) -> (r: bool)
        ensures
            r == self.spec_le(rhs),
    {
        self.is_finite() && rhs.is_finite() && self.raw <= rhs.raw
    }

    /// Both finite and equal.
    #[verifier::when_used_as_spec(spec_same)]
    pub fn same(self, rhs: Fixed) -> (r: bool)
        ensures
            r == self.spec_same(rhs),
    {
        self.is_finite() && rhs.is_finite() && self.raw == rhs.raw
    }
}

} // verus!
