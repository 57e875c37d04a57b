//! Terms, polynomials and their exact evaluation in 32-bit arithmetic.

use vstd::prelude::*;

verus! {

/// One monomial: `value * x^power`.
#[derive(PartialEq, Eq, Debug, Clone, Copy, Structural)]
pub struct Term {
    pub value: i32,
    pub power: u32,
}

/// Terms in the order in which they were written. Terms of equal power stay apart.
#[derive(PartialEq, Debug)]
pub struct Polynomial(pub Vec<Term>);

/// `x` raised to `n`, with `x^0 == 1` for every `x`.
pub open spec fn power(x: int, n: nat) -> int
    decreases n,
{
    if n == 0 {
        1
    } else {
        x * power(x, (n - 1) as nat)
    }
}

/// Whether `v` is a value of `i32`.
pub open spec fn fits_i32(v: int) -> bool {
    i32::MIN <= v <= i32::MAX
}

/// The value of one term at `x`.
pub open spec fn term_at(t: Term, x: int) -> int {
    t.value * power(x, t.power as nat)
}

/// The sum of the first `k` terms at `x`.
pub open spec fn partial_sum(terms: Seq<Term>, x: int, k: nat) -> int
    decreases k,
{
    if k == 0 {
        0
    } else {
        partial_sum(terms, x, (k - 1) as nat) + term_at(terms[k - 1], x)
    }
}

/// Whether the term can be computed at `x` in `i32`: the power and the product both fit.
pub open spec fn term_fits(t: Term, x: int) -> bool {
    fits_i32(power(x, t.power as nat)) && fits_i32(term_at(t, x))
}

/// Whether the terms can be summed at `x` from left to right in `i32`:
/// every term fits and so does every partial sum.
pub open spec fn sum_fits(terms: Seq<Term>, x: int) -> bool {
    &&& forall|k: int| 0 <= k < terms.len() ==> term_fits(#[trigger] terms[k], x)
    &&& forall|k: nat| k <= terms.len() ==> fits_i32(#[trigger] partial_sum(terms, x, k))
}

/// The absolute value of `v`.
pub open spec fn magnitude(v: int) -> int {
    if v < 0 {
        -v
    } else {
        v
    }
}

/// Powers of a base of magnitude two or more at least double with each step.
proof fn lemma_power_grows(x: int, j: nat, k: nat)
    requires
        x >= 2 || x <= -2,
        j < k,
    ensures
        magnitude(power(x, k)) >= 2 * magnitude(power(x, j)),
    decreases k,
{
    let p = power(x, (k - 1) as nat);
    assert(power(x, k) == x * p);
    assert(p >= 0 ==> (x * p >= 2 * p || x * p <= -2 * p)) by (nonlinear_arith)
        requires
            x >= 2 || x <= -2,
    ;
    assert(p <= 0 ==> (x * p >= -2 * p || x * p <= 2 * p)) by (nonlinear_arith)
        requires
            x >= 2 || x <= -2,
    ;
    if j < k - 1 {
        lemma_power_grows(x, j, (k - 1) as nat);
    }
}

/// The product of two values of `i32` is a value of `i64`.
proof fn lemma_product_bounds(a: int, b: int)
    requires
        fits_i32(a),
        fits_i32(b),
    ensures
        -0x4000_0000_0000_0000 <= a * b <= 0x4000_0000_0000_0000,
{
    let m = 0x8000_0000int;
    assert((m - a) * (m + b) >= 0) by (nonlinear_arith)
        requires
            m - a >= 0,
            m + b >= 0,
    ;
    assert((m + a) * (m - b) >= 0) by (nonlinear_arith)
        requires
            m + a >= 0,
            m - b >= 0,
    ;
    assert((m - a) * (m - b) >= 0) by (nonlinear_arith)
        requires
            m - a >= 0,
            m - b >= 0,
    ;
    assert((m + a) * (m + b) >= 0) by (nonlinear_arith)
        requires
            m + a >= 0,
            m + b >= 0,
    ;
    assert((m - a) * (m + b) + (m + a) * (m - b) == 2 * (m * m) - 2 * (a * b))
        by (nonlinear_arith);
    assert((m - a) * (m - b) + (m + a) * (m + b) == 2 * (m * m) + 2 * (a * b))
        by (nonlinear_arith);
    assert(m * m == 0x4000_0000_0000_0000) by (nonlinear_arith)
        requires
            m == 0x8000_0000,
    ;
}

proof fn lemma_power_of_zero(n: nat)
    requires
        n > 0,
    ensures
        power(0, n) == 0,
{
    assert(power(0, n) == 0 * power(0, (n - 1) as nat));
}

proof fn lemma_power_of_one(n: nat)
    ensures
        power(1, n) == 1,
    decreases n,
{
    if n > 0 {
        lemma_power_of_one((n - 1) as nat);
    }
}

proof fn lemma_power_of_minus_one(n: nat)
    ensures
        power(-1, n) == if n % 2 == 0 { 1int } else { -1int },
    decreases n,
{
    if n > 0 {
        lemma_power_of_minus_one((n - 1) as nat);
    }
}

/// `x^n` where it is a value of `i32`, and `None` where it is not.
pub fn checked_power(x: i32, n: u32) -> (r: Option<i32>)
    ensures
        r == if fits_i32(power(x as int, n as nat)) {
            Some(power(x as int, n as nat) as i32)
        } else {
            None
        },
{
    if n == 0 {
        return Some(1);
    }
    if x == 0 {
        proof {
            lemma_power_of_zero(n as nat);
        }
        return Some(0);
    }
    if x == 1 {
        proof {
            lemma_power_of_one(n as nat);
        }
        return Some(1);
    }
    if x == -1 {
        proof {
            lemma_power_of_minus_one(n as nat);
        }
        return Some(if n % 2 == 0 { 1 } else { -1 });
    }
    let mut acc: i64 = 1;
    let mut i: u32 = 0;
    while i < n
        invariant
            i <= n,
            x >= 2 || x <= -2,
            acc == power(x as int, i as nat),
            fits_i32(acc as int),
        decreases n - i,
    {
        proof {
            lemma_product_bounds(acc as int, x as int);
        }
        let next: i64 = acc * (x as i64);
        assert(next == power(x as int, (i + 1) as nat)) by {
            assert(power(x as int, (i + 1) as nat) == x * power(x as int, i as nat));
            assert(acc * x == x * acc) by (nonlinear_arith);
        }
        if next < -2147483648 || next > 2147483647 {
            proof {
                if i + 1 < n {
                    lemma_power_grows(x as int, (i + 1) as nat, n as nat);
                }
            }
            return None;
        }
        acc = next;
        i = i + 1;
    }
    Some(acc as i32)
}

impl Polynomial {
    /// The terms, in order.
    pub open spec fn view(&self) -> Seq<Term> {
        self.0@
    }

    /// The polynomial's value at `x`: the sum of `value * x^power` over its terms.
    pub open spec fn value_at(&self, x: int) -> int {
        partial_sum(self@, x, self@.len())
    }

    /// Whether the value at `x` can be computed term by term in `i32`.
    pub open spec fn evaluable_at(&self, x: int) -> bool {
        sum_fits(self@, x)
    }

    /// What construction from text guarantees: at least one term, and a single
    /// term is never a constant.
    pub open spec fn well_formed(&self) -> bool {
        &&& self@.len() >= 1
        &&& self@.len() == 1 ==> self@[0].power != 0
    }

    /// The value at `x`, or `None` when a power, a product or a partial sum
    /// leaves `i32`.
    pub fn evaluate(&self, x: i32) -> (r: Option<i32>)
        ensures
            r == if self.evaluable_at(x as int) {
                Some(self.value_at(x as int) as i32)
            } else {
                None
            },
    {
        let ghost terms = self@;
        let mut acc: i32 = 0;
        let mut i: usize = 0;
        while i < self.0.len()
            invariant
                terms == self@,
                i <= terms.len(),
                acc == partial_sum(terms, x as int, i as nat),
                forall|k: int| 0 <= k < i ==> term_fits(#[trigger] terms[k], x as int),
                forall|k: nat| k <= i ==> fits_i32(#[trigger] partial_sum(terms, x as int, k)),
            decreases terms.len() - i,
        {
            let term = self.0[i];
            let p = match checked_power(x, term.power) {
                Some(p) => p,
                None => {
                    assert(!term_fits(terms[i as int], x as int));
                    return None;
                },
            };
            proof {
                lemma_product_bounds(term.value as int, p as int);
            }
            let product: i64 = (term.value as i64) * (p as i64);
            assert(product == term_at(terms[i as int], x as int));
            if product < -2147483648 || product > 2147483647 {
                assert(!term_fits(terms[i as int], x as int));
                return None;
            }
            let sum: i64 = (acc as i64) + product;
            assert(sum == partial_sum(terms, x as int, (i + 1) as nat));
            if sum < -2147483648 || sum > 2147483647 {
                assert(!fits_i32(partial_sum(terms, x as int, (i + 1) as nat)));
                return None;
            }
            acc = sum as i32;
            i = i + 1;
        }
        Some(acc)
    }

    /// Whether `x` is a root.
    pub fn has_x_intercept(&self, x: i32) -> (r: bool)
        requires
            self.evaluable_at(x as int),
        ensures
            r == (self.value_at(x as int) == 0),
    {
        match self.evaluate(x) {
            Some(v) => v == 0,
            None => false,
        }
    }
}

} // verus!
