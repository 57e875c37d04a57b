//! Integer roots of a polynomial in the window from -10 to 10.

use crate::polynomial::Polynomial;
use vstd::prelude::*;

verus! {

/// The least candidate root.
pub const WINDOW_LOW: i32 = -10;

/// The greatest candidate root.
pub const WINDOW_HIGH: i32 = 10;

/// Whether `x` is one of the candidates.
pub open spec fn in_window(x: int) -> bool {
    WINDOW_LOW <= x <= WINDOW_HIGH
}

/// Whether the polynomial can be evaluated in `i32` at every candidate.
pub open spec fn solvable(polynomial: &Polynomial) -> bool {
    forall|x: int| in_window(x) ==> #[trigger] polynomial.evaluable_at(x)
}

/// Whether `roots` holds, in ascending order and once each, exactly the
/// candidates at which the polynomial is zero.
pub open spec fn roots_of(polynomial: &Polynomial, roots: Seq<i32>) -> bool {
    &&& forall|i: int, j: int| 0 <= i < j < roots.len() ==> roots[i] < roots[j]
    &&& forall|i: int|
        0 <= i < roots.len() ==> in_window(#[trigger] roots[i] as int) && polynomial.value_at(
            roots[i] as int,
        ) == 0
    &&& forall|x: i32|
        in_window(x as int) && polynomial.value_at(x as int) == 0 ==> #[trigger] roots.contains(x)
}

pub struct Solver;

impl Solver {
    /// The roots among the candidates, in ascending order.
    pub fn solve(polynomial: &Polynomial) -> (roots: Vec<i32>)
        requires
            solvable(polynomial),
        ensures
            roots_of(polynomial, roots@),
    {
        let mut roots: Vec<i32> = Vec::new();
        let mut x: i32 = WINDOW_LOW;
        while x <= WINDOW_HIGH
            invariant
                solvable(polynomial),
                WINDOW_LOW <= x <= WINDOW_HIGH + 1,
                forall|i: int, j: int| 0 <= i < j < roots@.len() ==> roots@[i] < roots@[j],
                forall|i: int|
                    0 <= i < roots@.len() ==> WINDOW_LOW <= #[trigger] roots@[i] < x
                        && polynomial.value_at(roots@[i] as int) == 0,
                forall|y: i32|
                    WINDOW_LOW <= y < x && polynomial.value_at(y as int) == 0
                        ==> #[trigger] roots@.contains(y),
            decreases WINDOW_HIGH + 1 - x,
        {
            assert(polynomial.evaluable_at(x as int));
            let ghost before = roots@;
            if polynomial.has_x_intercept(x) {
                roots.push(x);
                assert(roots@[before.len() as int] == x);
            }
            assert forall|y: i32|
                WINDOW_LOW <= y < x + 1 && polynomial.value_at(
                    y as int,
                ) == 0 implies #[trigger] roots@.contains(y) by {
                if y < x {
                    assert(before.contains(y));
                    let k = choose|k: int| 0 <= k < before.len() && before[k] == y;
                    assert(roots@[k] == y);
                }
            }
            x = x + 1;
        }
        roots
    }

    /// The roots among the candidates, or `None` when the polynomial cannot be
    /// evaluated in `i32` at one of them.
    pub fn checked_solve(polynomial: &Polynomial) -> (found: Option<Vec<i32>>)
        ensures
            found is Some <==> solvable(polynomial),
            found matches Some(roots) ==> roots_of(polynomial, roots@),
    {
        let mut x: i32 = WINDOW_LOW;
        while x <= WINDOW_HIGH
            invariant
                WINDOW_LOW <= x <= WINDOW_HIGH + 1,
                forall|y: int| WINDOW_LOW <= y < x ==> #[trigger] polynomial.evaluable_at(y),
            decreases WINDOW_HIGH + 1 - x,
        {
            if polynomial.evaluate(x).is_none() {
                assert(in_window(x as int) && !polynomial.evaluable_at(x as int));
                return None;
            }
            x = x + 1;
        }
        Some(Solver::solve(polynomial))
    }
}

} // verus!
