//! The escape-time iteration z <- z*z + c, generic over the number type
//! that supplies the orbit's start, its step, and its divergence test, each
//! tied to its own specification. The result is pinned exactly: the first
//! orbit index whose divergence test fires, or nothing when no test fires
//! within the budget, so a budget of zero never reports an escape. One
//! exact integer instance, a Gaussian integer with saturating coordinates,
//! lives here; callers may supply others, such as floating-point complex
//! numbers, whose arithmetic stays their own.

use vstd::prelude::*;

verus! {

/// One orbit point of the escape-time iteration. The implementor supplies
/// the arithmetic; each method answers exactly what its specification
/// function says.
pub trait EscapeStep: Sized {
    /// The starting orbit point, zero. The body here is a placeholder so
    /// that impls outside the verifier need not state one; a verified impl
    /// gives its own.
    open spec fn start_spec() -> Self {
        arbitrary()
    }

    /// Whether this orbit point counts as diverged (for complex numbers,
    /// whether its squared norm exceeds 4).
    open spec fn diverged_spec(&self) -> bool {
        arbitrary()
    }

    /// The next orbit point: this point squared, plus `c`.
    open spec fn advance_spec(&self, c: &Self) -> Self {
        arbitrary()
    }

    /// The starting orbit point, zero.
    fn start() -> (r: Self)
        ensures
            r == Self::start_spec(),
    ;

    /// Whether this orbit point counts as diverged.
    fn diverged(&self) -> (b: bool)
        ensures
            b == self.diverged_spec(),
    ;

    /// The next orbit point: this point squared, plus `c`.
    fn advance(&self, c: &Self) -> (r: Self)
        ensures
            r == self.advance_spec(c),
    ;
}

/// The orbit of `c`: the point reached after `n` steps of z <- z*z + c
/// from the starting point.
pub open spec fn orbit<Z: EscapeStep>(c: Z, n: nat) -> Z
    decreases n,
{
    if n == 0 {
        Z::start_spec()
    } else {
        orbit(c, (n - 1) as nat).advance_spec(&c)
    }
}

/// What the escape-time evaluator answers for the point `c` under the
/// iteration budget `retry`: the first orbit index whose divergence test
/// fires, and nothing exactly when no test fires within the budget.
pub open spec fn escape_result<Z: EscapeStep>(c: Z, retry: usize, r: Option<usize>) -> bool {
    match r {
        Some(i) => i < retry && orbit(c, i as nat).diverged_spec() && (forall|k: nat|
            k < i ==> !(#[trigger] orbit(c, k)).diverged_spec()),
        None => forall|k: nat| k < retry ==> !(#[trigger] orbit(c, k)).diverged_spec(),
    }
}

/// Iterate z <- z*z + c from z = 0 for at most `retry` rounds. Before each
/// round the current point is tested; the first round whose test reports
/// divergence gives the escape time. A point whose orbit is never seen to
/// diverge within `retry` rounds yields `None`, and with `retry` zero the
/// result is `None` for every point, since no test is ever run.
pub fn escape_time<Z: EscapeStep>(c: Z, retry: usize) -> (r: Option<usize>)
    ensures
        escape_result(c, retry, r),
        r matches Some(i) ==> i < retry,
        retry == 0 ==> r is None,
{
    let mut z = Z::start();
    let mut i: usize = 0;
    while i < retry
        invariant
            i <= retry,
            z == orbit(c, i as nat),
            forall|k: nat| k < i ==> !(#[trigger] orbit(c, k)).diverged_spec(),
        decreases retry - i,
    {
        if z.diverged() {
            return Some(i);
        }
        z = z.advance(&c);
        i = i + 1;
    }
    None
}

/// The characterization fixes the answer: for one point and one budget,
/// two results that both satisfy it are equal. In particular the evaluator
/// is deterministic: any two calls on the same point and budget agree.
pub proof fn lemma_escape_result_unique<Z: EscapeStep>(
    c: Z,
    retry: usize,
    r1: Option<usize>,
    r2: Option<usize>,
)
    requires
        escape_result(c, retry, r1),
        escape_result(c, retry, r2),
    ensures
        r1 == r2,
{
    match (r1, r2) {
        (Some(i), Some(j)) => {
            if i < j {
                assert(!orbit(c, i as nat).diverged_spec());
            } else if j < i {
                assert(!orbit(c, j as nat).diverged_spec());
            }
        },
        (Some(i), None) => {
            assert(!orbit(c, i as nat).diverged_spec());
        },
        (None, Some(j)) => {
            assert(!orbit(c, j as nat).diverged_spec());
        },
        (None, None) => {},
    }
}

/// The budget only cuts the orbit off: a present escape index is kept by
/// every budget above it, and lost by exactly the budgets at or below it.
pub proof fn lemma_escape_budget<Z: EscapeStep>(
    c: Z,
    r1: usize,
    r2: usize,
    i: usize,
    r: Option<usize>,
)
    requires
        escape_result(c, r1, Some(i)),
        escape_result(c, r2, r),
    ensures
        r == (if i < r2 {
            Some(i)
        } else {
            None::<usize>
        }),
{
    match r {
        Some(j) => {
            if i < j {
                assert(!orbit(c, i as nat).diverged_spec());
            } else if j < i {
                assert(!orbit(c, j as nat).diverged_spec());
            }
        },
        None => {
            if i < r2 {
                assert(!orbit(c, i as nat).diverged_spec());
            }
        },
    }
}

/// A start point that does not pass the divergence test is never the
/// escape: a present escape index is at least 1.
pub proof fn lemma_escape_not_zero<Z: EscapeStep>(c: Z, retry: usize, i: usize)
    requires
        escape_result(c, retry, Some(i)),
        !Z::start_spec().diverged_spec(),
    ensures
        1 <= i,
{
    assert(orbit(c, 0) == Z::start_spec());
}

/// `v` clamped into the range of `i64`.
pub open spec fn clamp_i64(v: int) -> i64 {
    if v > i64::MAX {
        i64::MAX
    } else if v < i64::MIN {
        i64::MIN
    } else {
        v as i64
    }
}

/// The product of `a` and `b`, saturating at the ends of `i64`.
fn sat_mul(a: i64, b: i64) -> (r: i64)
    ensures
        r == clamp_i64(a * b),
{
    match a.checked_mul(b) {
        Some(v) => v,
        None => {
            proof {
                assert(a != 0 && b != 0) by (nonlinear_arith)
                    requires
                        a * b > i64::MAX || a * b < i64::MIN,
                ;
            }
            if (a < 0) != (b < 0) {
                proof {
                    assert(a * b < 0) by (nonlinear_arith)
                        requires
                            a != 0 && b != 0 && ((a < 0) != (b < 0)),
                    ;
                }
                i64::MIN
            } else {
                proof {
                    assert(a * b > 0) by (nonlinear_arith)
                        requires
                            a != 0 && b != 0 && ((a < 0) == (b < 0)),
                    ;
                }
                i64::MAX
            }
        },
    }
}

/// The sum of `a` and `b`, saturating at the ends of `i64`.
fn sat_add(a: i64, b: i64) -> (r: i64)
    ensures
        r == clamp_i64(a + b),
{
    match a.checked_add(b) {
        Some(v) => v,
        None => {
            if a < 0 {
                i64::MIN
            } else {
                i64::MAX
            }
        },
    }
}

/// The difference of `a` and `b`, saturating at the ends of `i64`.
fn sat_sub(a: i64, b: i64) -> (r: i64)
    ensures
        r == clamp_i64(a - b),
{
    match a.checked_sub(b) {
        Some(v) => v,
        None => {
            if b > 0 {
                i64::MIN
            } else {
                i64::MAX
            }
        },
    }
}

/// An orbit point with exact integer coordinates: a Gaussian integer whose
/// arithmetic saturates at the ends of `i64`. It gives the trait one
/// instance whose method contracts are proved here; within the range where
/// nothing saturates, its orbit follows the complex arithmetic rules
/// exactly.
pub struct Gaussian {
    pub re: i64,
    pub im: i64,
}

impl EscapeStep for Gaussian {
    open spec fn start_spec() -> Gaussian {
        Gaussian { re: 0, im: 0 }
    }

    open spec fn diverged_spec(&self) -> bool {
        clamp_i64(clamp_i64(self.re * self.re) + clamp_i64(self.im * self.im)) > 4
    }

    open spec fn advance_spec(&self, c: &Gaussian) -> Gaussian {
        Gaussian {
            re: clamp_i64(
                clamp_i64(clamp_i64(self.re * self.re) - clamp_i64(self.im * self.im)) + c.re,
            ),
            im: clamp_i64(clamp_i64(2 * clamp_i64(self.re * self.im)) + c.im),
        }
    }

    fn start() -> (r: Gaussian) {
        Gaussian { re: 0, im: 0 }
    }

    fn diverged(&self) -> (b: bool) {
        sat_add(sat_mul(self.re, self.re), sat_mul(self.im, self.im)) > 4
    }

    fn advance(&self, c: &Gaussian) -> (r: Gaussian) {
        let rr = sat_mul(self.re, self.re);
        let ii = sat_mul(self.im, self.im);
        let ri = sat_mul(self.re, self.im);
        Gaussian { re: sat_add(sat_sub(rr, ii), c.re), im: sat_add(sat_mul(2, ri), c.im) }
    }
}

} // verus!
