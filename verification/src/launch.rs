use vstd::prelude::*;

verus! {

/// `x` padded up to the next multiple of `m` (for `m > 0`).
pub open spec fn padded_to_multiple(x: int, m: int) -> int {
    x + (m - x % m) % m
}

/// `r` is the least multiple of `m` that is not below `x`.
pub open spec fn is_least_multiple_at_least(r: int, x: int, m: int) -> bool {
    &&& r % m == 0
    &&& x <= r
    &&& r < x + m
}

/// Rounds `x` up to a multiple of `multiple`; used to turn an item count into a
/// global work size that the local work size divides.
pub fn round_up(x: usize, multiple: usize) -> (r: usize)
    requires
        multiple > 0,
        padded_to_multiple(x as int, multiple as int) <= usize::MAX,
    ensures
        r == padded_to_multiple(x as int, multiple as int),
        is_least_multiple_at_least(r as int, x as int, multiple as int),
{
    proof {
        lemma_padded_is_least_multiple(x as int, multiple as int);
    }
    let rem = x % multiple;
    if rem == 0 {
        assert(is_least_multiple_at_least(x as int, x as int, multiple as int));
        x
    } else {
        let q = x / multiple;
        proof {
            lemma_round_up_step(x as int, multiple as int);
        }
        (q + 1) * multiple
    }
}

/// The computation `(x / m + 1) * m` of a value that is not a multiple of `m`
/// gives the padded value without overflow.
proof fn lemma_round_up_step(x: int, m: int)
    requires
        0 <= x,
        m > 0,
        x % m != 0,
        padded_to_multiple(x, m) <= usize::MAX,
    ensures
        (x / m + 1) * m == padded_to_multiple(x, m),
        x / m + 1 <= usize::MAX,
{
    let q = x / m;
    let rem = x % m;
    assert(x == q * m + rem && 0 <= rem < m) by (nonlinear_arith)
        requires m > 0, q == x / m, rem == x % m;
    assert(q >= 0) by (nonlinear_arith)
        requires x >= 0, m > 0, q == x / m;
    assert((m - rem) % m == m - rem) by (nonlinear_arith)
        requires 0 < m - rem < m;
    assert((q + 1) * m == q * m + m) by (nonlinear_arith);
    assert(q + 1 <= (q + 1) * m) by (nonlinear_arith)
        requires q >= 0, m >= 1;
}

/// The global and local work sizes of a one-dimensional kernel launch.
#[derive(Clone, Copy, Debug, PartialEq, Eq)]
pub struct LaunchGeometry {
    pub global_size: usize,
    pub local_size: usize,
}

/// The launch that covers `items` work items with groups of `local_size`:
/// the global size is `items` rounded up to a whole number of groups.
pub fn launch_geometry(items: usize, local_size: usize) -> (g: LaunchGeometry)
    requires
        local_size > 0,
        padded_to_multiple(items as int, local_size as int) <= usize::MAX,
    ensures
        g.local_size == local_size,
        g.global_size == padded_to_multiple(items as int, local_size as int),
        is_least_multiple_at_least(g.global_size as int, items as int, local_size as int),
{
    LaunchGeometry { global_size: round_up(items, local_size), local_size }
}

/// Rounding up a value that is already a multiple leaves it unchanged; in
/// particular rounding up twice is the same as rounding up once.
pub proof fn lemma_round_up_idempotent(x: int, m: int)
    requires
        0 <= x,
        m > 0,
    ensures
        x % m == 0 ==> padded_to_multiple(x, m) == x,
        padded_to_multiple(padded_to_multiple(x, m), m) == padded_to_multiple(x, m),
{
    lemma_padded_is_least_multiple(x, m);
    let r = padded_to_multiple(x, m);
    assert(m % m == 0) by (nonlinear_arith) requires m > 0;
    assert(r % m == 0);
}

/// `padded_to_multiple(x, m)` is the least multiple of `m` not below `x`, and
/// it is the only such value.
pub proof fn lemma_padded_is_least_multiple(x: int, m: int)
    requires
        0 <= x,
        m > 0,
    ensures
        is_least_multiple_at_least(padded_to_multiple(x, m), x, m),
        forall|r: int| #[trigger] is_least_multiple_at_least(r, x, m) ==> r == padded_to_multiple(x, m),
{
    let rem = x % m;
    let q = x / m;
    assert(x == q * m + rem && 0 <= rem < m) by (nonlinear_arith)
        requires m > 0, q == x / m, rem == x % m;
    assert(m % m == 0) by (nonlinear_arith) requires m > 0;
    if rem == 0 {
        assert(padded_to_multiple(x, m) == x);
    } else {
        assert((m - rem) % m == m - rem) by (nonlinear_arith)
            requires 0 < m - rem < m;
        assert(padded_to_multiple(x, m) == (q + 1) * m) by (nonlinear_arith)
            requires padded_to_multiple(x, m) == x + (m - rem), x == q * m + rem;
        assert(((q + 1) * m) % m == 0) by (nonlinear_arith)
            requires m > 0;
    }
    assert forall|r: int| #[trigger] is_least_multiple_at_least(r, x, m) implies r == padded_to_multiple(x, m) by {
        let p = padded_to_multiple(x, m);
        assert(p % m == 0 && x <= p < x + m);
        lemma_multiples_within_distance(r, p, m);
    }
}

/// Two multiples of `m` that lie less than `m` apart are equal.
proof fn lemma_multiples_within_distance(a: int, b: int, m: int)
    requires
        m > 0,
        a % m == 0,
        b % m == 0,
        a - b < m,
        b - a < m,
    ensures
        a == b,
{
    let qa = a / m;
    let qb = b / m;
    assert(a == qa * m) by (nonlinear_arith) requires m > 0, a % m == 0, qa == a / m;
    assert(b == qb * m) by (nonlinear_arith) requires m > 0, b % m == 0, qb == b / m;
    assert(qa == qb) by (nonlinear_arith)
        requires a == qa * m, b == qb * m, a - b < m, b - a < m, m > 0;
}

/// Rounding up is monotone: more items never give a smaller global size.
pub proof fn lemma_round_up_monotone(x: int, y: int, m: int)
    requires
        0 <= x <= y,
        m > 0,
    ensures
        padded_to_multiple(x, m) <= padded_to_multiple(y, m),
{
    lemma_padded_is_least_multiple(x, m);
    lemma_padded_is_least_multiple(y, m);
    let px = padded_to_multiple(x, m);
    let py = padded_to_multiple(y, m);
    if py < px {
        // py is a multiple of m with x <= y <= py < px < x + m, so it is the least one for x
        assert(is_least_multiple_at_least(py, x, m));
    }
}

} // verus!
