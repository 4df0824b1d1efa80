//! One-dimensional elastic collision response.
use vstd::prelude::*;

verus! {

/// Largest mass the solver accepts.
pub const MASS_LIMIT: i64 = 1_099_511_627_776;

/// Largest speed magnitude the solver accepts.
pub const SPEED_LIMIT: i64 = 1_099_511_627_776;

/// Integer quotient rounded toward zero, for a positive divisor.
pub open spec fn div_toward_zero(n: int, d: int) -> int {
    if n >= 0 {
        n / d
    } else {
        -((-n) / d)
    }
}

/// Velocities after a head-on elastic collision of bodies of masses `m1`,
/// `m2` and velocities `v1`, `v2` along one axis, rounded toward zero.
/// Equal masses exchange their velocities exactly.
pub open spec fn elastic_result(m1: int, v1: int, m2: int, v2: int) -> (int, int) {
    if m1 == m2 {
        (v2, v1)
    } else {
        (
            div_toward_zero((m1 - m2) * v1 + 2 * m2 * v2, m1 + m2),
            div_toward_zero((m2 - m1) * v2 + 2 * m1 * v1, m1 + m2),
        )
    }
}

pub open spec fn solver_accepts(m1: int, v1: int, m2: int, v2: int) -> bool {
    &&& 0 < m1 <= MASS_LIMIT
    &&& 0 < m2 <= MASS_LIMIT
    &&& -SPEED_LIMIT <= v1 <= SPEED_LIMIT
    &&& -SPEED_LIMIT <= v2 <= SPEED_LIMIT
}

fn quotient_toward_zero(n: i128, d: i128) -> (q: i128)
    requires
        d > 0,
        n > i128::MIN,
    ensures
        q == div_toward_zero(n as int, d as int),
{
    if n >= 0 {
        n / d
    } else {
        let m = -n;
        -(m / d)
    }
}

/// Post-collision velocities of two bodies along one axis.
pub fn elastic_collision_1d(m1: i64, v1: i64, m2: i64, v2: i64) -> (r: (i64, i64))
    requires
        solver_accepts(m1 as int, v1 as int, m2 as int, v2 as int),
    ensures
        (r.0 as int, r.1 as int) == elastic_result(m1 as int, v1 as int, m2 as int, v2 as int),
{
    if m1 == m2 {
        return (v2, v1);
    }
    let total_mass = m1 as i128 + m2 as i128;
    let a = m1 as i128;
    let b = m2 as i128;
    let u1 = v1 as i128;
    let u2 = v2 as i128;
    proof {
        lemma_momentum_bound(a as int, u1 as int, b as int, u2 as int);
        lemma_momentum_bound(b as int, u2 as int, a as int, u1 as int);
    }
    let n1 = (a - b) * u1 + 2 * b * u2;
    let n2 = (b - a) * u2 + 2 * a * u1;
    let q1 = quotient_toward_zero(n1, total_mass);
    let q2 = quotient_toward_zero(n2, total_mass);
    proof {
        lemma_quotient_bound(n1 as int, total_mass as int);
        lemma_quotient_bound(n2 as int, total_mass as int);
    }
    (q1 as i64, q2 as i64)
}

proof fn lemma_momentum_bound(a: int, u1: int, b: int, u2: int)
    requires
        solver_accepts(a, u1, b, u2),
    ensures
        -3 * (a + b) * SPEED_LIMIT <= (a - b) * u1 + 2 * b * u2 <= 3 * (a + b) * SPEED_LIMIT,
        -3 * (a + b) * SPEED_LIMIT <= (a - b) * u1 <= 3 * (a + b) * SPEED_LIMIT,
        -3 * (a + b) * SPEED_LIMIT <= 2 * b * u2 <= 3 * (a + b) * SPEED_LIMIT,
{
    let s = SPEED_LIMIT as int;
    assert(-(a + b) * s <= (a - b) * u1 <= (a + b) * s) by (nonlinear_arith)
        requires
            0 < a,
            0 < b,
            -s <= u1 <= s,
    ;
    assert(-2 * b * s <= 2 * b * u2 <= 2 * b * s) by (nonlinear_arith)
        requires
            0 < b,
            -s <= u2 <= s,
    ;
    assert(2 * b * s <= 2 * (a + b) * s) by (nonlinear_arith)
        requires
            0 < a,
            0 < b,
            0 < s,
    ;
    assert(3 * (a + b) * s == (a + b) * s + 2 * (a + b) * s) by (nonlinear_arith);
    assert(0 <= (a + b) * s) by (nonlinear_arith)
        requires
            0 < a,
            0 < b,
            0 < s,
    ;
    assert(3 * (a + b) * s <= 3 * 2 * MASS_LIMIT * s) by (nonlinear_arith)
        requires
            0 < a <= MASS_LIMIT,
            0 < b <= MASS_LIMIT,
            0 < s,
    ;
}

proof fn lemma_quotient_bound(n: int, d: int)
    requires
        0 < d,
        -3 * d * SPEED_LIMIT <= n <= 3 * d * SPEED_LIMIT,
    ensures
        -3 * SPEED_LIMIT <= div_toward_zero(n, d) <= 3 * SPEED_LIMIT,
{
    let s = SPEED_LIMIT as int;
    if n >= 0 {
        assert(n / d <= 3 * s) by (nonlinear_arith)
            requires
                0 < d,
                0 <= n <= 3 * d * s,
        ;
        assert(0 <= n / d) by (nonlinear_arith)
            requires
                0 < d,
                0 <= n,
        ;
    } else {
        assert((-n) / d <= 3 * s) by (nonlinear_arith)
            requires
                0 < d,
                0 <= -n <= 3 * d * s,
        ;
        assert(0 <= (-n) / d) by (nonlinear_arith)
            requires
                0 < d,
                0 <= -n,
        ;
    }
}


/// For equal masses the general formula itself exchanges the velocities, so
/// the exact exchange the solver makes agrees with it.
pub proof fn lemma_equal_masses_exchange(m: int, v1: int, v2: int)
    requires
        0 < m,
    ensures
        div_toward_zero((m - m) * v1 + 2 * m * v2, m + m) == v2,
        div_toward_zero((m - m) * v2 + 2 * m * v1, m + m) == v1,
{
    lemma_scaled_quotient(m + m, v2);
    lemma_scaled_quotient(m + m, v1);
    assert((m - m) * v1 + 2 * m * v2 == (m + m) * v2) by (nonlinear_arith);
    assert((m - m) * v2 + 2 * m * v1 == (m + m) * v1) by (nonlinear_arith);
}

proof fn lemma_scaled_quotient(d: int, v: int)
    requires
        0 < d,
    ensures
        div_toward_zero(d * v, d) == v,
{
    if v >= 0 {
        assert(d * v >= 0) by (nonlinear_arith)
            requires
                0 < d,
                0 <= v,
        ;
        assert((d * v) / d == v) by (nonlinear_arith)
            requires
                0 < d,
        ;
    } else {
        assert(d * v < 0) by (nonlinear_arith)
            requires
                0 < d,
                v < 0,
        ;
        assert(-(d * v) == d * (-v)) by (nonlinear_arith);
        assert((d * (-v)) / d == -v) by (nonlinear_arith)
            requires
                0 < d,
        ;
    }
}

} // verus!
