//! One simulation step over a collection of bodies, in two strictly
//! sequential phases.
//!
//! The force phase visits every unordered pair once, applies the pairwise
//! Newtonian force to the first body of the pair and its exact negation to
//! the second, and touches velocities only. The integration phase then
//! advances every position by the velocity the force phase produced. No
//! position changes before every pairwise force of the tick has been
//! applied; the contracts of [`apply_gravity`] and [`update_bodies`] state
//! exactly that.

use vstd::prelude::*;
use crate::body::{
    force_at, in_range, lemma_force_at_bound, lemma_force_symmetric, Body, MAX_BODIES, MAX_COORD,
    MAX_FORCE, MAX_IMPULSE, MAX_MASS, MAX_RATE, MAX_SPEED,
};
use crate::math::{div_trunc, lemma_div_trunc_bounds, lemma_div_trunc_exact};

verus! {

/// The velocity change body `i` receives from body `j` in one force phase:
/// the force component scaled by `dt / mass_i`, rounded toward zero.
pub open spec fn impulse_at(
    bs: Seq<Body>,
    i: int,
    j: int,
    g_num: int,
    g_den: int,
    dt_num: int,
    dt_den: int,
    k: int,
) -> int {
    div_trunc(
        force_at(
            bs[i].position@,
            bs[i].mass as int,
            bs[j].position@,
            bs[j].mass as int,
            g_num,
            g_den,
            k,
        ) * dt_num,
        dt_den * (bs[i].mass as int),
    )
}

/// Sum of the velocity changes body `i` receives from the bodies with index
/// below `hi` (never from itself).
pub open spec fn impulse_sum(
    bs: Seq<Body>,
    i: int,
    hi: int,
    g_num: int,
    g_den: int,
    dt_num: int,
    dt_den: int,
    k: int,
) -> int
    decreases hi,
{
    if hi <= 0 {
        0
    } else {
        impulse_sum(bs, i, hi - 1, g_num, g_den, dt_num, dt_den, k) + if hi - 1 == i {
            0
        } else {
            impulse_at(bs, i, hi - 1, g_num, g_den, dt_num, dt_den, k)
        }
    }
}

/// Every body is well formed and has the same number of dimensions, and
/// there are at most `MAX_BODIES` of them.
pub open spec fn sys_wf(bs: Seq<Body>) -> bool {
    &&& bs.len() <= MAX_BODIES
    &&& forall|i: int| 0 <= i < bs.len() ==> (#[trigger] bs[i]).wf()
    &&& forall|i: int|
        0 <= i < bs.len() ==> (#[trigger] bs[i]).position@.len() == bs[0].position@.len()
}

/// No two distinct bodies coincide, so every pairwise distance is positive.
pub open spec fn all_separated(bs: Seq<Body>) -> bool {
    forall|i: int, j: int|
        0 <= i < bs.len() && 0 <= j < bs.len() && i != j ==> #[trigger] crate::body::dist_sq(
            bs[i].position@,
            bs[j].position@,
        ) > 0
}

/// `cur` has the same bodies as `pre` up to their velocities: lengths,
/// positions and masses all agree.
pub open spec fn keeps_shape(pre: Seq<Body>, cur: Seq<Body>) -> bool {
    &&& cur.len() == pre.len()
    &&& forall|t: int|
        0 <= t < pre.len() ==> (#[trigger] cur[t]).position@ == pre[t].position@ && cur[t].mass
            == pre[t].mass && cur[t].velocity@.len() == pre[t].velocity@.len()
}

/// Body `t` of `cur` carries the velocity it had in `pre` plus every
/// impulse from the bodies below `hi`.
pub open spec fn vel_is(
    pre: Seq<Body>,
    cur: Seq<Body>,
    t: int,
    hi: int,
    g_num: int,
    g_den: int,
    dt_num: int,
    dt_den: int,
) -> bool {
    forall|k: int|
        0 <= k < pre[t].velocity@.len() ==> #[trigger] cur[t].velocity@[k] == pre[t].velocity@[k]
            + impulse_sum(pre, t, hi, g_num, g_den, dt_num, dt_den, k)
}

/// An impulse sum over `hi` bodies stays within `hi * MAX_IMPULSE`.
pub proof fn lemma_impulse_sum_bound(
    bs: Seq<Body>,
    i: int,
    hi: int,
    g_num: int,
    g_den: int,
    dt_num: int,
    dt_den: int,
    k: int,
)
    requires
        sys_wf(bs),
        all_separated(bs),
        0 <= i < bs.len(),
        0 <= hi <= bs.len(),
        0 <= k < bs[i].position@.len(),
        1 <= g_num <= MAX_RATE,
        1 <= g_den <= MAX_RATE,
        1 <= dt_num <= MAX_RATE,
        1 <= dt_den <= MAX_RATE,
    ensures
        -(hi * MAX_IMPULSE) <= impulse_sum(bs, i, hi, g_num, g_den, dt_num, dt_den, k) <= hi
            * MAX_IMPULSE,
        -(1000 * MAX_IMPULSE) <= impulse_sum(bs, i, hi, g_num, g_den, dt_num, dt_den, k) <= 1000
            * MAX_IMPULSE,
    decreases hi,
{
    assert(0 <= hi <= 1000);
    if hi > 0 {
        lemma_impulse_sum_bound(bs, i, hi - 1, g_num, g_den, dt_num, dt_den, k);
        let j = hi - 1;
        assert(impulse_sum(bs, i, hi, g_num, g_den, dt_num, dt_den, k) == impulse_sum(
            bs,
            i,
            hi - 1,
            g_num,
            g_den,
            dt_num,
            dt_den,
            k,
        ) + if j == i {
            0
        } else {
            impulse_at(bs, i, j, g_num, g_den, dt_num, dt_den, k)
        });
        if j != i {
            lemma_force_at_bound(
                bs[i].position@,
                bs[i].mass as int,
                bs[j].position@,
                bs[j].mass as int,
                g_num,
                g_den,
                k,
            );
            let fa = force_at(
                bs[i].position@,
                bs[i].mass as int,
                bs[j].position@,
                bs[j].mass as int,
                g_num,
                g_den,
                k,
            );
            assert(-MAX_IMPULSE <= fa * dt_num <= MAX_IMPULSE) by (nonlinear_arith)
                requires
                    -MAX_FORCE <= fa <= MAX_FORCE,
                    1 <= dt_num <= MAX_RATE,
                    MAX_IMPULSE == MAX_FORCE * MAX_RATE,
            ;
            let den = dt_den * (bs[i].mass as int);
            assert(den >= 1) by (nonlinear_arith)
                requires
                    dt_den >= 1,
                    bs[i].mass >= 1,
                    den == dt_den * (bs[i].mass as int),
            ;
            lemma_div_trunc_bounds(fa * dt_num, den);
        }
        assert((hi - 1) * MAX_IMPULSE + MAX_IMPULSE == hi * MAX_IMPULSE) by (nonlinear_arith);
    }
    assert(hi * MAX_IMPULSE <= 1000 * MAX_IMPULSE) by (nonlinear_arith)
        requires
            0 <= hi <= 1000,
            MAX_IMPULSE >= 0,
    ;
}

/// Applies `force` to body `i` of the collection, leaving every other body
/// untouched.
fn apply_to(bodies: &mut Vec<Body>, i: usize, force: &Vec<i128>, dt_num: i128, dt_den: i128)
    requires
        i < old(bodies)@.len(),
        old(bodies)@[i as int].velocity@.len() == force@.len(),
        1 <= old(bodies)@[i as int].mass <= MAX_MASS,
        1 <= dt_num <= MAX_RATE,
        1 <= dt_den <= MAX_RATE,
        in_range(force@, MAX_FORCE as int),
        in_range(old(bodies)@[i as int].velocity@, MAX_SPEED as int),
    ensures
        final(bodies)@.len() == old(bodies)@.len(),
        forall|t: int|
            0 <= t < old(bodies)@.len() && t != i ==> #[trigger] final(bodies)@[t] == old(bodies)@[t],
        final(bodies)@[i as int].position@ == old(bodies)@[i as int].position@,
        final(bodies)@[i as int].mass == old(bodies)@[i as int].mass,
        final(bodies)@[i as int].velocity@.len() == old(bodies)@[i as int].velocity@.len(),
        forall|k: int|
            0 <= k < old(bodies)@[i as int].velocity@.len() ==> #[trigger] final(bodies)@[i as int].velocity@[k] == old(
                bodies,
            )@[i as int].velocity@[k] + div_trunc(
                force@[k] * dt_num,
                (dt_den as int) * (old(bodies)@[i as int].mass as int),
            ),
{
    let mut tmp = Body { position: Vec::new(), velocity: Vec::new(), mass: 1 };
    bodies.set_and_swap(i, &mut tmp);
    tmp.apply_force(force, dt_num, dt_den);
    bodies.set_and_swap(i, &mut tmp);
}

/// The exact negation of a force vector.
fn negated(f: &Vec<i128>) -> (g: Vec<i128>)
    requires
        in_range(f@, MAX_FORCE as int),
    ensures
        g@.len() == f@.len(),
        forall|k: int| 0 <= k < f@.len() ==> #[trigger] g@[k] == -f@[k],
        in_range(g@, MAX_FORCE as int),
{
    let mut g: Vec<i128> = Vec::new();
    let mut k: usize = 0;
    while k < f.len()
        invariant
            k <= f@.len(),
            in_range(f@, MAX_FORCE as int),
            g@.len() == k as int,
            forall|t: int| 0 <= t < k ==> #[trigger] g@[t] == -f@[t],
            in_range(g@, MAX_FORCE as int),
        decreases f@.len() - k,
    {
        g.push(-f[k]);
        k += 1;
    }
    g
}

/// The force phase of one tick: every unordered pair of bodies interacts
/// once, the first body of the pair receiving the pairwise force and the
/// second its exact negation. Only velocities change; each body ends with
/// its initial velocity plus the sum of every impulse it is owed. No
/// position and no mass changes during this phase.
pub fn apply_gravity(
    bodies: &mut Vec<Body>,
    g_num: i128,
    g_den: i128,
    dt_num: i128,
    dt_den: i128,
)
    requires
        sys_wf(old(bodies)@),
        all_separated(old(bodies)@),
        1 <= g_num <= MAX_RATE,
        1 <= g_den <= MAX_RATE,
        1 <= dt_num <= MAX_RATE,
        1 <= dt_den <= MAX_RATE,
    ensures
        keeps_shape(old(bodies)@, final(bodies)@),
        forall|t: int|
            0 <= t < old(bodies)@.len() ==> #[trigger] vel_is(
                old(bodies)@,
                final(bodies)@,
                t,
                old(bodies)@.len() as int,
                g_num as int,
                g_den as int,
                dt_num as int,
                dt_den as int,
            ),
{
    let ghost b0 = bodies@;
    let ghost gni = g_num as int;
    let ghost gdi = g_den as int;
    let ghost dni = dt_num as int;
    let ghost ddi = dt_den as int;
    let n = bodies.len();
    let mut i: usize = 0;
    while i < n
        invariant
            n == b0.len(),
            sys_wf(b0),
            all_separated(b0),
            1 <= g_num <= MAX_RATE,
            1 <= g_den <= MAX_RATE,
            1 <= dt_num <= MAX_RATE,
            1 <= dt_den <= MAX_RATE,
            gni == g_num as int,
            gdi == g_den as int,
            dni == dt_num as int,
            ddi == dt_den as int,
            i <= n,
            keeps_shape(b0, bodies@),
            forall|t: int| 0 <= t < i ==> #[trigger] vel_is(b0, bodies@, t, n as int, gni, gdi, dni, ddi),
            forall|t: int|
                i <= t < n ==> #[trigger] vel_is(b0, bodies@, t, i as int, gni, gdi, dni, ddi),
        decreases n - i,
    {
        let ghost oi = i as int;
        proof {
            assert(vel_is(b0, bodies@, oi, oi, gni, gdi, dni, ddi));
            assert forall|k: int| 0 <= k < b0[oi].velocity@.len() implies
                #[trigger] bodies@[oi].velocity@[k] == b0[oi].velocity@[k] + impulse_sum(
                b0,
                oi,
                oi + 1,
                gni,
                gdi,
                dni,
                ddi,
                k,
            ) by {
                assert(impulse_sum(b0, oi, oi + 1, gni, gdi, dni, ddi, k) == impulse_sum(
                    b0,
                    oi,
                    oi,
                    gni,
                    gdi,
                    dni,
                    ddi,
                    k,
                ) + 0);
            }
            assert(vel_is(b0, bodies@, oi, oi + 1, gni, gdi, dni, ddi));
        }
        let mut j: usize = i + 1;
        while j < n
            invariant
                n == b0.len(),
                sys_wf(b0),
                all_separated(b0),
                1 <= g_num <= MAX_RATE,
                1 <= g_den <= MAX_RATE,
                1 <= dt_num <= MAX_RATE,
                1 <= dt_den <= MAX_RATE,
                gni == g_num as int,
                gdi == g_den as int,
                dni == dt_num as int,
                ddi == dt_den as int,
                i < j <= n,
                keeps_shape(b0, bodies@),
                forall|t: int|
                    0 <= t < i ==> #[trigger] vel_is(b0, bodies@, t, n as int, gni, gdi, dni, ddi),
                vel_is(b0, bodies@, i as int, j as int, gni, gdi, dni, ddi),
                forall|t: int|
                    i < t < j ==> #[trigger] vel_is(
                        b0,
                        bodies@,
                        t,
                        i as int + 1,
                        gni,
                        gdi,
                        dni,
                        ddi,
                    ),
                forall|t: int|
                    j <= t < n ==> #[trigger] vel_is(b0, bodies@, t, i as int, gni, gdi, dni, ddi),
            decreases n - j,
        {
            let ghost bpre = bodies@;
            let ghost ii = i as int;
            let ghost jj = j as int;
            proof {
                assert(b0[ii].wf());
                assert(b0[jj].wf());
                assert(bodies@[ii].position@ == b0[ii].position@);
                assert(bodies@[jj].position@ == b0[jj].position@);
                assert(vel_is(b0, bpre, ii, jj, gni, gdi, dni, ddi));
                assert(vel_is(b0, bpre, jj, ii, gni, gdi, dni, ddi));
            }
            let f = bodies[i].newtonian_force(&bodies[j], g_num, g_den);
            proof {
                assert forall|k: int| 0 <= k < b0[ii].velocity@.len() implies -MAX_SPEED
                    <= #[trigger] bodies@[ii].velocity@[k] <= MAX_SPEED by {
                    assert(bodies@[ii].velocity@[k] == b0[ii].velocity@[k] + impulse_sum(
                        b0,
                        ii,
                        jj,
                        gni,
                        gdi,
                        dni,
                        ddi,
                        k,
                    ));
                    assert(-MAX_COORD <= b0[ii].velocity@[k] <= MAX_COORD);
                    lemma_impulse_sum_bound(b0, ii, jj, gni, gdi, dni, ddi, k);
                }
            }
            apply_to(bodies, i, &f, dt_num, dt_den);
            let ghost bmid = bodies@;
            let g = negated(&f);
            proof {
                assert(bmid[jj] == bpre[jj]);
                assert forall|k: int| 0 <= k < b0[jj].velocity@.len() implies -MAX_SPEED
                    <= #[trigger] bodies@[jj].velocity@[k] <= MAX_SPEED by {
                    assert(bpre[jj].velocity@[k] == b0[jj].velocity@[k] + impulse_sum(
                        b0,
                        jj,
                        ii,
                        gni,
                        gdi,
                        dni,
                        ddi,
                        k,
                    ));
                    assert(-MAX_COORD <= b0[jj].velocity@[k] <= MAX_COORD);
                    lemma_impulse_sum_bound(b0, jj, ii, gni, gdi, dni, ddi, k);
                }
            }
            apply_to(bodies, j, &g, dt_num, dt_den);
            proof {
                assert(bodies@[ii] == bmid[ii]);
                lemma_force_symmetric(
                    b0[ii].position@,
                    b0[ii].mass as int,
                    b0[jj].position@,
                    b0[jj].mass as int,
                    gni,
                    gdi,
                );
                // Body i gained exactly the impulse from j.
                assert(vel_is(b0, bodies@, ii, jj + 1, gni, gdi, dni, ddi)) by {
                    assert forall|k: int| 0 <= k < b0[ii].velocity@.len() implies
                        #[trigger] bodies@[ii].velocity@[k] == b0[ii].velocity@[k] + impulse_sum(
                        b0,
                        ii,
                        jj + 1,
                        gni,
                        gdi,
                        dni,
                        ddi,
                        k,
                    ) by {
                        assert(bpre[ii].velocity@[k] == b0[ii].velocity@[k] + impulse_sum(
                            b0,
                            ii,
                            jj,
                            gni,
                            gdi,
                            dni,
                            ddi,
                            k,
                        ));
                        assert(bmid[ii].velocity@[k] == bpre[ii].velocity@[k] + div_trunc(
                            f@[k] * dni,
                            ddi * (bpre[ii].mass as int),
                        ));
                        assert(bpre[ii].mass == b0[ii].mass);
                        assert(f@[k] == force_at(
                            b0[ii].position@,
                            b0[ii].mass as int,
                            b0[jj].position@,
                            b0[jj].mass as int,
                            gni,
                            gdi,
                            k,
                        ));
                        assert(impulse_sum(b0, ii, jj + 1, gni, gdi, dni, ddi, k) == impulse_sum(
                            b0,
                            ii,
                            jj,
                            gni,
                            gdi,
                            dni,
                            ddi,
                            k,
                        ) + impulse_at(b0, ii, jj, gni, gdi, dni, ddi, k));
                    }
                }
                // Body j gained exactly the impulse from i.
                assert(vel_is(b0, bodies@, jj, ii + 1, gni, gdi, dni, ddi)) by {
                    assert forall|k: int| 0 <= k < b0[jj].velocity@.len() implies
                        #[trigger] bodies@[jj].velocity@[k] == b0[jj].velocity@[k] + impulse_sum(
                        b0,
                        jj,
                        ii + 1,
                        gni,
                        gdi,
                        dni,
                        ddi,
                        k,
                    ) by {
                        assert(bpre[jj].velocity@[k] == b0[jj].velocity@[k] + impulse_sum(
                            b0,
                            jj,
                            ii,
                            gni,
                            gdi,
                            dni,
                            ddi,
                            k,
                        ));
                        assert(bmid[jj] == bpre[jj]);
                        assert(bodies@[jj].velocity@[k] == bmid[jj].velocity@[k] + div_trunc(
                            g@[k] * dni,
                            ddi * (bmid[jj].mass as int),
                        ));
                        assert(bpre[jj].mass == b0[jj].mass);
                        assert(g@[k] == -f@[k]);
                        assert(force_at(
                            b0[jj].position@,
                            b0[jj].mass as int,
                            b0[ii].position@,
                            b0[ii].mass as int,
                            gni,
                            gdi,
                            k,
                        ) == -force_at(
                            b0[ii].position@,
                            b0[ii].mass as int,
                            b0[jj].position@,
                            b0[jj].mass as int,
                            gni,
                            gdi,
                            k,
                        ));
                        assert(impulse_sum(b0, jj, ii + 1, gni, gdi, dni, ddi, k) == impulse_sum(
                            b0,
                            jj,
                            ii,
                            gni,
                            gdi,
                            dni,
                            ddi,
                            k,
                        ) + impulse_at(b0, jj, ii, gni, gdi, dni, ddi, k));
                    }
                }
                // Bodies outside the pair kept their velocities.
                assert forall|t: int| 0 <= t < n && t != ii && t != jj implies bodies@[t]
                    == bpre[t] by {}
                assert forall|t: int| 0 <= t < ii implies #[trigger] vel_is(
                    b0,
                    bodies@,
                    t,
                    n as int,
                    gni,
                    gdi,
                    dni,
                    ddi,
                ) by {
                    assert(vel_is(b0, bpre, t, n as int, gni, gdi, dni, ddi));
                    assert(bodies@[t] == bpre[t]);
                }
                assert forall|t: int| ii < t < jj implies #[trigger] vel_is(
                    b0,
                    bodies@,
                    t,
                    ii + 1,
                    gni,
                    gdi,
                    dni,
                    ddi,
                ) by {
                    assert(vel_is(b0, bpre, t, ii + 1, gni, gdi, dni, ddi));
                    assert(bodies@[t] == bpre[t]);
                }
                assert forall|t: int| jj + 1 <= t < n implies #[trigger] vel_is(
                    b0,
                    bodies@,
                    t,
                    ii,
                    gni,
                    gdi,
                    dni,
                    ddi,
                ) by {
                    assert(vel_is(b0, bpre, t, ii, gni, gdi, dni, ddi));
                    assert(bodies@[t] == bpre[t]);
                }
            }
            j += 1;
        }
        proof {
            assert(vel_is(b0, bodies@, i as int, n as int, gni, gdi, dni, ddi));
        }
        i += 1;
    }
}

/// Replaces body `i` with its position integrated over one time step,
/// leaving every other body untouched.
fn integrate_at(bodies: &mut Vec<Body>, i: usize, dt_num: i128, dt_den: i128)
    requires
        i < old(bodies)@.len(),
        old(bodies)@[i as int].position@.len() == old(bodies)@[i as int].velocity@.len(),
        1 <= dt_num <= MAX_RATE,
        1 <= dt_den <= MAX_RATE,
        in_range(old(bodies)@[i as int].position@, MAX_COORD as int),
        in_range(old(bodies)@[i as int].velocity@, MAX_SPEED as int),
    ensures
        final(bodies)@.len() == old(bodies)@.len(),
        forall|t: int|
            0 <= t < old(bodies)@.len() && t != i ==> #[trigger] final(bodies)@[t] == old(bodies)@[t],
        final(bodies)@[i as int].velocity@ == old(bodies)@[i as int].velocity@,
        final(bodies)@[i as int].mass == old(bodies)@[i as int].mass,
        final(bodies)@[i as int].position@.len() == old(bodies)@[i as int].position@.len(),
        forall|k: int|
            0 <= k < old(bodies)@[i as int].position@.len() ==> #[trigger] final(bodies)@[i as int].position@[k] == old(
                bodies,
            )@[i as int].position@[k] + div_trunc(
                old(bodies)@[i as int].velocity@[k] * dt_num,
                dt_den as int,
            ),
{
    let mut tmp = Body { position: Vec::new(), velocity: Vec::new(), mass: 1 };
    bodies.set_and_swap(i, &mut tmp);
    tmp.update_position(dt_num, dt_den);
    bodies.set_and_swap(i, &mut tmp);
}

/// The integration phase of one tick: every position advances by the
/// body's current velocity scaled by the time step, rounded toward zero.
/// No velocity and no mass changes during this phase.
pub fn update_bodies(bodies: &mut Vec<Body>, dt_num: i128, dt_den: i128)
    requires
        forall|t: int|
            0 <= t < old(bodies)@.len() ==> (#[trigger] old(bodies)@[t]).position@.len() == old(
                bodies,
            )@[t].velocity@.len(),
        forall|t: int|
            0 <= t < old(bodies)@.len() ==> in_range(
                (#[trigger] old(bodies)@[t]).position@,
                MAX_COORD as int,
            ),
        forall|t: int|
            0 <= t < old(bodies)@.len() ==> in_range(
                (#[trigger] old(bodies)@[t]).velocity@,
                MAX_SPEED as int,
            ),
        1 <= dt_num <= MAX_RATE,
        1 <= dt_den <= MAX_RATE,
    ensures
        final(bodies)@.len() == old(bodies)@.len(),
        forall|t: int|
            0 <= t < old(bodies)@.len() ==> (#[trigger] final(bodies)@[t]).velocity@ == old(
                bodies,
            )@[t].velocity@ && final(bodies)@[t].mass == old(bodies)@[t].mass
                && final(bodies)@[t].position@.len() == old(bodies)@[t].position@.len(),
        forall|t: int, k: int|
            0 <= t < old(bodies)@.len() && 0 <= k < old(bodies)@[t].position@.len()
                ==> #[trigger] final(bodies)@[t].position@[k] == old(bodies)@[t].position@[k]
                + div_trunc(old(bodies)@[t].velocity@[k] * dt_num, dt_den as int),
{
    let ghost b0 = bodies@;
    let n = bodies.len();
    let mut i: usize = 0;
    while i < n
        invariant
            n == b0.len(),
            n == bodies@.len(),
            1 <= dt_num <= MAX_RATE,
            1 <= dt_den <= MAX_RATE,
            forall|t: int|
                0 <= t < n ==> (#[trigger] b0[t]).position@.len() == b0[t].velocity@.len(),
            forall|t: int| 0 <= t < n ==> in_range((#[trigger] b0[t]).position@, MAX_COORD as int),
            forall|t: int| 0 <= t < n ==> in_range((#[trigger] b0[t]).velocity@, MAX_SPEED as int),
            i <= n,
            forall|t: int| i <= t < n ==> #[trigger] bodies@[t] == b0[t],
            forall|t: int|
                0 <= t < i ==> (#[trigger] bodies@[t]).velocity@ == b0[t].velocity@ && bodies@[t].mass
                    == b0[t].mass && bodies@[t].position@.len() == b0[t].position@.len(),
            forall|t: int, k: int|
                0 <= t < i && 0 <= k < b0[t].position@.len()
                    ==> #[trigger] bodies@[t].position@[k] == b0[t].position@[k] + div_trunc(
                    b0[t].velocity@[k] * dt_num,
                    dt_den as int,
                ),
        decreases n - i,
    {
        integrate_at(bodies, i, dt_num, dt_den);
        i += 1;
    }
}

/// One full tick: the force phase, then the integration phase, strictly in
/// that order. Each body ends with its velocity increased by every impulse
/// it is owed for the tick, and with its position advanced by that new,
/// post-force velocity — never by the stale one.
pub fn advance(bodies: &mut Vec<Body>, g_num: i128, g_den: i128, dt_num: i128, dt_den: i128)
    requires
        sys_wf(old(bodies)@),
        all_separated(old(bodies)@),
        1 <= g_num <= MAX_RATE,
        1 <= g_den <= MAX_RATE,
        1 <= dt_num <= MAX_RATE,
        1 <= dt_den <= MAX_RATE,
    ensures
        final(bodies)@.len() == old(bodies)@.len(),
        forall|t: int|
            0 <= t < old(bodies)@.len() ==> (#[trigger] final(bodies)@[t]).mass == old(
                bodies,
            )@[t].mass && final(bodies)@[t].position@.len() == old(bodies)@[t].position@.len()
                && final(bodies)@[t].velocity@.len() == old(bodies)@[t].velocity@.len(),
        forall|t: int|
            0 <= t < old(bodies)@.len() ==> #[trigger] vel_is(
                old(bodies)@,
                final(bodies)@,
                t,
                old(bodies)@.len() as int,
                g_num as int,
                g_den as int,
                dt_num as int,
                dt_den as int,
            ),
        forall|t: int, k: int|
            0 <= t < old(bodies)@.len() && 0 <= k < old(bodies)@[t].position@.len()
                ==> #[trigger] final(bodies)@[t].position@[k] == old(bodies)@[t].position@[k]
                + div_trunc(final(bodies)@[t].velocity@[k] * dt_num, dt_den as int),
{
    let ghost b0 = bodies@;
    let ghost gni = g_num as int;
    let ghost gdi = g_den as int;
    let ghost dni = dt_num as int;
    let ghost ddi = dt_den as int;
    let ghost n = b0.len() as int;
    apply_gravity(bodies, g_num, g_den, dt_num, dt_den);
    proof {
        assert forall|t: int| 0 <= t < n implies in_range(
            (#[trigger] bodies@[t]).velocity@,
            MAX_SPEED as int,
        ) by {
            assert(b0[t].wf());
            assert(vel_is(b0, bodies@, t, n, gni, gdi, dni, ddi));
            assert forall|k: int| 0 <= k < bodies@[t].velocity@.len() implies -MAX_SPEED
                <= #[trigger] bodies@[t].velocity@[k] <= MAX_SPEED by {
                lemma_impulse_sum_bound(b0, t, n, gni, gdi, dni, ddi, k);
            }
        }
        assert forall|t: int| 0 <= t < n implies in_range(
            (#[trigger] bodies@[t]).position@,
            MAX_COORD as int,
        ) by {
            assert(b0[t].wf());
            assert(bodies@[t].position@ == b0[t].position@);
        }
    }
    let ghost b1 = bodies@;
    update_bodies(bodies, dt_num, dt_den);
    proof {
        assert forall|t: int| 0 <= t < n implies #[trigger] vel_is(
            b0,
            bodies@,
            t,
            n,
            gni,
            gdi,
            dni,
            ddi,
        ) by {
            assert(vel_is(b0, b1, t, n, gni, gdi, dni, ddi));
            assert(bodies@[t].velocity@ == b1[t].velocity@);
        }
    }
}

/// Component `k` of the total momentum of the first `t` bodies: the sum of
/// `mass * velocity` over them.
pub open spec fn momentum(bs: Seq<Body>, t: int, k: int) -> int
    decreases t,
{
    if t <= 0 {
        0
    } else {
        momentum(bs, t - 1, k) + (bs[t - 1].mass as int) * bs[t - 1].velocity@[k]
    }
}

/// Every division a force phase performs is exact: each pairwise force
/// component, scaled by the time step, is divisible by the receiving
/// body's mass times the time step's denominator.
pub open spec fn impulses_exact(
    bs: Seq<Body>,
    g_num: int,
    g_den: int,
    dt_num: int,
    dt_den: int,
) -> bool {
    forall|i: int, j: int, k: int|
        0 <= i < bs.len() && 0 <= j < bs.len() && i != j && 0 <= k < bs[i].position@.len() ==> ((
        #[trigger] force_at(
            bs[i].position@,
            bs[i].mass as int,
            bs[j].position@,
            bs[j].mass as int,
            g_num,
            g_den,
            k,
        )) * dt_num) % (dt_den * (bs[i].mass as int)) == 0
}

/// Sum over the first `t` bodies of `mass * impulse_sum(.., c, ..)`: the
/// momentum they gain from the bodies below `c`.
spec fn weighted_sum(
    bs: Seq<Body>,
    t: int,
    c: int,
    g_num: int,
    g_den: int,
    dt_num: int,
    dt_den: int,
    k: int,
) -> int
    decreases t,
{
    if t <= 0 {
        0
    } else {
        weighted_sum(bs, t - 1, c, g_num, g_den, dt_num, dt_den, k) + (bs[t - 1].mass as int)
            * impulse_sum(bs, t - 1, c, g_num, g_den, dt_num, dt_den, k)
    }
}

/// Momentum that body `c` hands to the first `t` bodies (itself excluded).
spec fn transferred(
    bs: Seq<Body>,
    c: int,
    t: int,
    g_num: int,
    g_den: int,
    dt_num: int,
    dt_den: int,
    k: int,
) -> int
    decreases t,
{
    if t <= 0 {
        0
    } else {
        transferred(bs, c, t - 1, g_num, g_den, dt_num, dt_den, k) + if t - 1 == c {
            0
        } else {
            (bs[t - 1].mass as int) * impulse_at(bs, t - 1, c, g_num, g_den, dt_num, dt_den, k)
        }
    }
}

/// When both of a pair's impulse divisions are exact, the momentum the two
/// bodies exchange cancels to nothing.
proof fn lemma_pair_cancel(
    bs: Seq<Body>,
    i: int,
    j: int,
    g_num: int,
    g_den: int,
    dt_num: int,
    dt_den: int,
    k: int,
)
    requires
        sys_wf(bs),
        all_separated(bs),
        impulses_exact(bs, g_num, g_den, dt_num, dt_den),
        0 <= i < bs.len(),
        0 <= j < bs.len(),
        i != j,
        0 <= k < bs[i].position@.len(),
        1 <= g_num <= MAX_RATE,
        1 <= g_den <= MAX_RATE,
        1 <= dt_num <= MAX_RATE,
        1 <= dt_den <= MAX_RATE,
    ensures
        (bs[i].mass as int) * impulse_at(bs, i, j, g_num, g_den, dt_num, dt_den, k) + (
        bs[j].mass as int) * impulse_at(bs, j, i, g_num, g_den, dt_num, dt_den, k) == 0,
{
    let mi = bs[i].mass as int;
    let mj = bs[j].mass as int;
    assert(bs[i].wf());
    assert(bs[j].wf());
    let fij = force_at(bs[i].position@, mi, bs[j].position@, mj, g_num, g_den, k);
    let fji = force_at(bs[j].position@, mj, bs[i].position@, mi, g_num, g_den, k);
    lemma_force_symmetric(bs[i].position@, mi, bs[j].position@, mj, g_num, g_den);
    assert(fij == -fji);
    let x = fij * dt_num;
    let y = fji * dt_num;
    assert(y == -x) by (nonlinear_arith)
        requires
            fij == -fji,
            x == fij * dt_num,
            y == fji * dt_num,
    ;
    let di = dt_den * mi;
    let dj = dt_den * mj;
    assert(di >= 1 && dj >= 1) by (nonlinear_arith)
        requires
            dt_den >= 1,
            mi >= 1,
            mj >= 1,
            di == dt_den * mi,
            dj == dt_den * mj,
    ;
    assert(x % di == 0);
    assert(y % dj == 0);
    lemma_div_trunc_exact(x, di);
    lemma_div_trunc_exact(y, dj);
    let qi = div_trunc(x, di);
    let qj = div_trunc(y, dj);
    assert(dt_den * (mi * qi) == x) by (nonlinear_arith)
        requires
            (dt_den * mi) * qi == x,
    ;
    assert(dt_den * (mj * qj) == y) by (nonlinear_arith)
        requires
            (dt_den * mj) * qj == y,
    ;
    assert(mi * qi + mj * qj == 0) by (nonlinear_arith)
        requires
            dt_den * (mi * qi) == x,
            dt_den * (mj * qj) == y,
            y == -x,
            dt_den >= 1,
    ;
}

/// The momentum body `c` hands to the first `t` bodies is exactly what it
/// loses to them, so the two sums cancel.
proof fn lemma_transfer_cancel(
    bs: Seq<Body>,
    c: int,
    t: int,
    g_num: int,
    g_den: int,
    dt_num: int,
    dt_den: int,
    k: int,
)
    requires
        sys_wf(bs),
        all_separated(bs),
        impulses_exact(bs, g_num, g_den, dt_num, dt_den),
        0 <= c < bs.len(),
        0 <= t <= bs.len(),
        0 <= k < bs[c].position@.len(),
        1 <= g_num <= MAX_RATE,
        1 <= g_den <= MAX_RATE,
        1 <= dt_num <= MAX_RATE,
        1 <= dt_den <= MAX_RATE,
    ensures
        transferred(bs, c, t, g_num, g_den, dt_num, dt_den, k) + (bs[c].mass as int)
            * impulse_sum(bs, c, t, g_num, g_den, dt_num, dt_den, k) == 0,
    decreases t,
{
    let mc = bs[c].mass as int;
    if t <= 0 {
        assert(mc * 0 == 0) by (nonlinear_arith);
    } else {
        lemma_transfer_cancel(bs, c, t - 1, g_num, g_den, dt_num, dt_den, k);
        let s = impulse_sum(bs, c, t - 1, g_num, g_den, dt_num, dt_den, k);
        if t - 1 != c {
            assert(bs[t - 1].wf());
            assert(bs[c].position@.len() == bs[t - 1].position@.len());
            lemma_pair_cancel(bs, t - 1, c, g_num, g_den, dt_num, dt_den, k);
            let q = impulse_at(bs, c, t - 1, g_num, g_den, dt_num, dt_den, k);
            assert(mc * (s + q) == mc * s + mc * q) by (nonlinear_arith);
        } else {
            assert(mc * (s + 0) == mc * s) by (nonlinear_arith);
        }
    }
}

/// Extending every inner impulse sum from `c` to `c + 1` adds exactly the
/// momentum body `c` hands out.
proof fn lemma_weighted_sum_step(
    bs: Seq<Body>,
    t: int,
    c: int,
    g_num: int,
    g_den: int,
    dt_num: int,
    dt_den: int,
    k: int,
)
    requires
        0 <= t <= bs.len(),
        0 <= c,
    ensures
        weighted_sum(bs, t, c + 1, g_num, g_den, dt_num, dt_den, k) == weighted_sum(
            bs,
            t,
            c,
            g_num,
            g_den,
            dt_num,
            dt_den,
            k,
        ) + transferred(bs, c, t, g_num, g_den, dt_num, dt_den, k),
    decreases t,
{
    if t > 0 {
        lemma_weighted_sum_step(bs, t - 1, c, g_num, g_den, dt_num, dt_den, k);
        let m = bs[t - 1].mass as int;
        let s = impulse_sum(bs, t - 1, c, g_num, g_den, dt_num, dt_den, k);
        assert(impulse_sum(bs, t - 1, c + 1, g_num, g_den, dt_num, dt_den, k) == s + if c == t - 1 {
            0
        } else {
            impulse_at(bs, t - 1, c, g_num, g_den, dt_num, dt_den, k)
        });
        if c == t - 1 {
            assert(m * (s + 0) == m * s) by (nonlinear_arith);
        } else {
            let q = impulse_at(bs, t - 1, c, g_num, g_den, dt_num, dt_den, k);
            assert(m * (s + q) == m * s + m * q) by (nonlinear_arith);
        }
    }
}

/// The momentum the first `c` bodies exchange among themselves sums to
/// nothing: every pair cancels.
proof fn lemma_weighted_sum_diag_zero(
    bs: Seq<Body>,
    c: int,
    g_num: int,
    g_den: int,
    dt_num: int,
    dt_den: int,
    k: int,
)
    requires
        sys_wf(bs),
        all_separated(bs),
        impulses_exact(bs, g_num, g_den, dt_num, dt_den),
        0 <= c <= bs.len(),
        0 <= k,
        bs.len() > 0 ==> k < bs[0].position@.len(),
        1 <= g_num <= MAX_RATE,
        1 <= g_den <= MAX_RATE,
        1 <= dt_num <= MAX_RATE,
        1 <= dt_den <= MAX_RATE,
    ensures
        weighted_sum(bs, c, c, g_num, g_den, dt_num, dt_den, k) == 0,
    decreases c,
{
    if c > 0 {
        lemma_weighted_sum_diag_zero(bs, c - 1, g_num, g_den, dt_num, dt_den, k);
        lemma_weighted_sum_step(bs, c - 1, c - 1, g_num, g_den, dt_num, dt_den, k);
        assert(bs[c - 1].position@.len() == bs[0].position@.len());
        lemma_transfer_cancel(bs, c - 1, c - 1, g_num, g_den, dt_num, dt_den, k);
        let mc = bs[c - 1].mass as int;
        assert(impulse_sum(bs, c - 1, c, g_num, g_den, dt_num, dt_den, k) == impulse_sum(
            bs,
            c - 1,
            c - 1,
            g_num,
            g_den,
            dt_num,
            dt_den,
            k,
        ) + 0);
        assert(weighted_sum(bs, c, c, g_num, g_den, dt_num, dt_den, k) == weighted_sum(
            bs,
            c - 1,
            c,
            g_num,
            g_den,
            dt_num,
            dt_den,
            k,
        ) + mc * impulse_sum(bs, c - 1, c, g_num, g_den, dt_num, dt_den, k));
    }
}

/// After a force phase, the momentum of the first `t` bodies has changed by
/// exactly the weighted impulse sum.
proof fn lemma_momentum_shift(
    b0: Seq<Body>,
    b1: Seq<Body>,
    t: int,
    g_num: int,
    g_den: int,
    dt_num: int,
    dt_den: int,
    k: int,
)
    requires
        sys_wf(b0),
        b1.len() == b0.len(),
        forall|i: int| 0 <= i < b0.len() ==> (#[trigger] b1[i]).mass == b0[i].mass,
        forall|i: int|
            0 <= i < b0.len() ==> #[trigger] vel_is(
                b0,
                b1,
                i,
                b0.len() as int,
                g_num,
                g_den,
                dt_num,
                dt_den,
            ),
        0 <= k,
        b0.len() > 0 ==> k < b0[0].position@.len(),
        0 <= t <= b0.len(),
    ensures
        momentum(b1, t, k) == momentum(b0, t, k) + weighted_sum(
            b0,
            t,
            b0.len() as int,
            g_num,
            g_den,
            dt_num,
            dt_den,
            k,
        ),
    decreases t,
{
    if t > 0 {
        lemma_momentum_shift(b0, b1, t - 1, g_num, g_den, dt_num, dt_den, k);
        let m = b0[t - 1].mass as int;
        let s = impulse_sum(b0, t - 1, b0.len() as int, g_num, g_den, dt_num, dt_den, k);
        assert(vel_is(b0, b1, t - 1, b0.len() as int, g_num, g_den, dt_num, dt_den));
        assert(b0[t - 1].wf());
        assert(b0[t - 1].position@.len() == b0[0].position@.len());
        assert(k < b0[t - 1].velocity@.len());
        assert(b1[t - 1].velocity@[k] == b0[t - 1].velocity@[k] + s);
        assert(b1[t - 1].mass == b0[t - 1].mass);
        assert(m * (b0[t - 1].velocity@[k] + s) == m * b0[t - 1].velocity@[k] + m * s)
            by (nonlinear_arith);
    }
}

/// Conservation of momentum: when every impulse division of a tick is
/// exact, each component of the total momentum is the same after the tick
/// as before it. The hypotheses are exactly what [`apply_gravity`] and
/// [`advance`] ensure, since the integration phase never touches a
/// velocity or a mass.
pub proof fn lemma_momentum_conserved(
    b0: Seq<Body>,
    b1: Seq<Body>,
    g_num: int,
    g_den: int,
    dt_num: int,
    dt_den: int,
    k: int,
)
    requires
        sys_wf(b0),
        all_separated(b0),
        impulses_exact(b0, g_num, g_den, dt_num, dt_den),
        b1.len() == b0.len(),
        forall|i: int| 0 <= i < b0.len() ==> (#[trigger] b1[i]).mass == b0[i].mass,
        forall|i: int|
            0 <= i < b0.len() ==> #[trigger] vel_is(
                b0,
                b1,
                i,
                b0.len() as int,
                g_num,
                g_den,
                dt_num,
                dt_den,
            ),
        0 <= k,
        b0.len() > 0 ==> k < b0[0].position@.len(),
        1 <= g_num <= MAX_RATE,
        1 <= g_den <= MAX_RATE,
        1 <= dt_num <= MAX_RATE,
        1 <= dt_den <= MAX_RATE,
    ensures
        momentum(b1, b1.len() as int, k) == momentum(b0, b0.len() as int, k),
{
    let n = b0.len() as int;
    lemma_momentum_shift(b0, b1, n, g_num, g_den, dt_num, dt_den, k);
    lemma_weighted_sum_diag_zero(b0, n, g_num, g_den, dt_num, dt_den, k);
}

/// A body alone in space is owed no impulse at all: its impulse sum is
/// empty, so a tick leaves its velocity unchanged, and by the contract of
/// [`advance`] its position then moves by `velocity * dt` alone.
pub proof fn lemma_isolated_body(
    b0: Seq<Body>,
    b1: Seq<Body>,
    g_num: int,
    g_den: int,
    dt_num: int,
    dt_den: int,
)
    requires
        b0.len() == 1,
        vel_is(b0, b1, 0, 1, g_num, g_den, dt_num, dt_den),
    ensures
        forall|k: int|
            0 <= k < b0[0].velocity@.len() ==> impulse_sum(b0, 0, 1, g_num, g_den, dt_num, dt_den, k)
                == 0,
        forall|k: int|
            0 <= k < b0[0].velocity@.len() ==> #[trigger] b1[0].velocity@[k]
                == b0[0].velocity@[k],
{
    assert forall|k: int| 0 <= k < b0[0].velocity@.len() implies impulse_sum(
        b0,
        0,
        1,
        g_num,
        g_den,
        dt_num,
        dt_den,
        k,
    ) == 0 by {
        assert(impulse_sum(b0, 0, 0, g_num, g_den, dt_num, dt_den, k) == 0);
    }
}

} // verus!
