//! A point mass: position, velocity and mass, plus the pairwise Newtonian
//! force and the two per-body mutations (force application and position
//! integration) that one simulation step is made of.
//!
//! Positions and velocities are integer coordinates. The gravitational
//! constant and the time step are rationals `num / den`; every division in
//! the formulas rounds toward zero, and the contracts state each result
//! exactly in those terms.

use vstd::prelude::*;
use crate::math::{
    div_trunc, div_trunc_i128, isqrt, lemma_div_trunc_bounds, lemma_div_trunc_exact,
    lemma_div_trunc_neg, lemma_sqrt_floor_bounds, sqrt_floor,
};
use vstd::arithmetic::div_mod::lemma_fundamental_div_mod_converse;

verus! {

/// Largest magnitude a coordinate of a freshly constructed body may have.
pub const MAX_COORD: i128 = 1_000_000;

/// Largest mass a body may have (masses are at least 1).
pub const MAX_MASS: i128 = 1_000_000;

/// Largest numerator or denominator of the gravitational constant and of the
/// time step (both are at least 1).
pub const MAX_RATE: i128 = 10_000;

/// Largest number of spatial dimensions.
pub const MAX_DIM: usize = 16;

/// Largest number of bodies one step may advance.
pub const MAX_BODIES: usize = 1000;

/// Largest magnitude of a force component under the bounds above.
pub const MAX_FORCE: i128 = 2 * MAX_COORD * MAX_RATE * MAX_MASS * MAX_MASS;

/// Largest magnitude of a velocity change one pair interaction can cause.
pub const MAX_IMPULSE: i128 = MAX_FORCE * MAX_RATE;

/// Largest velocity magnitude one force phase can reach, starting from
/// velocities within `MAX_COORD`: at most 1000 (`MAX_BODIES`) interactions
/// touch one body.
pub const MAX_SPEED: i128 = MAX_COORD + 1000 * MAX_IMPULSE;

/// Every entry of `s` has magnitude at most `bound`.
pub open spec fn in_range(s: Seq<i128>, bound: int) -> bool {
    forall|k: int| 0 <= k < s.len() ==> -bound <= #[trigger] s[k] <= bound
}

/// Component `k` of the vector from `pa` to `pb`.
pub open spec fn delta_at(pa: Seq<i128>, pb: Seq<i128>, k: int) -> int {
    pb[k] - pa[k]
}

/// Sum of the squares of the first `n` components of the vector from `pa`
/// to `pb`.
pub open spec fn dist_sq_upto(pa: Seq<i128>, pb: Seq<i128>, n: int) -> int
    decreases n,
{
    if n <= 0 {
        0
    } else {
        dist_sq_upto(pa, pb, n - 1) + delta_at(pa, pb, n - 1) * delta_at(pa, pb, n - 1)
    }
}

/// Squared distance between the points `pa` and `pb`.
pub open spec fn dist_sq(pa: Seq<i128>, pb: Seq<i128>) -> int {
    dist_sq_upto(pa, pb, pa.len() as int)
}

/// Cube of the rounded-down distance between `pa` and `pb`.
pub open spec fn dist_cubed(pa: Seq<i128>, pb: Seq<i128>) -> int {
    let d = sqrt_floor(dist_sq(pa, pb));
    d * d * d
}

/// Component `k` of the gravitational force on a body of mass `ma` at `pa`
/// exerted by a body of mass `mb` at `pb`:
/// `delta * g * ma * mb / |delta|^3`, with the division rounding toward zero.
pub open spec fn force_at(
    pa: Seq<i128>,
    ma: int,
    pb: Seq<i128>,
    mb: int,
    g_num: int,
    g_den: int,
    k: int,
) -> int {
    div_trunc(delta_at(pa, pb, k) * g_num * ma * mb, g_den * dist_cubed(pa, pb))
}

/// The squared distance does not depend on the order of the two points.
pub proof fn lemma_dist_sq_upto_sym(pa: Seq<i128>, pb: Seq<i128>, n: int)
    ensures
        dist_sq_upto(pa, pb, n) == dist_sq_upto(pb, pa, n),
    decreases n,
{
    if n > 0 {
        lemma_dist_sq_upto_sym(pa, pb, n - 1);
        let d = delta_at(pa, pb, n - 1);
        assert((-d) * (-d) == d * d) by (nonlinear_arith);
    }
}

/// A positive squared distance makes the cubed distance at least 1.
pub proof fn lemma_dist_cubed_pos(pa: Seq<i128>, pb: Seq<i128>)
    requires
        dist_sq(pa, pb) > 0,
    ensures
        dist_cubed(pa, pb) >= 1,
{
    lemma_sqrt_floor_bounds(dist_sq(pa, pb));
    let d = sqrt_floor(dist_sq(pa, pb));
    assert(d >= 1) by (nonlinear_arith)
        requires
            d >= 0,
            dist_sq(pa, pb) > 0,
            dist_sq(pa, pb) < (d + 1) * (d + 1),
    ;
    assert(d * d * d >= 1) by (nonlinear_arith)
        requires
            d >= 1,
    ;
}

/// Under the construction bounds, no force component can exceed
/// `MAX_FORCE` in magnitude.
pub proof fn lemma_force_at_bound(
    pa: Seq<i128>,
    ma: int,
    pb: Seq<i128>,
    mb: int,
    g_num: int,
    g_den: int,
    k: int,
)
    requires
        pa.len() == pb.len(),
        0 <= k < pa.len(),
        in_range(pa, MAX_COORD as int),
        in_range(pb, MAX_COORD as int),
        1 <= ma <= MAX_MASS,
        1 <= mb <= MAX_MASS,
        1 <= g_num <= MAX_RATE,
        g_den >= 1,
        dist_sq(pa, pb) > 0,
    ensures
        -MAX_FORCE <= force_at(pa, ma, pb, mb, g_num, g_den, k) <= MAX_FORCE,
{
    lemma_dist_cubed_pos(pa, pb);
    let den = g_den * dist_cubed(pa, pb);
    assert(den >= 1) by (nonlinear_arith)
        requires
            g_den >= 1,
            dist_cubed(pa, pb) >= 1,
            den == g_den * dist_cubed(pa, pb),
    ;
    let d = delta_at(pa, pb, k);
    let t1 = d * g_num;
    assert(-2 * MAX_COORD * MAX_RATE <= t1 <= 2 * MAX_COORD * MAX_RATE) by (nonlinear_arith)
        requires
            -2 * MAX_COORD <= d <= 2 * MAX_COORD,
            1 <= g_num <= MAX_RATE,
            t1 == d * g_num,
    ;
    let t2 = t1 * ma;
    assert(-2 * MAX_COORD * MAX_RATE * MAX_MASS <= t2 <= 2 * MAX_COORD * MAX_RATE * MAX_MASS)
        by (nonlinear_arith)
        requires
            -2 * MAX_COORD * MAX_RATE <= t1 <= 2 * MAX_COORD * MAX_RATE,
            1 <= ma <= MAX_MASS,
            t2 == t1 * ma,
    ;
    let num = t2 * mb;
    assert(-MAX_FORCE <= num <= MAX_FORCE) by (nonlinear_arith)
        requires
            -2 * MAX_COORD * MAX_RATE * MAX_MASS <= t2 <= 2 * MAX_COORD * MAX_RATE * MAX_MASS,
            1 <= mb <= MAX_MASS,
            num == t2 * mb,
            MAX_FORCE == 2 * MAX_COORD * MAX_RATE * MAX_MASS * MAX_MASS,
    ;
    lemma_div_trunc_bounds(num, den);
}

/// Newton's third law, exactly: the force on the first body due to the
/// second is, component for component, the negation of the force on the
/// second due to the first.
pub proof fn lemma_force_symmetric(
    pa: Seq<i128>,
    ma: int,
    pb: Seq<i128>,
    mb: int,
    g_num: int,
    g_den: int,
)
    requires
        pa.len() == pb.len(),
        g_den >= 1,
        dist_sq(pa, pb) > 0,
    ensures
        forall|k: int|
            0 <= k < pa.len() ==> #[trigger] force_at(pa, ma, pb, mb, g_num, g_den, k)
                == -force_at(pb, mb, pa, ma, g_num, g_den, k),
{
    lemma_dist_sq_upto_sym(pa, pb, pa.len() as int);
    lemma_dist_cubed_pos(pa, pb);
    let den = g_den * dist_cubed(pa, pb);
    assert(den >= 1) by (nonlinear_arith)
        requires
            g_den >= 1,
            dist_cubed(pa, pb) >= 1,
            den == g_den * dist_cubed(pa, pb),
    ;
    assert forall|k: int| 0 <= k < pa.len() implies #[trigger] force_at(
        pa,
        ma,
        pb,
        mb,
        g_num,
        g_den,
        k,
    ) == -force_at(pb, mb, pa, ma, g_num, g_den, k) by {
        let d = delta_at(pa, pb, k);
        let x = d * g_num * ma * mb;
        assert(delta_at(pb, pa, k) == -d);
        assert((-d) * g_num * mb * ma == -x) by (nonlinear_arith)
            requires
                x == d * g_num * ma * mb,
        ;
        lemma_div_trunc_neg(x, den);
    }
}

/// Linearity of the force in one mass: doubling `ma` exactly doubles the
/// force component, wherever the underlying division is exact.
pub proof fn lemma_force_mass_linear(
    pa: Seq<i128>,
    ma: int,
    pb: Seq<i128>,
    mb: int,
    g_num: int,
    g_den: int,
    k: int,
)
    requires
        g_den >= 1,
        dist_sq(pa, pb) > 0,
        (delta_at(pa, pb, k) * g_num * ma * mb) % (g_den * dist_cubed(pa, pb)) == 0,
    ensures
        force_at(pa, 2 * ma, pb, mb, g_num, g_den, k) == 2 * force_at(
            pa,
            ma,
            pb,
            mb,
            g_num,
            g_den,
            k,
        ),
{
    lemma_dist_cubed_pos(pa, pb);
    let den = g_den * dist_cubed(pa, pb);
    assert(den >= 1) by (nonlinear_arith)
        requires
            g_den >= 1,
            dist_cubed(pa, pb) >= 1,
            den == g_den * dist_cubed(pa, pb),
    ;
    let x = delta_at(pa, pb, k) * g_num * ma * mb;
    lemma_div_trunc_exact(x, den);
    let q = div_trunc(x, den);
    assert(delta_at(pa, pb, k) * g_num * (2 * ma) * mb == 2 * x) by (nonlinear_arith)
        requires
            x == delta_at(pa, pb, k) * g_num * ma * mb,
    ;
    assert(2 * x == (2 * q) * den + 0) by (nonlinear_arith)
        requires
            den * q == x,
    ;
    lemma_fundamental_div_mod_converse(2 * x, den, 2 * q, 0);
    lemma_div_trunc_exact(2 * x, den);
}

/// A point mass: where it is, how fast it moves, and how heavy it is.
#[derive(Debug)]
pub struct Body {
    /// Position, one integer coordinate per dimension.
    pub position: Vec<i128>,
    /// Velocity, one integer component per dimension.
    pub velocity: Vec<i128>,
    /// Mass; strictly positive, so that a force can always be converted to
    /// an acceleration.
    pub mass: i128,
}

/// Why a body could not be constructed.
#[derive(Clone, Copy, Debug, PartialEq, Eq, Structural)]
pub enum BodyError {
    /// Position and velocity do not have the same number of components.
    MismatchedDimensions,
    /// The mass lies outside `1 ..= MAX_MASS`.
    InvalidMass,
    /// A coordinate lies outside `-MAX_COORD ..= MAX_COORD`, or there are
    /// more than `MAX_DIM` dimensions.
    OutOfRange,
}

impl Body {
    /// The structural invariant a body has at construction: matching
    /// dimensions, a positive bounded mass, and bounded coordinates.
    pub open spec fn wf(self) -> bool {
        &&& self.position@.len() == self.velocity@.len()
        &&& self.position@.len() <= MAX_DIM
        &&& 1 <= self.mass <= MAX_MASS
        &&& in_range(self.position@, MAX_COORD as int)
        &&& in_range(self.velocity@, MAX_COORD as int)
    }

    /// Builds a body, rejecting mismatched dimensions, a non-positive or
    /// oversized mass, and out-of-range coordinates, in that order.
    pub fn new(position: Vec<i128>, velocity: Vec<i128>, mass: i128) -> (r: Result<
        Body,
        BodyError,
    >)
        ensures
            position@.len() != velocity@.len() ==> r == Err::<Body, BodyError>(
                BodyError::MismatchedDimensions,
            ),
            position@.len() == velocity@.len() && !(1 <= mass <= MAX_MASS) ==> r == Err::<
                Body,
                BodyError,
            >(BodyError::InvalidMass),
            position@.len() == velocity@.len() && 1 <= mass <= MAX_MASS && !(position@.len()
                <= MAX_DIM && in_range(position@, MAX_COORD as int) && in_range(
                velocity@,
                MAX_COORD as int,
            )) ==> r == Err::<Body, BodyError>(BodyError::OutOfRange),
            position@.len() == velocity@.len() && 1 <= mass <= MAX_MASS && position@.len()
                <= MAX_DIM && in_range(position@, MAX_COORD as int) && in_range(
                velocity@,
                MAX_COORD as int,
            ) ==> (r matches Ok(b) && b.position@ == position@ && b.velocity@ == velocity@
                && b.mass == mass && b.wf()),
    {
        if position.len() != velocity.len() {
            return Err(BodyError::MismatchedDimensions);
        }
        if mass < 1 || mass > MAX_MASS {
            return Err(BodyError::InvalidMass);
        }
        if position.len() > MAX_DIM {
            return Err(BodyError::OutOfRange);
        }
        let dim = position.len();
        let mut k: usize = 0;
        while k < dim
            invariant
                dim == position@.len(),
                dim == velocity@.len(),
                dim <= MAX_DIM,
                1 <= mass <= MAX_MASS,
                k <= dim,
                forall|t: int|
                    0 <= t < k ==> -MAX_COORD <= #[trigger] position@[t] <= MAX_COORD,
                forall|t: int|
                    0 <= t < k ==> -MAX_COORD <= #[trigger] velocity@[t] <= MAX_COORD,
            decreases dim - k,
        {
            if position[k] < -MAX_COORD || position[k] > MAX_COORD {
                return Err(BodyError::OutOfRange);
            }
            if velocity[k] < -MAX_COORD || velocity[k] > MAX_COORD {
                return Err(BodyError::OutOfRange);
            }
            k += 1;
        }
        Ok(Body { position, velocity, mass })
    }

    /// Position, read-only.
    pub fn position(&self) -> (p: &Vec<i128>)
        ensures
            p@ == self.position@,
    {
        &self.position
    }

    /// Velocity, read-only.
    pub fn velocity(&self) -> (v: &Vec<i128>)
        ensures
            v@ == self.velocity@,
    {
        &self.velocity
    }

    /// Mass.
    pub fn mass(&self) -> (m: i128)
        ensures
            m == self.mass,
    {
        self.mass
    }

    /// The gravitational force `other` exerts on `self`, component by
    /// component: `delta * g * m_self * m_other / |delta|^3` with the
    /// division rounding toward zero, where `delta` points from `self`
    /// toward `other`. The two bodies must not coincide.
    pub fn newtonian_force(&self, other: &Body, g_num: i128, g_den: i128) -> (f: Vec<i128>)
        requires
            self.position@.len() == other.position@.len(),
            self.position@.len() <= MAX_DIM,
            in_range(self.position@, MAX_COORD as int),
            in_range(other.position@, MAX_COORD as int),
            1 <= self.mass <= MAX_MASS,
            1 <= other.mass <= MAX_MASS,
            1 <= g_num <= MAX_RATE,
            1 <= g_den <= MAX_RATE,
            dist_sq(self.position@, other.position@) > 0,
        ensures
            f@.len() == self.position@.len(),
            forall|k: int|
                0 <= k < f@.len() ==> #[trigger] f@[k] == force_at(
                    self.position@,
                    self.mass as int,
                    other.position@,
                    other.mass as int,
                    g_num as int,
                    g_den as int,
                    k,
                ),
            in_range(f@, MAX_FORCE as int),
    {
        let pa = &self.position;
        let pb = &other.position;
        let dim = pa.len();
        let mut d2: i128 = 0;
        let mut k: usize = 0;
        while k < dim
            invariant
                dim == pa@.len(),
                dim == pb@.len(),
                dim <= MAX_DIM,
                k <= dim,
                in_range(pa@, MAX_COORD as int),
                in_range(pb@, MAX_COORD as int),
                d2 == dist_sq_upto(pa@, pb@, k as int),
                0 <= d2 <= (k as int) * (4 * MAX_COORD * MAX_COORD),
            decreases dim - k,
        {
            let diff = pb[k] - pa[k];
            proof {
                assert(diff * diff <= 4 * MAX_COORD * MAX_COORD) by (nonlinear_arith)
                    requires
                        -2 * MAX_COORD <= diff <= 2 * MAX_COORD,
                ;
                assert(diff * diff >= 0) by (nonlinear_arith);
                assert((k as int) * (4 * MAX_COORD * MAX_COORD) + 4 * MAX_COORD * MAX_COORD == (
                k as int + 1) * (4 * MAX_COORD * MAX_COORD)) by (nonlinear_arith);
                assert((k as int + 1) * (4 * MAX_COORD * MAX_COORD) <= 16 * (4 * MAX_COORD
                    * MAX_COORD)) by (nonlinear_arith)
                    requires
                        k as int + 1 <= 16,
                ;
            }
            d2 = d2 + diff * diff;
            k += 1;
        }
        proof {
            assert((dim as int) * (4 * MAX_COORD * MAX_COORD) <= 16 * (4 * MAX_COORD * MAX_COORD))
                by (nonlinear_arith)
                requires
                    dim as int <= 16,
            ;
            assert(d2 == dist_sq(pa@, pb@));
        }
        let d = isqrt(d2 as u64);
        proof {
            lemma_sqrt_floor_bounds(d2 as int);
            assert(d as int <= 8_000_000) by (nonlinear_arith)
                requires
                    (d as int) * (d as int) <= 64_000_000_000_000,
                    d as int >= 0,
            ;
            assert(d >= 1);
        }
        let di = d as i128;
        proof {
            assert(1 <= di * di * di <= 512_000_000_000_000_000_000) by (nonlinear_arith)
                requires
                    1 <= di <= 8_000_000,
            ;
        }
        let d3 = di * di * di;
        proof {
            assert(1 <= g_den * d3 <= MAX_RATE * 512_000_000_000_000_000_000) by (nonlinear_arith)
                requires
                    1 <= g_den <= MAX_RATE,
                    1 <= d3 <= 512_000_000_000_000_000_000,
            ;
        }
        let den = g_den * d3;
        proof {
            assert(den == (g_den as int) * dist_cubed(pa@, pb@));
        }
        let mut f: Vec<i128> = Vec::new();
        let mut k: usize = 0;
        while k < dim
            invariant
                dim == pa@.len(),
                dim == pb@.len(),
                pa@ == self.position@,
                pb@ == other.position@,
                in_range(pa@, MAX_COORD as int),
                in_range(pb@, MAX_COORD as int),
                1 <= self.mass <= MAX_MASS,
                1 <= other.mass <= MAX_MASS,
                1 <= g_num <= MAX_RATE,
                1 <= den,
                den == (g_den as int) * dist_cubed(pa@, pb@),
                k <= dim,
                f@.len() == k as int,
                forall|t: int|
                    0 <= t < k ==> #[trigger] f@[t] == force_at(
                        pa@,
                        self.mass as int,
                        pb@,
                        other.mass as int,
                        g_num as int,
                        g_den as int,
                        t,
                    ),
                in_range(f@, MAX_FORCE as int),
            decreases dim - k,
        {
            let diff = pb[k] - pa[k];
            proof {
                assert(-2 * MAX_COORD * MAX_RATE <= diff * g_num <= 2 * MAX_COORD * MAX_RATE)
                    by (nonlinear_arith)
                    requires
                        -2 * MAX_COORD <= diff <= 2 * MAX_COORD,
                        1 <= g_num <= MAX_RATE,
                ;
            }
            let t1 = diff * g_num;
            proof {
                assert(-2 * MAX_COORD * MAX_RATE * MAX_MASS <= t1 * self.mass <= 2 * MAX_COORD
                    * MAX_RATE * MAX_MASS) by (nonlinear_arith)
                    requires
                        -2 * MAX_COORD * MAX_RATE <= t1 <= 2 * MAX_COORD * MAX_RATE,
                        1 <= self.mass <= MAX_MASS,
                ;
            }
            let t2 = t1 * self.mass;
            proof {
                assert(-MAX_FORCE <= t2 * other.mass <= MAX_FORCE) by (nonlinear_arith)
                    requires
                        -2 * MAX_COORD * MAX_RATE * MAX_MASS <= t2 <= 2 * MAX_COORD * MAX_RATE
                            * MAX_MASS,
                        1 <= other.mass <= MAX_MASS,
                        MAX_FORCE == 2 * MAX_COORD * MAX_RATE * MAX_MASS * MAX_MASS,
                ;
            }
            let num = t2 * other.mass;
            let q = div_trunc_i128(num, den);
            proof {
                lemma_div_trunc_bounds(num as int, den as int);
                assert(num == delta_at(pa@, pb@, k as int) * (g_num as int) * (self.mass as int)
                    * (other.mass as int));
            }
            f.push(q);
            k += 1;
        }
        f
    }

    /// Applies an impulse: each velocity component gains
    /// `force * dt / mass`, rounded toward zero. Position and mass are
    /// untouched.
    pub fn apply_force(&mut self, force: &Vec<i128>, dt_num: i128, dt_den: i128)
        requires
            old(self).velocity@.len() == force@.len(),
            1 <= old(self).mass <= MAX_MASS,
            1 <= dt_num <= MAX_RATE,
            1 <= dt_den <= MAX_RATE,
            in_range(force@, MAX_FORCE as int),
            in_range(old(self).velocity@, MAX_SPEED as int),
        ensures
            final(self).position@ == old(self).position@,
            final(self).mass == old(self).mass,
            final(self).velocity@.len() == old(self).velocity@.len(),
            forall|k: int|
                0 <= k < old(self).velocity@.len() ==> #[trigger] final(self).velocity@[k] == old(
                    self,
                ).velocity@[k] + div_trunc(
                    force@[k] * dt_num,
                    (dt_den as int) * (old(self).mass as int),
                ),
    {
        proof {
            assert(1 <= dt_den * self.mass <= MAX_RATE * MAX_MASS) by (nonlinear_arith)
                requires
                    1 <= dt_den <= MAX_RATE,
                    1 <= self.mass <= MAX_MASS,
            ;
        }
        let den = dt_den * self.mass;
        let dim = self.velocity.len();
        let mut nv: Vec<i128> = Vec::new();
        let mut k: usize = 0;
        while k < dim
            invariant
                dim == self.velocity@.len(),
                dim == force@.len(),
                in_range(force@, MAX_FORCE as int),
                in_range(self.velocity@, MAX_SPEED as int),
                1 <= dt_num <= MAX_RATE,
                1 <= den,
                den == (dt_den as int) * (self.mass as int),
                k <= dim,
                nv@.len() == k as int,
                forall|t: int|
                    0 <= t < k ==> #[trigger] nv@[t] == self.velocity@[t] + div_trunc(
                        force@[t] * dt_num,
                        (dt_den as int) * (self.mass as int),
                    ),
            decreases dim - k,
        {
            proof {
                assert(-MAX_IMPULSE <= force@[k as int] * dt_num <= MAX_IMPULSE)
                    by (nonlinear_arith)
                    requires
                        -MAX_FORCE <= force@[k as int] <= MAX_FORCE,
                        1 <= dt_num <= MAX_RATE,
                        MAX_IMPULSE == MAX_FORCE * MAX_RATE,
                ;
            }
            let p = force[k] * dt_num;
            let dv = div_trunc_i128(p, den);
            nv.push(self.velocity[k] + dv);
            k += 1;
        }
        self.velocity = nv;
    }

    /// Integrates the position: each coordinate gains `velocity * dt`,
    /// rounded toward zero. Velocity and mass are untouched.
    pub fn update_position(&mut self, dt_num: i128, dt_den: i128)
        requires
            old(self).position@.len() == old(self).velocity@.len(),
            1 <= dt_num <= MAX_RATE,
            1 <= dt_den <= MAX_RATE,
            in_range(old(self).position@, MAX_COORD as int),
            in_range(old(self).velocity@, MAX_SPEED as int),
        ensures
            final(self).velocity@ == old(self).velocity@,
            final(self).mass == old(self).mass,
            final(self).position@.len() == old(self).position@.len(),
            forall|k: int|
                0 <= k < old(self).position@.len() ==> #[trigger] final(self).position@[k] == old(
                    self,
                ).position@[k] + div_trunc(old(self).velocity@[k] * dt_num, dt_den as int),
    {
        let dim = self.position.len();
        let mut np: Vec<i128> = Vec::new();
        let mut k: usize = 0;
        while k < dim
            invariant
                dim == self.position@.len(),
                dim == self.velocity@.len(),
                in_range(self.position@, MAX_COORD as int),
                in_range(self.velocity@, MAX_SPEED as int),
                1 <= dt_num <= MAX_RATE,
                1 <= dt_den <= MAX_RATE,
                k <= dim,
                np@.len() == k as int,
                forall|t: int|
                    0 <= t < k ==> #[trigger] np@[t] == self.position@[t] + div_trunc(
                        self.velocity@[t] * dt_num,
                        dt_den as int,
                    ),
            decreases dim - k,
        {
            proof {
                assert(-MAX_SPEED * MAX_RATE <= self.velocity@[k as int] * dt_num <= MAX_SPEED
                    * MAX_RATE) by (nonlinear_arith)
                    requires
                        -MAX_SPEED <= self.velocity@[k as int] <= MAX_SPEED,
                        1 <= dt_num <= MAX_RATE,
                ;
            }
            let p = self.velocity[k] * dt_num;
            let dp = div_trunc_i128(p, dt_den);
            np.push(self.position[k] + dp);
            k += 1;
        }
        self.position = np;
    }
}

} // verus!
