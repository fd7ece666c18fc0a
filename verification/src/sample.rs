//! Stochastic sampling primitives, drawn from the explicit random stream.
//!
//! Rejection sampling keeps the distributions spherically (or circularly)
//! uniform rather than cube-biased: a point is drawn uniformly in the cube
//! (or square) of half-side `UNIT` and kept only when it falls inside the
//! inscribed ball (or disk).  The attempt budget is bounded; after it runs
//! out — the rejection probability shrinks geometrically, so this is
//! astronomically rare — a fixed axis point inside the ball is returned.
//! Every sampler's result and the generator state it leaves behind are exact
//! functions of the state it started from, so a fixed seed reproduces every
//! draw of a render.

use vstd::prelude::*;
use crate::rat::Rat;
use crate::rng::{Rng, next_state_spec, output_spec};
use crate::vec3::{Vec3, dot_spec};

verus! {

/// The sampling grid scale: one unit of length is `UNIT` ticks.
pub const UNIT: i64 = 0x10000;

/// Attempts before rejection sampling falls back to a fixed point.
pub const MAX_ATTEMPTS: u32 = 64;

/// The value one signed draw in `[-UNIT, UNIT]` yields from state `s`.
pub open spec fn signed_of(s: u64) -> int {
    output_spec(s) % ((2 * UNIT + 1) as u64) - UNIT
}

/// The value one jitter draw yields from state `s`: a numerator over `UNIT`
/// in `[-UNIT/2, UNIT/2)`.
pub open spec fn jitter_of(s: u64) -> int {
    output_spec(s) % (0x10000 as u64) - 0x8000
}

/// One rejection attempt from state `s`: the drawn lattice point and the
/// state after its three draws.
pub open spec fn ball_attempt(s: u64) -> (Vec3, u64) {
    let s1 = next_state_spec(s);
    let s2 = next_state_spec(s1);
    (
        Vec3 { x: signed_of(s) as i64, y: signed_of(s1) as i64, z: signed_of(s2) as i64 },
        next_state_spec(s2),
    )
}

/// The accepted ball draw: inside the inscribed ball and not the zero point.
pub open spec fn ball_accepts(p: Vec3) -> bool {
    dot_spec(p, p) <= UNIT * UNIT && !(p.x == 0 && p.y == 0 && p.z == 0)
}

/// The ball sampler's outcome from state `s` with `fuel` attempts left: the
/// first accepted draw with the state after it, or the fixed fallback when
/// the budget runs out.
pub open spec fn ball_sample_spec(s: u64, fuel: nat) -> (Vec3, u64)
    decreases fuel,
{
    if fuel == 0 {
        (Vec3 { x: 0, y: 0, z: UNIT }, s)
    } else {
        let (p, s3) = ball_attempt(s);
        if ball_accepts(p) {
            (p, s3)
        } else {
            ball_sample_spec(s3, (fuel - 1) as nat)
        }
    }
}

/// One disk attempt from state `s`: a lattice point of the xy-plane and the
/// state after its two draws.
pub open spec fn disk_attempt(s: u64) -> (Vec3, u64) {
    let s1 = next_state_spec(s);
    (
        Vec3 { x: signed_of(s) as i64, y: signed_of(s1) as i64, z: 0 },
        next_state_spec(s1),
    )
}

/// The disk sampler's outcome from state `s` with `fuel` attempts left; the
/// zero point is a valid draw (the disk's center), and the fallback is the
/// center itself.
pub open spec fn disk_sample_spec(s: u64, fuel: nat) -> (Vec3, u64)
    decreases fuel,
{
    if fuel == 0 {
        (Vec3 { x: 0, y: 0, z: 0 }, s)
    } else {
        let (p, s2) = disk_attempt(s);
        if dot_spec(p, p) <= UNIT * UNIT {
            (p, s2)
        } else {
            disk_sample_spec(s2, (fuel - 1) as nat)
        }
    }
}

/// The hemisphere sampler's outcome: the ball draw turned toward the side of
/// the surface the normal points to.
pub open spec fn hemisphere_spec(s: u64, n: Vec3) -> (Vec3, u64) {
    let (p, s2) = ball_sample_spec(s, MAX_ATTEMPTS as nat);
    if dot_spec(p, n) > 0 {
        (p, s2)
    } else {
        (Vec3 { x: (-p.x) as i64, y: (-p.y) as i64, z: (-p.z) as i64 }, s2)
    }
}

/// A nonzero lattice point inside the unit ball (componentwise within
/// `UNIT`, squared length within `UNIT * UNIT`); the caller normalizes.  The
/// point and the new state are the exact function `ball_sample_spec` of the
/// starting state.
pub fn sample_unit_ball(rng: &mut Rng) -> (v: Vec3)
    ensures
        (v, final(rng).state) == ball_sample_spec(old(rng).state, MAX_ATTEMPTS as nat),
        -(UNIT as int) <= v.x <= UNIT as int,
        -(UNIT as int) <= v.y <= UNIT as int,
        -(UNIT as int) <= v.z <= UNIT as int,
        dot_spec(v, v) <= (UNIT as int) * (UNIT as int),
        !(v.x == 0 && v.y == 0 && v.z == 0),
{
    let ghost s0: u64 = rng.state;
    let mut attempts: u32 = 0;
    while attempts < MAX_ATTEMPTS
        invariant
            attempts <= MAX_ATTEMPTS,
            s0 == old(rng).state,
            ball_sample_spec(s0, MAX_ATTEMPTS as nat) == ball_sample_spec(
                rng.state,
                (MAX_ATTEMPTS - attempts) as nat,
            ),
        decreases MAX_ATTEMPTS - attempts,
    {
        let ghost pre: u64 = rng.state;
        let x = rng.next_signed(UNIT);
        let y = rng.next_signed(UNIT);
        let z = rng.next_signed(UNIT);
        let p = Vec3::new(x, y, z);
        proof {
            lemma_cube_dot_fits(p);
            assert(ball_attempt(pre) == (p, rng.state));
        }
        let len_sq = Vec3::dot(&p, &p);
        if len_sq <= UNIT * UNIT && !(x == 0 && y == 0 && z == 0) {
            proof {
                assert(ball_sample_spec(pre, (MAX_ATTEMPTS - attempts) as nat) == (p, rng.state));
            }
            return p;
        }
        proof {
            assert(ball_sample_spec(pre, (MAX_ATTEMPTS - attempts) as nat) == ball_sample_spec(
                rng.state,
                (MAX_ATTEMPTS - attempts - 1) as nat,
            ));
        }
        attempts += 1;
    }
    let fallback = Vec3::new(0, 0, UNIT);
    proof {
        lemma_cube_dot_fits(fallback);
        assert(ball_sample_spec(rng.state, 0) == (fallback, rng.state));
    }
    fallback
}

/// A lattice point inside the unit disk of the xy-plane, the exact function
/// `disk_sample_spec` of the starting state.
pub fn sample_unit_disk(rng: &mut Rng) -> (v: Vec3)
    ensures
        (v, final(rng).state) == disk_sample_spec(old(rng).state, MAX_ATTEMPTS as nat),
        -(UNIT as int) <= v.x <= UNIT as int,
        -(UNIT as int) <= v.y <= UNIT as int,
        v.z == 0,
        dot_spec(v, v) <= (UNIT as int) * (UNIT as int),
{
    let ghost s0: u64 = rng.state;
    let mut attempts: u32 = 0;
    while attempts < MAX_ATTEMPTS
        invariant
            attempts <= MAX_ATTEMPTS,
            s0 == old(rng).state,
            disk_sample_spec(s0, MAX_ATTEMPTS as nat) == disk_sample_spec(
                rng.state,
                (MAX_ATTEMPTS - attempts) as nat,
            ),
        decreases MAX_ATTEMPTS - attempts,
    {
        let ghost pre: u64 = rng.state;
        let x = rng.next_signed(UNIT);
        let y = rng.next_signed(UNIT);
        let p = Vec3::new(x, y, 0);
        proof {
            lemma_cube_dot_fits(p);
            assert(disk_attempt(pre) == (p, rng.state));
        }
        let len_sq = Vec3::dot(&p, &p);
        if len_sq <= UNIT * UNIT {
            proof {
                assert(disk_sample_spec(pre, (MAX_ATTEMPTS - attempts) as nat) == (p, rng.state));
            }
            return p;
        }
        proof {
            assert(disk_sample_spec(pre, (MAX_ATTEMPTS - attempts) as nat) == disk_sample_spec(
                rng.state,
                (MAX_ATTEMPTS - attempts - 1) as nat,
            ));
        }
        attempts += 1;
    }
    let fallback = Vec3::new(0, 0, 0);
    proof {
        lemma_cube_dot_fits(fallback);
        assert(0 <= (UNIT as int) * (UNIT as int)) by (nonlinear_arith);
        assert(dot_spec(fallback, fallback) == 0) by (nonlinear_arith)
            requires
                fallback.x == 0,
                fallback.y == 0,
                fallback.z == 0,
        {
        }
        assert(disk_sample_spec(rng.state, 0) == (fallback, rng.state));
    }
    fallback
}

/// The antialiasing jitter: one offset uniform on a `1/UNIT` grid in
/// `[-1/2, 1/2)`, as an exact rational; the numerator and the new state are
/// exact functions of the starting state.
pub fn sample_square_offset(rng: &mut Rng) -> (r: Rat)
    ensures
        r.den == UNIT,
        r.num == jitter_of(old(rng).state),
        final(rng).state == next_state_spec(old(rng).state),
        -(UNIT as int) <= 2 * r.num < UNIT as int,
        r.wf(),
{
    let v = rng.next_below(UNIT as u64);
    Rat::new((v as i64) - UNIT / 2, UNIT)
}

/// A ball sample turned toward the side of the surface the normal points to:
/// the draw itself when its dot with the normal is positive, its negation
/// otherwise; the exact function `hemisphere_spec` of the starting state.
pub fn random_on_hemisphere(rng: &mut Rng, normal: &Vec3) -> (v: Vec3)
    requires
        -(UNIT as int) <= normal.x <= UNIT as int,
        -(UNIT as int) <= normal.y <= UNIT as int,
        -(UNIT as int) <= normal.z <= UNIT as int,
    ensures
        (v, final(rng).state) == hemisphere_spec(old(rng).state, *normal),
        -(UNIT as int) <= v.x <= UNIT as int,
        -(UNIT as int) <= v.y <= UNIT as int,
        -(UNIT as int) <= v.z <= UNIT as int,
        dot_spec(v, v) <= (UNIT as int) * (UNIT as int),
        !(v.x == 0 && v.y == 0 && v.z == 0),
        dot_spec(v, *normal) >= 0,
{
    let p = sample_unit_ball(rng);
    proof {
        lemma_cube_dot_fits(p);
        lemma_hemisphere_dot_fits(p, *normal);
    }
    let d = Vec3::dot(&p, normal);
    if d > 0 {
        p
    } else {
        let q = p.neg();
        proof {
            lemma_neg_dot(p, q, *normal);
            lemma_neg_dot(p, q, q);
            lemma_neg_dot(p, q, p);
            crate::vec3::lemma_dot_symmetric(p, q);
        }
        q
    }
}

/// Dot products of cube-sized samples fit `i64` comfortably.
proof fn lemma_cube_dot_fits(p: Vec3)
    by (nonlinear_arith)
    requires
        -(UNIT as int) <= p.x <= UNIT as int,
        -(UNIT as int) <= p.y <= UNIT as int,
        -(UNIT as int) <= p.z <= UNIT as int,
    ensures
        0 <= dot_spec(p, p) <= 0x300000000int,
        crate::vec3::bounded(p),
{
}

/// Dot products of sample-grid vectors fit `i64`.
proof fn lemma_hemisphere_dot_fits(p: Vec3, n: Vec3)
    by (nonlinear_arith)
    requires
        -(UNIT as int) <= p.x <= UNIT as int,
        -(UNIT as int) <= p.y <= UNIT as int,
        -(UNIT as int) <= p.z <= UNIT as int,
        -(UNIT as int) <= n.x <= UNIT as int,
        -(UNIT as int) <= n.y <= UNIT as int,
        -(UNIT as int) <= n.z <= UNIT as int,
    ensures
        -0x300000000int <= dot_spec(p, n) <= 0x300000000int,
{
}

/// Negating a vector negates its dot products.
proof fn lemma_neg_dot(p: Vec3, q: Vec3, n: Vec3)
    by (nonlinear_arith)
    requires
        q.x == -p.x,
        q.y == -p.y,
        q.z == -p.z,
    ensures
        dot_spec(q, n) == -dot_spec(p, n),
{
}

} // verus!
