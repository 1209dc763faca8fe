//! Decisions of the recursive light-transport pass.
//!
//! The recursion itself composes floating-point work (intersection tests,
//! reflection, environment sampling) that the caller performs; every decision
//! in it is exact and lives here: which of the candidate hits is nearest, and
//! what a ray does next given its travel budget, whether it hit anything,
//! whether it is inside a transmissive volume, and whether an environment
//! texture is configured.

use crate::float_bits::{total_le, total_order_key};
use vstd::prelude::*;

verus! {

/// What the ray does next.
#[derive(Clone, Copy, Debug, PartialEq, Eq, Structural)]
pub enum IllumStep {
    /// Contribute black: the travel budget is exhausted, or nothing was hit
    /// and no environment texture is configured.
    Absorbed,
    /// Nothing was hit: sample the environment texture.
    Environment,
    /// Hit while inside a transmissive volume: continue straight through with
    /// the inside flag flipped and the budget reduced by one.
    PassThrough,
    /// Hit from outside: follow the mirror reflection with the inside flag
    /// flipped and the budget reduced by one.
    Reflected,
}

/// Next step of a ray: budget exhaustion wins, then the miss cases, then the
/// inside flag decides between pass-through and reflection.
pub open spec fn spec_illumination_step(
    ttl: usize,
    hit: bool,
    inside: bool,
    has_environment: bool,
) -> IllumStep {
    if ttl == 0 {
        IllumStep::Absorbed
    } else if !hit {
        if has_environment {
            IllumStep::Environment
        } else {
            IllumStep::Absorbed
        }
    } else if inside {
        IllumStep::PassThrough
    } else {
        IllumStep::Reflected
    }
}

/// Next step of a ray with `ttl` bounces left that hit something or not,
/// inside a volume or not, with or without an environment texture configured.
pub fn illumination_step(ttl: usize, hit: bool, inside: bool, has_environment: bool) -> (s:
    IllumStep)
    ensures
        s == spec_illumination_step(ttl, hit, inside, has_environment),
{
    if ttl == 0 {
        IllumStep::Absorbed
    } else if !hit {
        if has_environment {
            IllumStep::Environment
        } else {
            IllumStep::Absorbed
        }
    } else if inside {
        IllumStep::PassThrough
    } else {
        IllumStep::Reflected
    }
}

/// A ray that hits nothing while no environment texture is configured is
/// absorbed — it contributes black — whatever its budget and inside flag.
pub proof fn lemma_miss_without_environment_is_black(ttl: usize, inside: bool)
    ensures
        spec_illumination_step(ttl, false, inside, false) == IllumStep::Absorbed,
{
}

/// Index of the winning hit among the candidate hit distances, each given as
/// a binary64 bit pattern: the candidate at the returned index is nearest in
/// the standard total order on binary64 values, and the first of several
/// equally near ones. `None` exactly when there is no candidate.
pub fn nearest_collision(distances: &Vec<u64>) -> (r: Option<usize>)
    ensures
        r is Some <==> distances@.len() > 0,
        r matches Some(i) ==> {
            &&& i < distances@.len()
            &&& forall|j: int|
                0 <= j < distances@.len() ==> total_order_key(distances@[i as int])
                    <= total_order_key(#[trigger] distances@[j])
            &&& forall|j: int|
                0 <= j < i ==> total_order_key(distances@[i as int]) < total_order_key(
                    #[trigger] distances@[j],
                )
        },
{
    if distances.len() == 0 {
        return None;
    }
    let mut best: usize = 0;
    let mut k: usize = 1;
    while k < distances.len()
        invariant
            0 < distances@.len(),
            best < k <= distances@.len(),
            forall|j: int|
                0 <= j < k ==> total_order_key(distances@[best as int]) <= total_order_key(
                    #[trigger] distances@[j],
                ),
            forall|j: int|
                0 <= j < best ==> total_order_key(distances@[best as int]) < total_order_key(
                    #[trigger] distances@[j],
                ),
        decreases distances@.len() - k,
    {
        if !total_le(distances[best], distances[k]) {
            best = k;
        }
        k = k + 1;
    }
    Some(best)
}

} // verus!
