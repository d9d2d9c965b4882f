//! The radiance integrator. A light path starts at the camera with a budget
//! of bounces. At each step the scene is tested and the hit material is asked
//! to scatter; the path goes on along the scattered ray with one bounce less,
//! or ends: absorbed by a surface, lost to the background, or cut off because
//! the budget ran out.

use vstd::prelude::*;
use crate::hittable::{HitRecord, Hittable};
use crate::hittable_list::{scanned, HittableList};
use crate::material::{Material, ScatterResponse};
use crate::ray::Ray;

verus! {

/// The next move of a path after one test of the scene.
pub enum Step<C, R> {
    /// Weaken the path by `attenuation` and follow `ray` with a budget of
    /// `depth`.
    Bounce { attenuation: C, ray: R, depth: usize },
    /// The path ends and contributes `emitted`.
    Emit { emitted: C },
    /// The path ends and contributes the background of its current ray at
    /// `depth`.
    Background { depth: usize },
}

/// How a path ended.
pub enum PathEnd<C, R> {
    /// The budget ran out: the path contributes black.
    Black,
    /// A surface absorbed the ray and emits this radiance.
    Emitted(C),
    /// The ray left the scene with `depth` bounces unspent.
    Background { ray: R, depth: usize },
}

/// A traced path: the attenuations of its bounces, the first bounce first, and
/// its end. The colour of the path is what its end contributes, multiplied
/// channel by channel by each attenuation in turn, starting from white.
pub struct Path<C, R> {
    pub attenuations: Vec<C>,
    pub end: PathEnd<C, R>,
}

/// The next move of a path that still has a budget, given what its ray met:
/// `None` where it hit nothing, else what the hit material answered.
pub fn ray_color_step<C, R>(depth: usize, interaction: Option<ScatterResponse<C, R>>) -> (step:
    Step<C, R>)
    requires
        depth > 0,
    ensures
        step == match interaction {
            Some(ScatterResponse::Scatter(attenuation, ray)) => Step::Bounce {
                attenuation,
                ray,
                depth: (depth - 1) as usize,
            },
            Some(ScatterResponse::Absorb(emitted)) => Step::Emit { emitted },
            None => Step::Background { depth },
        },
{
    match interaction {
        Some(ScatterResponse::Scatter(attenuation, ray)) => Step::Bounce {
            attenuation,
            ray,
            depth: depth - 1,
        },
        Some(ScatterResponse::Absorb(emitted)) => Step::Emit { emitted },
        None => Step::Background { depth },
    }
}

/// `response` is an answer that the material of `rec` can give for `ray`.
pub open spec fn scatters<V, S, C, M: Material<V, S, C, M>>(
    ray: Ray<V>,
    rec: HitRecord<V, S, M>,
    response: ScatterResponse<C, Ray<V>>,
) -> bool {
    call_ensures(M::scatter, (&rec.material, &ray, &rec), response)
}

/// `interaction` is what `ray` can meet in the scene: nothing where a scan of
/// the scene leaves no hit, else an answer of the material that was hit.
pub open spec fn meets<V, S, C, M: Material<V, S, C, M>, T: Hittable<V, S, M>>(
    world: HittableList<T>,
    ray: Ray<V>,
    t_min: S,
    t_max: S,
    interaction: Option<ScatterResponse<C, Ray<V>>>,
) -> bool {
    exists|found: Option<HitRecord<V, S, M>>|
        {
            &&& #[trigger] scanned(world.objects@, ray, t_min, t_max, found)
            &&& match found {
                None => interaction.is_none(),
                Some(rec) => interaction.is_some() && scatters(ray, rec, interaction.unwrap()),
            }
        }
}

/// A path that starts with `first` can bounce once for each of the
/// `attenuations`, in their order, and then go on along `current`.
pub open spec fn bounced<V, S, C, M: Material<V, S, C, M>, T: Hittable<V, S, M>>(
    world: HittableList<T>,
    first: Ray<V>,
    t_min: S,
    t_max: S,
    attenuations: Seq<C>,
    current: Ray<V>,
) -> bool
    decreases attenuations.len(),
{
    if attenuations.len() == 0 {
        current == first
    } else {
        exists|before: Ray<V>|
            {
                &&& bounced(world, first, t_min, t_max, attenuations.drop_last(), before)
                &&& #[trigger] meets(
                    world,
                    before,
                    t_min,
                    t_max,
                    Some(ScatterResponse::Scatter(attenuations.last(), current)),
                )
            }
    }
}

/// A path that has come to `last` with a budget of `left` can end in `end`:
/// black where nothing is left; else with what an absorbing surface emits, or
/// in the background where `last` hits nothing.
pub open spec fn ended<V, S, C, M: Material<V, S, C, M>, T: Hittable<V, S, M>>(
    world: HittableList<T>,
    last: Ray<V>,
    t_min: S,
    t_max: S,
    left: int,
    end: PathEnd<C, Ray<V>>,
) -> bool {
    match end {
        PathEnd::Black => left == 0,
        PathEnd::Emitted(emitted) => left > 0 && meets(
            world,
            last,
            t_min,
            t_max,
            Some(ScatterResponse::Absorb(emitted)),
        ),
        PathEnd::Background { ray, depth } => {
            &&& left > 0
            &&& ray == last
            &&& depth == left
            &&& meets(world, last, t_min, t_max, None::<ScatterResponse<C, Ray<V>>>)
        },
    }
}

/// Traces one path through the scene. Surfaces are looked for between `t_min`
/// and `t_max` along each ray.
///
/// The path bounces as long as the scene scatters it and its budget lasts,
/// and ends where it is absorbed, leaves the scene, or has nothing left. With
/// no budget the path is black, whatever the scene holds. In a scene without
/// primitives a path with a budget goes straight to the background, with its
/// first ray and its whole budget.
pub fn ray_color<V, S: Copy, C, M: Material<V, S, C, M>, T: Hittable<V, S, M>>(
    ray: Ray<V>,
    world: &HittableList<T>,
    t_min: S,
    t_max: S,
    max_depth: usize,
) -> (path: Path<C, Ray<V>>)
    ensures
        path.attenuations@.len() <= max_depth,
        exists|last: Ray<V>|
            {
                &&& #[trigger] bounced(*world, ray, t_min, t_max, path.attenuations@, last)
                &&& ended(
                    *world,
                    last,
                    t_min,
                    t_max,
                    max_depth - path.attenuations@.len(),
                    path.end,
                )
            },
        max_depth == 0 ==> path.end is Black && path.attenuations@.len() == 0,
        max_depth > 0 && world.objects@.len() == 0 ==> {
            &&& path.attenuations@.len() == 0
            &&& path.end == PathEnd::<C, Ray<V>>::Background { ray, depth: max_depth }
        },
{
    let mut attenuations: Vec<C> = Vec::new();
    let mut current = ray;
    let mut depth: usize = max_depth;
    while depth > 0
        invariant
            attenuations@.len() + depth == max_depth,
            bounced(*world, ray, t_min, t_max, attenuations@, current),
            world.objects@.len() == 0 ==> attenuations@.len() == 0,
        decreases depth,
    {
        let found = world.hit(&current, t_min, t_max);
        let ghost seen = found;
        let interaction = match found {
            Some(rec) => Some(rec.material.scatter(&current, &rec)),
            None => None,
        };
        assert(meets(*world, current, t_min, t_max, interaction)) by {
            assert(scanned(world.objects@, current, t_min, t_max, seen));
        }
        match ray_color_step(depth, interaction) {
            Step::Bounce { attenuation, ray: scattered, depth: rest } => {
                let ghost before = current;
                let ghost so_far = attenuations@;
                attenuations.push(attenuation);
                current = scattered;
                depth = rest;
                proof {
                    assert(attenuations@.drop_last() =~= so_far);
                    assert(attenuations@.last() == attenuation);
                    assert(meets(
                        *world,
                        before,
                        t_min,
                        t_max,
                        Some(ScatterResponse::Scatter(attenuations@.last(), current)),
                    ));
                }
            },
            Step::Emit { emitted } => {
                let path = Path { attenuations, end: PathEnd::Emitted(emitted) };
                assert(bounced(*world, ray, t_min, t_max, path.attenuations@, current));
                assert(ended(*world, current, t_min, t_max, depth as int, path.end));
                return path;
            },
            Step::Background { depth: left } => {
                let path = Path { attenuations, end: PathEnd::Background { ray: current, depth: left } };
                assert(bounced(*world, ray, t_min, t_max, path.attenuations@, current));
                assert(ended(*world, current, t_min, t_max, depth as int, path.end));
                return path;
            },
        }
    }
    Path { attenuations, end: PathEnd::Black }
}

} // verus!
