//! The intersection contract that every primitive meets, and the record of a
//! successful intersection.

use vstd::prelude::*;
use crate::ray::Ray;

verus! {

/// Anything that a ray can hit. `hit` looks for an intersection whose
/// parameter along the ray lies between `t_min` and `t_max`.
pub trait Hittable<V, S, M> {
    fn hit(&self, ray: &Ray<V>, t_min: S, t_max: S) -> Option<HitRecord<V, S, M>>;
}

/// Where a ray hit a surface: the point, the parameter along the ray, the
/// unit normal turned against the ray, whether the ray came from outside, and
/// the surface's material.
pub struct HitRecord<V, S, M> {
    pub point: V,
    pub t: S,
    pub normal: V,
    pub front_face: bool,
    pub material: M,
}

impl<V, S, M> HitRecord<V, S, M> {
    /// A record whose normal is turned against the ray. `front_face` says
    /// whether the ray meets the surface from outside, that is, whether it
    /// runs against the outward normal; `reversed_normal` is the outward
    /// normal negated. A ray from outside keeps the outward normal, a ray
    /// from inside gets the reversed one.
    pub fn new_with_front_face(
        point: V,
        t: S,
        material: M,
        front_face: bool,
        outward_normal: V,
        reversed_normal: V,
    ) -> (rec: HitRecord<V, S, M>)
        ensures
            rec.point == point,
            rec.t == t,
            rec.material == material,
            rec.front_face == front_face,
            rec.normal == if front_face {
                outward_normal
            } else {
                reversed_normal
            },
    {
        let normal = if front_face {
            outward_normal
        } else {
            reversed_normal
        };
        HitRecord { point, t, material, front_face, normal }
    }
}

} // verus!
