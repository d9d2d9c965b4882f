//! The scatter contract that every material meets.

use vstd::prelude::*;
use crate::hittable::HitRecord;
use crate::ray::Ray;

verus! {

/// The outcome of a material interaction.
pub enum ScatterResponse<C, R> {
    /// Light goes on along a new ray, weakened by the attenuation.
    Scatter(C, R),
    /// The path ends here and contributes the emitted radiance.
    Absorb(C),
}

/// A surface material: given the incoming ray and the record of its hit, it
/// either scatters the light or absorbs it. `M` is the handle by which hit
/// records name their material.
pub trait Material<V, S, C, M> {
    fn scatter(&self, ray_in: &Ray<V>, rec: &HitRecord<V, S, M>) -> ScatterResponse<C, Ray<V>>;
}

/// A light source: it ends every path that reaches it and contributes its
/// radiance.
#[derive(Debug, Clone)]
pub struct LightSource<C> {
    pub albedo: C,
}

impl<C> LightSource<C> {
    /// A light source of the given radiance.
    pub fn new(albedo: C) -> (light: LightSource<C>)
        ensures
            light.albedo == albedo,
    {
        LightSource { albedo }
    }
}

impl<V, S, C: Copy, M> Material<V, S, C, M> for LightSource<C> {
    /// Always absorbs, whatever the ray and the hit.
    fn scatter(&self, ray_in: &Ray<V>, rec: &HitRecord<V, S, M>) -> (response: ScatterResponse<
        C,
        Ray<V>,
    >)
        ensures
            response == ScatterResponse::<C, Ray<V>>::Absorb(self.albedo),
    {
        ScatterResponse::Absorb(self.albedo)
    }
}

} // verus!
