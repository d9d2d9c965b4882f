//! A ray: a point of origin and a direction.

use vstd::prelude::*;

verus! {

/// A directed half-line. The vector type is the caller's.
pub struct Ray<V> {
    pub origin: V,
    pub dir: V,
}

impl<V> Ray<V> {
    /// The ray from `origin` along `dir`.
    pub fn new(origin: V, dir: V) -> (ray: Ray<V>)
        ensures
            ray.origin == origin,
            ray.dir == dir,
    {
        Ray { origin, dir }
    }
}

} // verus!
