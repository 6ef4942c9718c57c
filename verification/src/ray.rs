use vstd::prelude::*;
use crate::fx::{SCALE, fxmul, lemma_tdiv_bound, lemma_abs_mul};
use crate::vec3::{Float3, Point3, bounded};

verus! {

/// A half-line: origin plus non-negative multiples of a direction.
#[derive(Clone, Copy, PartialEq, Eq, Structural, Debug)]
pub struct Ray {
    pub origin: Point3,
    pub direction: Float3,
}

/// The point reached at parameter `t`: `origin + t * direction`, in
/// fixed-point arithmetic.
pub open spec fn at_s(ray: Ray, t: int) -> Float3 {
    Float3 {
        x: (ray.origin.x + fxmul(ray.direction.x as int, t)) as i64,
        y: (ray.origin.y + fxmul(ray.direction.y as int, t)) as i64,
        z: (ray.origin.z + fxmul(ray.direction.z as int, t)) as i64,
    }
}

impl Ray {
    pub fn new(origin: Point3, direction: Float3) -> (r: Self)
        ensures
            r == (Ray { origin, direction }),
    {
        Ray { origin, direction }
    }

    /// The point at parameter `t` along the ray.
    pub fn at(&self, t: i64) -> (r: Point3)
        requires
            bounded(self.origin, 0x1000_0000_0000_0000),
            bounded(self.direction, 0x8000_0000),
            -0x8000_0000 <= t <= 0x8000_0000,
        ensures
            r == at_s(*self, t as int),
    {
        proof {
            lemma_abs_mul(self.direction.x as int, t as int, 0x8000_0000, 0x8000_0000);
            lemma_abs_mul(self.direction.y as int, t as int, 0x8000_0000, 0x8000_0000);
            lemma_abs_mul(self.direction.z as int, t as int, 0x8000_0000, 0x8000_0000);
            lemma_tdiv_bound(self.direction.x * t, SCALE as int);
            lemma_tdiv_bound(self.direction.y * t, SCALE as int);
            lemma_tdiv_bound(self.direction.z * t, SCALE as int);
        }
        let d: Float3 = self.direction.scale(t);
        Float3 {
            x: self.origin.x + d.x,
            y: self.origin.y + d.y,
            z: self.origin.z + d.z,
        }
    }
}

} // verus!
