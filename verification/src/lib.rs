use vstd::prelude::*;

pub mod builder;
pub mod fx;
pub mod laws;
pub mod material;
pub mod shape;
pub mod texture;
pub mod onb;
pub mod pdf;
pub mod ray;
pub mod render;
pub mod rng;
pub mod scene;
pub mod vec3;

verus! {

} // verus!
