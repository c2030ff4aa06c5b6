//! The outcome of a successful material scatter: an attenuation color and
//! the scattered ray.

use crate::color::Color;
use crate::ray::Ray;
use vstd::prelude::*;

verus! {

#[derive(Clone, Copy, PartialEq, Eq, Structural, Debug)]
pub struct ScatterResult {
    pub color: Color,
    pub ray: Ray,
}

impl ScatterResult {
    pub fn new(color: Color, ray: Ray) -> (r: Self)
        ensures
            r == (ScatterResult { color, ray }),
    {
        Self { color, ray }
    }

    pub fn get_color(&self) -> (r: Color)
        ensures
            r == self.color,
    {
        self.color
    }

    pub fn get_ray(&self) -> (r: &Ray)
        ensures
            r == self.ray,
    {
        &self.ray
    }
}

} // verus!
