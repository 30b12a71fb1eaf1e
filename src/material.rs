//! The decisions of the three materials: whether a hit ray is absorbed, how a
//! metal's fuzz is bounded, and whether glass reflects or refracts.
//!
//! Numbers are binary64 bit patterns (see `float_order`).
use vstd::prelude::*;
use crate::float_order::{less_than, lt, ZERO_BITS};

verus! {

/// The pattern of 1.0.
pub const ONE_BITS: u64 = 0x3ff0_0000_0000_0000;

/// The three kinds of surface material.
#[derive(Debug, Clone, Copy, PartialEq, Eq, Structural)]
pub enum MaterialKind {
    /// Diffuse: scatters around the normal.
    Lambertian,
    /// Mirror-like, with optional fuzz.
    Metal,
    /// Glass: reflects or refracts.
    Dielectric,
}

/// Whether a material of `kind` scatters (rather than absorbs) a ray whose
/// outgoing direction has dot product `outgoing_dot_normal` with the surface
/// normal. Only a metal absorbs, when that product is not positive: the ray
/// would enter the surface.
pub open spec fn scatters_spec(kind: MaterialKind, outgoing_dot_normal: u64) -> bool {
    match kind {
        MaterialKind::Metal => lt(ZERO_BITS, outgoing_dot_normal),
        _ => true,
    }
}

/// Decides between the scattered and the absorbed response of a material.
pub fn scatters(kind: MaterialKind, outgoing_dot_normal: u64) -> (r: bool)
    ensures
        r == scatters_spec(kind, outgoing_dot_normal),
        kind == MaterialKind::Lambertian ==> r,
        kind == MaterialKind::Dielectric ==> r,
{
    match kind {
        MaterialKind::Metal => less_than(ZERO_BITS, outgoing_dot_normal),
        _ => true,
    }
}

/// A metal's fuzz as construction keeps it: values above 1.0 become 1.0.
pub fn clamp_fuzz(fuzz: u64) -> (r: u64)
    ensures
        r == (if lt(ONE_BITS, fuzz) { ONE_BITS } else { fuzz }),
{
    if less_than(ONE_BITS, fuzz) {
        ONE_BITS
    } else {
        fuzz
    }
}

/// Whether a ray meets a dielectric surface from inside: the normal and the
/// incoming direction point the same way (their dot product is positive).
pub fn leaves_medium(normal_dot_direction: u64) -> (r: bool)
    ensures
        r == lt(ZERO_BITS, normal_dot_direction),
{
    less_than(ZERO_BITS, normal_dot_direction)
}

/// Whether glass reflects a ray: always when no refracted direction exists
/// (total internal reflection), else when the uniform draw falls below the
/// reflectance.
pub fn dielectric_reflects(refracts: bool, draw: u64, reflectance: u64) -> (r: bool)
    ensures
        r == (!refracts || lt(draw, reflectance)),
{
    !refracts || less_than(draw, reflectance)
}

} // verus!
