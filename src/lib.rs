//! Decision logic of a Monte Carlo ray tracer of spheres: which root of a
//! ray-sphere quadratic is accepted, which surface is nearest, how a material
//! responds, when a light path stops, in which order pixels are written, and
//! how the image is encoded as plain-text PPM.
pub mod float_order;
pub mod hit;
pub mod image;
pub mod material;
pub mod path;
