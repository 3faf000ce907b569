//! The discrete core of a Monte Carlo path tracer: how a scene binds its
//! objects to a shared pool of materials, which of the objects a ray meets
//! first, when a light path stops, and how finished pixels become PPM text.

pub mod material;
pub mod scene;
pub mod integrator;
pub mod ppm;
