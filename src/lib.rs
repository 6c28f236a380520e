//! The integer core of a sphere ray tracer: colour channels and the image
//! format, the order in which pixels are produced, the choice of the nearest
//! hit along a ray, the bounce-depth ceiling of the path integrator and the
//! reflect-or-refract decision of glass.
pub mod integrator;
pub mod materials;
pub mod objects;
pub mod ppm;
pub mod render;
pub mod vec3;
