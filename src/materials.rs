use vstd::prelude::*;

verus! {

/// Which way a ray leaves a glass surface.
#[derive(Clone, Copy, Debug, PartialEq, Eq, Structural)]
pub enum Bounce {
    /// Mirrored about the surface normal.
    Reflect,
    /// Bent through the surface by Snell's law.
    Refract,
}

/// Chooses how a ray leaves glass. `refracts` tells whether Snell's law has
/// a refracted direction (it has none under total internal reflection);
/// `draw_below_reflectance` whether the uniform draw in [0, 1) fell below the
/// Schlick reflectance. The ray reflects when it cannot refract or when the
/// draw says so, and refracts otherwise: exactly one of the two, always.
pub fn dielectric_bounce(refracts: bool, draw_below_reflectance: bool) -> (b: Bounce)
    ensures
        b == Bounce::Reflect <==> (!refracts || draw_below_reflectance),
        b == Bounce::Refract <==> (refracts && !draw_below_reflectance),
{
    if !refracts || draw_below_reflectance {
        Bounce::Reflect
    } else {
        Bounce::Refract
    }
}

} // verus!
