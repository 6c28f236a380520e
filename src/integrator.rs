use vstd::prelude::*;

verus! {

/// The number of bounces after which a path is cut off.
pub const MAX_DEPTH: usize = 50;

/// What the scene did with the ray of one bounce.
#[derive(Clone, Copy, Debug, PartialEq, Eq, Structural)]
pub enum Surface {
    /// The ray hit nothing.
    Miss,
    /// The ray hit a surface whose material absorbed it.
    Absorbed,
    /// The ray hit a surface whose material scattered it.
    Scattered,
}

/// What the integrator does after a bounce.
#[derive(Clone, Copy, Debug, PartialEq, Eq, Structural)]
pub enum PathStep {
    /// The path ends with the background colour seen along the ray.
    Background,
    /// The path ends with black: the light is absorbed, or the path is cut off.
    Black,
    /// The path goes on with the scattered ray, at the given depth, and the
    /// colour it brings back is weighted by the attenuation.
    Bounce(usize),
}

/// The step taken at `depth` after the scene did `surface` with the ray.
pub open spec fn step(depth: usize, surface: Surface) -> PathStep {
    match surface {
        Surface::Miss => PathStep::Background,
        Surface::Absorbed => PathStep::Black,
        Surface::Scattered => if depth < MAX_DEPTH {
            PathStep::Bounce((depth + 1) as usize)
        } else {
            PathStep::Black
        },
    }
}

/// Decides how the path that is at `depth` goes on after the scene did
/// `surface` with its ray: a miss shows the background, an absorption is
/// black, and a scattered ray is followed one level deeper unless the path
/// has reached the depth ceiling, where it ends black.
pub fn next_step(depth: usize, surface: Surface) -> (s: PathStep)
    ensures
        s == step(depth, surface),
{
    match surface {
        Surface::Miss => PathStep::Background,
        Surface::Absorbed => PathStep::Black,
        Surface::Scattered => {
            if depth < MAX_DEPTH {
                PathStep::Bounce(depth + 1)
            } else {
                PathStep::Black
            }
        },
    }
}

/// How a path that is at `depth` ends when the scene does `surfaces[0]`,
/// `surfaces[1]`, ... with its successive rays: the index of the event that
/// ends it, and the final step. `None` when the events run out first.
pub open spec fn path_end(depth: usize, surfaces: Seq<Surface>) -> Option<(nat, PathStep)>
    decreases surfaces.len(),
{
    if surfaces.len() == 0 {
        None
    } else {
        match step(depth, surfaces[0]) {
            PathStep::Bounce(deeper) => match path_end(deeper, surfaces.drop_first()) {
                Some((k, last)) => Some((k + 1, last)),
                None => None,
            },
            last => Some((0nat, last)),
        }
    }
}

proof fn lemma_path_end_from(depth: usize, surfaces: Seq<Surface>)
    requires
        depth <= MAX_DEPTH,
        surfaces.len() > MAX_DEPTH - depth,
    ensures
        path_end(depth, surfaces) matches Some((k, last)) && k <= MAX_DEPTH - depth && !(
        last is Bounce),
        (forall|i: int| 0 <= i < surfaces.len() ==> #[trigger] surfaces[i] == Surface::Scattered)
            ==> path_end(depth, surfaces) == Some(((MAX_DEPTH - depth) as nat, PathStep::Black)),
    decreases surfaces.len(),
{
    if depth < MAX_DEPTH && surfaces[0] == Surface::Scattered {
        let rest = surfaces.drop_first();
        lemma_path_end_from((depth + 1) as usize, rest);
        if forall|i: int| 0 <= i < surfaces.len() ==> #[trigger] surfaces[i] == Surface::Scattered {
            assert forall|i: int| 0 <= i < rest.len() implies #[trigger] rest[i]
                == Surface::Scattered by {
                assert(surfaces[i + 1] == Surface::Scattered);
            }
        }
    }
}

/// Every path ends within the depth ceiling: whatever the scene does with
/// each ray, a path that starts at depth zero has ended (with the background
/// or with black) by its event number `MAX_DEPTH`.
pub proof fn lemma_path_ends_within_ceiling(surfaces: Seq<Surface>)
    requires
        surfaces.len() > MAX_DEPTH,
    ensures
        path_end(0, surfaces) matches Some((k, last)) && k <= MAX_DEPTH && !(last is Bounce),
{
    lemma_path_end_from(0, surfaces);
}

/// A path that scatters at every hit, as between two facing mirrors, is cut
/// off black at the depth ceiling, after `MAX_DEPTH` bounces.
pub proof fn lemma_endless_scattering_ends_black(surfaces: Seq<Surface>)
    requires
        surfaces.len() > MAX_DEPTH,
        forall|i: int| 0 <= i < surfaces.len() ==> #[trigger] surfaces[i] == Surface::Scattered,
    ensures
        path_end(0, surfaces) == Some((MAX_DEPTH as nat, PathStep::Black)),
{
    lemma_path_end_from(0, surfaces);
}

} // verus!
