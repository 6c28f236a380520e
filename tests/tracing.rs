use raytracer::integrator::{next_step, PathStep, Surface, MAX_DEPTH};
use raytracer::materials::{dielectric_bounce, Bounce};
use raytracer::objects::nearest_hit;

fn key(distance: f32) -> Option<u32> {
    Some(distance.to_bits())
}

#[test]
fn nearest_of_two_overlapping_spheres_in_either_order() {
    let near = key(0.5);
    let far = key(1.5);
    assert_eq!(nearest_hit(&vec![near, far]), Some(0));
    assert_eq!(nearest_hit(&vec![far, near]), Some(1));
}

#[test]
fn nearest_skips_misses() {
    assert_eq!(nearest_hit(&vec![None, key(3.0), None, key(2.0), key(4.0)]), Some(3));
}

#[test]
fn nearest_of_all_misses_is_none() {
    assert_eq!(nearest_hit(&vec![None, None]), None);
    assert_eq!(nearest_hit(&Vec::new()), None);
}

#[test]
fn nearest_keeps_first_of_equal_distances() {
    assert_eq!(nearest_hit(&vec![key(2.0), key(1.0), key(1.0)]), Some(1));
}

#[test]
fn miss_shows_background() {
    assert_eq!(next_step(0, Surface::Miss), PathStep::Background);
    assert_eq!(next_step(MAX_DEPTH, Surface::Miss), PathStep::Background);
}

#[test]
fn absorption_is_black() {
    assert_eq!(next_step(3, Surface::Absorbed), PathStep::Black);
}

#[test]
fn scattering_goes_one_level_deeper() {
    assert_eq!(next_step(0, Surface::Scattered), PathStep::Bounce(1));
    assert_eq!(next_step(49, Surface::Scattered), PathStep::Bounce(50));
}

#[test]
fn scattering_at_the_ceiling_is_black() {
    assert_eq!(next_step(50, Surface::Scattered), PathStep::Black);
    assert_eq!(next_step(usize::MAX, Surface::Scattered), PathStep::Black);
}

#[test]
fn facing_mirrors_end_black_after_fifty_bounces() {
    let mut depth = 0usize;
    let mut bounces = 0usize;
    let end = loop {
        match next_step(depth, Surface::Scattered) {
            PathStep::Bounce(deeper) => {
                depth = deeper;
                bounces += 1;
            }
            last => break last,
        }
        assert!(bounces <= MAX_DEPTH);
    };
    assert_eq!(end, PathStep::Black);
    assert_eq!(bounces, 50);
}

#[test]
fn glass_reflects_under_total_internal_reflection() {
    assert_eq!(dielectric_bounce(false, false), Bounce::Reflect);
    assert_eq!(dielectric_bounce(false, true), Bounce::Reflect);
}

#[test]
fn glass_follows_the_draw_when_it_can_refract() {
    assert_eq!(dielectric_bounce(true, true), Bounce::Reflect);
    assert_eq!(dielectric_bounce(true, false), Bounce::Refract);
}
