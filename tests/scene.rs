use raytracer::color::{Color, ONE};
use raytracer::hittable::nearest_hit;
use raytracer::material::Lambertian;
use raytracer::tracer::{sky_color, Bounce, PathState, Step, SKY_B, SKY_G, SKY_R};

#[test]
fn nearest_hit_of_empty_scene_is_none() {
    assert_eq!(nearest_hit(&Vec::new()), None);
    assert_eq!(nearest_hit(&vec![None, None]), None);
}

#[test]
fn nearest_hit_picks_smallest_distance() {
    assert_eq!(nearest_hit(&vec![None, Some(5), Some(3), Some(9)]), Some(2));
    assert_eq!(nearest_hit(&vec![Some(1), None, Some(3)]), Some(0));
}

#[test]
fn nearest_hit_ignores_storage_order() {
    let a = vec![Some(40u64), Some(25), None];
    let b = vec![None, Some(25u64), Some(40)];
    let c = vec![Some(25u64), None, Some(40)];
    assert_eq!(a[nearest_hit(&a).unwrap()], Some(25));
    assert_eq!(b[nearest_hit(&b).unwrap()], Some(25));
    assert_eq!(c[nearest_hit(&c).unwrap()], Some(25));
}

#[test]
fn nearest_hit_prefers_last_of_equal_distances() {
    assert_eq!(nearest_hit(&vec![Some(7), Some(9), Some(7), None]), Some(2));
}

#[test]
fn sky_color_looking_level_is_blend_of_white_and_blue() {
    // unit direction (0, 0, -1): t = 0.5, color (0.75, 0.85, 1.0)
    let c = sky_color(0);
    assert_eq!(c, Color::new(12582912, 14260633, ONE));
    assert_eq!(c.r, ONE / 2 + SKY_R / 2);
    assert_eq!(c.g, ONE / 2 + SKY_G / 2);
}

#[test]
fn sky_color_ends_of_gradient() {
    assert_eq!(sky_color(ONE), Color::new(SKY_R, SKY_G, SKY_B));
    assert_eq!(sky_color(-ONE), Color::new(ONE, ONE, ONE));
}

#[test]
fn no_bounce_budget_gives_black() {
    assert_eq!(PathState::start(0), Step::Done(Color::zero()));
    assert_eq!(PathState::start(-4), Step::Done(Color::zero()));
}

#[test]
fn start_traces_with_white_throughput() {
    let white = Color::new(ONE, ONE, ONE);
    assert_eq!(PathState::start(3), Step::Trace(PathState { depth: 3, throughput: white }));
}

#[test]
fn escaped_ray_returns_attenuated_sky() {
    let state = PathState { depth: 2, throughput: Color::new(ONE / 2, ONE, 0) };
    let sky = Color::new(ONE, ONE / 2, ONE);
    assert_eq!(state.advance(Bounce::Escaped { sky }), Step::Done(Color::new(ONE / 2, ONE / 2, 0)));
}

#[test]
fn absorbed_ray_is_black() {
    let state = PathState { depth: 5, throughput: Color::new(ONE, ONE, ONE) };
    assert_eq!(state.advance(Bounce::Absorbed), Step::Done(Color::zero()));
}

#[test]
fn diffuse_sphere_with_one_bounce_is_black() {
    let grey = Lambertian { albedo: Color::new(ONE / 2, ONE / 2, ONE / 2) };
    let state = match PathState::start(1) {
        Step::Trace(s) => s,
        Step::Done(_) => panic!("a budget of one bounce traces the camera ray"),
    };
    assert_eq!(state.advance(grey.bounce()), Step::Done(Color::zero()));
}

#[test]
fn diffuse_sphere_with_two_bounces_is_between_black_and_sky() {
    let grey = Lambertian { albedo: Color::new(ONE / 2, ONE / 2, ONE / 2) };
    let sky = sky_color(ONE / 2);
    let state = match PathState::start(2) {
        Step::Trace(s) => s,
        Step::Done(_) => panic!("a budget of two bounces traces the camera ray"),
    };
    let state = match state.advance(grey.bounce()) {
        Step::Trace(s) => s,
        Step::Done(_) => panic!("a scattered ray with a bounce left is traced"),
    };
    assert_eq!(state, PathState { depth: 1, throughput: grey.albedo });
    match state.advance(Bounce::Escaped { sky }) {
        Step::Done(c) => {
            assert!(0 < c.r && c.r < sky.r);
            assert!(0 < c.g && c.g < sky.g);
            assert!(0 < c.b && c.b < sky.b);
            assert_eq!(c, Color::new(sky.r / 2, sky.g / 2, sky.b / 2));
        }
        Step::Trace(_) => panic!("an escaped ray ends the path"),
    }
}

#[test]
fn lambertian_always_scatters_with_albedo() {
    let m = Lambertian { albedo: Color::new(1, 2, 3) };
    assert_eq!(m.bounce(), Bounce::Scattered { attenuation: Color::new(1, 2, 3) });
}
