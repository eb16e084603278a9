use raytracer::distance::distance_key;
use raytracer::intersection::{nearest_root, trace, Intersection};
use raytracer::shading::{light_reaches, plan_shading, Secondary, Shading, Surface, MAX_DEPTH};

fn at(distance: f64) -> i64 {
    distance_key(distance.to_bits()).unwrap()
}

/// The distance at which a ray from `origin` along the unit vector `direction` hits the sphere.
fn sphere_hit(center: [f64; 3], radius: f64, origin: [f64; 3], direction: [f64; 3]) -> Option<i64> {
    let l = [center[0] - origin[0], center[1] - origin[1], center[2] - origin[2]];
    let adj = l[0] * direction[0] + l[1] * direction[1] + l[2] * direction[2];
    let d2 = l[0] * l[0] + l[1] * l[1] + l[2] * l[2] - adj * adj;
    if d2 > radius * radius {
        return None;
    }
    let d1 = (radius * radius - d2).sqrt();
    nearest_root(at(adj - d1), at(adj + d1))
}

const DIFFUSE: Surface = Surface { diffuse: true, reflective: false, refractive: false };
const MIRROR: Surface = Surface { diffuse: false, reflective: true, refractive: false };
const GLASS: Surface = Surface { diffuse: false, reflective: false, refractive: true };

#[test]
fn the_depth_cap_is_five() {
    assert_eq!(MAX_DEPTH, 5);
}

#[test]
fn a_ray_that_hits_nothing_takes_the_background() {
    for depth in 0..10 {
        assert_eq!(plan_shading(depth, None), Shading::Background);
    }
    assert_eq!(plan_shading(u32::MAX, None), Shading::Background);
}

#[test]
fn a_scene_without_objects_is_all_background() {
    let nearest = trace(&Vec::new());
    assert_eq!(nearest, None);
    let surface = nearest.map(|_| DIFFUSE);
    assert_eq!(plan_shading(0, surface), Shading::Background);
}

#[test]
fn a_ray_deeper_than_the_cap_takes_the_background() {
    assert_eq!(
        plan_shading(5, Some(MIRROR)),
        Shading::Surface { direct: false, secondary: Secondary::Mirror, next_depth: 6 }
    );
    assert_eq!(plan_shading(6, Some(MIRROR)), Shading::Background);
    assert_eq!(plan_shading(7, Some(DIFFUSE)), Shading::Background);
    assert_eq!(plan_shading(u32::MAX, Some(GLASS)), Shading::Background);
}

#[test]
fn direct_light_counts_on_a_diffuse_surface_only() {
    assert_eq!(
        plan_shading(0, Some(DIFFUSE)),
        Shading::Surface { direct: true, secondary: Secondary::Matte, next_depth: 1 }
    );
    assert_eq!(
        plan_shading(0, Some(MIRROR)),
        Shading::Surface { direct: false, secondary: Secondary::Mirror, next_depth: 1 }
    );
    let dark = Surface { diffuse: false, reflective: false, refractive: false };
    assert_eq!(
        plan_shading(3, Some(dark)),
        Shading::Surface { direct: false, secondary: Secondary::Matte, next_depth: 4 }
    );
}

#[test]
fn a_refractive_surface_is_a_dielectric_whatever_it_reflects() {
    assert_eq!(
        plan_shading(2, Some(GLASS)),
        Shading::Surface { direct: false, secondary: Secondary::Dielectric, next_depth: 3 }
    );
    let both = Surface { diffuse: true, reflective: true, refractive: true };
    assert_eq!(
        plan_shading(0, Some(both)),
        Shading::Surface { direct: true, secondary: Secondary::Dielectric, next_depth: 1 }
    );
    let glossy = Surface { diffuse: true, reflective: true, refractive: false };
    assert_eq!(
        plan_shading(0, Some(glossy)),
        Shading::Surface { direct: true, secondary: Secondary::Mirror, next_depth: 1 }
    );
}

#[test]
fn two_facing_mirrors_end_after_six_levels() {
    // Between two parallel mirrors every ray hits a mirror again.
    let mut depth = 0;
    let mut shaded = 0;
    loop {
        match plan_shading(depth, Some(MIRROR)) {
            Shading::Background => break,
            Shading::Surface { direct, secondary, next_depth } => {
                assert!(!direct);
                assert_eq!(secondary, Secondary::Mirror);
                assert_eq!(next_depth, depth + 1);
                shaded += 1;
                depth = next_depth;
            }
        }
        assert!(shaded <= MAX_DEPTH + 1);
    }
    assert_eq!(shaded, 6);
    assert_eq!(depth, 6);
}

#[test]
fn a_free_shadow_ray_lets_the_light_through() {
    assert!(light_reaches(None, at(10.0)));
    assert!(light_reaches(None, at(f64::INFINITY)));
    assert!(light_reaches(None, at(0.0)));
}

#[test]
fn only_what_is_strictly_nearer_than_the_light_hides_it() {
    let hit = |distance: f64| Some(Intersection::new(at(distance), 0));
    assert!(!light_reaches(hit(3.0), at(10.0)));
    assert!(!light_reaches(hit(0.0), at(10.0)));
    assert!(light_reaches(hit(10.0), at(10.0)));
    assert!(light_reaches(hit(12.5), at(10.0)));
    assert!(!light_reaches(hit(1.0e300), at(f64::INFINITY)));
    assert!(light_reaches(hit(f64::INFINITY), at(f64::INFINITY)));
}

#[test]
fn the_far_sphere_lies_in_the_shadow_of_the_near_one() {
    // Two unit spheres on the z axis; a directional light shines along it, away from the camera.
    let near = [0.0, 0.0, -3.0];
    let far = [0.0, 0.0, -8.0];
    let to_light = [0.0, 0.0, 1.0];
    let light_distance = at(f64::INFINITY);
    let offset = 1.0e-6;

    // the point of the far sphere that faces the light
    let on_far = [0.0, 0.0, -7.0 + offset];
    let hits = vec![
        sphere_hit(near, 1.0, on_far, to_light),
        sphere_hit(far, 1.0, on_far, to_light),
    ];
    let shadow = trace(&hits);
    assert_eq!(shadow.map(|hit| hit.object), Some(0));
    assert!(!light_reaches(shadow, light_distance));

    // the point of the near sphere that faces the light
    let on_near = [0.0, 0.0, -2.0 + offset];
    let hits = vec![
        sphere_hit(near, 1.0, on_near, to_light),
        sphere_hit(far, 1.0, on_near, to_light),
    ];
    let shadow = trace(&hits);
    assert_eq!(shadow, None);
    assert!(light_reaches(shadow, light_distance));
}

#[test]
fn a_point_light_between_the_spheres_lights_the_far_one() {
    let near = [0.0, 0.0, -3.0];
    let far = [0.0, 0.0, -8.0];
    let to_light = [0.0, 0.0, 1.0];
    // the light stands at z = -5, two units before the far sphere's front
    let on_far = [0.0, 0.0, -7.0 + 1.0e-6];
    let hits = vec![
        sphere_hit(near, 1.0, on_far, to_light),
        sphere_hit(far, 1.0, on_far, to_light),
    ];
    let shadow = trace(&hits);
    assert_eq!(shadow.map(|hit| hit.object), Some(0));
    assert!(light_reaches(shadow, at(2.0)));
}
