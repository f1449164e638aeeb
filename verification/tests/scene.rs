use rt_in_1_weekend::materials::{Lambertian, Material, Metal, Reflective};
use rt_in_1_weekend::scalar::Scalar;
use rt_in_1_weekend::scene::{Camera, Crossing, List, Sphere, Surface};
use rt_in_1_weekend::vector::Vector3;

fn s(x: f32) -> Scalar {
    Scalar::from_bits(x.to_bits())
}

fn f(x: Scalar) -> f32 {
    f32::from_bits(x.to_bits())
}

fn dot(a: [f32; 3], b: [f32; 3]) -> f32 {
    a[0] * b[0] + a[1] * b[1] + a[2] * b[2]
}

/// The quadratic of a ray and a sphere, evaluated as a renderer does it.
fn crossing(origin: [f32; 3], direction: [f32; 3], center: [f32; 3], radius: f32) -> Crossing {
    let oc = [origin[0] - center[0], origin[1] - center[1], origin[2] - center[2]];
    let a = dot(direction, direction);
    let b = dot(oc, direction);
    let c = dot(oc, oc) - radius * radius;
    let discriminant = b * b - a * c;
    let root = discriminant.sqrt();
    Crossing::new(s(discriminant), s((-b - root) / a), s((-b + root) / a))
}

fn plain(near: f32, far: f32) -> Crossing {
    Crossing::new(s(1.0), s(near), s(far))
}

#[test]
fn unit_sphere_from_in_front_is_hit_on_its_front_face() {
    let c = crossing([0.0, 0.0, 5.0], [0.0, 0.0, -1.0], [0.0, 0.0, 0.0], 1.0);
    let t = c.hit(s(0.001), s(f32::INFINITY)).expect("a hit");
    assert_eq!(f(t), 4.0);
    assert_eq!(f(c.far), 6.0);
}

#[test]
fn small_sphere_ahead_is_hit_at_half() {
    let c = crossing([0.0, 0.0, 0.0], [0.0, 0.0, -1.0], [0.0, 0.0, -1.0], 0.5);
    let t = c.hit(s(0.001), s(f32::INFINITY)).expect("a hit");
    assert_eq!(f(t), 0.5);
    let p = [0.0, 0.0, -f(t)];
    let normal = [p[0] - 0.0, p[1] - 0.0, p[2] - -1.0];
    assert_eq!(normal, [0.0, 0.0, 0.5]);
    let length = dot(normal, normal).sqrt();
    assert_eq!([normal[0] / length, normal[1] / length, normal[2] / length], [0.0, 0.0, 1.0]);
}

#[test]
fn from_inside_the_far_root_is_taken() {
    let c = crossing([0.0, 0.0, 0.0], [0.0, 0.0, -1.0], [0.0, 0.0, 0.0], 2.0);
    assert_eq!(f(c.near), -2.0);
    let t = c.hit(s(0.001), s(f32::MAX)).expect("a hit");
    assert_eq!(f(t), 2.0);
}

#[test]
fn a_ray_that_starts_on_a_sphere_does_not_hit_it_there() {
    let inward = crossing([0.0, 0.0, 1.0], [0.0, 0.0, -1.0], [0.0, 0.0, 0.0], 1.0);
    assert_eq!(f(inward.near), 0.0);
    let t = inward.hit(s(0.0001), s(f32::INFINITY)).expect("the far side");
    assert_eq!(f(t), 2.0);
    let outward = crossing([0.0, 0.0, 1.0], [0.0, 0.0, 1.0], [0.0, 0.0, 0.0], 1.0);
    assert_eq!(f(outward.far), 0.0);
    assert!(outward.hit(s(0.0001), s(f32::INFINITY)).is_none());
}

#[test]
fn a_sphere_behind_the_ray_is_missed() {
    let c = crossing([0.0, 0.0, 5.0], [0.0, 0.0, 1.0], [0.0, 0.0, 0.0], 1.0);
    assert!(c.hit(s(0.001), s(f32::MAX)).is_none());
}

#[test]
fn a_ray_that_passes_by_misses() {
    let c = crossing([0.0, 3.0, 5.0], [0.0, 0.0, -1.0], [0.0, 0.0, 0.0], 1.0);
    assert!(f(c.discriminant) < 0.0);
    assert!(c.hit(s(0.001), s(f32::MAX)).is_none());
}

#[test]
fn a_negative_discriminant_is_a_miss_whatever_the_roots() {
    let c = Crossing::new(s(-1.0), s(1.0), s(2.0));
    assert!(c.hit(s(0.0), s(10.0)).is_none());
}

#[test]
fn a_grazing_ray_hits() {
    let c = crossing([0.0, 1.0, 5.0], [0.0, 0.0, -1.0], [0.0, 0.0, 0.0], 1.0);
    assert_eq!(f(c.discriminant), 0.0);
    let t = c.hit(s(0.001), s(f32::MAX)).expect("a hit");
    assert_eq!(f(t), 5.0);
}

#[test]
fn the_ends_of_the_range_are_left_out() {
    let c = plain(1.0, 3.0);
    assert_eq!(f(c.hit(s(0.0), s(10.0)).unwrap()), 1.0);
    assert_eq!(f(c.hit(s(1.0), s(10.0)).unwrap()), 3.0);
    assert_eq!(f(c.hit(s(0.0), s(3.0)).unwrap()), 1.0);
    assert!(c.hit(s(1.0), s(3.0)).is_none());
    assert!(c.hit(s(3.0), s(10.0)).is_none());
    assert!(c.hit(s(0.0), s(1.0)).is_none());
}

#[test]
fn nothing_is_hit_in_a_range_that_is_not_a_number() {
    let c = plain(1.0, 3.0);
    assert!(c.hit(s(f32::NAN), s(10.0)).is_none());
    assert!(c.hit(s(0.0), s(f32::NAN)).is_none());
    let broken = Crossing::new(s(f32::NAN), s(f32::NAN), s(f32::NAN));
    assert!(broken.hit(s(0.0), s(10.0)).is_none());
}

#[test]
fn the_nearest_member_is_reported() {
    let list = List::new(vec![plain(5.0, 6.0), plain(2.0, 3.0), plain(4.0, 7.0)]);
    let found = list.hit(s(0.001), s(f32::MAX)).expect("a hit");
    assert_eq!(found.index, 1);
    assert_eq!(f(found.t), 2.0);
}

#[test]
fn of_equally_near_members_the_first_is_reported() {
    let list = List::new(vec![plain(5.0, 6.0), plain(2.0, 3.0), plain(2.0, 9.0)]);
    let found = list.hit(s(0.001), s(f32::MAX)).expect("a hit");
    assert_eq!(found.index, 1);
    assert_eq!(f(found.t), 2.0);
}

#[test]
fn an_empty_list_is_missed() {
    let list: List<Crossing> = List::new(vec![]);
    assert!(list.hit(s(0.001), s(f32::MAX)).is_none());
}

#[test]
fn a_list_of_misses_is_missed() {
    let list = List::new(vec![
        Crossing::new(s(-1.0), s(f32::NAN), s(f32::NAN)),
        plain(-4.0, -2.0),
        plain(20.0, 30.0),
    ]);
    assert!(list.hit(s(0.001), s(10.0)).is_none());
}

#[test]
fn members_behind_the_ray_do_not_hide_those_ahead() {
    let list = List::new(vec![plain(-4.0, -2.0), plain(-1.0, 8.0), plain(3.0, 5.0)]);
    let found = list.hit(s(0.001), s(f32::MAX)).expect("a hit");
    assert_eq!(found.index, 2);
    assert_eq!(f(found.t), 3.0);
}

#[test]
fn the_scene_of_four_spheres_seen_from_the_eye() {
    let origin = [0.0, 0.0, 0.0];
    let down = [0.0, -1.0, -1.0];
    let spheres: [([f32; 3], f32); 4] = [
        ([0.0, 0.0, -1.0], 0.5),
        ([0.0, -100.5, -1.0], 100.0),
        ([-1.1, -0.1, -1.0], 0.4),
        ([1.1, 0.0, -1.0], 0.4),
    ];
    let list = List::new(spheres.iter().map(|(c, r)| crossing(origin, down, *c, *r)).collect());
    let found = list.hit(s(0.0001), s(f32::MAX)).expect("the ground");
    assert_eq!(found.index, 1);
    let ahead = [0.0, 0.0, -1.0];
    let list = List::new(spheres.iter().map(|(c, r)| crossing(origin, ahead, *c, *r)).collect());
    let found = list.hit(s(0.0001), s(f32::MAX)).expect("the middle sphere");
    assert_eq!(found.index, 0);
    assert_eq!(f(found.t), 0.5);
    let up = [0.0, 1.0, 0.0];
    let list = List::new(spheres.iter().map(|(c, r)| crossing(origin, up, *c, *r)).collect());
    assert!(list.hit(s(0.0001), s(f32::MAX)).is_none());
}

#[test]
fn list_keeps_its_members() {
    let list = List::new(vec![1u8, 2, 3]);
    assert_eq!(list.list, vec![1u8, 2, 3]);
}

#[test]
fn sphere_keeps_what_it_is_given() {
    let center = Vector3::new(s(0.0), s(-100.5), s(-1.0));
    let sphere = Sphere::new(center, s(100.0), Material::default());
    assert_eq!(sphere.center.to_bits(), center.to_bits());
    assert_eq!(f(sphere.radius), 100.0);
    assert!(matches!(sphere.material, Material::Diffuse(_)));
}

#[test]
fn the_unit_sphere() {
    let sphere = Sphere::new_unit();
    assert_eq!(sphere.center.to_bits(), [1.0f32.to_bits(); 3]);
    assert_eq!(f(sphere.radius), 5.0);
    match sphere.material {
        Material::Diffuse(l) => assert_eq!(l.albedo.to_bits(), [1.0f32.to_bits(); 3]),
        _ => panic!("the default material is diffuse"),
    }
}

#[test]
fn the_default_camera() {
    let camera = Camera::default();
    let v = |x: f32, y: f32, z: f32| [x.to_bits(), y.to_bits(), z.to_bits()];
    assert_eq!(camera.lower_left.to_bits(), v(-2.0, 1.0, -1.0));
    assert_eq!(camera.horiz.to_bits(), v(4.0, 0.0, 0.0));
    assert_eq!(camera.vert.to_bits(), v(0.0, -2.0, 0.0));
    assert_eq!(camera.origin.to_bits(), v(0.0, 0.0, 0.0));
}

fn ball(x: f32) -> Sphere {
    Sphere::new(Vector3::new(s(x), s(0.0), s(-1.0)), s(0.5), Material::default())
}

fn centers(spheres: &[Sphere]) -> Vec<f32> {
    spheres.iter().map(|sphere| f(sphere.center.x)).collect()
}

#[test]
fn a_sphere_flattens_to_itself() {
    assert_eq!(centers(&Surface::Sphere(ball(3.0)).flatten()), vec![3.0]);
}

#[test]
fn an_aggregate_flattens_to_its_spheres_in_order() {
    let inner = Surface::Aggregate(List::new(vec![
        Surface::Sphere(ball(2.0)),
        Surface::Aggregate(List::new(vec![])),
        Surface::Sphere(ball(3.0)),
    ]));
    let world = Surface::Aggregate(List::new(vec![
        Surface::Sphere(ball(1.0)),
        inner,
        Surface::Aggregate(List::new(vec![Surface::Aggregate(List::new(vec![
            Surface::Sphere(ball(4.0)),
        ]))])),
        Surface::Sphere(ball(5.0)),
    ]));
    assert_eq!(centers(&world.flatten()), vec![1.0, 2.0, 3.0, 4.0, 5.0]);
    assert!(Surface::Aggregate(List::new(vec![])).flatten().is_empty());
}

#[test]
fn collect_adds_to_what_is_there() {
    let mut spheres = vec![ball(9.0)];
    Surface::Aggregate(List::new(vec![Surface::Sphere(ball(1.0)), Surface::Sphere(ball(2.0))]))
        .collect(&mut spheres);
    assert_eq!(centers(&spheres), vec![9.0, 1.0, 2.0]);
}

#[test]
fn an_aggregate_among_the_members_is_hit_as_its_members_in_its_place() {
    let origin = [0.0, 0.0, 0.0];
    let ahead = [0.0, 0.0, -1.0];
    let at = |z: f32| Sphere::new(Vector3::new(s(0.0), s(0.0), s(z)), s(0.5), Material::default());
    let world = Surface::Aggregate(List::new(vec![
        Surface::Sphere(at(-8.0)),
        Surface::Aggregate(List::new(vec![Surface::Sphere(at(-6.0)), Surface::Sphere(at(-2.0))])),
        Surface::Sphere(at(-4.0)),
    ]));
    let spheres = world.flatten();
    let seen = |sphere: &Sphere| {
        let c = sphere.center.to_bits().map(f32::from_bits);
        crossing(origin, ahead, c, f(sphere.radius))
    };
    let all = List::new(spheres.iter().map(seen).collect());
    let found = all.hit(s(0.0001), s(f32::MAX)).expect("a hit");
    assert_eq!(found.index, 2);
    assert_eq!(f(found.t), 1.5);
    let first = List::new(spheres[..1].iter().map(seen).collect());
    let before = first.hit(s(0.0001), s(f32::MAX)).expect("a hit");
    assert_eq!(f(before.t), 7.5);
    let inner = List::new(spheres[1..3].iter().map(seen).collect());
    let within = inner.hit(s(0.0001), before.t).expect("a hit");
    assert_eq!(within.index + 1, found.index);
    assert_eq!(within.t.to_bits(), found.t.to_bits());
    let last = List::new(spheres[3..].iter().map(seen).collect());
    assert!(last.hit(s(0.0001), within.t).is_none());
}

#[test]
fn a_metal_is_a_reflective_material() {
    let albedo = Vector3::new(s(0.8), s(0.6), s(0.2));
    let metal: Reflective = Metal::new(albedo);
    assert_eq!(metal.albedo.to_bits(), albedo.to_bits());
    assert!(matches!(Material::Reflective(metal), Material::Reflective(_)));
    assert_eq!(Lambertian::new(albedo).albedo.to_bits(), albedo.to_bits());
}
