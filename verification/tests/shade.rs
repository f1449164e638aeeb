use rt_in_1_weekend::ray::Ray;
use rt_in_1_weekend::scalar::Scalar;
use rt_in_1_weekend::shade::{color, range, Path, Radiance, Sight, Stage};
use rt_in_1_weekend::vector::Vector3;

fn v(x: f32, y: f32, z: f32) -> Vector3 {
    Vector3::new(
        Scalar::from_bits(x.to_bits()),
        Scalar::from_bits(y.to_bits()),
        Scalar::from_bits(z.to_bits()),
    )
}

fn ray(origin: [f32; 3], direction: [f32; 3]) -> Ray {
    Ray::new(v(origin[0], origin[1], origin[2]), v(direction[0], direction[1], direction[2]))
}

fn mirror(from: f32) -> Sight {
    Sight::Scattered {
        attenuation: v(0.9, 0.9, 0.9),
        ray: ray([0.0, 0.0, from], [0.0, 0.0, -from]),
    }
}

#[test]
fn with_no_depth_the_path_is_black_before_anything_is_cast() {
    for depth in [0, -1, i32::MIN] {
        let path = Path::new(ray([0.0, 0.0, 1.0], [0.0, 0.0, -1.0]), depth);
        assert!(matches!(path.stage, Stage::Exhausted));
        assert!(path.stage.is_ended());
        assert!(path.attenuations.is_empty());
    }
}

#[test]
fn between_two_mirrors_with_no_depth_the_path_stays_black() {
    let mut path = Path::new(ray([0.0, 0.0, 1.0], [0.0, 0.0, -1.0]), 0);
    for i in 0..10 {
        color(&mut path, mirror(if i % 2 == 0 { -1.0 } else { 1.0 }));
        assert!(matches!(path.stage, Stage::Exhausted));
        assert!(path.attenuations.is_empty());
    }
    color(&mut path, Sight::Miss);
    assert!(matches!(path.stage, Stage::Exhausted));
}

#[test]
fn between_two_mirrors_the_path_ends_when_its_depth_is_used_up() {
    let mut path = Path::new(ray([0.0, 0.0, 1.0], [0.0, 0.0, -1.0]), 3);
    let mut casts = 0;
    while !path.stage.is_ended() {
        color(&mut path, mirror(if casts % 2 == 0 { -1.0 } else { 1.0 }));
        casts += 1;
        assert!(casts <= 3);
    }
    assert_eq!(casts, 3);
    assert!(matches!(path.stage, Stage::Exhausted));
    assert_eq!(path.attenuations.len(), 3);
}

#[test]
fn a_miss_ends_in_the_background_along_the_rays_direction() {
    for origin in [[0.0, 0.0, 0.0], [5.0, -3.0, 2.0], [1e9, 0.0, -1e9]] {
        for depth in [1, 3, 50, i32::MAX] {
            let mut path = Path::new(ray(origin, [0.3, 0.4, -1.0]), depth);
            color(&mut path, Sight::Miss);
            match path.stage {
                Stage::Background { direction } => {
                    assert_eq!(direction.to_bits(), v(0.3, 0.4, -1.0).to_bits())
                }
                _ => panic!("a miss ends in the background"),
            }
            assert!(path.stage.is_ended());
            assert!(path.attenuations.is_empty());
        }
    }
}

#[test]
fn absorption_and_exhaustion_are_told_apart() {
    let mut absorbed = Path::new(ray([0.0, 0.0, 0.0], [0.0, 0.0, -1.0]), 2);
    color(&mut absorbed, Sight::Absorbed);
    assert!(matches!(absorbed.stage, Stage::Absorbed));
    assert!(!matches!(absorbed.stage, Stage::Exhausted));
    let mut exhausted = Path::new(ray([0.0, 0.0, 0.0], [0.0, 0.0, -1.0]), 1);
    color(&mut exhausted, mirror(1.0));
    assert!(matches!(exhausted.stage, Stage::Exhausted));
    assert_eq!(exhausted.attenuations.len(), 1);
}

#[test]
fn a_scattered_ray_is_cast_next_with_one_less_depth() {
    let mut path = Path::new(ray([0.0, 0.0, 0.0], [0.0, 0.0, -1.0]), 3);
    let scattered = ray([0.0, 0.0, -0.5], [0.0, 1.0, 0.5]);
    color(&mut path, Sight::Scattered { attenuation: v(0.1, 0.2, 0.5), ray: scattered });
    match path.stage {
        Stage::Cast { ray, depth_remaining } => {
            assert_eq!(depth_remaining, 2);
            assert_eq!(ray.origin().to_bits(), scattered.origin().to_bits());
            assert_eq!(ray.direction().to_bits(), scattered.direction().to_bits());
        }
        _ => panic!("the path goes on"),
    }
    assert_eq!(path.attenuations.len(), 1);
    assert_eq!(path.attenuations[0].to_bits(), v(0.1, 0.2, 0.5).to_bits());
    color(&mut path, Sight::Miss);
    match path.stage {
        Stage::Background { direction } => {
            assert_eq!(direction.to_bits(), scattered.direction().to_bits())
        }
        _ => panic!("a miss ends in the background"),
    }
    assert_eq!(path.attenuations.len(), 1);
}

#[test]
fn attenuations_are_kept_in_the_order_of_the_scatterings() {
    let mut path = Path::new(ray([0.0, 0.0, 0.0], [0.0, 0.0, -1.0]), 5);
    for k in 1..=3 {
        let a = k as f32 / 4.0;
        color(
            &mut path,
            Sight::Scattered { attenuation: v(a, a, a), ray: ray([0.0; 3], [0.0, 1.0, 0.0]) },
        );
    }
    color(&mut path, Sight::Miss);
    let kept: Vec<[u32; 3]> = path.attenuations.iter().map(|a| a.to_bits()).collect();
    let quarter = 0.25f32.to_bits();
    let half = 0.5f32.to_bits();
    let most = 0.75f32.to_bits();
    assert_eq!(kept, vec![[quarter; 3], [half; 3], [most; 3]]);
}

#[test]
fn a_path_that_has_ended_stays_as_it_is() {
    let mut path = Path::new(ray([0.0, 0.0, 0.0], [0.0, 0.0, -1.0]), 4);
    color(&mut path, Sight::Absorbed);
    color(&mut path, mirror(1.0));
    color(&mut path, Sight::Miss);
    assert!(matches!(path.stage, Stage::Absorbed));
    assert!(path.attenuations.is_empty());
}

#[test]
fn a_cast_without_depth_is_exhausted() {
    let mut path = Path {
        stage: Stage::Cast { ray: ray([0.0; 3], [0.0, 0.0, -1.0]), depth_remaining: 0 },
        attenuations: Vec::new(),
    };
    color(&mut path, Sight::Miss);
    assert!(matches!(path.stage, Stage::Exhausted));
}

#[test]
fn a_path_looks_from_a_little_above_zero_to_infinity() {
    let (t_min, t_max) = range();
    assert_eq!(t_min.to_bits(), 0.0001f32.to_bits());
    assert_eq!(t_max.to_bits(), f32::INFINITY.to_bits());
    assert!(Scalar::zero().lt(t_min));
    assert!(t_min.lt(t_max));
}

fn written(radiance: &Radiance) -> String {
    match radiance {
        Radiance::Black => "black".to_string(),
        Radiance::Sky(direction) => format!("sky{:?}", direction.to_bits().map(f32::from_bits)),
        Radiance::Times(attenuation, inner) => {
            format!("{:?}*{}", attenuation.to_bits().map(f32::from_bits), written(inner))
        }
    }
}

#[test]
fn the_radiance_of_a_miss_is_the_sky_along_the_ray() {
    let mut path = Path::new(ray([4.0, 5.0, 6.0], [0.0, 1.0, 0.0]), 3);
    color(&mut path, Sight::Miss);
    assert_eq!(written(&path.radiance()), "sky[0.0, 1.0, 0.0]");
}

#[test]
fn the_radiance_is_weakened_by_the_last_attenuation_first() {
    let mut path = Path::new(ray([0.0, 0.0, 0.0], [0.0, 0.0, -1.0]), 5);
    for k in 1..=3 {
        let a = k as f32 / 4.0;
        color(
            &mut path,
            Sight::Scattered { attenuation: v(a, a, a), ray: ray([0.0; 3], [0.0, k as f32, 0.0]) },
        );
    }
    color(&mut path, Sight::Miss);
    assert_eq!(
        written(&path.radiance()),
        "[0.25, 0.25, 0.25]*[0.5, 0.5, 0.5]*[0.75, 0.75, 0.75]*sky[0.0, 3.0, 0.0]"
    );
}

#[test]
fn the_radiance_of_a_black_end_is_black_under_its_attenuations() {
    let mut path = Path::new(ray([0.0, 0.0, 0.0], [0.0, 0.0, -1.0]), 2);
    assert_eq!(written(&Path::new(ray([0.0; 3], [0.0, 0.0, -1.0]), 0).radiance()), "black");
    color(&mut path, mirror(1.0));
    color(&mut path, Sight::Absorbed);
    assert_eq!(written(&path.radiance()), "[0.9, 0.9, 0.9]*black");
    let mut path = Path::new(ray([0.0, 0.0, 0.0], [0.0, 0.0, -1.0]), 1);
    color(&mut path, mirror(1.0));
    assert_eq!(written(&path.radiance()), "[0.9, 0.9, 0.9]*black");
}
