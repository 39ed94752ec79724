use pt::material::Dielectric;
use pt::material::DiffuseLight;
use pt::material::HandleResult;
use pt::material::Lambertian;
use pt::material::Material;
use pt::material::Metal;
use pt::material::Sample;
use pt::material::Scattered;
use pt::object::HitRecord;
use pt::ray::Ray;
use pt::rgb::Rgb;
use pt::scalar::Scalar;
use pt::vector::Vec3;

fn scalar(x: f32) -> Scalar {
    Scalar::from_bits(x.to_bits())
}

fn vector(v: [f32; 3]) -> Vec3 {
    Vec3::new(scalar(v[0]), scalar(v[1]), scalar(v[2]))
}

fn color(r: f32, g: f32, b: f32) -> Rgb {
    Rgb::new(scalar(r), scalar(g), scalar(b))
}

fn sample() -> Sample {
    Sample {
        diffuse: vector([0.1, 1.2, 0.3]),
        reflected: vector([0.6, 0.8, 0.0]),
        facing: scalar(0.8),
        refracted: vector([0.3, -0.9, 0.1]),
        sine: scalar(0.4),
        reflectance: scalar(0.05),
        draw: scalar(0.5),
    }
}

fn record<'m>(material: &'m Material, front: bool) -> HitRecord<'m> {
    let facing = if front { -1.0 } else { 1.0 };
    HitRecord::new(scalar(facing), vector([1.0, 2.0, 3.0]), vector([0.0, 1.0, 0.0]), scalar(2.5), material)
}

#[test]
fn a_matte_surface_scatters_with_its_albedo() {
    let material = Material::Lambertian(Lambertian { albedo: color(0.8, 0.8, 0.9) });
    let hit = record(&material, true);
    let result = material.handle_ray(&hit, &sample());
    assert_eq!(
        result,
        HandleResult::Scattered(Some(Scattered {
            attenuation: color(0.8, 0.8, 0.9),
            ray: Ray { origin: vector([1.0, 2.0, 3.0]), direction: vector([0.1, 1.2, 0.3]) },
        }))
    );
}

#[test]
fn a_matte_surface_absorbs_a_direction_that_is_no_number() {
    let material = Material::Lambertian(Lambertian { albedo: color(0.8, 0.8, 0.9) });
    let hit = record(&material, true);
    let mut numbers = sample();
    numbers.diffuse = vector([0.1, f32::NAN, 0.3]);
    assert_eq!(material.handle_ray(&hit, &numbers), HandleResult::Scattered(None));
}

#[test]
fn a_metal_reflects_what_leaves_the_surface() {
    let metal = Metal { albedo: color(0.8, 0.8, 0.8), fuzz: scalar(0.3) };
    let material = Material::Metal(metal);
    let hit = record(&material, true);
    let result = material.handle_ray(&hit, &sample());
    assert_eq!(
        result,
        HandleResult::Scattered(Some(Scattered {
            attenuation: color(0.8, 0.8, 0.8),
            ray: Ray { origin: vector([1.0, 2.0, 3.0]), direction: vector([0.6, 0.8, 0.0]) },
        }))
    );
    assert_eq!(
        metal.scatter(&hit, vector([0.6, 0.8, 0.0]), scalar(f32::MIN_POSITIVE)).map(|s| s.ray.direction),
        Some(vector([0.6, 0.8, 0.0]))
    );
}

#[test]
fn a_metal_absorbs_what_would_enter_the_surface() {
    let metal = Metal { albedo: color(0.8, 0.8, 0.8), fuzz: scalar(1.0) };
    let material = Material::Metal(metal);
    let hit = record(&material, true);
    let mut numbers = sample();
    numbers.facing = scalar(-0.2);
    assert_eq!(material.handle_ray(&hit, &numbers), HandleResult::Scattered(None));
    numbers.facing = scalar(0.0);
    assert_eq!(material.handle_ray(&hit, &numbers), HandleResult::Scattered(None));
    numbers.facing = scalar(-0.0);
    assert_eq!(material.handle_ray(&hit, &numbers), HandleResult::Scattered(None));
    numbers.facing = scalar(f32::NAN);
    assert_eq!(material.handle_ray(&hit, &numbers), HandleResult::Scattered(None));
    numbers.facing = scalar(0.5);
    numbers.reflected = vector([f32::NAN, f32::NAN, f32::NAN]);
    assert_eq!(material.handle_ray(&hit, &numbers), HandleResult::Scattered(None));
}

#[test]
fn a_mirror_hands_on_the_mirrored_direction() {
    // d = (1, -1, 0) / sqrt 2 about n = (0, 1, 0): d - 2 (d . n) n.
    let d = [std::f32::consts::FRAC_1_SQRT_2, -std::f32::consts::FRAC_1_SQRT_2, 0.0];
    let n = [0.0f32, 1.0, 0.0];
    let along = d[0] * n[0] + d[1] * n[1] + d[2] * n[2];
    let mirrored = [d[0] - 2.0 * along * n[0], d[1] - 2.0 * along * n[1], d[2] - 2.0 * along * n[2]];
    let facing = mirrored[0] * n[0] + mirrored[1] * n[1] + mirrored[2] * n[2];
    let metal = Metal { albedo: color(1.0, 1.0, 1.0), fuzz: scalar(0.0) };
    let material = Material::Metal(metal);
    let hit = record(&material, true);
    let scattered = metal.scatter(&hit, vector(mirrored), scalar(facing)).unwrap();
    let out = scattered.ray.direction;
    assert_eq!(out, vector([d[0], -d[1], d[2]]));
    assert_eq!(scattered.ray.origin, hit.point);
}

#[test]
fn glass_refracts_when_the_draw_is_not_below_the_reflectance() {
    let material = Material::Dielectric(Dielectric { refractive_idx: scalar(1.5) });
    let hit = record(&material, true);
    let result = material.handle_ray(&hit, &sample());
    assert_eq!(
        result,
        HandleResult::Scattered(Some(Scattered {
            attenuation: color(1.0, 1.0, 1.0),
            ray: Ray { origin: vector([1.0, 2.0, 3.0]), direction: vector([0.3, -0.9, 0.1]) },
        }))
    );
    let mut numbers = sample();
    numbers.draw = scalar(0.05);
    match material.handle_ray(&hit, &numbers) {
        HandleResult::Scattered(Some(scattered)) => assert_eq!(scattered.ray.direction, numbers.refracted),
        _ => panic!("glass scatters"),
    }
}

#[test]
fn glass_reflects_when_the_draw_is_below_the_reflectance() {
    let material = Material::Dielectric(Dielectric { refractive_idx: scalar(1.5) });
    let hit = record(&material, true);
    let mut numbers = sample();
    numbers.draw = scalar(0.04);
    assert_eq!(
        material.handle_ray(&hit, &numbers),
        HandleResult::Scattered(Some(Scattered {
            attenuation: color(1.0, 1.0, 1.0),
            ray: Ray { origin: vector([1.0, 2.0, 3.0]), direction: vector([0.6, 0.8, 0.0]) },
        }))
    );
}

#[test]
fn glass_reflects_all_light_past_the_critical_angle() {
    let material = Material::Dielectric(Dielectric { refractive_idx: scalar(1.5) });
    let hit = record(&material, false);
    let mut numbers = sample();
    numbers.sine = scalar(1.2);
    numbers.draw = scalar(0.999);
    numbers.refracted = vector([f32::NAN, f32::NAN, f32::NAN]);
    match material.handle_ray(&hit, &numbers) {
        HandleResult::Scattered(Some(scattered)) => {
            assert_eq!(scattered.ray.direction, numbers.reflected);
            assert_eq!(scattered.attenuation, color(1.0, 1.0, 1.0));
        }
        _ => panic!("glass scatters"),
    }
    numbers.sine = scalar(1.0);
    assert_eq!(material.handle_ray(&hit, &numbers), HandleResult::Scattered(None));
}

#[test]
fn glass_of_index_one_and_no_reflectance_passes_light_straight_on() {
    // With both indices equal the bent direction is the incoming one.
    let glass = Dielectric { refractive_idx: scalar(1.0) };
    let material = Material::Dielectric(glass);
    let hit = record(&material, true);
    let incoming = [0.6f32, -0.8, 0.0];
    let numbers = Sample {
        diffuse: vector([0.0, 0.0, 0.0]),
        reflected: vector([0.6, 0.8, 0.0]),
        facing: scalar(0.8),
        refracted: vector(incoming),
        sine: scalar(0.6),
        reflectance: scalar(0.0),
        draw: scalar(0.0),
    };
    let scattered = glass.scatter(&hit, &numbers).unwrap();
    assert_eq!(scattered.ray.direction, vector(incoming));
    assert_eq!(scattered.ray.origin, hit.point);
}

#[test]
fn the_index_ratio_turns_with_the_face() {
    let glass = Dielectric { refractive_idx: scalar(1.5) };
    let material = Material::Dielectric(glass);
    let reciprocal = scalar(1.0 / 1.5);
    assert_eq!(glass.ratio(&record(&material, true), reciprocal), reciprocal);
    assert_eq!(glass.ratio(&record(&material, false), reciprocal), scalar(1.5));
}

#[test]
fn the_cosine_is_the_negated_dot_product_capped_at_one() {
    assert_eq!(Dielectric::cosine(scalar(-0.25)), scalar(0.25));
    assert_eq!(Dielectric::cosine(scalar(-1.0)), scalar(1.0));
    assert_eq!(Dielectric::cosine(scalar(-1.0000001)), scalar(1.0));
    assert_eq!(Dielectric::cosine(scalar(-7.0)), scalar(1.0));
    assert_eq!(Dielectric::cosine(scalar(0.5)), scalar(-0.5));
    assert_eq!(Dielectric::cosine(scalar(0.0)), scalar(-0.0));
    assert_eq!(Dielectric::cosine(scalar(f32::NAN)), scalar(1.0));
}

#[test]
fn a_light_emits_and_does_not_scatter() {
    let material = Material::DiffuseLight(DiffuseLight { emission: color(100.0, 100.0, 60.0) });
    let hit = record(&material, true);
    assert_eq!(
        material.handle_ray(&hit, &sample()),
        HandleResult::Emitted { color: color(100.0, 100.0, 60.0) }
    );
}

#[test]
fn only_a_light_emits() {
    let light = Material::DiffuseLight(DiffuseLight { emission: color(60.0, 60.0, 60.0) });
    assert_eq!(light.emit(), Some(color(60.0, 60.0, 60.0)));
    assert_eq!(Material::Lambertian(Lambertian { albedo: color(0.7, 0.3, 0.3) }).emit(), None);
    assert_eq!(Material::Metal(Metal { albedo: color(0.8, 0.8, 0.8), fuzz: scalar(0.3) }).emit(), None);
    assert_eq!(Material::Dielectric(Dielectric { refractive_idx: scalar(1.5) }).emit(), None);
}

#[test]
fn no_material_sends_light_along_the_zero_vector() {
    let zero = vector([0.0, -0.0, 0.0]);
    let matte = Material::Lambertian(Lambertian { albedo: color(0.8, 0.8, 0.9) });
    let mut numbers = sample();
    numbers.diffuse = zero;
    assert_eq!(matte.handle_ray(&record(&matte, true), &numbers), HandleResult::Scattered(None));
    let metal = Material::Metal(Metal { albedo: color(0.8, 0.8, 0.8), fuzz: scalar(0.3) });
    let mut numbers = sample();
    numbers.reflected = zero;
    assert_eq!(metal.handle_ray(&record(&metal, true), &numbers), HandleResult::Scattered(None));
    let glass = Material::Dielectric(Dielectric { refractive_idx: scalar(1.5) });
    let mut numbers = sample();
    numbers.refracted = zero;
    assert_eq!(glass.handle_ray(&record(&glass, true), &numbers), HandleResult::Scattered(None));
    let mut numbers = sample();
    numbers.reflected = zero;
    numbers.draw = scalar(0.0);
    assert_eq!(glass.handle_ray(&record(&glass, true), &numbers), HandleResult::Scattered(None));
}
