use oorandom::Rand32;
use pt::image::encode_image;
use pt::material::Lambertian;
use pt::material::Material;
use pt::material::Sample;
use pt::object::hit_iter;
use pt::object::Crossing;
use pt::object::Intersection;
use pt::object::Object;
use pt::object::Sphere;
use pt::ray::Ray;
use pt::render::coordinates;
use pt::render::pixel_index;
use pt::render::raster;
use pt::render::ray_color;
use pt::render::search_range;
use pt::render::Step;
use pt::rgb::Rgb;
use pt::scalar::Scalar;
use ultraviolet::Vec3;

const WIDTH: u16 = 16;
const HEIGHT: u16 = 9;
const SAMPLES: u16 = 8;
const DEPTH: u16 = 10;

fn scalar(x: f32) -> Scalar {
    Scalar::from_bits(x.to_bits())
}

fn number(s: Scalar) -> f32 {
    f32::from_bits(s.to_bits())
}

fn vector(v: Vec3) -> pt::vector::Vec3 {
    pt::vector::Vec3::new(scalar(v.x), scalar(v.y), scalar(v.z))
}

fn arrow(v: pt::vector::Vec3) -> Vec3 {
    Vec3::new(number(v.x), number(v.y), number(v.z))
}

fn crossing(sphere: &Sphere, origin: Vec3, direction: Vec3, t: f32) -> Crossing {
    let point = origin + t * direction;
    let outward_normal = (point - arrow(sphere.center)) / number(sphere.radius);
    Crossing {
        t: scalar(t),
        point: vector(point),
        outward_normal: vector(outward_normal),
        facing: scalar(direction.dot(outward_normal)),
    }
}

fn intersect(object: &Object, origin: Vec3, direction: Vec3) -> Intersection {
    let Object::Sphere(sphere) = object;
    let radius = number(sphere.radius);
    let oc = origin - arrow(sphere.center);
    let a = direction.mag_sq();
    let half_b = oc.dot(direction);
    let c = oc.mag_sq() - radius * radius;
    let discriminant = half_b * half_b - a * c;
    let root = discriminant.sqrt();
    Intersection {
        discriminant: scalar(discriminant),
        near: crossing(sphere, origin, direction, (-half_b - root) / a),
        far: crossing(sphere, origin, direction, (-half_b + root) / a),
    }
}

fn unit_vector(rng: &mut Rand32) -> Vec3 {
    let a = 2.0 * std::f32::consts::PI * rng.rand_float();
    let z = -1.0 + 2.0 * rng.rand_float();
    let r = (1.0 - z * z).sqrt();
    Vec3::new(r * a.cos(), r * a.sin(), z)
}

/// A vertical gradient from white at the horizon to blue at the zenith.
fn sky(direction: Vec3) -> Rgb {
    let t = 0.5 * (direction.normalized().y + 1.0);
    let shade = (1.0 - t) * Vec3::new(1.0, 1.0, 1.0) + t * Vec3::new(0.5, 0.7, 1.0);
    Rgb::new(scalar(shade.x), scalar(shade.y), scalar(shade.z))
}

fn radiance(world: &[Object], origin: Vec3, direction: Vec3, rng: &mut Rand32) -> Vec3 {
    let mut origin = origin;
    let mut direction = direction;
    let mut depth = DEPTH;
    let mut throughput = Vec3::new(1.0, 1.0, 1.0);
    loop {
        let ray = Ray { origin: vector(origin), direction: vector(direction) };
        let hit = match search_range(&ray, depth) {
            Some(t_range) => {
                let found: Vec<Intersection> =
                    world.iter().map(|object| intersect(object, origin, direction)).collect();
                hit_iter(world, &found, t_range)
            }
            None => None,
        };
        let nothing = vector(Vec3::new(0.0, 0.0, 0.0));
        let mut numbers = Sample {
            diffuse: nothing,
            reflected: nothing,
            facing: scalar(0.0),
            refracted: nothing,
            sine: scalar(0.0),
            reflectance: scalar(0.0),
            draw: scalar(0.0),
        };
        if let Some(record) = &hit {
            numbers.diffuse = vector(arrow(record.normal) + unit_vector(rng));
        }
        match ray_color(&ray, hit, &numbers, sky(direction), depth) {
            Step::Done { color } => return throughput * arrow(color.0),
            Step::Bounce { attenuation, ray, depth: left } => {
                throughput = throughput * arrow(attenuation.0);
                origin = arrow(ray.origin);
                direction = arrow(ray.direction);
                depth = left;
            }
        }
    }
}

fn render(seed: u64) -> Vec<u8> {
    let ground = Sphere::new(
        vector(Vec3::new(0.0, -100.5, -1.0)),
        scalar(100.0),
        Material::Lambertian(Lambertian {
            albedo: Rgb::new(scalar(0.5), scalar(0.5), scalar(0.5)),
        }),
    )
    .unwrap();
    let world = vec![Object::Sphere(ground)];
    let eye = Vec3::new(0.0, 0.0, 0.0);
    let lower_left = Vec3::new(-16.0 / 9.0, -1.0, -1.0);
    let horizontal = Vec3::new(32.0 / 9.0, 0.0, 0.0);
    let vertical = Vec3::new(0.0, 2.0, 0.0);
    let count = usize::from(WIDTH) * usize::from(HEIGHT);
    let mut pixels: Vec<Rgb> = Vec::with_capacity(count);
    for index in 0..count {
        let (x, y) = coordinates(index, WIDTH, HEIGHT).unwrap();
        let mut rng = Rand32::new_inc(seed, index as u64);
        let mut sum = Vec3::new(0.0, 0.0, 0.0);
        for _ in 0..SAMPLES {
            let u = (f32::from(x) + rng.rand_float()) / (f32::from(WIDTH) - 1.0);
            let v = (f32::from(y) + rng.rand_float()) / (f32::from(HEIGHT) - 1.0);
            let direction = lower_left + u * horizontal + v * vertical - eye;
            sum += radiance(&world, eye, direction, &mut rng);
        }
        pixels.push(Rgb::new(scalar(sum.x), scalar(sum.y), scalar(sum.z)));
    }
    raster(&pixels, SAMPLES)
}

#[test]
fn one_seed_gives_one_picture() {
    let first = render(7);
    let second = render(7);
    assert_eq!(first.len(), 3 * usize::from(WIDTH) * usize::from(HEIGHT));
    assert_eq!(first, second);
    assert_eq!(encode_image(&first, WIDTH, HEIGHT), encode_image(&second, WIDTH, HEIGHT));
    let other = render(8);
    assert_ne!(first, other);
}

#[test]
fn the_sky_is_above_and_the_ground_below() {
    let picture = render(7);
    // The top row comes first, and shows the sky: blue at full strength,
    // red and green below it, nothing in shadow.
    for x in 0..WIDTH {
        let at = 3 * pixel_index(x, HEIGHT - 1, WIDTH, HEIGHT).unwrap();
        assert!(at < 3 * usize::from(WIDTH));
        let (red, green, blue) = (picture[at], picture[at + 1], picture[at + 2]);
        assert_eq!(blue, 255);
        assert!(red < green && green < blue);
        assert!(red > 180);
    }
    // The bottom row comes last, and shows the ground: grey, lit by the
    // sky, darker than the sky.
    for x in 0..WIDTH {
        let at = 3 * pixel_index(x, 0, WIDTH, HEIGHT).unwrap();
        assert!(at >= 3 * usize::from(WIDTH) * usize::from(HEIGHT - 1));
        let (red, green, blue) = (picture[at], picture[at + 1], picture[at + 2]);
        assert!(red > 60 && red < 230, "red is {}", red);
        assert!(blue >= red);
        assert!(blue < 255);
        assert!(green >= red && green <= blue);
    }
}

#[test]
fn the_picture_survives_its_encoding() {
    let picture = render(7);
    let stream = encode_image(&picture, WIDTH, HEIGHT).unwrap();
    let decoder = png::Decoder::new(std::io::Cursor::new(stream));
    let mut reader = decoder.read_info().unwrap();
    let mut decoded = vec![0u8; reader.output_buffer_size().unwrap()];
    let info = reader.next_frame(&mut decoded).unwrap();
    decoded.truncate(info.buffer_size());
    assert_eq!(info.width, u32::from(WIDTH));
    assert_eq!(info.height, u32::from(HEIGHT));
    assert_eq!(decoded, picture);
}
