//! Whole renders and whole intersections, with the arithmetic done here in
//! binary64 and every decision taken by the library.

use raytrace::arithmetic::Arithmetic;
use raytrace::hit::{
    nearest_hit, Crossing, Crossings, Hit, Hittable, HittableList, Interval, Sphere,
};
use raytrace::material::{Dielectric, Lambertian, Material};
use raytrace::ray::Ray;
use raytrace::render::{render, ImageSettings, RenderSettings};
use raytrace::scalar::Scalar;
use raytrace::trace::ray_color;
use raytrace::vec3::Vec3;

type V = [f64; 3];

fn s(x: f64) -> Scalar {
    Scalar::from_bits(x.to_bits())
}

fn f(x: Scalar) -> f64 {
    f64::from_bits(x.to_bits())
}

fn pack(v: V) -> Vec3 {
    Vec3(s(v[0]), s(v[1]), s(v[2]))
}

fn unpack(v: Vec3) -> V {
    [f(v.0), f(v.1), f(v.2)]
}

fn add(a: V, b: V) -> V {
    [a[0] + b[0], a[1] + b[1], a[2] + b[2]]
}

fn sub(a: V, b: V) -> V {
    [a[0] - b[0], a[1] - b[1], a[2] - b[2]]
}

fn scale(c: f64, a: V) -> V {
    [c * a[0], c * a[1], c * a[2]]
}

fn dot(a: V, b: V) -> f64 {
    a[0] * b[0] + a[1] * b[1] + a[2] * b[2]
}

fn unit(a: V) -> V {
    scale(1.0 / dot(a, a).sqrt(), a)
}

fn reflect(v: V, n: V) -> V {
    sub(v, scale(2.0 * dot(v, n), n))
}

fn ball(center: V, radius: f64, material: Material) -> Sphere {
    Sphere { center: pack(center), radius: s(radius), material }
}

fn matte(albedo: V) -> Material {
    Material::Lambertian(Lambertian { albedo: pack(albedo) })
}

fn crossings(sphere: &Sphere, ray: &Ray) -> Crossings {
    let center = unpack(sphere.center);
    let radius = f(sphere.radius);
    let origin = unpack(ray.origin);
    let direction = unpack(ray.direction);
    let oc = sub(origin, center);
    let a = dot(direction, direction);
    let half_b = dot(oc, direction);
    let c = dot(oc, oc) - radius * radius;
    let discriminant = half_b * half_b - a * c;
    let root = discriminant.sqrt();
    let at = |t: f64| {
        let point = add(origin, scale(t, direction));
        let outward = scale(1.0 / radius, sub(point, center));
        Crossing {
            t: s(t),
            point: pack(point),
            outward_normal: pack(outward),
            facing: s(dot(direction, outward)),
        }
    };
    Crossings {
        discriminant: s(discriminant),
        near: at((-half_b - root) / a),
        far: at((-half_b + root) / a),
    }
}

fn look(spheres: &Vec<Sphere>, ray: &Ray, range: Interval) -> Option<(usize, Hit)> {
    let all: Vec<Crossings> = spheres.iter().map(|sphere| crossings(sphere, ray)).collect();
    nearest_hit(spheres, &all, range)
}

fn background(ray: &Ray) -> Vec3 {
    let t = 0.5 * (unit(unpack(ray.direction))[1] + 1.0);
    pack(add(scale(1.0 - t, [1.0, 1.0, 1.0]), scale(t, [0.5, 0.7, 1.0])))
}

/// A pinhole camera at the origin that looks down `-z`, with a vertical
/// field of view of ninety degrees and the sample in the middle of the pixel.
fn camera_ray(image: &ImageSettings, i: u32, j: u32) -> Ray {
    let aspect = image.width as f64 / image.height as f64;
    let u = (i as f64 + 0.5) / (image.width as f64 - 1.0);
    let v = (j as f64 + 0.5) / (image.height as f64 - 1.0);
    let lower_left = [-aspect, -1.0, -1.0];
    let target = add(lower_left, [2.0 * aspect * u, 2.0 * v, 0.0]);
    Ray::new(pack([0.0, 0.0, 0.0]), pack(target))
}

fn two_spheres() -> Hittable {
    Hittable::List(HittableList {
        hittables: vec![
            Hittable::Sphere(ball([0.0, 0.0, -1.0], 0.5, matte([0.5, 0.5, 0.5]))),
            Hittable::Sphere(ball([0.0, -100.5, -1.0], 100.0, matte([0.5, 0.5, 0.5]))),
        ],
    })
}

/// Binary64 arithmetic without chance: the random unit vector is
/// `(0, 1, 0)`, the random point of the unit sphere is the origin, the sample
/// of a pixel lies in its middle, and the number drawn is `draw`.
struct Floats {
    image: ImageSettings,
    draw: f64,
}

fn floats() -> Floats {
    Floats { image: ImageSettings { width: 400, height: 225 }, draw: 0.5 }
}

impl Arithmetic for Floats {
    fn solve(&self, sphere: Sphere, ray: Ray) -> Crossings {
        crossings(&sphere, &ray)
    }

    fn diffuse(&self, normal: Vec3) -> Vec3 {
        pack(add(unpack(normal), [0.0, 1.0, 0.0]))
    }

    fn mirror(&self, direction: Vec3, normal: Vec3, _: Scalar) -> (Vec3, Scalar) {
        let reflected = reflect(unit(unpack(direction)), unpack(normal));
        (pack(reflected), s(dot(reflected, unpack(normal))))
    }

    fn inverse(&self, x: Scalar) -> Scalar {
        s(1.0 / f(x))
    }

    fn projection(&self, direction: Vec3, normal: Vec3) -> Scalar {
        s(dot(scale(-1.0, unit(unpack(direction))), unpack(normal)))
    }

    fn bend(&self, ratio: Scalar, cos_theta: Scalar) -> Scalar {
        s(f(ratio) * (1.0 - f(cos_theta) * f(cos_theta)).sqrt())
    }

    fn reflectance(&self, index: Scalar, cos_theta: Scalar) -> Scalar {
        let r0 = ((1.0 - f(index)) / (1.0 + f(index))).powi(2);
        s(r0 + (1.0 - r0) * (1.0 - f(cos_theta)).powi(5))
    }

    fn uniform(&self) -> Scalar {
        s(self.draw)
    }

    fn reflect(&self, direction: Vec3, normal: Vec3) -> Vec3 {
        pack(reflect(unit(unpack(direction)), unpack(normal)))
    }

    fn refract(&self, direction: Vec3, normal: Vec3, ratio: Scalar) -> Vec3 {
        let (d, n) = (unit(unpack(direction)), unpack(normal));
        let cos_theta = dot(scale(-1.0, d), n);
        let across = scale(f(ratio), add(d, scale(cos_theta, n)));
        let along = scale(-(1.0 - dot(across, across)).abs().sqrt(), n);
        pack(add(across, along))
    }

    fn background(&self, ray: Ray) -> Vec3 {
        background(&ray)
    }

    fn tint(&self, attenuation: Vec3, colour: Vec3) -> Vec3 {
        let (a, b) = (unpack(attenuation), unpack(colour));
        pack([a[0] * b[0], a[1] * b[1], a[2] * b[2]])
    }

    fn camera_ray(&self, i: u32, j: u32) -> Ray {
        camera_ray(&self.image, i, j)
    }

    fn plus(&self, a: Vec3, b: Vec3) -> Vec3 {
        pack(add(unpack(a), unpack(b)))
    }

    fn average(&self, sum: Scalar, samples: u32) -> Scalar {
        s(f(sum) / f64::from(samples))
    }

    fn scale(&self, x: Scalar) -> Scalar {
        s(255.0 * f(x))
    }
}

fn shade(scene: &Hittable, ray: Ray, depth: u32) -> Vec3 {
    ray_color(ray, scene, depth, &floats())
}

fn to_bytes(colour: Vec3) -> [u8; 3] {
    let byte = |c: f64| (255.0 * c.min(0.999).max(0.0)) as u8;
    let c = unpack(colour);
    [byte(c[0]), byte(c[1]), byte(c[2])]
}

#[test]
fn sphere_on_the_ground_at_depth_one() {
    let image = ImageSettings { width: 400, height: 225 };
    let settings = RenderSettings { samples_per_pixel: 1, max_depth: 1, thread_count: 1 };
    let scene = two_spheres();
    let bytes = render(&scene, &image, &settings, &floats());
    assert_eq!(bytes.len(), 400 * 225 * 3);

    // The top row sees nothing but the background.
    for i in 0..400u32 {
        let expected = to_bytes(background(&camera_ray(&image, i, 224)));
        assert_eq!(&bytes[3 * i as usize..3 * i as usize + 3], &expected);
        assert_eq!(image.place(i, 224), i as u64);
    }

    // The centre pixel sees the sphere, which is black at depth one.
    let centre = image.place(200, 112) as usize;
    assert_eq!(centre, 112 * 400 + 200);
    let behind = to_bytes(background(&camera_ray(&image, 200, 112)));
    assert_ne!(&bytes[3 * centre..3 * centre + 3], &behind);
    assert_eq!(&bytes[3 * centre..3 * centre + 3], &[0, 0, 0]);

    // The bottom row sees the ground.
    let bottom = image.place(200, 0) as usize;
    assert_eq!(&bytes[3 * bottom..3 * bottom + 3], &[0, 0, 0]);
}

#[test]
fn diffuse_sphere_does_not_amplify_the_background() {
    let image = ImageSettings { width: 400, height: 225 };
    let scene = two_spheres();
    let spheres = scene.spheres();
    let ray = camera_ray(&image, 200, 140);
    let (index, hit) = look(&spheres, &ray, Interval::forward()).unwrap();
    assert_eq!(index, 0);
    assert_eq!(scene.hit(ray, Interval::forward(), &floats()), Some(hit));
    let scattered = Ray::new(hit.point, pack(add(unpack(hit.normal), [0.0, 1.0, 0.0])));
    assert!(look(&spheres, &scattered, Interval::forward()).is_none());
    let seen = unpack(shade(&scene, ray, 2));
    let sky = unpack(background(&scattered));
    for c in 0..3 {
        assert_eq!(seen[c], 0.5 * sky[c]);
        assert!(seen[c] <= sky[c]);
    }
}

#[test]
fn ray_through_three_spheres_hits_the_nearest() {
    let towards = Ray::new(pack([0.0, 0.0, 0.0]), pack([0.0, 0.0, -1.0]));
    let near = ball([0.0, 0.0, -2.0], 0.5, matte([0.1, 0.1, 0.1]));
    let middle = ball([0.0, 0.0, -5.0], 1.0, matte([0.2, 0.2, 0.2]));
    let far = ball([0.0, 0.0, -9.0], 2.0, matte([0.3, 0.3, 0.3]));
    let orders = [
        vec![near, middle, far],
        vec![far, middle, near],
        vec![middle, near, far],
        vec![far, near, middle],
    ];
    for spheres in orders {
        let alone: Vec<f64> = spheres
            .iter()
            .map(|sphere| f(sphere.hit(towards, Interval::forward(), &floats()).unwrap().t))
            .collect();
        let least = alone.iter().cloned().fold(f64::INFINITY, f64::min);
        let (index, hit) = look(&spheres, &towards, Interval::forward()).unwrap();
        assert_eq!(f(hit.t), least);
        assert_eq!(f(hit.t), 1.5);
        assert_eq!(spheres[index], near);
        assert!(hit.front_face);
        assert_eq!(unpack(hit.point), [0.0, 0.0, -1.5]);
        assert_eq!(unpack(hit.normal), [0.0, 0.0, 1.0]);
    }
}

#[test]
fn ray_from_inside_hits_the_back_face() {
    let spheres = vec![ball([0.0, 0.0, 0.0], 2.0, matte([0.5, 0.5, 0.5]))];
    let out = Ray::new(pack([0.0, 0.0, 0.0]), pack([1.0, 0.0, 0.0]));
    let (_, hit) = look(&spheres, &out, Interval::forward()).unwrap();
    assert_eq!(f(hit.t), 2.0);
    assert!(!hit.front_face);
    assert_eq!(unpack(hit.normal), [-1.0, 0.0, 0.0]);
    assert!(dot(unpack(out.direction), unpack(hit.normal)) <= 0.0);
}

#[test]
fn hollow_shell_turns_its_normals_inward() {
    let spheres = vec![ball([0.0, 0.0, -3.0], -1.0, matte([0.5, 0.5, 0.5]))];
    let towards = Ray::new(pack([0.0, 0.0, 0.0]), pack([0.0, 0.0, -1.0]));
    let (_, hit) = look(&spheres, &towards, Interval::forward()).unwrap();
    assert_eq!(f(hit.t), 2.0);
    assert!(!hit.front_face);
    assert!(dot(unpack(towards.direction), unpack(hit.normal)) <= 0.0);
}

#[test]
fn ray_that_passes_by_hits_nothing() {
    let scene = two_spheres();
    let spheres = scene.spheres();
    let up = Ray::new(pack([0.0, 0.0, 0.0]), pack([0.0, 1.0, 0.0]));
    assert!(look(&spheres, &up, Interval::forward()).is_none());
    assert!(scene.hit(up, Interval::forward(), &floats()).is_none());
    let still = Ray::new(pack([0.0, 0.0, 0.0]), pack([0.0, 0.0, 0.0]));
    assert!(look(&spheres, &still, Interval::forward()).is_none());
    assert!(scene.hit(still, Interval::forward(), &floats()).is_none());
}

#[test]
fn glass_reflects_totally_beyond_the_critical_angle() {
    let glass = Dielectric { refraction_index: s(1.5) };
    let spheres = vec![ball([0.0, 0.0, 0.0], 1.0, Material::Dielectric(glass))];
    // Rays from inside the sphere, ever more oblique to the surface.
    for offset in [0.7, 0.75, 0.8, 0.9, 0.95, 0.99] {
        let ray = Ray::new(pack([0.0, offset, 0.0]), pack([1.0, 0.0, 0.0]));
        let (_, hit) = look(&spheres, &ray, Interval::forward()).unwrap();
        assert!(!hit.front_face);
        let direction = unit(unpack(ray.direction));
        let normal = unpack(hit.normal);
        let sin_theta = (1.0 - dot(direction, normal).powi(2)).sqrt();
        assert!(sin_theta > 1.0 / 1.5);
        let reflected = pack(reflect(direction, normal));
        for draw in [0.0, 0.1, 0.5, 0.9, 0.9999999] {
            let ops = Floats { draw, ..floats() };
            let (attenuation, out) = glass.scatter(&ray, &hit, &ops).unwrap();
            assert_eq!(attenuation, Vec3::one());
            assert_eq!(out, Ray::new(hit.point, reflected));
            assert_eq!(hit.material.scatter(&ray, &hit, &ops), Some((attenuation, out)));
        }
        // The plain decision says the same of the computed quantities.
        let product = s(1.5 * sin_theta);
        assert!(Dielectric::must_reflect(product));
    }
}

#[test]
fn glass_refracts_a_steep_ray_when_the_draw_is_high() {
    let glass = Dielectric { refraction_index: s(1.5) };
    let spheres = vec![ball([0.0, 0.0, 0.0], 1.0, Material::Dielectric(glass))];
    let ray = Ray::new(pack([0.0, 0.1, 0.0]), pack([1.0, 0.0, 0.0]));
    let (_, hit) = look(&spheres, &ray, Interval::forward()).unwrap();
    let direction = unit(unpack(ray.direction));
    let reflected = pack(reflect(direction, unpack(hit.normal)));
    let high = Floats { draw: 0.9, ..floats() };
    let (_, out) = glass.scatter(&ray, &hit, &high).unwrap();
    assert_ne!(out.direction, reflected);
    assert_eq!(out.direction, high.refract(ray.direction, hit.normal, s(1.5)));
    // Leaving glass above the axis, the ray bends away from the normal: downward.
    assert!(f(out.direction.1) < 0.0);
    assert!(f(out.direction.0) > 0.0);
    let low = Floats { draw: 0.01, ..floats() };
    let (_, out) = glass.scatter(&ray, &hit, &low).unwrap();
    assert_eq!(out.direction, reflected);
}
