use ray_tracer::aabb::{Slab, AABB};
use ray_tracer::camera::{Camera, CameraBuilder, CameraFrame, PathStep, Shading};
use ray_tracer::color::{intensity, linear_to_gamma, push_decimal, push_signed, quantize, Color};
use ray_tracer::hittable::{HitRecord, Hittable, HittableList, Probes};
use ray_tracer::quad::{PlaneCrossing, Quad};
use ray_tracer::interval::Interval;
use ray_tracer::material::{
    Dielectric, GlassPaths, Lambertian, Material, Metal, MirrorPath, ScatterRecord, Scattering,
};
use ray_tracer::texture::Texture;
use ray_tracer::ray::Ray;
use ray_tracer::scalar::Scalar;
use ray_tracer::sphere::{Sphere, SphereRoots, SurfacePoint};
use ray_tracer::vec::Vec3;
use std::sync::Arc;

fn s(x: f64) -> Scalar {
    Scalar::from_bits(x.to_bits())
}

fn f(x: Scalar) -> f64 {
    f64::from_bits(x.to_bits())
}

fn v(a: [f64; 3]) -> Vec3 {
    Vec3::new(s(a[0]), s(a[1]), s(a[2]))
}

fn a(p: &Vec3) -> [f64; 3] {
    [f(p.x()), f(p.y()), f(p.z())]
}

fn dot(p: [f64; 3], q: [f64; 3]) -> f64 {
    p[0] * q[0] + p[1] * q[1] + p[2] * q[2]
}

fn unit(p: [f64; 3]) -> [f64; 3] {
    let len = dot(p, p).sqrt();
    [p[0] / len, p[1] / len, p[2] / len]
}

fn roots(sphere: &Sphere, r: &Ray) -> SphereRoots {
    let origin = a(r.origin());
    let dir = a(r.direction());
    let center = a(sphere.center.origin());
    let radius = f(sphere.radius);
    let oc = [center[0] - origin[0], center[1] - origin[1], center[2] - origin[2]];
    let aa = dot(dir, dir);
    let h = dot(dir, oc);
    let c = dot(oc, oc) - radius * radius;
    let discriminant = h * h - aa * c;
    let sqrtd = discriminant.sqrt();
    SphereRoots { discriminant: s(discriminant), near: s((h - sqrtd) / aa), far: s((h + sqrtd) / aa) }
}

fn surface(sphere: &Sphere, r: &Ray, t: Scalar) -> SurfacePoint {
    let origin = a(r.origin());
    let dir = a(r.direction());
    let center = a(sphere.center.origin());
    let radius = f(sphere.radius);
    let t = f(t);
    let p = [origin[0] + t * dir[0], origin[1] + t * dir[1], origin[2] + t * dir[2]];
    let outward = [(p[0] - center[0]) / radius, (p[1] - center[1]) / radius, (p[2] - center[2]) / radius];
    SurfacePoint { p: v(p), outward_normal: v(outward), facing: s(dot(dir, outward)), u: s(0.0), v: s(0.0) }
}

fn crossing(_quad: &Quad, _r: &Ray) -> PlaneCrossing {
    PlaneCrossing { denom: s(0.0), t: s(0.0), p: v([0.0, 0.0, 0.0]), alpha: s(0.0), beta: s(0.0) }
}

type Kit = Probes<
    fn(&AABB, &Ray) -> (Slab, Slab, Slab),
    fn(&Sphere, &Ray) -> SphereRoots,
    fn(&Sphere, &Ray, Scalar) -> SurfacePoint,
    fn(&Quad, &Ray) -> PlaneCrossing,
>;

fn kit() -> Kit {
    Probes { slabs, roots, surface, crossing }
}

type Light = Shading<
    fn(Scalar, &Vec3) -> (i32, i32, i32),
    fn(&Texture, Scalar, Scalar, &Vec3) -> Color,
    fn(&Ray, &HitRecord) -> Vec3,
    fn(&Metal, &Ray, &HitRecord) -> MirrorPath,
    fn(&Dielectric, &Ray, &HitRecord) -> GlassPaths,
    fn(&Ray) -> Color,
    fn(Color, Color) -> Color,
>;

fn light() -> Light {
    Shading { scattering: Scattering { cell, sample, diffuse, mirror, glass }, sky, tint }
}

fn slabs(b: &AABB, r: &Ray) -> (Slab, Slab, Slab) {
    let origin = a(r.origin());
    let dir = a(r.direction());
    let one = |range: &Interval, k: usize| Slab {
        t0: s((f(range.min) - origin[k]) * (1.0 / dir[k])),
        t1: s((f(range.max) - origin[k]) * (1.0 / dir[k])),
    };
    (one(&b.x, 0), one(&b.y, 1), one(&b.z, 2))
}

fn extent(range: &Interval) -> Scalar {
    s(f(range.max) - f(range.min))
}

fn widen(range: &Interval) -> Interval {
    Interval::new(s(f(range.min) - 0.00005), s(f(range.max) + 0.00005))
}

fn cell(_scale: Scalar, _p: &Vec3) -> (i32, i32, i32) {
    (0, 0, 0)
}

fn sample(_texture: &Texture, _u: Scalar, _v: Scalar, _p: &Vec3) -> Color {
    v([0.25, 0.25, 0.25])
}

// the normal plus a fixed unit vector, in place of a random one
fn diffuse(_r: &Ray, rec: &HitRecord) -> Vec3 {
    let n = a(&rec.normal);
    v([n[0] + 0.6, n[1] + 0.0, n[2] + 0.8])
}

// a way that leads into the surface: the mirror absorbs
fn mirror(_metal: &Metal, _r: &Ray, rec: &HitRecord) -> MirrorPath {
    MirrorPath { direction: rec.normal.neg(), facing: s(-1.0) }
}

fn glass(_glass: &Dielectric, r: &Ray, _rec: &HitRecord) -> GlassPaths {
    GlassPaths {
        reflected: *r.direction(),
        refracted: *r.direction(),
        ratio_sine: s(0.0),
        reflectance: s(0.0),
        draw: s(0.5),
    }
}

fn sky(r: &Ray) -> Color {
    let d = unit(a(r.direction()));
    let t = 0.5 * (d[1] + 1.0);
    v([(1.0 - t) + t * 0.5, (1.0 - t) + t * 0.7, (1.0 - t) + t * 1.0])
}

fn tint(x: Color, y: Color) -> Color {
    v([f(x.x()) * f(y.x()), f(x.y()) * f(y.y()), f(x.z()) * f(y.z())])
}

fn bound_sphere(center: &Ray, radius: Scalar) -> AABB {
    let c = a(center.origin());
    let r = f(radius);
    AABB::from_points(
        v([c[0] - r, c[1] - r, c[2] - r]),
        v([c[0] + r, c[1] + r, c[2] + r]),
        &extent,
        &widen,
    )
}

fn world_of(mat: Material) -> HittableList {
    let mut world = HittableList::new();
    world.add(Arc::new(Hittable::Sphere(Sphere::new(
        v([0.0, 0.0, -1.0]),
        s(0.5),
        Arc::new(mat),
        &bound_sphere,
    ))));
    assert_eq!(f(world.bounding_box().z.min), -1.5);
    world
}

fn one_ball_world() -> HittableList {
    world_of(Material::Lambertian(Lambertian::new("ball".to_string(), v([0.5, 0.5, 0.5]))))
}

fn reference_channel(x: f64) -> u8 {
    let clamped = if x < 0.0 {
        0.0
    } else if x > 0.999 {
        0.999
    } else {
        x
    };
    (256.0 * clamped) as i32 as u8
}

#[test]
fn black_and_white_are_written_as_0_and_255() {
    let black = v([0.0, 0.0, 0.0]);
    let gamma = v([
        f(linear_to_gamma(black.x(), s(0.0f64.sqrt()))),
        f(linear_to_gamma(black.y(), s(0.0f64.sqrt()))),
        f(linear_to_gamma(black.z(), s(0.0f64.sqrt()))),
    ]);
    let mut out = Vec::new();
    gamma.write_color(&mut out);
    assert_eq!(out, b"0 0 0\n");
    let white = v([1.0, 1.0, 1.0]);
    let gamma = v([
        f(linear_to_gamma(white.x(), s(1.0f64.sqrt()))),
        f(linear_to_gamma(white.y(), s(1.0f64.sqrt()))),
        f(linear_to_gamma(white.z(), s(1.0f64.sqrt()))),
    ]);
    let mut out = Vec::new();
    gamma.write_color(&mut out);
    assert_eq!(out, b"255 255 255\n");
}

#[test]
fn channels_at_the_bounds_of_the_range() {
    assert_eq!(quantize(s(0.0)), 0);
    assert_eq!(quantize(s(-0.0)), 0);
    assert_eq!(quantize(s(-5.0)), 0);
    assert_eq!(quantize(s(0.999)), 255);
    assert_eq!(quantize(s(0.9990000000000001)), 255);
    assert_eq!(quantize(s(1.0)), 255);
    assert_eq!(quantize(s(1e300)), 255);
    assert_eq!(quantize(s(f64::INFINITY)), 255);
    assert_eq!(quantize(s(f64::NAN)), 0);
    assert_eq!(quantize(s(0.99609375)), 255);
    assert_eq!(quantize(s(0.9960937499999999)), 254);
    assert_eq!(quantize(s(0.00390625)), 1);
    assert_eq!(quantize(s(0.0039062499999999996)), 0);
    assert_eq!(quantize(s(0.5)), 128);
    assert_eq!(quantize(s(0.25)), 64);
    assert_eq!(quantize(s(1e-310)), 0);
    assert_eq!(f(intensity().min), 0.0);
    assert_eq!(f(intensity().max), 0.999);
}

#[test]
fn channels_agree_with_the_hardware() {
    let mut x = -0.25f64;
    while x < 1.25 {
        assert_eq!(quantize(s(x)), reference_channel(x), "{x}");
        x += 0.000317;
    }
    for k in 0..=256 {
        let edge = k as f64 / 256.0;
        for y in [edge, f64::from_bits(edge.to_bits().wrapping_sub(1)), f64::from_bits(edge.to_bits() + 1)] {
            if !y.is_nan() {
                assert_eq!(quantize(s(y)), reference_channel(y), "{y}");
            }
        }
    }
}

#[test]
fn the_tone_curve_is_the_root_of_what_is_positive() {
    assert_eq!(f(linear_to_gamma(s(0.25), s(0.5))), 0.5);
    assert_eq!(f(linear_to_gamma(s(0.0), s(0.0))), 0.0);
    assert_eq!(f(linear_to_gamma(s(-4.0), s(f64::NAN))), 0.0);
    assert_eq!(f(linear_to_gamma(s(f64::NAN), s(f64::NAN))), 0.0);
    assert_eq!(f(linear_to_gamma(s(4.0), s(2.0))), 2.0);
}

#[test]
fn numbers_are_written_in_decimal() {
    for n in [0u64, 7, 9, 10, 11, 99, 100, 255, 1000, 65535, 4294967295, u64::MAX] {
        let mut out = b"x".to_vec();
        push_decimal(&mut out, n);
        assert_eq!(out, format!("x{n}").into_bytes());
    }
    for n in [0i32, 5, -5, 10, -10, 400, i32::MAX, i32::MIN] {
        let mut out = Vec::new();
        push_signed(&mut out, n);
        assert_eq!(out, format!("{n}").into_bytes());
    }
}

#[test]
fn pixel_lines_are_three_channels() {
    let mut out = Vec::new();
    v([0.5, 0.0, 1.0]).write_color(&mut out);
    v([0.1, 0.2, 0.3]).write_color(&mut out);
    assert_eq!(out, b"128 0 255\n25 51 76\n");
}

#[test]
fn camera_settings() {
    let b = Camera::builder();
    assert_eq!(f(b.aspect_ratio), 1.0);
    assert_eq!(b.image_width, 100);
    assert_eq!(b.samples_per_pixel, 10);
    assert_eq!(b.max_depth, 10);
    assert_eq!(f(b.vfov), 90.0);
    assert_eq!(a(&b.lookfrom), [0.0, 0.0, 0.0]);
    assert_eq!(a(&b.lookat), [0.0, 0.0, -1.0]);
    assert_eq!(a(&b.vup), [0.0, 1.0, 0.0]);
    assert_eq!(f(b.defocus_angle), 0.0);
    assert_eq!(f(b.focus_dist), 10.0);
    let b = CameraBuilder::default()
        .aspect_ratio(s(16.0 / 9.0))
        .image_width(400)
        .samples_per_pixel(100)
        .max_depth(50)
        .vfov(s(20.0))
        .lookfrom(v([13.0, 2.0, 3.0]))
        .lookat(v([0.0, 0.0, 0.0]))
        .vup(v([0.0, 1.0, 0.0]))
        .defocus_angle(s(0.6))
        .focus_dist(s(10.0));
    assert_eq!(f(b.aspect_ratio), 16.0 / 9.0);
    assert_eq!(b.image_width, 400);
    assert_eq!(b.samples_per_pixel, 100);
    assert_eq!(b.max_depth, 50);
    assert_eq!(f(b.vfov), 20.0);
    assert_eq!(a(&b.lookfrom), [13.0, 2.0, 3.0]);
    assert_eq!(f(b.defocus_angle), 0.6);
}

#[test]
fn image_height_is_at_least_one() {
    assert_eq!(CameraBuilder::image_height(s(400.0 / (16.0 / 9.0))), 225);
    assert_eq!(CameraBuilder::image_height(s(100.0 / 1.0)), 100);
    assert_eq!(CameraBuilder::image_height(s(1.0 / 2.0)), 1);
    assert_eq!(CameraBuilder::image_height(s(0.0)), 1);
    assert_eq!(CameraBuilder::image_height(s(-7.5)), 1);
    assert_eq!(CameraBuilder::image_height(s(2.999)), 2);
    assert_eq!(CameraBuilder::image_height(s(f64::NAN)), 1);
    assert_eq!(CameraBuilder::image_height(s(f64::INFINITY)), i32::MAX);
}

fn frame() -> CameraFrame {
    CameraFrame {
        pixel_samples_scale: s(1.0),
        pixel00_loc: v([-0.5, 0.5, -1.0]),
        pixel_delta_u: v([1.0, 0.0, 0.0]),
        pixel_delta_v: v([0.0, -1.0, 0.0]),
        defocus_disk_u: v([0.0, 0.0, 0.0]),
        defocus_disk_v: v([0.0, 0.0, 0.0]),
    }
}

#[test]
fn camera_is_built_from_settings_and_frame() {
    let cam = Camera::builder().image_width(2).samples_per_pixel(1).max_depth(1).build(s(2.0), frame());
    assert_eq!(cam.image_width, 2);
    assert_eq!(cam.image_height, 2);
    assert_eq!(cam.samples_per_pixel, 1);
    assert_eq!(cam.max_depth, 1);
    assert_eq!(a(&cam.pixel00_loc), [-0.5, 0.5, -1.0]);
    assert_eq!(a(&cam.center), [0.0, 0.0, 0.0]);
    let moved = Camera::builder().lookfrom(v([13.0, 2.0, 3.0])).build(s(100.0), frame());
    assert_eq!(a(&moved.center), [13.0, 2.0, 3.0]);
    assert_eq!(a(&cam.ray_origin(v([9.0, 9.0, 9.0]))), [0.0, 0.0, 0.0]);
    let open = Camera::builder().defocus_angle(s(0.6)).build(s(100.0), frame());
    assert_eq!(a(&open.ray_origin(v([9.0, 9.0, 9.0]))), [9.0, 9.0, 9.0]);
}

#[test]
fn light_paths_end_or_go_on() {
    let s1 = ScatterRecord {
        attenuation: v([0.5, 0.5, 0.5]),
        scattered: Ray::new(v([0.0, 0.0, 0.0]), v([0.0, 1.0, 0.0])),
    };
    assert!(matches!(Camera::path_step(0, None), PathStep::Black));
    assert!(matches!(Camera::path_step(0, Some(Some(s1))), PathStep::Black));
    assert!(matches!(Camera::path_step(-3, Some(None)), PathStep::Black));
    assert!(matches!(Camera::path_step(1, None), PathStep::Sky));
    assert!(matches!(Camera::path_step(1, Some(None)), PathStep::Black));
    match Camera::path_step(5, Some(Some(s1))) {
        PathStep::Scatter(out) => assert_eq!(f(out.attenuation.x()), 0.5),
        _ => panic!("a scattered ray goes on"),
    }
}

#[test]
fn ray_colors() {
    let world = one_ball_world();
    let at_ball = Ray::new(v([0.0, 0.0, 0.0]), v([0.0, 0.0, -1.0]));
    let past_ball = Ray::new(v([0.0, 0.0, 0.0]), v([0.0, 1.0, 0.0]));
    // no bounce left
    let c = Camera::ray_color(&at_ball, 0, &world, &kit(), &light());
    assert_eq!(a(&c), [0.0, 0.0, 0.0]);
    // the sky, straight up
    let c = Camera::ray_color(&past_ball, 3, &world, &kit(), &light());
    assert_eq!(a(&c), [0.5, 0.7, 1.0]);
    // one bounce: the scattered ray has no bounce left
    let c = Camera::ray_color(&at_ball, 1, &world, &kit(), &light());
    assert_eq!(a(&c), [0.0, 0.0, 0.0]);
    // two bounces: half of the sky in the scattered direction (0.6, 0, 1.8)
    let c = Camera::ray_color(&at_ball, 2, &world, &kit(), &light());
    let expected = a(&sky(&Ray::new(v([0.0, 0.0, -0.5]), v([0.6, 0.0, 1.8]))));
    assert_eq!(a(&c), [0.5 * expected[0], 0.5 * expected[1], 0.5 * expected[2]]);
    // an absorbing material
    let metal = world_of(Material::Metal(Metal::new("m".to_string(), v([0.9, 0.9, 0.9]), s(0.0))));
    let c = Camera::ray_color(&at_ball, 5, &metal, &kit(), &light());
    assert_eq!(a(&c), [0.0, 0.0, 0.0]);
    // glass lets the ray through without tint: it hits the far side and leaves for the sky
    let clear = world_of(Material::Dielectric(Dielectric::new("g".to_string(), s(1.5))));
    let c = Camera::ray_color(&at_ball, 5, &clear, &kit(), &light());
    assert_eq!(a(&c), a(&sky(&at_ball)));
}

#[test]
fn radiance_is_never_negative() {
    let world = one_ball_world();
    let mut seed = 12345u64;
    let mut roll = move || {
        seed = seed.wrapping_mul(6364136223846793005).wrapping_add(1442695040888963407);
        ((seed >> 11) as f64) / ((1u64 << 53) as f64)
    };
    for _ in 0..500 {
        let r = Ray::new(
            v([roll() - 0.5, roll() - 0.5, 1.0]),
            v([roll() - 0.5, roll() - 0.5, -1.0]),
        );
        for depth in [0, 1, 2, 10] {
            let c = Camera::ray_color(&r, depth, &world, &kit(), &light());
            assert!(f(c.x()) >= 0.0 && f(c.y()) >= 0.0 && f(c.z()) >= 0.0);
        }
    }
}

#[test]
fn a_small_image_of_one_ball() {
    let world = one_ball_world();
    let cam = Camera::builder().image_width(2).samples_per_pixel(1).max_depth(1).build(s(2.0), frame());
    let mut pixels = Vec::new();
    for j in 0..cam.image_height {
        for i in 0..cam.image_width {
            let at = [
                f(cam.pixel00_loc.x()) + i as f64 * f(cam.pixel_delta_u.x()),
                f(cam.pixel00_loc.y()) + j as f64 * f(cam.pixel_delta_v.y()),
                f(cam.pixel00_loc.z()),
            ];
            let r = Ray::new(cam.ray_origin(v(at)), v(at));
            let c = Camera::ray_color(&r, cam.max_depth, &world, &kit(), &light());
            let scaled = [
                f(c.x()) * f(cam.pixel_samples_scale),
                f(c.y()) * f(cam.pixel_samples_scale),
                f(c.z()) * f(cam.pixel_samples_scale),
            ];
            pixels.push(v([
                f(linear_to_gamma(s(scaled[0]), s(scaled[0].sqrt()))),
                f(linear_to_gamma(s(scaled[1]), s(scaled[1].sqrt()))),
                f(linear_to_gamma(s(scaled[2]), s(scaled[2].sqrt()))),
            ]));
        }
    }
    let mut out = Vec::new();
    cam.render(&pixels, &mut out);
    let text = String::from_utf8(out).unwrap();
    let lines: Vec<&str> = text.lines().collect();
    assert_eq!(lines.len(), 7);
    assert_eq!(lines[0], "P3");
    assert_eq!(lines[1], "2 2");
    assert_eq!(lines[2], "255");
    assert!(text.ends_with('\n'));
    for line in &lines[3..] {
        let channels: Vec<&str> = line.split(' ').collect();
        assert_eq!(channels.len(), 3);
        for channel in channels {
            let value: i32 = channel.parse().unwrap();
            assert!((0..=255).contains(&value));
            assert_eq!(value.to_string(), channel);
        }
    }
}

#[test]
fn the_stream_lists_rows_from_the_top() {
    let cam = Camera::builder().image_width(3).build(s(2.0), frame());
    let pixels = vec![
        v([0.0, 0.0, 0.0]),
        v([0.5, 0.5, 0.5]),
        v([1.0, 1.0, 1.0]),
        v([0.25, 0.0, 0.0]),
        v([0.0, 0.25, 0.0]),
        v([0.0, 0.0, 0.25]),
    ];
    let mut out = b"# ".to_vec();
    cam.render(&pixels, &mut out);
    assert_eq!(
        String::from_utf8(out).unwrap(),
        "# P3\n3 2\n255\n0 0 0\n128 128 128\n255 255 255\n64 0 0\n0 64 0\n0 0 64\n"
    );
    let mut out = Vec::new();
    Camera::builder().image_width(0).build(s(0.0), frame()).render(&Vec::new(), &mut out);
    assert_eq!(out, b"P3\n0 1\n255\n");
    // a width below zero has no pixels: the head stands alone
    let narrow = Camera::builder().image_width(-3).build(s(-3.0), frame());
    assert_eq!(narrow.pixel_count(), 0);
    let mut out = Vec::new();
    narrow.render(&Vec::new(), &mut out);
    assert_eq!(out, b"P3\n-3 1\n255\n");
    assert_eq!(cam.pixel_count(), 6);
}

#[test]
fn materials_scatter_by_their_kind() {
    let r = Ray::new_with_time(v([0.0, 0.0, 0.0]), v([0.0, 0.0, -1.0]), s(0.25));
    let with = light().scattering;
    let hit = |mat: Material| {
        let mut rec = HitRecord::new(v([0.0, 0.0, -0.5]), v([0.0, 0.0, 1.0]), Arc::new(mat), s(0.5));
        rec.u = s(0.1);
        rec.v = s(0.2);
        rec
    };
    // a diffuse surface takes the colour of its texture at the hit
    let rec = hit(Material::Lambertian(Lambertian::new("wall".to_string(), v([0.4, 0.2, 0.1]))));
    let out = rec.mat.scatter(&r, &rec, &with).unwrap();
    assert_eq!(a(&out.attenuation), [0.4, 0.2, 0.1]);
    assert_eq!(a(out.scattered.origin()), [0.0, 0.0, -0.5]);
    assert_eq!(a(out.scattered.direction()), [0.6, 0.0, 1.8]);
    assert_eq!(f(out.scattered.time()), 0.25);
    // an image or noise texture answers through the sample probe
    let image = ray_tracer::image::RtwImage::from_converted(1, 1, Some(vec![1, 2, 3])).unwrap();
    let texture = Texture::Image(ray_tracer::texture::ImageTexture::new("x.png".to_string(), image));
    let rec = hit(Material::Lambertian(Lambertian::from_texture(Arc::new(texture))));
    let out = rec.mat.scatter(&r, &rec, &with).unwrap();
    assert_eq!(a(&out.attenuation), [0.25, 0.25, 0.25]);
    // the mirror of these probes sends the ray into the surface
    let rec = hit(Material::Metal(Metal::new("m".to_string(), v([0.9, 0.9, 0.9]), s(0.0))));
    assert!(rec.mat.scatter(&r, &rec, &with).is_none());
    // glass never absorbs and never tints
    let rec = hit(Material::Dielectric(Dielectric::new("g".to_string(), s(1.5))));
    let out = rec.mat.scatter(&r, &rec, &with).unwrap();
    assert_eq!(a(&out.attenuation), [1.0, 1.0, 1.0]);
    assert_eq!(a(out.scattered.direction()), [0.0, 0.0, -1.0]);
    assert_eq!(f(out.scattered.time()), 0.25);
}
