use ray_tracer::aabb::AABB;
use ray_tracer::bvh::BVHNode;
use ray_tracer::hittable::{Hittable, HittableList};
use ray_tracer::material::{Dielectric, Lambertian, Material, Metal};
use ray_tracer::perlin::Perlin;
use ray_tracer::quad::Quad;
use ray_tracer::ray::Ray;
use ray_tracer::scalar::Scalar;
use ray_tracer::interval::Interval;
use ray_tracer::quad::QuadFrame;
use ray_tracer::scene_loader::{
    MaterialSpec, ResourceRegistry, SceneError, SceneFile, ShapeSpec, TextureSpec, Workshop,
};
use ray_tracer::sphere::Sphere;
use ray_tracer::texture::{CheckerTexture, NoiseTexture, Texture};
use ray_tracer::vec::Vec3;
use std::sync::Arc;

fn s(x: f64) -> Scalar {
    Scalar::from_bits(x.to_bits())
}

fn f(x: Scalar) -> f64 {
    f64::from_bits(x.to_bits())
}

fn v(x: f64, y: f64, z: f64) -> Vec3 {
    Vec3::new(s(x), s(y), s(z))
}

fn decode(path: &String) -> Option<(u32, u32, Vec<u8>)> {
    if path == "there.png" {
        Some((2, 1, vec![0, 0, 0, 255, 255, 255]))
    } else if path == "short.png" {
        Some((2, 2, vec![0, 0, 0]))
    } else {
        None
    }
}

fn gradients() -> Vec<Vec3> {
    vec![v(0.0, 1.0, 0.0); 256]
}

fn too_few_gradients() -> Vec<Vec3> {
    vec![v(0.0, 1.0, 0.0); 3]
}

fn extent(range: &Interval) -> Scalar {
    s(f(range.max) - f(range.min))
}

fn widen(range: &Interval) -> Interval {
    Interval::new(s(f(range.min) - 0.00005), s(f(range.max) + 0.00005))
}

fn corners(a: Vec3, b: Vec3) -> AABB {
    AABB::from_points(a, b, &extent, &widen)
}

fn bound_sphere(center: &Ray, radius: Scalar) -> AABB {
    let r = f(radius);
    let from = center.origin();
    let to = [
        f(from.x()) + f(center.direction().x()),
        f(from.y()) + f(center.direction().y()),
        f(from.z()) + f(center.direction().z()),
    ];
    let first = corners(
        v(f(from.x()) - r, f(from.y()) - r, f(from.z()) - r),
        v(f(from.x()) + r, f(from.y()) + r, f(from.z()) + r),
    );
    let second =
        corners(v(to[0] - r, to[1] - r, to[2] - r), v(to[0] + r, to[1] + r, to[2] + r));
    AABB::from_boxes(&first, &second)
}

fn frame_quad(q: &Vec3, u: &Vec3, w: &Vec3) -> QuadFrame {
    let far = v(f(q.x()) + f(u.x()) + f(w.x()), f(q.y()) + f(u.y()) + f(w.y()), f(q.z()) + f(u.z()) + f(w.z()));
    QuadFrame { normal: v(0.0, 0.0, 1.0), d: s(0.0), w: v(0.0, 0.0, 1.0), bbox: corners(*q, far) }
}

fn load(file: SceneFile) -> Result<HittableList, SceneError> {
    file.into_list(&Workshop { decode, gradients, bound_sphere, frame_quad })
}

fn circle(x: f64, radius: f64, material: &str) -> ShapeSpec {
    ShapeSpec::Circle {
        radius: s(radius),
        center: Ray::new(v(x, 0.0, -1.0), v(0.0, 0.0, 0.0)),
        material: material.to_string(),
    }
}

fn sample_file() -> SceneFile {
    SceneFile {
        textures: vec![
            ("dark".to_string(), TextureSpec::SolidColor { albedo: v(0.2, 0.3, 0.1) }),
            ("light".to_string(), TextureSpec::SolidColor { albedo: v(0.9, 0.9, 0.9) }),
            (
                "checker_dark_light".to_string(),
                TextureSpec::Checker {
                    scale: s(0.32),
                    even: "dark".to_string(),
                    odd: "light".to_string(),
                },
            ),
            ("perlin_default".to_string(), TextureSpec::Perlin { scale: s(4.0) }),
            ("image_\"there.png\"".to_string(), TextureSpec::Image { path: "there.png".to_string() }),
        ],
        materials: vec![
            (
                "checker_dark_light".to_string(),
                MaterialSpec::Lambertian { texture: "checker_dark_light".to_string() },
            ),
            ("steel".to_string(), MaterialSpec::Metal { albedo: v(0.7, 0.6, 0.5), fuzz: s(0.25) }),
            ("glass".to_string(), MaterialSpec::Dielectric { refraction_index: s(1.5) }),
            (
                "perlin_default".to_string(),
                MaterialSpec::Lambertian { texture: "perlin_default".to_string() },
            ),
            (
                "image_\"there.png\"".to_string(),
                MaterialSpec::Lambertian { texture: "image_\"there.png\"".to_string() },
            ),
        ],
        shapes: vec![
            circle(0.0, 0.5, "checker_dark_light"),
            ShapeSpec::List(vec![circle(1.0, 0.25, "steel"), circle(2.0, 0.25, "glass")]),
            ShapeSpec::BVH {
                left: Box::new(circle(3.0, 0.5, "steel")),
                right: Box::new(ShapeSpec::Quad {
                    q: v(-1.0, -1.0, -2.0),
                    u: v(2.0, 0.0, 0.0),
                    v: v(0.0, 2.0, 0.0),
                    material: "perlin_default".to_string(),
                }),
            },
            circle(4.0, 1.0, "image_\"there.png\""),
            circle(5.0, 1.0, "checker_dark_light"),
        ],
    }
}

fn text(file: &SceneFile) -> String {
    format!("{:?}", file)
}

#[test]
fn registry_lists_a_name_once() {
    let mut registry = ResourceRegistry::new();
    registry.register_material("a".to_string(), MaterialSpec::Dielectric { refraction_index: s(1.5) });
    registry.register_material("b".to_string(), MaterialSpec::Dielectric { refraction_index: s(1.3) });
    registry.register_material("a".to_string(), MaterialSpec::Dielectric { refraction_index: s(2.0) });
    assert_eq!(registry.materials.len(), 2);
    assert_eq!(registry.materials[0].0, "a");
    match &registry.materials[0].1 {
        MaterialSpec::Dielectric { refraction_index } => assert_eq!(f(*refraction_index), 1.5),
        _ => panic!("the first entry stays"),
    }
    assert_eq!(registry.materials[1].0, "b");
    registry.register_texture("a".to_string(), TextureSpec::Perlin { scale: s(1.0) });
    registry.register_texture("a".to_string(), TextureSpec::Perlin { scale: s(2.0) });
    assert_eq!(registry.textures.len(), 1);
    assert_eq!(registry.materials.len(), 2);
}

#[test]
fn a_document_is_loaded_in_the_order_of_its_tables() {
    let world = load(sample_file()).unwrap();
    assert_eq!(world.objects().len(), 5);
    match &*world.objects()[0] {
        Hittable::Sphere(sphere) => {
            assert_eq!(f(sphere.radius), 0.5);
            assert_eq!(sphere.mat.name(), "checker_dark_light");
            assert_eq!(f(sphere.bbox.x.min), -0.5);
            assert_eq!(f(sphere.bbox.z.max), -0.5);
            match &*sphere.mat {
                Material::Lambertian(diffuse) => match &*diffuse.tex {
                    Texture::Checker(checker) => {
                        assert_eq!(f(checker.scale), 0.32);
                        assert_eq!(checker.even.name(), "dark");
                        assert_eq!(checker.odd.name(), "light");
                    }
                    _ => panic!("the texture is a checker"),
                },
                _ => panic!("the material is diffuse"),
            }
        }
        _ => panic!("the first shape is a sphere"),
    }
    match &*world.objects()[1] {
        Hittable::List(list) => {
            assert_eq!(list.objects().len(), 2);
            assert_eq!(f(list.bbox.x.min), 0.75);
            assert_eq!(f(list.bbox.x.max), 2.25);
        }
        _ => panic!("the second shape is a list"),
    }
    match &*world.objects()[2] {
        Hittable::Bvh(node) => {
            assert!(matches!(&*node.left, Hittable::Sphere(_)));
            assert!(matches!(&*node.right, Hittable::Quad(_)));
            assert_eq!(f(node.bbox.x.min), -1.0);
            assert_eq!(f(node.bbox.x.max), 3.5);
        }
        _ => panic!("the third shape is a node"),
    }
    assert_eq!(f(world.bbox.x.max), 6.0);
}

#[test]
fn shared_materials_are_listed_once() {
    let world = load(sample_file()).unwrap();
    let file = SceneFile::from(&world);
    let names: Vec<&str> = file.materials.iter().map(|(name, _)| name.as_str()).collect();
    assert_eq!(
        names,
        vec!["checker_dark_light", "steel", "glass", "perlin_default", "image_\"there.png\""]
    );
    let names: Vec<&str> = file.textures.iter().map(|(name, _)| name.as_str()).collect();
    assert_eq!(
        names,
        vec!["dark", "light", "checker_dark_light", "perlin_default", "image_\"there.png\""]
    );
    assert_eq!(file.shapes.len(), 5);
}

#[test]
fn a_scene_survives_writing_and_loading() {
    let first = load(sample_file()).unwrap();
    let written = SceneFile::from(&first);
    let second = load(SceneFile::from(&first)).unwrap();
    let written_again = SceneFile::from(&second);
    assert_eq!(text(&written), text(&written_again));
    assert_eq!(text(&written), text(&sample_file()));
    assert_eq!(second.objects().len(), first.objects().len());
}

#[test]
fn a_scene_built_by_hand_survives_writing_and_loading() {
    let checker = Arc::new(Texture::Checker(CheckerTexture::from_color(
        "checker".to_string(),
        s(0.32),
        v(0.2, 0.3, 0.1),
        v(0.9, 0.9, 0.9),
    )));
    let ground = Arc::new(Material::Lambertian(Lambertian::from_texture(checker)));
    let glass = Arc::new(Material::Dielectric(Dielectric::new("material_1".to_string(), s(1.5))));
    let wall = Arc::new(Material::Lambertian(Lambertian::new("material_2".to_string(), v(0.4, 0.2, 0.1))));
    let steel = Arc::new(Material::Metal(Metal::new("material_3".to_string(), v(0.7, 0.6, 0.5), s(0.0))));
    let noise = Arc::new(Material::Lambertian(Lambertian::from_texture(Arc::new(Texture::Noise(
        NoiseTexture::new(s(4.0), Perlin::new(gradients()).unwrap()),
    )))));
    let ball = |x: f64, radius: f64, mat: &Arc<Material>| -> Arc<Hittable> {
        Arc::new(Hittable::Sphere(Sphere::new(v(x, 0.0, 0.0), s(radius), mat.clone(), &bound_sphere)))
    };
    let mut inner = HittableList::new();
    inner.add(ball(0.0, 1000.0, &ground));
    inner.add(ball(1.0, 1.0, &glass));
    inner.add(ball(2.0, 1.0, &wall));
    inner.add(ball(3.0, 1.0, &steel));
    inner.add(ball(4.0, 1.0, &glass));
    inner.add(Arc::new(Hittable::Quad(Quad::new(
        v(0.0, 0.0, 0.0),
        v(1.0, 0.0, 0.0),
        v(0.0, 1.0, 0.0),
        noise.clone(),
        &frame_quad,
    ))));
    let mut world = HittableList::new();
    world.add(Arc::new(Hittable::Bvh(BVHNode::new(inner, &extent))));
    let written = SceneFile::from(&world);
    let names: Vec<&str> = written.materials.iter().map(|(name, _)| name.as_str()).collect();
    assert_eq!(names.len(), 5);
    for name in ["checker", "material_1", "material_2", "material_3", "perlin_default"] {
        assert_eq!(names.iter().filter(|n| **n == name).count(), 1, "{name}");
    }
    let names: Vec<&str> = written.textures.iter().map(|(name, _)| name.as_str()).collect();
    for name in ["checker_checker_even", "checker_checker_odd", "checker", "material_2", "perlin_default"] {
        assert_eq!(names.iter().filter(|n| **n == name).count(), 1, "{name}");
    }
    assert_eq!(names.len(), 5);
    let loaded = load(SceneFile::from(&world)).unwrap();
    assert_eq!(loaded.objects().len(), 1);
    let again = SceneFile::from(&loaded);
    assert_eq!(again.materials.len(), written.materials.len());
    assert_eq!(again.textures.len(), written.textures.len());
    for kind in ["Circle", "Quad", "BVH"] {
        assert_eq!(
            format!("{:?}", again.shapes).matches(kind).count(),
            format!("{:?}", written.shapes).matches(kind).count()
        );
    }
    // the checker was named by hand; loading names it after its parts
    assert!(written.materials.iter().any(|(name, _)| name == "checker"));
    assert!(again
        .materials
        .iter()
        .any(|(name, _)| name == "checker_checker_checker_even_checker_checker_odd"));
    let third = SceneFile::from(&load(SceneFile::from(&loaded)).unwrap());
    assert_eq!(text(&again), text(&third));
}

#[test]
fn loading_clamps_what_it_builds() {
    let file = SceneFile {
        textures: Vec::new(),
        materials: vec![("m".to_string(), MaterialSpec::Metal { albedo: v(1.0, 1.0, 1.0), fuzz: s(3.0) })],
        shapes: vec![ShapeSpec::Circle {
            radius: s(-1.0),
            center: Ray::new_with_time(v(0.0, 0.0, 0.0), v(1.0, 0.0, 0.0), s(0.5)),
            material: "m".to_string(),
        }],
    };
    let world = load(file).unwrap();
    match &*world.objects()[0] {
        Hittable::Sphere(sphere) => {
            assert_eq!(f(sphere.radius), 0.0);
            assert_eq!(f(sphere.center.time()), 0.0);
            assert_eq!(f(sphere.center.direction().x()), 1.0);
            match &*sphere.mat {
                Material::Metal(metal) => assert_eq!(f(metal.fuzz), 1.0),
                _ => panic!("the material is a metal"),
            }
        }
        _ => panic!("the shape is a sphere"),
    }
}

#[test]
fn a_name_refers_to_the_latest_entry() {
    let file = SceneFile {
        textures: Vec::new(),
        materials: vec![
            ("m".to_string(), MaterialSpec::Dielectric { refraction_index: s(1.5) }),
            ("m".to_string(), MaterialSpec::Dielectric { refraction_index: s(2.5) }),
        ],
        shapes: vec![circle(0.0, 1.0, "m")],
    };
    let world = load(file).unwrap();
    match &*world.objects()[0] {
        Hittable::Sphere(sphere) => match &*sphere.mat {
            Material::Dielectric(glass) => assert_eq!(f(glass.refraction_index), 2.5),
            _ => panic!("the material is glass"),
        },
        _ => panic!("the shape is a sphere"),
    }
}

#[test]
fn an_unknown_material_fails_the_load() {
    let mut file = sample_file();
    file.shapes.push(circle(9.0, 1.0, "nowhere"));
    match load(file) {
        Err(SceneError::Material(name)) => assert_eq!(name, "nowhere"),
        _ => panic!("the load fails on the material"),
    }
    let nested = SceneFile {
        textures: Vec::new(),
        materials: Vec::new(),
        shapes: vec![ShapeSpec::List(vec![ShapeSpec::BVH {
            left: Box::new(circle(0.0, 1.0, "left")),
            right: Box::new(circle(0.0, 1.0, "right")),
        }])],
    };
    match load(nested) {
        Err(SceneError::Material(name)) => assert_eq!(name, "left"),
        _ => panic!("the load fails on the first material"),
    }
}

#[test]
fn an_unknown_texture_fails_the_load() {
    let file = SceneFile {
        textures: vec![
            ("a".to_string(), TextureSpec::SolidColor { albedo: v(0.0, 0.0, 0.0) }),
            (
                "c".to_string(),
                TextureSpec::Checker { scale: s(1.0), even: "a".to_string(), odd: "b".to_string() },
            ),
            ("b".to_string(), TextureSpec::SolidColor { albedo: v(1.0, 1.0, 1.0) }),
        ],
        materials: Vec::new(),
        shapes: Vec::new(),
    };
    match load(file) {
        Err(SceneError::Texture(name)) => assert_eq!(name, "b"),
        _ => panic!("a texture must stand before the checker that uses it"),
    }
    let file = SceneFile {
        textures: Vec::new(),
        materials: vec![("m".to_string(), MaterialSpec::Lambertian { texture: "t".to_string() })],
        shapes: Vec::new(),
    };
    match load(file) {
        Err(SceneError::MaterialTexture(name)) => assert_eq!(name, "t"),
        _ => panic!("the load fails on the texture of the material"),
    }
}

#[test]
fn an_unreadable_image_fails_the_load() {
    for path in ["missing.png", "short.png"] {
        let file = SceneFile {
            textures: vec![("i".to_string(), TextureSpec::Image { path: path.to_string() })],
            materials: Vec::new(),
            shapes: Vec::new(),
        };
        match load(file) {
            Err(SceneError::Image(name)) => assert_eq!(name, path),
            _ => panic!("the load fails on the image"),
        }
    }
}

#[test]
fn a_noise_table_needs_its_gradients() {
    let file = SceneFile {
        textures: vec![("n".to_string(), TextureSpec::Perlin { scale: s(1.0) })],
        materials: Vec::new(),
        shapes: Vec::new(),
    };
    let out = file.into_list(&Workshop {
        decode,
        gradients: too_few_gradients,
        bound_sphere,
        frame_quad,
    });
    assert!(matches!(out, Err(SceneError::Noise)));
}

#[test]
fn an_empty_document_is_an_empty_scene() {
    let world =
        load(SceneFile { textures: Vec::new(), materials: Vec::new(), shapes: Vec::new() }).unwrap();
    assert!(world.objects().is_empty());
    let file = SceneFile::from(&world);
    assert!(file.textures.is_empty());
    assert!(file.materials.is_empty());
    assert!(file.shapes.is_empty());
}

#[test]
fn two_resources_under_one_name_are_written_once() {
    // two noise textures of different scale carry the same name: the document keeps the first
    let first = Arc::new(Material::Lambertian(Lambertian::from_texture(Arc::new(Texture::Noise(
        NoiseTexture::new(s(4.0), Perlin::new(gradients()).unwrap()),
    )))));
    let second = Arc::new(Material::Lambertian(Lambertian::from_texture(Arc::new(Texture::Noise(
        NoiseTexture::new(s(9.0), Perlin::new(gradients()).unwrap()),
    )))));
    let mut world = HittableList::new();
    for (x, mat) in [(0.0, first), (3.0, second)] {
        world.add(Arc::new(Hittable::Sphere(Sphere::new(v(x, 0.0, 0.0), s(1.0), mat, &bound_sphere))));
    }
    let written = SceneFile::from(&world);
    assert_eq!(written.textures.len(), 1);
    assert_eq!(written.materials.len(), 1);
    match &written.textures[0].1 {
        TextureSpec::Perlin { scale } => assert_eq!(f(*scale), 4.0),
        _ => panic!("the texture is noise"),
    }
    assert_eq!(written.shapes.len(), 2);
}

#[test]
fn images_are_loaded_from_their_own_path() {
    let world = load(sample_file()).unwrap();
    match &*world.objects()[3] {
        Hittable::Sphere(sphere) => match &*sphere.mat {
            Material::Lambertian(diffuse) => match &*diffuse.tex {
                Texture::Image(texture) => {
                    assert_eq!(texture.path, "there.png");
                    assert_eq!(texture.image.width(), 2);
                    assert_eq!(texture.image.height(), 1);
                    assert_eq!(texture.image.data.len(), 6);
                    assert_eq!(texture.image.get_pixel(0, 0), (0, 0, 0));
                    assert_eq!(texture.image.get_pixel(1, 0), (255, 255, 255));
                }
                _ => panic!("the texture is an image"),
            },
            _ => panic!("the material is diffuse"),
        },
        _ => panic!("the shape is a sphere"),
    }
}

#[test]
fn a_checker_is_written_behind_its_parts() {
    let written = SceneFile::from(&load(sample_file()).unwrap());
    for (at, (_, entry)) in written.textures.iter().enumerate() {
        if let TextureSpec::Checker { even, odd, .. } = entry {
            for part in [even, odd] {
                let place = written.textures.iter().position(|(name, _)| name == part);
                assert!(place.is_some_and(|p| p < at), "{part} stands before the checker");
            }
        }
    }
    for (_, entry) in &written.materials {
        if let MaterialSpec::Lambertian { texture } = entry {
            assert_eq!(written.textures.iter().filter(|(name, _)| name == texture).count(), 1);
        }
    }
}
