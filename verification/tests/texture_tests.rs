use ray_tracer::color::Color;
use ray_tracer::image::{ImageError, RtwImage};
use ray_tracer::material::{Lambertian, Material, Metal};
use ray_tracer::perlin::Perlin;
use ray_tracer::scalar::Scalar;
use ray_tracer::texture::{CheckerTexture, ImageTexture, NoiseTexture, SolidColor, Texture};
use ray_tracer::vec::Vec3;
use std::sync::Arc;

fn s(x: f64) -> Scalar {
    Scalar::from_bits(x.to_bits())
}

fn f(x: Scalar) -> f64 {
    f64::from_bits(x.to_bits())
}

fn v(x: f64, y: f64, z: f64) -> Vec3 {
    Vec3::new(s(x), s(y), s(z))
}

fn solid(name: &str, r: f64, g: f64, b: f64) -> Arc<Texture> {
    Arc::new(Texture::Solid(SolidColor::from_rgb(name.to_string(), s(r), s(g), s(b))))
}

fn gradients() -> Vec<Vec3> {
    (0..256).map(|k| v(k as f64, 0.0, -(k as f64))).collect()
}

fn cell(scale: Scalar, p: &Vec3) -> (i32, i32, i32) {
    let inv = 1.0 / f(scale);
    (
        (inv * f(p.x())).floor() as i32,
        (inv * f(p.y())).floor() as i32,
        (inv * f(p.z())).floor() as i32,
    )
}

fn sample(texture: &Texture, u: Scalar, w: Scalar, _p: &Vec3) -> Color {
    match texture {
        Texture::Image(image) => {
            let column = s(f(u) * image.image.width() as f64);
            let row = s((1.0 - f(w)) * image.image.height() as f64);
            match image.texel(column, row) {
                Some((r, g, b)) => v(r as f64 / 255.0, g as f64 / 255.0, b as f64 / 255.0),
                None => v(0.0, 1.0, 1.0),
            }
        }
        _ => v(0.5, 0.5, 0.5),
    }
}

#[test]
fn solid_colors() {
    let red = SolidColor::new("red".to_string(), v(1.0, 0.0, 0.0));
    assert_eq!(f(red.value().x()), 1.0);
    assert_eq!(f(red.value().y()), 0.0);
    let t = Texture::Solid(red);
    assert_eq!(t.name(), "red");
    let grey = SolidColor::from_rgb("grey".to_string(), s(0.5), s(0.25), s(0.125));
    assert_eq!(f(grey.albedo.z()), 0.125);
}

#[test]
fn checker_is_named_after_its_textures() {
    let c = CheckerTexture::new(s(0.32), solid("dark", 0.2, 0.3, 0.1), solid("light", 0.9, 0.9, 0.9));
    assert_eq!(c.name, "checker_dark_light");
    assert_eq!(f(c.scale), 0.32);
    let nested = CheckerTexture::new(s(2.0), Arc::new(Texture::Checker(c)), solid("x", 0.0, 0.0, 0.0));
    assert_eq!(Texture::Checker(nested).name(), "checker_checker_dark_light_x");
}

#[test]
fn checker_from_colors_names_its_parts() {
    let c = CheckerTexture::from_color("checker".to_string(), s(0.32), v(0.2, 0.3, 0.1), v(0.9, 0.9, 0.9));
    assert_eq!(c.name, "checker");
    assert_eq!(c.even.name(), "checker_checker_even");
    assert_eq!(c.odd.name(), "checker_checker_odd");
    match &*c.even {
        Texture::Solid(even) => assert_eq!(f(even.albedo.y()), 0.3),
        _ => panic!("the even part is a solid colour"),
    }
}

#[test]
fn checker_cells_alternate() {
    assert!(CheckerTexture::is_even(0, 0, 0));
    assert!(!CheckerTexture::is_even(1, 0, 0));
    assert!(CheckerTexture::is_even(1, 1, 0));
    assert!(!CheckerTexture::is_even(-1, 0, 0));
    assert!(CheckerTexture::is_even(-1, 0, 1));
    assert!(CheckerTexture::is_even(-3, -3, 0));
    assert!(!CheckerTexture::is_even(i32::MAX, i32::MAX, i32::MAX));
    assert!(CheckerTexture::is_even(i32::MIN, i32::MIN, i32::MIN));
    assert!(!CheckerTexture::is_even(i32::MAX, i32::MIN, 0));
}

#[test]
fn textures_are_evaluated_through_their_parts() {
    let checker = Texture::Checker(CheckerTexture::from_color(
        "c".to_string(),
        s(1.0),
        v(1.0, 0.0, 0.0),
        v(0.0, 0.0, 1.0),
    ));
    let even = checker.value(s(0.0), s(0.0), &v(0.5, 0.5, 0.5), &cell, &sample);
    assert_eq!(f(even.x()), 1.0);
    let odd = checker.value(s(0.0), s(0.0), &v(1.5, 0.5, 0.5), &cell, &sample);
    assert_eq!(f(odd.z()), 1.0);
    let below = checker.value(s(0.0), s(0.0), &v(-0.5, 0.5, 0.5), &cell, &sample);
    assert_eq!(f(below.z()), 1.0);
    let noise = Texture::Noise(NoiseTexture::new(s(4.0), Perlin::new(gradients()).unwrap()));
    let c = noise.value(s(0.0), s(0.0), &v(0.0, 0.0, 0.0), &cell, &sample);
    assert_eq!(f(c.x()), 0.5);
    assert_eq!(noise.name(), "perlin_default");
}

#[test]
fn image_length_is_checked() {
    assert_eq!(RtwImage::new(2, 2, vec![0; 11]).err(), Some(ImageError::DataLength));
    assert_eq!(RtwImage::new(2, 2, vec![0; 13]).err(), Some(ImageError::DataLength));
    assert_eq!(RtwImage::new(0, 5, vec![0; 3]).err(), Some(ImageError::DataLength));
    assert!(RtwImage::new(2, 2, vec![0; 12]).is_ok());
    assert!(RtwImage::new(0, 0, Vec::new()).is_ok());
    assert!(RtwImage::fits(3, 2, 18));
    assert!(!RtwImage::fits(u32::MAX, u32::MAX, 18));
}

#[test]
fn image_pixels_become_linear() {
    // one row: black, middle grey, white
    let image = RtwImage::new(3, 1, vec![0, 0, 0, 128, 128, 128, 255, 255, 255]).unwrap();
    assert_eq!(image.width(), 3);
    assert_eq!(image.height(), 1);
    assert_eq!(image.get_pixel(0, 0), (0, 0, 0));
    assert_eq!(image.get_pixel(2, 0), (255, 255, 255));
    let (r, g, b) = image.get_pixel(1, 0);
    assert!(r > 45 && r < 65, "middle grey in linear light is about 55, got {r}");
    assert_eq!(r, g);
    assert_eq!(g, b);
}

#[test]
fn image_pixels_are_found_by_row_and_column() {
    let mut data = Vec::new();
    for row in 0..3u8 {
        for column in 0..4u8 {
            data.push(if row == 1 && column == 2 { 255 } else { 0 });
            data.push(0);
            data.push(if row == 2 && column == 3 { 255 } else { 0 });
        }
    }
    let image = RtwImage::from_converted(4, 3, Some(data)).unwrap();
    assert_eq!(image.get_pixel(2, 1), (255, 0, 0));
    assert_eq!(image.get_pixel(3, 2), (0, 0, 255));
    assert_eq!(image.get_pixel(0, 0), (0, 0, 0));
    assert_eq!(image.get_pixel(1, 2), (0, 0, 0));
    assert_eq!(RtwImage::from_converted(4, 3, None).err(), Some(ImageError::ColorSpace));
    assert_eq!(
        RtwImage::from_converted(4, 3, Some(vec![0; 5])).err(),
        Some(ImageError::DataLength)
    );
}

#[test]
fn image_texture_is_named_after_its_path() {
    let image = RtwImage::from_converted(1, 1, Some(vec![10, 20, 30])).unwrap();
    let texture = ImageTexture::new("textures/earthmap.jpg".to_string(), image);
    assert_eq!(texture.name, "image_\"textures/earthmap.jpg\"");
    assert_eq!(texture.path, "textures/earthmap.jpg");
    let image = RtwImage::from_converted(1, 1, Some(vec![10, 20, 30])).unwrap();
    let odd = ImageTexture::new("a \"b\"\n".to_string(), image);
    assert_eq!(odd.name, "image_\"a \\\"b\\\"\\n\"");
}

#[test]
fn image_texels() {
    let image = RtwImage::from_converted(2, 2, Some(vec![1, 2, 3, 4, 5, 6, 7, 8, 9, 10, 11, 12]))
        .unwrap();
    let texture = ImageTexture::new("x.png".to_string(), image);
    assert_eq!(texture.texel(s(0.0), s(0.0)), Some((1, 2, 3)));
    assert_eq!(texture.texel(s(1.9), s(0.5)), Some((4, 5, 6)));
    assert_eq!(texture.texel(s(0.2), s(1.0)), Some((7, 8, 9)));
    assert_eq!(texture.texel(s(1.0), s(1.999)), Some((10, 11, 12)));
    assert_eq!(texture.texel(s(2.0), s(0.0)), None);
    assert_eq!(texture.texel(s(0.0), s(2.0)), None);
    assert_eq!(texture.texel(s(-0.5), s(-0.5)), Some((1, 2, 3)));
    assert_eq!(texture.texel(s(f64::NAN), s(0.0)), Some((1, 2, 3)));
    let whole = Texture::Image(texture);
    let c = whole.value(s(0.75), s(0.75), &v(0.0, 0.0, 0.0), &|_, _| (0, 0, 0), &sample);
    assert_eq!(f(c.x()), 4.0 / 255.0);
}

#[test]
fn noise_tables_need_256_gradients() {
    assert!(Perlin::new(Vec::new()).is_none());
    assert!(Perlin::new(vec![v(0.0, 0.0, 0.0); 255]).is_none());
    assert!(Perlin::new(vec![v(0.0, 0.0, 0.0); 257]).is_none());
    let noise = Perlin::new(gradients()).unwrap();
    assert!(noise.is_full());
    let mut short = noise.clone();
    short.perm_y.pop();
    assert!(!short.is_full());
    assert_eq!(noise.randvec.len(), 256);
    assert_eq!(f(noise.randvec[7].x()), 7.0);
}

#[test]
fn permutations_hold_every_index_once() {
    let mut moved = 0;
    for _ in 0..20 {
        let p = Perlin::perlin_generate_perm();
        assert_eq!(p.len(), 256);
        let mut seen = [false; 256];
        for &value in &p {
            assert!(!seen[value as usize]);
            seen[value as usize] = true;
        }
        moved += p.iter().enumerate().filter(|(i, &value)| *i != value as usize).count();
    }
    assert!(moved > 20 * 200, "a shuffle leaves few indices in place");
}

#[test]
fn lattice_coordinates_fold_into_the_table() {
    assert_eq!(Perlin::fold(0), 0);
    assert_eq!(Perlin::fold(255), 255);
    assert_eq!(Perlin::fold(256), 0);
    assert_eq!(Perlin::fold(-1), 255);
    assert_eq!(Perlin::fold(-256), 0);
    assert_eq!(Perlin::fold(-257), 255);
    assert_eq!(Perlin::fold(i64::MAX), 255);
    assert_eq!(Perlin::fold(i64::MIN), 0);
    for i in [-1000i64, -3, 5, 77, 123456789] {
        assert_eq!(Perlin::fold(i), (i & 255) as usize);
    }
}

#[test]
fn lattice_corners() {
    let noise = Perlin::new(gradients()).unwrap();
    for (i, j, k) in [(0i64, 0i64, 0i64), (3, -7, 250), (-1, 255, 1000), (i64::MAX, i64::MIN, 0)] {
        let at = noise.lattice_index(i, j, k);
        let expected = noise.perm_x[(i & 255) as usize]
            ^ noise.perm_y[(j & 255) as usize]
            ^ noise.perm_z[(k & 255) as usize];
        assert_eq!(at, expected);
        let corners = noise.corners(i, j, k);
        assert_eq!(corners.len(), 8);
        for di in 0..2i64 {
            for dj in 0..2i64 {
                for dk in 0..2i64 {
                    let x = noise.perm_x[(i.wrapping_add(di) & 255) as usize];
                    let y = noise.perm_y[(j.wrapping_add(dj) & 255) as usize];
                    let z = noise.perm_z[(k.wrapping_add(dk) & 255) as usize];
                    let corner = &corners[(4 * di + 2 * dj + dk) as usize];
                    assert_eq!(f(corner.x()), (x ^ y ^ z) as f64);
                }
            }
        }
    }
}

#[test]
fn materials_are_named() {
    let plain = Lambertian::new("wall".to_string(), v(0.4, 0.2, 0.1));
    assert_eq!(Material::Lambertian(plain).name(), "wall");
    let checker = Arc::new(Texture::Checker(CheckerTexture::from_color(
        "checker".to_string(),
        s(0.32),
        v(0.2, 0.3, 0.1),
        v(0.9, 0.9, 0.9),
    )));
    assert_eq!(Material::Lambertian(Lambertian::from_texture(checker)).name(), "checker");
    let metal = Metal::new("steel".to_string(), v(0.7, 0.6, 0.5), s(0.0));
    assert_eq!(Material::Metal(metal).name(), "steel");
}

#[test]
fn a_shuffle_exchanges_each_place_with_the_drawn_one() {
    // every draw names place 0: the entries move round by one
    let turned = Perlin::shuffled(&vec![0; 255]);
    let mut expected: Vec<u8> = (0..=255).collect();
    for i in (1..256).rev() {
        expected.swap(i, 0);
    }
    assert_eq!(turned, expected);
    assert_eq!(turned[255], 0);
    assert_eq!(turned[0], 1);
    assert_eq!(turned[1], 2);
    // every draw names the place just before
    let draws: Vec<usize> = (0..255).map(|k| 254 - k).collect();
    let shifted = Perlin::shuffled(&draws);
    let mut expected: Vec<u8> = (0..=255).collect();
    for i in (1..256).rev() {
        expected.swap(i, i - 1);
    }
    assert_eq!(shifted, expected);
    assert_eq!(shifted[0], 255);
    assert_eq!(shifted[255], 254);
    // mixed draws, against the shuffle written out
    let draws: Vec<usize> = (0..255).map(|k| (k * 37 + 11) % (255 - k)).collect();
    let mixed = Perlin::shuffled(&draws);
    let mut expected: Vec<u8> = (0..=255).collect();
    for k in 0..255 {
        expected.swap(255 - k, draws[k]);
    }
    assert_eq!(mixed, expected);
    let mut seen = [false; 256];
    for &value in &mixed {
        assert!(!seen[value as usize]);
        seen[value as usize] = true;
    }
}
