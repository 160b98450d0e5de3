//! The camera: its settings, what is fixed once per render, the steps of a
//! light path, and the pixel stream.
use vstd::prelude::*;
use crate::aabb::{AABB, Slab};
use crate::color::{pixel_line, push_signed, signed_decimal, Color};
use crate::hittable::{HitRecord, HittableList, Probes};
use crate::quad::{PlaneCrossing, Quad};
use crate::sphere::{Sphere, SphereRoots, SurfacePoint};
use crate::interval::Interval;
use crate::material::{
    Dielectric, GlassPaths, Material, Metal, MirrorPath, ScatterRecord, Scattering,
};
use crate::texture::Texture;
use crate::ray::Ray;
use crate::scalar::Scalar;
use crate::vec::{Point3, Vec3};

verus! {

/// The settings of a camera.
#[derive(Clone, Copy, Debug)]
pub struct CameraBuilder {
    pub aspect_ratio: Scalar,
    pub image_width: i32,
    /// Count of random samples for each pixel.
    pub samples_per_pixel: i32,
    /// Greatest number of bounces of a ray into the scene.
    pub max_depth: i32,
    /// Vertical view angle, in degrees.
    pub vfov: Scalar,
    /// Point the camera is looking from.
    pub lookfrom: Point3,
    /// Point the camera is looking at.
    pub lookat: Point3,
    /// Camera-relative up direction.
    pub vup: Vec3,
    /// Variation angle of rays through each pixel.
    pub defocus_angle: Scalar,
    /// Distance from the camera to the plane of perfect focus.
    pub focus_dist: Scalar,
}

/// What is computed from the settings for one render: the pixel grid and the
/// defocus disk.
#[derive(Clone, Copy, Debug)]
pub struct CameraFrame {
    pub pixel_samples_scale: Scalar,
    pub pixel00_loc: Point3,
    pub pixel_delta_u: Vec3,
    pub pixel_delta_v: Vec3,
    pub defocus_disk_u: Vec3,
    pub defocus_disk_v: Vec3,
}

/// A camera ready to render.
#[derive(Clone, Copy, Debug)]
pub struct Camera {
    pub image_height: i32,
    pub image_width: i32,
    pub samples_per_pixel: i32,
    pub pixel_samples_scale: Scalar,
    pub center: Point3,
    pub pixel00_loc: Point3,
    pub pixel_delta_u: Vec3,
    pub pixel_delta_v: Vec3,
    pub max_depth: i32,
    pub defocus_angle: Scalar,
    /// Defocus disk horizontal radius.
    pub defocus_disk_u: Vec3,
    /// Defocus disk vertical radius.
    pub defocus_disk_v: Vec3,
}

/// How a light path goes on after a ray was cast.
#[derive(Clone, Copy, Debug)]
pub enum PathStep {
    /// No more light is gathered along this path.
    Black,
    /// The ray left the scene and takes the colour of the sky.
    Sky,
    /// The ray was scattered: its colour is the attenuation times the colour
    /// of the scattered ray, which has one bounce fewer left.
    Scatter(ScatterRecord),
}

/// The settings a camera starts from.
pub open spec fn default_settings() -> CameraBuilder {
    CameraBuilder {
        aspect_ratio: Scalar::one_spec(),
        image_width: 100,
        samples_per_pixel: 10,
        max_depth: 10,
        vfov: Scalar { bits: 0x4056_8000_0000_0000 },
        lookfrom: Vec3(Scalar::zero_spec(), Scalar::zero_spec(), Scalar::zero_spec()),
        lookat: Vec3(Scalar::zero_spec(), Scalar::zero_spec(), Scalar::one_spec().neg_spec()),
        vup: Vec3(Scalar::zero_spec(), Scalar::one_spec(), Scalar::zero_spec()),
        defocus_angle: Scalar::zero_spec(),
        focus_dist: Scalar { bits: 0x4024_0000_0000_0000 },
    }
}

/// The height of the image in pixels, from the quotient of its width and
/// the aspect ratio: the quotient's integer part, and at least 1.
pub open spec fn image_height_spec(quotient: Scalar) -> int {
    if quotient.to_i32_spec() < 1 {
        1
    } else {
        quotient.to_i32_spec()
    }
}

/// The step after a ray with `depth` bounces left. `outcome` tells whether
/// the ray hit anything, and if so whether the material scattered it.
pub open spec fn path_step_spec(depth: i32, outcome: Option<Option<ScatterRecord>>) -> PathStep {
    if depth <= 0 {
        PathStep::Black
    } else {
        match outcome {
            None => PathStep::Sky,
            Some(None) => PathStep::Black,
            Some(Some(scatter)) => PathStep::Scatter(scatter),
        }
    }
}

/// The bit pattern of the least ray parameter at which a hit counts: one
/// thousandth, so that a scattered ray does not hit the surface it leaves.
pub const HIT_MIN_BITS: u64 = 0x3F50_624D_D2F1_A9FC;

/// No channel is below zero.
pub open spec fn never_negative(c: Color) -> bool {
    &&& !c.0.lt_spec(Scalar::zero_spec())
    &&& !c.1.lt_spec(Scalar::zero_spec())
    &&& !c.2.lt_spec(Scalar::zero_spec())
}

/// What becomes of the light at a hit and beyond the scene: the arithmetic
/// and the chance behind the scatter of a material, the colour of the sky in
/// the direction of a ray, and the product of two colours.
pub struct Shading<C, S, D, M, G, K, T> {
    pub scattering: Scattering<C, S, D, M, G>,
    pub sky: K,
    pub tint: T,
}

impl<C, S, D, M, G, K, T> Shading<C, S, D, M, G, K, T> where
    C: Fn(Scalar, &Point3) -> (i32, i32, i32),
    S: Fn(&Texture, Scalar, Scalar, &Point3) -> Color,
    D: Fn(&Ray, &HitRecord) -> Vec3,
    M: Fn(&Metal, &Ray, &HitRecord) -> MirrorPath,
    G: Fn(&Dielectric, &Ray, &HitRecord) -> GlassPaths,
    K: Fn(&Ray) -> Color,
    T: Fn(Color, Color) -> Color,
 {
    /// Every probe can be asked anything.
    pub open spec fn callable(&self) -> bool {
        &&& self.scattering.callable()
        &&& forall|r: Ray| call_requires(self.sky, (&r,))
        &&& forall|a: Color, b: Color| call_requires(self.tint, (a, b))
    }

    /// What the sign of the light in a world rests on: no channel of the
    /// sky is below zero, no material of the world attenuates by a factor
    /// below zero, and the product of two colours without a channel below
    /// zero has none.
    pub open spec fn never_negative(&self, world: &HittableList) -> bool {
        &&& forall|r: Ray, c: Color| call_ensures(self.sky, (&r,), c) ==> never_negative(c)
        &&& forall|r: Ray, rec: HitRecord, s: ScatterRecord|
            world.as_shape().uses_material(rec.mat) && #[trigger] self.scattering.scatters(
                &*rec.mat,
                r,
                rec,
                Some(s),
            ) ==> never_negative(s.attenuation)
        &&& forall|a: Color, b: Color, c: Color|
            call_ensures(self.tint, (a, b), c) && never_negative(a) && never_negative(b)
                ==> never_negative(c)
    }
}

/// The range of ray parameters in which a hit counts: from one thousandth
/// on.
pub open spec fn hit_range() -> Interval {
    Interval { min: Scalar { bits: HIT_MIN_BITS }, max: Scalar::infinity_spec() }
}

/// `c` is a colour that a ray can gather with `depth` bounces left.
///
/// With no bounce left it is black. For a ray that hits nothing it is what
/// the sky answers. For a ray that hits, it is black if the material
/// absorbs the ray, or else what the tint of the attenuation and of a colour
/// of the scattered ray, with one bounce fewer, answers.
pub open spec fn radiance<B, F, G, C, TC, TS, D, M, GL, K, T>(
    depth: int,
    r: Ray,
    world: &HittableList,
    probes: &Probes<B, F, G, C>,
    shading: &Shading<TC, TS, D, M, GL, K, T>,
    c: Color,
) -> bool where
    B: Fn(&AABB, &Ray) -> (Slab, Slab, Slab),
    F: Fn(&Sphere, &Ray) -> SphereRoots,
    G: Fn(&Sphere, &Ray, Scalar) -> SurfacePoint,
    C: Fn(&Quad, &Ray) -> PlaneCrossing,
    TC: Fn(Scalar, &Point3) -> (i32, i32, i32),
    TS: Fn(&Texture, Scalar, Scalar, &Point3) -> Color,
    D: Fn(&Ray, &HitRecord) -> Vec3,
    M: Fn(&Metal, &Ray, &HitRecord) -> MirrorPath,
    GL: Fn(&Dielectric, &Ray, &HitRecord) -> GlassPaths,
    K: Fn(&Ray) -> Color,
    T: Fn(Color, Color) -> Color,

    decreases depth,
{
    if depth <= 0 {
        c == Vec3(Scalar::zero_spec(), Scalar::zero_spec(), Scalar::zero_spec())
    } else {
        match world.as_shape().hit_spec(probes.leaf_spec(), probes.slab_spec(), r, hit_range()) {
            None => call_ensures(shading.sky, (&r,), c),
            Some(rec) => {
                ||| shading.scattering.scatters(&*rec.mat, r, rec, None::<ScatterRecord>) && c
                    == Vec3(Scalar::zero_spec(), Scalar::zero_spec(), Scalar::zero_spec())
                ||| exists|s: ScatterRecord, beyond: Color|
                    shading.scattering.scatters(&*rec.mat, r, rec, Some(s)) && radiance(
                        depth - 1,
                        s.scattered,
                        world,
                        probes,
                        shading,
                        beyond,
                    ) && #[trigger] call_ensures(shading.tint, (s.attenuation, beyond), c)
            },
        }
    }
}

/// The head of the pixel stream: the mark of the plain pixmap format, the
/// width and height, and the greatest channel value, each on a line.
pub open spec fn header_spec(width: i32, height: i32) -> Seq<u8> {
    seq![80u8, 51u8, 10u8] + signed_decimal(width as int) + seq![32u8] + signed_decimal(
        height as int,
    ) + seq![10u8, 50u8, 53u8, 53u8, 10u8]
}

/// The number of pixels of an image: its width times its height, each
/// counted from 0.
pub open spec fn pixel_count_spec(width: i32, height: i32) -> int {
    (if width < 0 {
        0
    } else {
        width as int
    }) * (if height < 0 {
        0
    } else {
        height as int
    })
}

/// The lines of the first `n` pixels.
pub open spec fn pixel_lines(pixels: Seq<Color>, n: nat) -> Seq<u8>
    decreases n,
{
    if n == 0 || n > pixels.len() {
        Seq::empty()
    } else {
        pixel_lines(pixels, (n - 1) as nat) + pixel_line(pixels[n - 1])
    }
}

impl Default for CameraBuilder {
    fn default() -> (b: CameraBuilder)
        ensures
            b == default_settings(),
    {
        CameraBuilder {
            aspect_ratio: Scalar::one(),
            image_width: 100,
            samples_per_pixel: 10,
            max_depth: 10,
            vfov: Scalar::from_bits(0x4056_8000_0000_0000),
            lookfrom: Vec3::zero(),
            lookat: Vec3::new(Scalar::zero(), Scalar::zero(), Scalar::one().neg()),
            vup: Vec3::new(Scalar::zero(), Scalar::one(), Scalar::zero()),
            defocus_angle: Scalar::zero(),
            focus_dist: Scalar::from_bits(0x4024_0000_0000_0000),
        }
    }
}

impl CameraBuilder {
    pub fn aspect_ratio(self, aspect_ratio: Scalar) -> (b: CameraBuilder)
        ensures
            b == (CameraBuilder { aspect_ratio, ..self }),
    {
        CameraBuilder { aspect_ratio, ..self }
    }

    pub fn image_width(self, image_width: i32) -> (b: CameraBuilder)
        ensures
            b == (CameraBuilder { image_width, ..self }),
    {
        CameraBuilder { image_width, ..self }
    }

    pub fn samples_per_pixel(self, samples_per_pixel: i32) -> (b: CameraBuilder)
        ensures
            b == (CameraBuilder { samples_per_pixel, ..self }),
    {
        CameraBuilder { samples_per_pixel, ..self }
    }

    pub fn max_depth(self, max_depth: i32) -> (b: CameraBuilder)
        ensures
            b == (CameraBuilder { max_depth, ..self }),
    {
        CameraBuilder { max_depth, ..self }
    }

    pub fn vfov(self, vfov: Scalar) -> (b: CameraBuilder)
        ensures
            b == (CameraBuilder { vfov, ..self }),
    {
        CameraBuilder { vfov, ..self }
    }

    pub fn lookfrom(self, lookfrom: Point3) -> (b: CameraBuilder)
        ensures
            b == (CameraBuilder { lookfrom, ..self }),
    {
        CameraBuilder { lookfrom, ..self }
    }

    pub fn lookat(self, lookat: Point3) -> (b: CameraBuilder)
        ensures
            b == (CameraBuilder { lookat, ..self }),
    {
        CameraBuilder { lookat, ..self }
    }

    pub fn vup(self, vup: Vec3) -> (b: CameraBuilder)
        ensures
            b == (CameraBuilder { vup, ..self }),
    {
        CameraBuilder { vup, ..self }
    }

    pub fn defocus_angle(self, defocus_angle: Scalar) -> (b: CameraBuilder)
        ensures
            b == (CameraBuilder { defocus_angle, ..self }),
    {
        CameraBuilder { defocus_angle, ..self }
    }

    pub fn focus_dist(self, focus_dist: Scalar) -> (b: CameraBuilder)
        ensures
            b == (CameraBuilder { focus_dist, ..self }),
    {
        CameraBuilder { focus_dist, ..self }
    }

    /// The height of the image, from the quotient of the width and the
    /// aspect ratio.
    pub fn image_height(quotient: Scalar) -> (h: i32)
        ensures
            h == image_height_spec(quotient),
    {
        let h = quotient.to_i32();
        if h < 1 {
            1
        } else {
            h
        }
    }

    /// The camera for these settings, placed at the point it looks from.
    /// `quotient` is the width divided by the aspect ratio, and `frame` what
    /// was computed for the pixel grid.
    pub fn build(self, quotient: Scalar, frame: CameraFrame) -> (cam: Camera)
        ensures
            cam == (Camera {
                image_height: image_height_spec(quotient) as i32,
                image_width: self.image_width,
                samples_per_pixel: self.samples_per_pixel,
                pixel_samples_scale: frame.pixel_samples_scale,
                center: self.lookfrom,
                pixel00_loc: frame.pixel00_loc,
                pixel_delta_u: frame.pixel_delta_u,
                pixel_delta_v: frame.pixel_delta_v,
                max_depth: self.max_depth,
                defocus_angle: self.defocus_angle,
                defocus_disk_u: frame.defocus_disk_u,
                defocus_disk_v: frame.defocus_disk_v,
            }),
    {
        Camera {
            image_height: CameraBuilder::image_height(quotient),
            image_width: self.image_width,
            samples_per_pixel: self.samples_per_pixel,
            pixel_samples_scale: frame.pixel_samples_scale,
            center: self.lookfrom,
            pixel00_loc: frame.pixel00_loc,
            pixel_delta_u: frame.pixel_delta_u,
            pixel_delta_v: frame.pixel_delta_v,
            max_depth: self.max_depth,
            defocus_angle: self.defocus_angle,
            defocus_disk_u: frame.defocus_disk_u,
            defocus_disk_v: frame.defocus_disk_v,
        }
    }
}

impl Camera {
    /// The whole pixel stream of an image.
    pub open spec fn render_spec(&self, pixels: Seq<Color>) -> Seq<u8> {
        header_spec(self.image_width, self.image_height) + pixel_lines(pixels, pixels.len())
    }

    pub fn builder() -> (b: CameraBuilder)
        ensures
            b == default_settings(),
    {
        CameraBuilder::default()
    }

    /// Where a ray starts: at the camera's centre if there is no defocus,
    /// else at the sampled point of the defocus disk.
    pub fn ray_origin(&self, disk_sample: Point3) -> (origin: Point3)
        ensures
            origin == if self.defocus_angle.le_spec(Scalar::zero_spec()) {
                self.center
            } else {
                disk_sample
            },
    {
        if self.defocus_angle.le(&Scalar::zero()) {
            self.center
        } else {
            disk_sample
        }
    }

    /// Decides how a light path goes on.
    pub fn path_step(depth: i32, outcome: Option<Option<ScatterRecord>>) -> (step: PathStep)
        ensures
            step == path_step_spec(depth, outcome),
    {
        if depth <= 0 {
            return PathStep::Black;
        }
        match outcome {
            None => PathStep::Sky,
            Some(None) => PathStep::Black,
            Some(Some(scatter)) => PathStep::Scatter(scatter),
        }
    }

    /// The colour that a ray gathers with `depth` bounces left.
    ///
    /// With no bounce left the colour is black. A ray that hits nothing
    /// takes the colour of the sky. A ray that is absorbed is black. A ray
    /// that is scattered has the colour of the scattered ray, with one
    /// bounce fewer, times the attenuation.
    pub fn ray_color<B, F, G, C, TC, TS, D, M, GL, K, T>(
        r: &Ray,
        depth: i32,
        world: &HittableList,
        probes: &Probes<B, F, G, C>,
        shading: &Shading<TC, TS, D, M, GL, K, T>,
    ) -> (c: Color) where
        B: Fn(&AABB, &Ray) -> (Slab, Slab, Slab),
        F: Fn(&Sphere, &Ray) -> SphereRoots,
        G: Fn(&Sphere, &Ray, Scalar) -> SurfacePoint,
        C: Fn(&Quad, &Ray) -> PlaneCrossing,
        TC: Fn(Scalar, &Point3) -> (i32, i32, i32),
        TS: Fn(&Texture, Scalar, Scalar, &Point3) -> Color,
        D: Fn(&Ray, &HitRecord) -> Vec3,
        M: Fn(&Metal, &Ray, &HitRecord) -> MirrorPath,
        GL: Fn(&Dielectric, &Ray, &HitRecord) -> GlassPaths,
        K: Fn(&Ray) -> Color,
        T: Fn(Color, Color) -> Color,

        requires
            probes.callable(),
            shading.callable(),
        ensures
            depth <= 0 ==> c == Vec3(Scalar::zero_spec(), Scalar::zero_spec(), Scalar::zero_spec()),
            probes.functional() ==> radiance(depth as int, *r, world, probes, shading, c),
            shading.never_negative(world) ==> never_negative(c),
        decreases depth,
    {
        if depth <= 0 {
            return Vec3::zero();
        }
        let ray_t = Interval::new(Scalar::from_bits(HIT_MIN_BITS), Scalar::infinity());
        let outcome = match world.hit(r, ray_t, probes) {
            Some(rec) => {
                let scattered = rec.mat.scatter(r, &rec, &shading.scattering);
                assert(shading.scattering.scatters(&*rec.mat, *r, rec, scattered));
                Some(scattered)
            },
            None => None,
        };
        match Camera::path_step(depth, outcome) {
            PathStep::Black => Vec3::zero(),
            PathStep::Sky => (shading.sky)(r),
            PathStep::Scatter(s) => {
                let beyond = Camera::ray_color(&s.scattered, depth - 1, world, probes, shading);
                let c = (shading.tint)(s.attenuation, beyond);
                assert(call_ensures(shading.tint, (s.attenuation, beyond), c));
                c
            },
        }
    }

    /// The number of pixels of the image.
    pub fn pixel_count(&self) -> (n: u64)
        ensures
            n == pixel_count_spec(self.image_width, self.image_height),
    {
        let w: u64 = if self.image_width < 0 {
            0
        } else {
            self.image_width as u64
        };
        let h: u64 = if self.image_height < 0 {
            0
        } else {
            self.image_height as u64
        };
        assert(w * h <= 0x7FFF_FFFF * 0x7FFF_FFFF) by (nonlinear_arith)
            requires
                w <= 0x7FFF_FFFF,
                h <= 0x7FFF_FFFF,
        ;
        w * h
    }

    /// Writes the image as a plain pixel stream: the head, then one line for
    /// each pixel, rows from top to bottom and each row from left to right.
    /// `pixels` holds the tone-mapped colours in that order, one for each
    /// pixel of the image.
    pub fn render(&self, pixels: &Vec<Color>, out: &mut Vec<u8>)
        requires
            pixels@.len() == pixel_count_spec(self.image_width, self.image_height),
        ensures
            final(out)@ == old(out)@ + self.render_spec(pixels@),
    {
        out.push(80);
        out.push(51);
        out.push(10);
        push_signed(out, self.image_width);
        out.push(32);
        push_signed(out, self.image_height);
        out.push(10);
        out.push(50);
        out.push(53);
        out.push(53);
        out.push(10);
        assert(out@ =~= old(out)@ + header_spec(self.image_width, self.image_height));
        let mut k: usize = 0;
        while k < pixels.len()
            invariant
                k <= pixels.len(),
                out@ == old(out)@ + header_spec(self.image_width, self.image_height) + pixel_lines(
                    pixels@,
                    k as nat,
                ),
            decreases pixels.len() - k,
        {
            let ghost before = out@;
            pixels[k].write_color(out);
            assert(out@ =~= old(out)@ + header_spec(self.image_width, self.image_height)
                + pixel_lines(pixels@, (k + 1) as nat));
            k += 1;
        }
        assert(out@ =~= old(out)@ + self.render_spec(pixels@));
    }
}

/// No solid colour in the texture has a channel below zero.
pub open spec fn texture_never_negative(t: &Texture) -> bool
    decreases t,
{
    match *t {
        Texture::Solid(s) => never_negative(s.albedo),
        Texture::Checker(k) => texture_never_negative(&*k.even) && texture_never_negative(&*k.odd),
        _ => true,
    }
}

/// The colour of the material has no channel below zero.
pub open spec fn material_never_negative(m: &Material) -> bool {
    match *m {
        Material::Lambertian(l) => texture_never_negative(&*l.tex),
        Material::Metal(x) => never_negative(x.albedo),
        Material::Dielectric(_) => true,
    }
}

/// A texture without a solid colour below zero takes no colour below zero,
/// as long as the sample probe answers none for an image or for noise.
pub proof fn lemma_texture_never_negative<TC, TS>(
    t: &Texture,
    cell: &TC,
    sample: &TS,
    u: Scalar,
    v: Scalar,
    p: Point3,
    c: Color,
) where
    TC: Fn(Scalar, &Point3) -> (i32, i32, i32),
    TS: Fn(&Texture, Scalar, Scalar, &Point3) -> Color,

    requires
        texture_never_negative(t),
        forall|x: Texture, a: Scalar, b: Scalar, q: Point3, o: Color|
            (x is Image || x is Noise) && call_ensures(*sample, (&x, a, b, &q), o)
                ==> never_negative(o),
        t.may_value(cell, sample, u, v, p, c),
    ensures
        never_negative(c),
    decreases t,
{
    match *t {
        Texture::Checker(k) => {
            let at = choose|at: (i32, i32, i32)|
                #[trigger] call_ensures(*cell, (k.scale, &p), at) && (if crate::texture::CheckerTexture::is_even_spec(
                    at.0,
                    at.1,
                    at.2,
                ) {
                    k.even.may_value(cell, sample, u, v, p, c)
                } else {
                    k.odd.may_value(cell, sample, u, v, p, c)
                });
            if crate::texture::CheckerTexture::is_even_spec(at.0, at.1, at.2) {
                lemma_texture_never_negative(&*k.even, cell, sample, u, v, p, c);
            } else {
                lemma_texture_never_negative(&*k.odd, cell, sample, u, v, p, c);
            }
        },
        _ => {},
    }
}

/// The light of a world is never negative if the probes answer no colour
/// below zero and no material of the world has a colour below zero: the sky
/// and the samples of images and noise have no channel below zero, the
/// product of two such colours has none, and neither has the colour of a
/// mirror or a solid colour of a texture in the world.
pub proof fn lemma_light_never_negative<TC, TS, D, M, GL, K, T>(
    shading: &Shading<TC, TS, D, M, GL, K, T>,
    world: &HittableList,
) where
    TC: Fn(Scalar, &Point3) -> (i32, i32, i32),
    TS: Fn(&Texture, Scalar, Scalar, &Point3) -> Color,
    D: Fn(&Ray, &HitRecord) -> Vec3,
    M: Fn(&Metal, &Ray, &HitRecord) -> MirrorPath,
    GL: Fn(&Dielectric, &Ray, &HitRecord) -> GlassPaths,
    K: Fn(&Ray) -> Color,
    T: Fn(Color, Color) -> Color,

    requires
        forall|r: Ray, c: Color| call_ensures(shading.sky, (&r,), c) ==> never_negative(c),
        forall|a: Color, b: Color, c: Color|
            call_ensures(shading.tint, (a, b), c) && never_negative(a) && never_negative(b)
                ==> never_negative(c),
        forall|x: Texture, a: Scalar, b: Scalar, q: Point3, o: Color|
            (x is Image || x is Noise) && call_ensures(
                shading.scattering.sample,
                (&x, a, b, &q),
                o,
            ) ==> never_negative(o),
        forall|m: std::sync::Arc<Material>| #[trigger]
            world.as_shape().uses_material(m) ==> material_never_negative(&*m),
    ensures
        shading.never_negative(world),
{
    assert forall|r: Ray, rec: HitRecord, s: ScatterRecord|
        world.as_shape().uses_material(rec.mat) && #[trigger] shading.scattering.scatters(
            &*rec.mat,
            r,
            rec,
            Some(s),
        ) implies never_negative(s.attenuation) by {
        assert(material_never_negative(&*rec.mat));
        match *rec.mat {
            Material::Lambertian(l) => {
                lemma_texture_never_negative(
                    &*l.tex,
                    &shading.scattering.cell,
                    &shading.scattering.sample,
                    rec.u,
                    rec.v,
                    rec.p,
                    s.attenuation,
                );
            },
            Material::Metal(x) => {},
            Material::Dielectric(_) => {},
        }
    }
}

/// Radiance is never negative: no colour that a ray can gather in a world
/// has a channel below zero, as long as the sky, the attenuations of the
/// world's materials and the products of such colours have none.
pub proof fn lemma_radiance_never_negative<B, F, G, C, TC, TS, D, M, GL, K, T>(
    depth: int,
    r: Ray,
    world: &HittableList,
    probes: &Probes<B, F, G, C>,
    shading: &Shading<TC, TS, D, M, GL, K, T>,
    c: Color,
) where
    B: Fn(&AABB, &Ray) -> (Slab, Slab, Slab),
    F: Fn(&Sphere, &Ray) -> SphereRoots,
    G: Fn(&Sphere, &Ray, Scalar) -> SurfacePoint,
    C: Fn(&Quad, &Ray) -> PlaneCrossing,
    TC: Fn(Scalar, &Point3) -> (i32, i32, i32),
    TS: Fn(&Texture, Scalar, Scalar, &Point3) -> Color,
    D: Fn(&Ray, &HitRecord) -> Vec3,
    M: Fn(&Metal, &Ray, &HitRecord) -> MirrorPath,
    GL: Fn(&Dielectric, &Ray, &HitRecord) -> GlassPaths,
    K: Fn(&Ray) -> Color,
    T: Fn(Color, Color) -> Color,

    requires
        radiance(depth, r, world, probes, shading, c),
        shading.never_negative(world),
    ensures
        never_negative(c),
    decreases depth,
{
    if depth > 0 {
        crate::bounds::lemma_hit_material(
            &world.as_shape(),
            crate::sphere::roots_fn(&probes.roots),
            crate::sphere::surface_fn(&probes.surface),
            crate::quad::crossing_fn(&probes.crossing),
            probes.slab_spec(),
            r,
            hit_range(),
        );
        if let Some(rec) = world.as_shape().hit_spec(
            probes.leaf_spec(),
            probes.slab_spec(),
            r,
            hit_range(),
        ) {
            if !(shading.scattering.scatters(&*rec.mat, r, rec, None::<ScatterRecord>) && c == Vec3(
                Scalar::zero_spec(),
                Scalar::zero_spec(),
                Scalar::zero_spec(),
            )) {
                let (s, beyond) = choose|s: ScatterRecord, beyond: Color|
                    shading.scattering.scatters(&*rec.mat, r, rec, Some(s)) && radiance(
                        depth - 1,
                        s.scattered,
                        world,
                        probes,
                        shading,
                        beyond,
                    ) && #[trigger] call_ensures(shading.tint, (s.attenuation, beyond), c);
                lemma_radiance_never_negative(
                    depth - 1,
                    s.scattered,
                    world,
                    probes,
                    shading,
                    beyond,
                );
            }
        }
    }
}

/// The line of a pixel ends with a line feed and is 5 to 12 bytes long:
/// three channels of one to three digits, two blanks and the line feed.
pub proof fn lemma_pixel_line_shape(gamma: Color)
    ensures
        pixel_line(gamma).last() == 10u8,
        5 <= pixel_line(gamma).len() <= 12,
{
    crate::color::lemma_channel_digits(gamma.0);
    crate::color::lemma_channel_digits(gamma.1);
    crate::color::lemma_channel_digits(gamma.2);
}

} // verus!
