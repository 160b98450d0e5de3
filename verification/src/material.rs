//! Surface materials.
//!
//! A material turns an incoming ray into an absorption or into a scattered
//! ray. The directions are arithmetic; what is decided here is when a scatter
//! is kept, which direction is taken, and how a material is named.
use vstd::prelude::*;
use std::sync::Arc;
use crate::color::Color;
use crate::hittable::HitRecord;
use crate::ray::Ray;
use crate::scalar::Scalar;
use crate::texture::{
    cell_fn, probes_callable, probes_functional, sample_fn, SolidColor, Texture,
};
use crate::vec::{Point3, Vec3};

verus! {

/// What a surface does to the light that reaches it.
#[derive(Clone, Debug)]
pub enum Material {
    Lambertian(Lambertian),
    Metal(Metal),
    Dielectric(Dielectric),
}

/// A diffuse surface coloured by a texture.
#[derive(Clone, Debug)]
pub struct Lambertian {
    pub tex: Arc<Texture>,
}

/// A mirror, blurred by `fuzz`.
#[derive(Clone, Debug)]
pub struct Metal {
    pub name: String,
    pub albedo: Color,
    pub fuzz: Scalar,
}

/// Glass: a surface that reflects or refracts.
#[derive(Clone, Debug)]
pub struct Dielectric {
    pub name: String,
    pub refraction_index: Scalar,
}

/// The outcome of a scatter: how much of each channel survives, and the ray
/// that carries on.
#[derive(Clone, Copy, Debug)]
pub struct ScatterRecord {
    pub attenuation: Color,
    pub scattered: Ray,
}

/// The way of a ray off a mirror: the blurred reflection, and its product
/// with the normal of the surface.
#[derive(Clone, Copy, Debug)]
pub struct MirrorPath {
    pub direction: Vec3,
    pub facing: Scalar,
}

/// The two ways of a ray at glass, and what decides between them: the
/// reflected and the refracted direction, the refraction ratio times the
/// sine of the angle of incidence, the reflectance, and a random draw.
#[derive(Clone, Copy, Debug)]
pub struct GlassPaths {
    pub reflected: Vec3,
    pub refracted: Vec3,
    pub ratio_sine: Scalar,
    pub reflectance: Scalar,
    pub draw: Scalar,
}

/// The arithmetic and the chance behind a scatter: the lattice cell of a
/// point and the colour of an image or of noise, for textures; the sum of
/// the normal and a random unit vector, for diffuse surfaces; the way off a
/// mirror; and the ways at glass.
pub struct Scattering<C, S, D, M, G> {
    pub cell: C,
    pub sample: S,
    pub diffuse: D,
    pub mirror: M,
    pub glass: G,
}

impl<C, S, D, M, G> Scattering<C, S, D, M, G> where
    C: Fn(Scalar, &Point3) -> (i32, i32, i32),
    S: Fn(&Texture, Scalar, Scalar, &Point3) -> Color,
    D: Fn(&Ray, &HitRecord) -> Vec3,
    M: Fn(&Metal, &Ray, &HitRecord) -> MirrorPath,
    G: Fn(&Dielectric, &Ray, &HitRecord) -> GlassPaths,
 {
    /// Every probe can be asked anything.
    pub open spec fn callable(&self) -> bool {
        &&& probes_callable(&self.cell, &self.sample)
        &&& forall|r: Ray, rec: HitRecord| call_requires(self.diffuse, (&r, &rec))
        &&& forall|m: Metal, r: Ray, rec: HitRecord| call_requires(self.mirror, (&m, &r, &rec))
        &&& forall|d: Dielectric, r: Ray, rec: HitRecord|
            call_requires(self.glass, (&d, &r, &rec))
    }

    /// `out` is what the material can make of the ray at the hit.
    ///
    /// A diffuse surface always scatters: from the point of the hit, at the
    /// time of the ray, in the direction that the diffuse probe answered, or
    /// along the normal where that is all but zero; and it attenuates by a
    /// colour that its texture can take at the hit, which is the colour
    /// where the texture probes are functions. A mirror scatters along the way
    /// that the mirror probe answered, attenuating by its own colour, unless
    /// that way leads into the surface. Glass always scatters, without
    /// attenuation, along one of the two ways that the glass probe answered.
    pub open spec fn scatters(
        &self,
        material: &Material,
        r_in: Ray,
        rec: HitRecord,
        out: Option<ScatterRecord>,
    ) -> bool {
        match *material {
            Material::Lambertian(l) => {
                &&& out is Some
                &&& out->0.scattered.orig == rec.p
                &&& out->0.scattered.tm == r_in.tm
                &&& exists|candidate: Vec3|
                    #[trigger] call_ensures(self.diffuse, (&r_in, &rec), candidate)
                        && out->0.scattered.dir == Lambertian::scatter_direction_spec(
                        candidate,
                        rec.normal,
                    )
                &&& l.tex.may_value(&self.cell, &self.sample, rec.u, rec.v, rec.p, out->0.attenuation)
                &&& probes_functional(&self.cell, &self.sample) ==> out->0.attenuation
                    == l.tex.value_spec(
                    cell_fn(&self.cell),
                    sample_fn(&self.sample),
                    rec.u,
                    rec.v,
                    rec.p,
                )
            },
            Material::Metal(m) => exists|path: MirrorPath|
                #[trigger] call_ensures(self.mirror, (&m, &r_in, &rec), path) && out == (
                if Scalar::zero_spec().lt_spec(path.facing) {
                    Some(
                        ScatterRecord {
                            attenuation: m.albedo,
                            scattered: Ray { orig: rec.p, dir: path.direction, tm: r_in.tm },
                        },
                    )
                } else {
                    None
                }),
            Material::Dielectric(d) => exists|paths: GlassPaths|
                #[trigger] call_ensures(self.glass, (&d, &r_in, &rec), paths) && out == Some(
                    ScatterRecord {
                        attenuation: Vec3(
                            Scalar::one_spec(),
                            Scalar::one_spec(),
                            Scalar::one_spec(),
                        ),
                        scattered: Ray {
                            orig: rec.p,
                            dir: if Dielectric::reflects_spec(
                                paths.ratio_sine,
                                paths.reflectance,
                                paths.draw,
                            ) {
                                paths.reflected
                            } else {
                                paths.refracted
                            },
                            tm: r_in.tm,
                        },
                    },
                ),
        }
    }
}

impl Lambertian {
    /// The direction in which a diffuse surface scatters: the candidate, or
    /// the bare normal where the candidate is all but the zero vector.
    pub open spec fn scatter_direction_spec(candidate: Vec3, normal: Vec3) -> Vec3 {
        if candidate.near_zero_spec() {
            normal
        } else {
            candidate
        }
    }

    /// A diffuse surface of one colour, whose solid texture carries `name`.
    pub fn new(name: String, albedo: Color) -> (m: Lambertian)
        ensures
            *m.tex == Texture::Solid(SolidColor { name, albedo }),
    {
        Lambertian::from_texture(Arc::new(Texture::Solid(SolidColor::new(name, albedo))))
    }

    pub fn from_texture(texture: Arc<Texture>) -> (m: Lambertian)
        ensures
            m.tex == texture,
    {
        Lambertian { tex: texture }
    }

    /// Picks the scatter direction from the candidate, the sum of the normal
    /// and a random unit vector.
    pub fn scatter_direction(candidate: Vec3, normal: &Vec3) -> (d: Vec3)
        ensures
            d == Lambertian::scatter_direction_spec(candidate, *normal),
    {
        if candidate.near_zero() {
            *normal
        } else {
            candidate
        }
    }

    /// The scatter of a ray cast at `time` that hit at `p`: the texture's
    /// colour, and a ray from `p` in the picked direction at the same time.
    pub fn scatter(attenuation: Color, p: Vec3, candidate: Vec3, normal: &Vec3, time: Scalar) -> (s:
        Option<ScatterRecord>)
        ensures
            s == Some(
                ScatterRecord {
                    attenuation,
                    scattered: Ray {
                        orig: p,
                        dir: Lambertian::scatter_direction_spec(candidate, *normal),
                        tm: time,
                    },
                },
            ),
    {
        let direction = Lambertian::scatter_direction(candidate, normal);
        Some(ScatterRecord { attenuation, scattered: Ray::new_with_time(p, direction, time) })
    }
}

impl Metal {
    /// The blur kept in `[0, 1]`: 0 for a negative number, 1 for a number
    /// above 1 and for what is not a number.
    pub open spec fn fuzz_spec(fuzz: Scalar) -> Scalar {
        if fuzz.lt_spec(Scalar::zero_spec()) {
            Scalar::zero_spec()
        } else if fuzz.le_spec(Scalar::one_spec()) {
            fuzz
        } else {
            Scalar::one_spec()
        }
    }

    pub fn new(name: String, albedo: Color, fuzz: Scalar) -> (m: Metal)
        ensures
            m.name == name,
            m.albedo == albedo,
            m.fuzz == Metal::fuzz_spec(fuzz),
    {
        let fuzz = if fuzz.lt(&Scalar::zero()) {
            Scalar::zero()
        } else if fuzz.le(&Scalar::one()) {
            fuzz
        } else {
            Scalar::one()
        };
        Metal { name, albedo, fuzz }
    }

    /// The scatter of a ray cast at `time` that hit at `p`. `direction` is
    /// the blurred reflection and `facing` its product with the normal: the
    /// ray is absorbed unless the direction leaves the surface, that is
    /// unless `facing` is positive.
    pub fn scatter(&self, p: Vec3, direction: Vec3, facing: Scalar, time: Scalar) -> (s: Option<
        ScatterRecord,
    >)
        ensures
            s == if Scalar::zero_spec().lt_spec(facing) {
                Some(
                    ScatterRecord {
                        attenuation: self.albedo,
                        scattered: Ray { orig: p, dir: direction, tm: time },
                    },
                )
            } else {
                None
            },
    {
        if facing.gt(&Scalar::zero()) {
            Some(
                ScatterRecord {
                    attenuation: self.albedo,
                    scattered: Ray::new_with_time(p, direction, time),
                },
            )
        } else {
            None
        }
    }
}

impl Dielectric {
    /// Total internal reflection: the refraction ratio times the sine of the
    /// angle of incidence exceeds 1.
    pub open spec fn cannot_refract_spec(ratio_sine: Scalar) -> bool {
        Scalar::one_spec().lt_spec(ratio_sine)
    }

    /// The ray is reflected if it cannot be refracted, or if the
    /// reflectance exceeds the random draw.
    pub open spec fn reflects_spec(ratio_sine: Scalar, reflectance: Scalar, draw: Scalar) -> bool {
        Dielectric::cannot_refract_spec(ratio_sine) || draw.lt_spec(reflectance)
    }

    pub fn new(name: String, refraction_index: Scalar) -> (m: Dielectric)
        ensures
            m.name == name,
            m.refraction_index == refraction_index,
    {
        Dielectric { name, refraction_index }
    }

    /// The refraction ratio for a hit: the inverse of the index where the
    /// ray enters through the front face, the index itself where it leaves.
    /// `inverse` is one divided by the index.
    pub fn ratio(&self, front_face: bool, inverse: Scalar) -> (ri: Scalar)
        ensures
            ri == if front_face {
                inverse
            } else {
                self.refraction_index
            },
    {
        if front_face {
            inverse
        } else {
            self.refraction_index
        }
    }

    pub fn cannot_refract(ratio_sine: Scalar) -> (b: bool)
        ensures
            b == Dielectric::cannot_refract_spec(ratio_sine),
    {
        ratio_sine.gt(&Scalar::one())
    }

    /// Whether glass reflects a ray rather than refracting it.
    pub fn reflects(ratio_sine: Scalar, reflectance: Scalar, draw: Scalar) -> (b: bool)
        ensures
            b == Dielectric::reflects_spec(ratio_sine, reflectance, draw),
    {
        Dielectric::cannot_refract(ratio_sine) || reflectance.gt(&draw)
    }

    /// The scatter of a ray cast at `time` that hit at `p`: glass absorbs
    /// nothing and tints nothing, and sends the ray on in the reflected or
    /// the refracted direction.
    pub fn scatter(
        p: Vec3,
        reflected: Vec3,
        refracted: Vec3,
        ratio_sine: Scalar,
        reflectance: Scalar,
        draw: Scalar,
        time: Scalar,
    ) -> (s: Option<ScatterRecord>)
        ensures
            s == Some(
                ScatterRecord {
                    attenuation: Vec3(Scalar::one_spec(), Scalar::one_spec(), Scalar::one_spec()),
                    scattered: Ray {
                        orig: p,
                        dir: if Dielectric::reflects_spec(ratio_sine, reflectance, draw) {
                            reflected
                        } else {
                            refracted
                        },
                        tm: time,
                    },
                },
            ),
    {
        let direction = if Dielectric::reflects(ratio_sine, reflectance, draw) {
            reflected
        } else {
            refracted
        };
        Some(
            ScatterRecord {
                attenuation: Vec3::new(Scalar::one(), Scalar::one(), Scalar::one()),
                scattered: Ray::new_with_time(p, direction, time),
            },
        )
    }
}

impl Material {
    /// The name under which the material is listed in a scene document: a
    /// diffuse surface goes by the name of its texture.
    pub open spec fn name_spec(&self) -> Seq<char> {
        match *self {
            Material::Lambertian(l) => l.tex.name_spec(),
            Material::Metal(m) => m.name@,
            Material::Dielectric(d) => d.name@,
        }
    }

    pub fn name(&self) -> (n: String)
        ensures
            n@ == self.name_spec(),
    {
        match self {
            Material::Lambertian(l) => l.tex.name(),
            Material::Metal(m) => m.name.clone(),
            Material::Dielectric(d) => d.name.clone(),
        }
    }

    /// What the material makes of a ray that hit it: an absorption, or the
    /// attenuation and the scattered ray.
    pub fn scatter<C, S, D, M, G>(
        &self,
        r_in: &Ray,
        rec: &HitRecord,
        with: &Scattering<C, S, D, M, G>,
    ) -> (out: Option<ScatterRecord>) where
        C: Fn(Scalar, &Point3) -> (i32, i32, i32),
        S: Fn(&Texture, Scalar, Scalar, &Point3) -> Color,
        D: Fn(&Ray, &HitRecord) -> Vec3,
        M: Fn(&Metal, &Ray, &HitRecord) -> MirrorPath,
        G: Fn(&Dielectric, &Ray, &HitRecord) -> GlassPaths,

        requires
            with.callable(),
        ensures
            with.scatters(self, *r_in, *rec, out),
    {
        match self {
            Material::Lambertian(l) => {
                let candidate = (with.diffuse)(r_in, rec);
                assert(call_ensures(with.diffuse, (r_in, rec), candidate));
                let attenuation = l.tex.value(rec.u, rec.v, &rec.p, &with.cell, &with.sample);
                Lambertian::scatter(attenuation, rec.p, candidate, &rec.normal, r_in.time())
            },
            Material::Metal(m) => {
                let path = (with.mirror)(m, r_in, rec);
                assert(call_ensures(with.mirror, (m, r_in, rec), path));
                m.scatter(rec.p, path.direction, path.facing, r_in.time())
            },
            Material::Dielectric(d) => {
                let paths = (with.glass)(d, r_in, rec);
                assert(call_ensures(with.glass, (d, r_in, rec), paths));
                Dielectric::scatter(
                    rec.p,
                    paths.reflected,
                    paths.refracted,
                    paths.ratio_sine,
                    paths.reflectance,
                    paths.draw,
                    r_in.time(),
                )
            },
        }
    }
}

/// A diffuse surface never scatters in a direction that is all but zero,
/// as long as its normal is not: the direction is the candidate where that
/// is not all but zero, and the normal otherwise.
pub proof fn lemma_scatter_direction(candidate: Vec3, normal: Vec3)
    ensures
        Lambertian::scatter_direction_spec(candidate, normal) == candidate
            || Lambertian::scatter_direction_spec(candidate, normal) == normal,
        !normal.near_zero_spec() ==> !Lambertian::scatter_direction_spec(
            candidate,
            normal,
        ).near_zero_spec(),
{
}

/// Where the refraction ratio times the sine is zero, as it is for a ray
/// that meets the surface head-on, glass does not reflect totally.
pub proof fn lemma_no_total_reflection_head_on(ratio_sine: Scalar)
    requires
        ratio_sine.eq_spec(Scalar::zero_spec()),
    ensures
        !Dielectric::cannot_refract_spec(ratio_sine),
{
}

} // verus!
