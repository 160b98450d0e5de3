//! Surface textures.
use vstd::prelude::*;
use vstd::string::StringExecFns;
use std::sync::Arc;
use crate::color::Color;
use crate::image::RtwImage;
use crate::perlin::Perlin;
use crate::scalar::Scalar;
use crate::vec::{Point3, Vec3};

verus! {

/// What colours a surface.
#[derive(Clone, Debug)]
pub enum Texture {
    Solid(SolidColor),
    Checker(CheckerTexture),
    Image(ImageTexture),
    Noise(NoiseTexture),
}

/// One colour everywhere.
#[derive(Clone, Debug)]
pub struct SolidColor {
    pub name: String,
    pub albedo: Color,
}

/// Two textures alternating over the cells of a cubic lattice with cells of
/// edge `scale`.
#[derive(Clone, Debug)]
pub struct CheckerTexture {
    pub name: String,
    pub scale: Scalar,
    pub even: Arc<Texture>,
    pub odd: Arc<Texture>,
}

/// A raster image wrapped around the surface.
#[derive(Clone, Debug)]
pub struct ImageTexture {
    pub name: String,
    pub path: String,
    pub image: RtwImage,
}

/// Turbulent lattice noise.
#[derive(Clone, Debug)]
pub struct NoiseTexture {
    pub noise: Perlin,
    pub scale: Scalar,
}

/// The text that `{:?}` prints for a string: the string between double
/// quotes, with escapes.
pub uninterp spec fn debug_text(s: Seq<char>) -> Seq<char>;

/// Formats a string with `format!("{:?}", ..)`, that is through
/// `<str as std::fmt::Debug>::fmt`. Claimed: the text is a function of the
/// string alone.
#[verifier::external_body]
fn quoted(s: &str) -> (out: String)
    ensures
        out@ == debug_text(s@),
{
    format!("{:?}", s)
}

/// The lattice cell probe as a function: the one cell that the probe can
/// return for a cell size and a point.
pub open spec fn cell_fn<C: Fn(Scalar, &Point3) -> (i32, i32, i32)>(cell: &C) -> spec_fn(
    Scalar,
    Point3,
) -> (i32, i32, i32) {
    |scale: Scalar, p: Point3| choose|o: (i32, i32, i32)| call_ensures(*cell, (scale, &p), o)
}

/// The sample probe as a function: the one colour that the probe can return
/// for a texture, surface coordinates and a point.
pub open spec fn sample_fn<S: Fn(&Texture, Scalar, Scalar, &Point3) -> Color>(
    sample: &S,
) -> spec_fn(Texture, Scalar, Scalar, Point3) -> Color {
    |t: Texture, u: Scalar, v: Scalar, p: Point3|
        choose|o: Color| call_ensures(*sample, (&t, u, v, &p), o)
}

/// The cell probe and the sample probe can be asked anything.
pub open spec fn probes_callable<C, S>(cell: &C, sample: &S) -> bool where
    C: Fn(Scalar, &Point3) -> (i32, i32, i32),
    S: Fn(&Texture, Scalar, Scalar, &Point3) -> Color,
 {
    &&& forall|scale: Scalar, p: Point3| call_requires(*cell, (scale, &p))
    &&& forall|t: Texture, u: Scalar, v: Scalar, p: Point3| call_requires(*sample, (&t, u, v, &p))
}

/// What the cell probe and the sample probe answer depends on nothing but
/// the question.
pub open spec fn probes_functional<C, S>(cell: &C, sample: &S) -> bool where
    C: Fn(Scalar, &Point3) -> (i32, i32, i32),
    S: Fn(&Texture, Scalar, Scalar, &Point3) -> Color,
 {
    &&& forall|scale: Scalar, p: Point3, o1: (i32, i32, i32), o2: (i32, i32, i32)|
        call_ensures(*cell, (scale, &p), o1) && call_ensures(*cell, (scale, &p), o2) ==> o1 == o2
    &&& forall|t: Texture, u: Scalar, v: Scalar, p: Point3, o1: Color, o2: Color|
        call_ensures(*sample, (&t, u, v, &p), o1) && call_ensures(*sample, (&t, u, v, &p), o2)
            ==> o1 == o2
}

impl SolidColor {
    pub fn new(name: String, albedo: Color) -> (t: SolidColor)
        ensures
            t.name == name,
            t.albedo == albedo,
    {
        SolidColor { name, albedo }
    }

    pub fn from_rgb(name: String, red: Scalar, green: Scalar, blue: Scalar) -> (t: SolidColor)
        ensures
            t.name == name,
            t.albedo == Vec3(red, green, blue),
    {
        SolidColor::new(name, Vec3::new(red, green, blue))
    }

    /// The colour, which is the same at every point.
    pub fn value(&self) -> (c: Color)
        ensures
            c == self.albedo,
    {
        self.albedo
    }
}

impl CheckerTexture {
    /// The name of a checker over two textures: `checker_`, the name of the
    /// even texture, `_`, the name of the odd one.
    pub open spec fn name_of(even: Seq<char>, odd: Seq<char>) -> Seq<char> {
        "checker_"@ + even + "_"@ + odd
    }

    /// The cell with lattice coordinates `(x, y, z)` is an even one: the sum
    /// of its coordinates is even.
    pub open spec fn is_even_spec(x: i32, y: i32, z: i32) -> bool {
        (x + y + z) % 2 == 0
    }

    /// A checker over two textures, named after them.
    pub fn new(scale: Scalar, even: Arc<Texture>, odd: Arc<Texture>) -> (t: CheckerTexture)
        ensures
            t.name@ == CheckerTexture::name_of(even.name_spec(), odd.name_spec()),
            t.scale == scale,
            t.even == even,
            t.odd == odd,
    {
        let mut name = String::from_str("checker_");
        let even_name = even.name();
        name.append(even_name.as_str());
        name.append("_");
        let odd_name = odd.name();
        name.append(odd_name.as_str());
        CheckerTexture { name, scale, even, odd }
    }

    /// A checker over two colours. The two solid textures are named
    /// `checker_NAME_even` and `checker_NAME_odd`.
    pub fn from_color(name: String, scale: Scalar, even: Color, odd: Color) -> (t: CheckerTexture)
        ensures
            t.name == name,
            t.scale == scale,
            *t.even matches Texture::Solid(s) && s.albedo == even && s.name@ == "checker_"@ + name@
                + "_even"@,
            *t.odd matches Texture::Solid(s) && s.albedo == odd && s.name@ == "checker_"@ + name@
                + "_odd"@,
    {
        let mut even_name = String::from_str("checker_");
        even_name.append(name.as_str());
        even_name.append("_even");
        let mut odd_name = String::from_str("checker_");
        odd_name.append(name.as_str());
        odd_name.append("_odd");
        CheckerTexture {
            name,
            scale,
            even: Arc::new(Texture::Solid(SolidColor::new(even_name, even))),
            odd: Arc::new(Texture::Solid(SolidColor::new(odd_name, odd))),
        }
    }

    /// Whether a lattice cell takes the even texture.
    pub fn is_even(x: i32, y: i32, z: i32) -> (b: bool)
        ensures
            b == CheckerTexture::is_even_spec(x, y, z),
    {
        let sum: i64 = (x as i64) + (y as i64) + (z as i64);
        sum % 2 == 0
    }
}

impl ImageTexture {
    /// The name of the texture over the image at `path`: `image_` and the
    /// path as `{:?}` prints it.
    pub open spec fn name_of(path: Seq<char>) -> Seq<char> {
        "image_"@ + debug_text(path)
    }

    /// A texture over an image that was read from `path`.
    pub fn new(path: String, image: RtwImage) -> (t: ImageTexture)
        ensures
            t.name@ == ImageTexture::name_of(path@),
            t.path == path,
            t.image == image,
    {
        let mut name = String::from_str("image_");
        let text = quoted(path.as_str());
        name.append(text.as_str());
        ImageTexture { path, name, image }
    }
}

impl ImageTexture {
    /// The pixel under scaled surface coordinates: `column` is the
    /// horizontal coordinate times the width and `row` the vertical one
    /// times the height, both cut to whole numbers. There is no pixel
    /// outside the image.
    pub open spec fn texel_spec(&self, column: Scalar, row: Scalar) -> Option<(u8, u8, u8)> {
        if column.to_u32_spec() < self.image.width && row.to_u32_spec() < self.image.height {
            Some(self.image.pixel_spec(column.to_u32_spec() as u32, row.to_u32_spec() as u32))
        } else {
            None
        }
    }

    /// Looks up the pixel under scaled surface coordinates.
    pub fn texel(&self, column: Scalar, row: Scalar) -> (p: Option<(u8, u8, u8)>)
        requires
            self.image.wf(),
        ensures
            p == self.texel_spec(column, row),
    {
        let i = column.to_u32();
        let j = row.to_u32();
        if i < self.image.width() && j < self.image.height() {
            Some(self.image.get_pixel(i, j))
        } else {
            None
        }
    }
}

impl NoiseTexture {
    pub fn new(scale: Scalar, noise: Perlin) -> (t: NoiseTexture)
        ensures
            t.scale == scale,
            t.noise == noise,
    {
        NoiseTexture { scale, noise }
    }
}

impl Texture {
    /// The name under which the texture is listed in a scene document.
    pub open spec fn name_spec(&self) -> Seq<char> {
        match *self {
            Texture::Solid(s) => s.name@,
            Texture::Checker(c) => c.name@,
            Texture::Image(i) => i.name@,
            Texture::Noise(_) => "perlin_default"@,
        }
    }

    /// The colour at a point of a surface.
    ///
    /// A solid colour is the same everywhere. A checker looks up the lattice
    /// cell of the point through the cell probe and hands on to its even or
    /// odd texture. Images and noise answer through the sample probe.
    pub open spec fn value_spec(
        &self,
        cell: spec_fn(Scalar, Point3) -> (i32, i32, i32),
        sample: spec_fn(Texture, Scalar, Scalar, Point3) -> Color,
        u: Scalar,
        v: Scalar,
        p: Point3,
    ) -> Color
        decreases self,
    {
        match *self {
            Texture::Solid(s) => s.albedo,
            Texture::Checker(c) => {
                let at = cell(c.scale, p);
                if CheckerTexture::is_even_spec(at.0, at.1, at.2) {
                    c.even.value_spec(cell, sample, u, v, p)
                } else {
                    c.odd.value_spec(cell, sample, u, v, p)
                }
            },
            Texture::Image(_) => sample(*self, u, v, p),
            Texture::Noise(_) => sample(*self, u, v, p),
        }
    }

    /// `c` is a colour that the texture can take at a point of a surface:
    /// the colour of a solid texture; for a checker, a colour of its even or
    /// odd texture, as a cell that the cell probe can answer decides; for an
    /// image or noise, an answer of the sample probe.
    pub open spec fn may_value<C, S>(
        &self,
        cell: &C,
        sample: &S,
        u: Scalar,
        v: Scalar,
        p: Point3,
        c: Color,
    ) -> bool where
        C: Fn(Scalar, &Point3) -> (i32, i32, i32),
        S: Fn(&Texture, Scalar, Scalar, &Point3) -> Color,

        decreases self,
    {
        match *self {
            Texture::Solid(s) => c == s.albedo,
            Texture::Checker(k) => exists|at: (i32, i32, i32)|
                #[trigger] call_ensures(*cell, (k.scale, &p), at) && (if CheckerTexture::is_even_spec(
                    at.0,
                    at.1,
                    at.2,
                ) {
                    k.even.may_value(cell, sample, u, v, p, c)
                } else {
                    k.odd.may_value(cell, sample, u, v, p, c)
                }),
            Texture::Image(_) => call_ensures(*sample, (self, u, v, &p), c),
            Texture::Noise(_) => call_ensures(*sample, (self, u, v, &p), c),
        }
    }

    pub fn name(&self) -> (n: String)
        ensures
            n@ == self.name_spec(),
    {
        match self {
            Texture::Solid(s) => s.name.clone(),
            Texture::Checker(c) => c.name.clone(),
            Texture::Image(i) => i.name.clone(),
            Texture::Noise(_) => String::from_str("perlin_default"),
        }
    }

    /// Evaluates the texture at surface coordinates `(u, v)` and point `p`.
    pub fn value<C, S>(&self, u: Scalar, v: Scalar, p: &Point3, cell: &C, sample: &S) -> (c: Color) where
        C: Fn(Scalar, &Point3) -> (i32, i32, i32),
        S: Fn(&Texture, Scalar, Scalar, &Point3) -> Color,

        requires
            probes_callable(cell, sample),
        ensures
            probes_functional(cell, sample) ==> c == self.value_spec(
                cell_fn(cell),
                sample_fn(sample),
                u,
                v,
                *p,
            ),
            self.may_value(cell, sample, u, v, *p, c),
        decreases self,
    {
        match self {
            Texture::Solid(s) => s.value(),
            Texture::Checker(c) => {
                let (x, y, z) = cell(c.scale, p);
                assert(call_ensures(*cell, (c.scale, p), (x, y, z)));
                if CheckerTexture::is_even(x, y, z) {
                    c.even.value(u, v, p, cell, sample)
                } else {
                    c.odd.value(u, v, p, cell, sample)
                }
            },
            Texture::Image(_) => sample(self, u, v, p),
            Texture::Noise(_) => sample(self, u, v, p),
        }
    }
}

} // verus!
