//! Scene documents: the named tables of textures and materials and the tree
//! of shapes, how a scene is written into a document, and how a document is
//! made into a scene.
use vstd::prelude::*;
use std::sync::Arc;
use crate::aabb::AABB;
use crate::bvh::BVHNode;
use crate::color::Color;
use crate::hittable::{bounds_of, Hittable, HittableList};
use crate::material::{Dielectric, Lambertian, Material, Metal};
use crate::perlin::Perlin;
use crate::quad::{Quad, QuadFrame};
use crate::ray::Ray;
use crate::scalar::Scalar;
use crate::scene_tree::{
    docs_of, find_last, has_key, lemma_docs_of, lemma_resolve_materials_fails,
    lemma_resolve_shapes_fails, lemma_resolve_textures_fails, lemma_trees_of, list_all, register,
    resolve, resolve_material, resolve_materials, resolve_shape, resolve_shapes, resolve_texture,
    resolve_textures, serialize, trees_of, MaterialDoc, MaterialTree, SceneDoc, ShapeDoc,
    ShapeTree, Tables, TextureDoc, TextureTree, Unresolved,
};
use crate::round_trip::{distinct_keys, lemma_listed_once, parts_first, textures_listed};
use crate::sphere::Sphere;
use crate::texture::{CheckerTexture, ImageTexture, NoiseTexture, SolidColor, Texture};
use crate::vec::{Point3, Vec3};
use crate::image::{converts, RtwImage};

verus! {

/// A shape of a scene document.
#[derive(Debug)]
pub enum ShapeSpec {
    Circle { radius: Scalar, center: Ray, material: String },
    Quad { q: Point3, u: Vec3, v: Vec3, material: String },
    List(Vec<ShapeSpec>),
    BVH { left: Box<ShapeSpec>, right: Box<ShapeSpec> },
}

/// A texture of a scene document.
#[derive(Clone, Debug)]
pub enum TextureSpec {
    SolidColor { albedo: Color },
    Checker { scale: Scalar, even: String, odd: String },
    Image { path: String },
    Perlin { scale: Scalar },
}

/// A material of a scene document.
#[derive(Clone, Debug)]
pub enum MaterialSpec {
    Lambertian { texture: String },
    Metal { albedo: Color, fuzz: Scalar },
    Dielectric { refraction_index: Scalar },
}

/// The tables of a document while a scene is written into it.
#[derive(Clone, Debug)]
pub struct ResourceRegistry {
    pub materials: Vec<(String, MaterialSpec)>,
    pub textures: Vec<(String, TextureSpec)>,
}

/// A scene document.
#[derive(Debug)]
pub struct SceneFile {
    pub textures: Vec<(String, TextureSpec)>,
    pub materials: Vec<(String, MaterialSpec)>,
    pub shapes: Vec<ShapeSpec>,
}

/// Why a document could not be made into a scene.
#[derive(Clone, Debug)]
pub enum SceneError {
    /// A checker names a texture that no earlier entry defines.
    Texture(String),
    /// A material names a texture that the table does not define.
    MaterialTexture(String),
    /// A shape names a material that the table does not define.
    Material(String),
    /// The image at this path could not be had.
    Image(String),
    /// The gradients for a noise texture are not 256.
    Noise,
}

impl View for TextureSpec {
    type V = TextureDoc;

    open spec fn view(&self) -> TextureDoc {
        match *self {
            TextureSpec::SolidColor { albedo } => TextureDoc::SolidColor { albedo },
            TextureSpec::Checker { scale, even, odd } => TextureDoc::Checker {
                scale,
                even: even@,
                odd: odd@,
            },
            TextureSpec::Image { path } => TextureDoc::Image { path: path@ },
            TextureSpec::Perlin { scale } => TextureDoc::Perlin { scale },
        }
    }
}

impl View for MaterialSpec {
    type V = MaterialDoc;

    open spec fn view(&self) -> MaterialDoc {
        match *self {
            MaterialSpec::Lambertian { texture } => MaterialDoc::Lambertian { texture: texture@ },
            MaterialSpec::Metal { albedo, fuzz } => MaterialDoc::Metal { albedo, fuzz },
            MaterialSpec::Dielectric { refraction_index } => MaterialDoc::Dielectric {
                refraction_index,
            },
        }
    }
}

impl ShapeSpec {
    /// The shape with its names by their characters.
    pub open spec fn doc(&self) -> ShapeDoc
        decreases self,
    {
        match *self {
            ShapeSpec::Circle { radius, center, material } => ShapeDoc::Circle {
                radius,
                center,
                material: material@,
            },
            ShapeSpec::Quad { q, u, v, material } => ShapeDoc::Quad { q, u, v, material: material@ },
            ShapeSpec::List(items) => ShapeDoc::List(shape_docs(items@, items@.len())),
            ShapeSpec::BVH { left, right } => ShapeDoc::BVH {
                left: Box::new(left.doc()),
                right: Box::new(right.doc()),
            },
        }
    }
}

impl View for ShapeSpec {
    type V = ShapeDoc;

    open spec fn view(&self) -> ShapeDoc {
        self.doc()
    }
}

/// The first `n` shapes of a row of a document.
pub open spec fn shape_docs(items: Seq<ShapeSpec>, n: nat) -> Seq<ShapeDoc>
    decreases items, n,
{
    if n == 0 || n > items.len() {
        Seq::empty()
    } else {
        shape_docs(items, (n - 1) as nat).push(items[n - 1].doc())
    }
}

/// A texture table by the views of its keys and entries.
pub open spec fn texture_table(table: Seq<(String, TextureSpec)>) -> Seq<(Seq<char>, TextureDoc)> {
    Seq::new(table.len(), |i: int| (table[i].0@, table[i].1@))
}

/// A material table by the views of its keys and entries.
pub open spec fn material_table(table: Seq<(String, MaterialSpec)>) -> Seq<
    (Seq<char>, MaterialDoc),
> {
    Seq::new(table.len(), |i: int| (table[i].0@, table[i].1@))
}

/// The textures built so far, each under its key.
pub open spec fn texture_trees(known: Seq<(String, Arc<Texture>)>) -> Seq<
    (Seq<char>, TextureTree),
> {
    Seq::new(known.len(), |i: int| (known[i].0@, known[i].1.tree()))
}

/// The materials built so far, each under its key.
pub open spec fn material_trees(known: Seq<(String, Arc<Material>)>) -> Seq<
    (Seq<char>, MaterialTree),
> {
    Seq::new(known.len(), |i: int| (known[i].0@, known[i].1.tree()))
}

impl View for ResourceRegistry {
    type V = Tables;

    open spec fn view(&self) -> Tables {
        Tables {
            textures: texture_table(self.textures@),
            materials: material_table(self.materials@),
        }
    }
}

impl View for SceneFile {
    type V = SceneDoc;

    open spec fn view(&self) -> SceneDoc {
        SceneDoc {
            textures: texture_table(self.textures@),
            materials: material_table(self.materials@),
            shapes: shape_docs(self.shapes@, self.shapes@.len()),
        }
    }
}

impl ResourceRegistry {
    /// A registry with empty tables.
    pub fn new() -> (r: ResourceRegistry)
        ensures
            r@ == (Tables { textures: Seq::empty(), materials: Seq::empty() }),
    {
        let r = ResourceRegistry { materials: Vec::new(), textures: Vec::new() };
        assert(r@.textures =~= Seq::empty());
        assert(r@.materials =~= Seq::empty());
        r
    }

    /// Lists a material under its name, unless the name is listed already.
    pub fn register_material(&mut self, name: String, spec: MaterialSpec)
        ensures
            final(self)@.materials == register(old(self)@.materials, name@, spec@),
            final(self)@.textures == old(self)@.textures,
    {
        let mut i: usize = 0;
        while i < self.materials.len()
            invariant
                i <= self.materials.len(),
                *self == *old(self),
                !has_key(self@.materials, i as int, name@),
            decreases self.materials.len() - i,
        {
            if self.materials[i].0 == name {
                assert(self@.materials[i as int].0 == name@);
                return ;
            }
            assert forall|j: int| 0 <= j < i + 1 implies (#[trigger] self@.materials[j]).0
                != name@ by {
                if j < i {
                    assert(!has_key(self@.materials, i as int, name@));
                }
            }
            i += 1;
        }
        self.materials.push((name, spec));
        assert(final(self)@.materials =~= old(self)@.materials.push((name@, spec@)));
    }

    /// Lists a texture under its name, unless the name is listed already.
    pub fn register_texture(&mut self, name: String, spec: TextureSpec)
        ensures
            final(self)@.textures == register(old(self)@.textures, name@, spec@),
            final(self)@.materials == old(self)@.materials,
    {
        let mut i: usize = 0;
        while i < self.textures.len()
            invariant
                i <= self.textures.len(),
                *self == *old(self),
                !has_key(self@.textures, i as int, name@),
            decreases self.textures.len() - i,
        {
            if self.textures[i].0 == name {
                assert(self@.textures[i as int].0 == name@);
                return ;
            }
            assert forall|j: int| 0 <= j < i + 1 implies (#[trigger] self@.textures[j]).0
                != name@ by {
                if j < i {
                    assert(!has_key(self@.textures, i as int, name@));
                }
            }
            i += 1;
        }
        self.textures.push((name, spec));
        assert(final(self)@.textures =~= old(self)@.textures.push((name@, spec@)));
    }
}

/// The shapes of a row of a document stand in the order of the row.
pub proof fn lemma_shape_docs(items: Seq<ShapeSpec>, n: nat)
    requires
        n <= items.len(),
    ensures
        shape_docs(items, n).len() == n,
        forall|i: int| 0 <= i < n ==> (#[trigger] shape_docs(items, n)[i]) == items[i].doc(),
    decreases n,
{
    if n > 0 {
        lemma_shape_docs(items, (n - 1) as nat);
    }
}

impl Texture {
    /// The texture's entry for a document. The textures that it is made of
    /// are listed in the registry.
    pub fn to_spec(&self, registry: &mut ResourceRegistry) -> (spec: TextureSpec)
        ensures
            spec@ == self.tree().doc(),
            final(registry)@.textures == self.tree().list_parts(old(registry)@.textures),
            final(registry)@.materials == old(registry)@.materials,
        decreases self,
    {
        match self {
            Texture::Solid(s) => TextureSpec::SolidColor { albedo: s.albedo },
            Texture::Checker(c) => {
                let even = c.even.to_spec(registry);
                registry.register_texture(c.even.name(), even);
                let odd = c.odd.to_spec(registry);
                registry.register_texture(c.odd.name(), odd);
                TextureSpec::Checker { scale: c.scale, even: c.even.name(), odd: c.odd.name() }
            },
            Texture::Image(i) => TextureSpec::Image { path: i.path.clone() },
            Texture::Noise(n) => TextureSpec::Perlin { scale: n.scale },
        }
    }
}

impl Material {
    /// The material's entry for a document. Its texture is listed in the
    /// registry, with all that it is made of.
    pub fn to_spec(&self, registry: &mut ResourceRegistry) -> (spec: MaterialSpec)
        ensures
            spec@ == self.tree().doc(),
            final(registry)@ == self.tree().list_parts(old(registry)@),
    {
        match self {
            Material::Lambertian(l) => {
                let tex = l.tex.to_spec(registry);
                registry.register_texture(l.tex.name(), tex);
                MaterialSpec::Lambertian { texture: l.tex.name() }
            },
            Material::Metal(m) => MaterialSpec::Metal { albedo: m.albedo, fuzz: m.fuzz },
            Material::Dielectric(d) => MaterialSpec::Dielectric {
                refraction_index: d.refraction_index,
            },
        }
    }
}

impl Hittable {
    /// The shape's entry for a document. Its materials and their textures
    /// are listed in the registry.
    pub fn to_spec(&self, registry: &mut ResourceRegistry) -> (spec: ShapeSpec)
        ensures
            spec@ == self.tree().doc(),
            final(registry)@ == self.tree().list(old(registry)@),
        decreases self,
    {
        match self {
            Hittable::Sphere(s) => {
                let material_spec = s.mat.to_spec(registry);
                registry.register_material(s.mat.name(), material_spec);
                ShapeSpec::Circle { radius: s.radius, center: s.center, material: s.mat.name() }
            },
            Hittable::Quad(q) => {
                let material_spec = q.mat.to_spec(registry);
                registry.register_material(q.mat.name(), material_spec);
                ShapeSpec::Quad { q: q.q, u: q.u, v: q.v, material: q.mat.name() }
            },
            Hittable::List(l) => {
                let specs = shapes_to_spec(&l.objects, registry);
                proof {
                    let trees = trees_of(l.objects@, l.objects@.len());
                    lemma_trees_of(l.objects@, l.objects@.len());
                    lemma_docs_of(trees, trees.len());
                    lemma_shape_docs(specs@, specs@.len());
                    assert(shape_docs(specs@, specs@.len()) =~= docs_of(trees, trees.len()));
                }
                ShapeSpec::List(specs)
            },
            Hittable::Bvh(n) => {
                let left = n.left.to_spec(registry);
                let right = n.right.to_spec(registry);
                ShapeSpec::BVH { left: Box::new(left), right: Box::new(right) }
            },
        }
    }
}

/// The entries of a row of shapes for a document, in the order of the row.
/// Their materials and textures are listed in the registry.
pub fn shapes_to_spec(objects: &Vec<Arc<Hittable>>, registry: &mut ResourceRegistry) -> (specs: Vec<
    ShapeSpec,
>)
    ensures
        specs@.len() == objects@.len(),
        forall|i: int| 0 <= i < objects@.len() ==> (#[trigger] specs@[i]).doc() == objects@[i].tree().doc(),
        final(registry)@ == list_all(
            trees_of(objects@, objects@.len()),
            objects@.len(),
            old(registry)@,
        ),
    decreases objects@, objects@.len(),
{
    let mut specs: Vec<ShapeSpec> = Vec::new();
    let mut k: usize = 0;
    let ghost trees = trees_of(objects@, objects@.len());
    proof {
        lemma_trees_of(objects@, objects@.len());
    }
    while k < objects.len()
        invariant
            k <= objects.len(),
            specs@.len() == k,
            trees == trees_of(objects@, objects@.len()),
            trees.len() == objects@.len(),
            forall|i: int| 0 <= i < objects@.len() ==> (#[trigger] trees[i]) == objects@[i].tree(),
            forall|i: int| 0 <= i < k ==> (#[trigger] specs@[i]).doc() == objects@[i].tree().doc(),
            registry@ == list_all(trees, k as nat, old(registry)@),
        decreases objects.len() - k,
    {
        let spec = objects[k].to_spec(registry);
        specs.push(spec);
        k += 1;
    }
    specs
}

impl SceneFile {
    /// The document of a scene: its shapes in their order, and every
    /// material and texture listed once, in the order in which the shapes
    /// first need it, so that a checker stands behind its two textures.
    pub fn from(value: &HittableList) -> (file: SceneFile)
        ensures
            file@ == serialize(trees_of(value.objects@, value.objects@.len())),
            distinct_keys(file@.textures),
            distinct_keys(file@.materials),
            parts_first(file@.textures),
            textures_listed(Tables { textures: file@.textures, materials: file@.materials }),
    {
        proof {
            lemma_listed_once(trees_of(value.objects@, value.objects@.len()));
        }
        let mut registry = ResourceRegistry::new();
        let shapes = shapes_to_spec(&value.objects, &mut registry);
        proof {
            let trees = trees_of(value.objects@, value.objects@.len());
            lemma_trees_of(value.objects@, value.objects@.len());
            lemma_docs_of(trees, trees.len());
            lemma_shape_docs(shapes@, shapes@.len());
            assert(shape_docs(shapes@, shapes@.len()) =~= docs_of(trees, trees.len()));
        }
        SceneFile { materials: registry.materials, textures: registry.textures, shapes }
    }
}

/// What a scene is made with beyond its document: `decode` hands out the
/// pixels of the image at a path, as width, height and sRGB bytes;
/// `gradients` the 256 gradient vectors of a noise table; `bound_sphere` the
/// box around a sphere with a moving centre and a radius; `frame_quad` what
/// is derived from the corner and edges of a parallelogram.
pub struct Workshop<D, G, S, Q> {
    pub decode: D,
    pub gradients: G,
    pub bound_sphere: S,
    pub frame_quad: Q,
}

impl<D, G, S, Q> Workshop<D, G, S, Q> where
    D: Fn(&String) -> Option<(u32, u32, Vec<u8>)>,
    G: Fn() -> Vec<Vec3>,
    S: Fn(&Ray, Scalar) -> AABB,
    Q: Fn(&Point3, &Vec3, &Vec3) -> QuadFrame,
 {
    /// Every probe can be asked anything.
    pub open spec fn callable(&self) -> bool {
        &&& forall|p: String| call_requires(self.decode, (&p,))
        &&& call_requires(self.gradients, ())
        &&& forall|c: Ray, r: Scalar| call_requires(self.bound_sphere, (&c, r))
        &&& forall|q: Point3, u: Vec3, v: Vec3| call_requires(self.frame_quad, (&q, &u, &v))
    }

    /// The image is what loading makes of the file at `path`: it has the
    /// size that `decode` answered for this path and three bytes for each
    /// pixel, which are an answer of the conversion of the decoded pixels to
    /// linear light.
    pub open spec fn image_made(&self, path: String, image: RtwImage) -> bool {
        &&& image.wf()
        &&& exists|d: Vec<u8>|
            #[trigger] call_ensures(self.decode, (&path,), Some((image.width, image.height, d)))
                && d@.len() == 3 * image.width * image.height && converts(
                image.width,
                image.height,
                d@,
                Some(image.data@),
            )
    }

    /// No image can be had from the file at `path`: `decode` answers
    /// nothing for this path, or it answers pixels that are not three bytes
    /// for each pixel or that the conversion to linear light refuses.
    pub open spec fn image_failed(&self, path: String) -> bool {
        ||| call_ensures(self.decode, (&path,), None::<(u32, u32, Vec<u8>)>)
        ||| exists|w: u32, h: u32, d: Vec<u8>|
            #[trigger] call_ensures(self.decode, (&path,), Some((w, h, d))) && (d@.len() != 3 * w
                * h || converts(w, h, d@, None::<Seq<u8>>))
    }

    /// The entry is an image whose path reads `p`, and no image can be had
    /// from the file at that path.
    pub open spec fn image_entry_failed(&self, entry: TextureSpec, p: Seq<char>) -> bool {
        match entry {
            TextureSpec::Image { path } => p == path@ && self.image_failed(path),
            _ => false,
        }
    }

    /// The texture is an image at the entry's path, made from the file
    /// there, if the entry is an image.
    pub open spec fn image_entry_made(&self, entry: TextureSpec, t: &Texture) -> bool {
        match entry {
            TextureSpec::Image { path } => match *t {
                Texture::Image(i) => i.path == path && self.image_made(path, i.image),
                _ => false,
            },
            _ => true,
        }
    }

    /// The texture and the textures it is made of are as loading makes
    /// them: every image is made from the file at its own path, and every
    /// noise table is full, with permutations and the gradients that
    /// `gradients` answered.
    pub open spec fn texture_made(&self, t: &Texture) -> bool
        decreases t,
    {
        match *t {
            Texture::Solid(_) => true,
            Texture::Checker(c) => self.texture_made(&*c.even) && self.texture_made(&*c.odd),
            Texture::Image(i) => self.image_made(i.path, i.image),
            Texture::Noise(n) => n.noise.wf() && call_ensures(
                self.gradients,
                (),
                n.noise.randvec,
            ),
        }
    }

    /// The texture of the material is as loading makes it.
    pub open spec fn material_made(&self, m: &Material) -> bool {
        match *m {
            Material::Lambertian(l) => self.texture_made(&*l.tex),
            _ => true,
        }
    }

    /// The shape is as loading makes it: a sphere has the box that
    /// `bound_sphere` answered for its centre and radius, a parallelogram the
    /// normal, offset, basis and box that `frame_quad` answered for its
    /// corner and edges, and a list or a pair the box around its members;
    /// and the materials are as loading makes them.
    pub open spec fn shape_made(&self, h: &Hittable) -> bool
        decreases h,
    {
        match *h {
            Hittable::Sphere(s) => self.material_made(&*s.mat) && call_ensures(
                self.bound_sphere,
                (&s.center, s.radius),
                s.bbox,
            ),
            Hittable::Quad(q) => self.material_made(&*q.mat) && call_ensures(
                self.frame_quad,
                (&q.q, &q.u, &q.v),
                QuadFrame { normal: q.normal, d: q.d, w: q.w, bbox: q.bbox },
            ),
            Hittable::List(l) => l.bbox == bounds_of(l.objects@, l.objects@.len()) && forall|
                i: int,
            |
                0 <= i < l.objects@.len() ==> self.shape_made(&*(#[trigger] l.objects@[i])),
            Hittable::Bvh(n) => {
                &&& n.bbox == bounds_of(seq![n.left, n.right], 2)
                &&& self.shape_made(&*n.left)
                &&& self.shape_made(&*n.right)
            },
        }
    }

    /// Every texture built so far is as loading makes it.
    pub open spec fn textures_made(&self, known: Seq<(String, Arc<Texture>)>) -> bool {
        forall|i: int| 0 <= i < known.len() ==> self.texture_made(&*(#[trigger] known[i]).1)
    }

    /// Every material built so far is as loading makes it.
    pub open spec fn materials_made(&self, known: Seq<(String, Arc<Material>)>) -> bool {
        forall|i: int| 0 <= i < known.len() ==> self.material_made(&*(#[trigger] known[i]).1)
    }
}

/// The latest texture that was built under a name.
pub fn find_texture(known: &Vec<(String, Arc<Texture>)>, name: &String) -> (found: Option<
    Arc<Texture>,
>)
    ensures
        match found {
            Some(t) => find_last(texture_trees(known@), known@.len(), name@) == Some(t.tree())
                && exists|i: int| 0 <= i < known@.len() && (#[trigger] known@[i]).1 == t,
            None => find_last(texture_trees(known@), known@.len(), name@) is None,
        },
{
    let mut i: usize = known.len();
    while i > 0
        invariant
            i <= known.len(),
            find_last(texture_trees(known@), known@.len(), name@) == find_last(
                texture_trees(known@),
                i as nat,
                name@,
            ),
        decreases i,
    {
        if known[i - 1].0 == *name {
            let found = known[i - 1].1.clone();
            assert(known@[i - 1].1 == found);
            return Some(found);
        }
        i -= 1;
    }
    None
}

/// The latest material that was built under a name.
pub fn find_material(known: &Vec<(String, Arc<Material>)>, name: &String) -> (found: Option<
    Arc<Material>,
>)
    ensures
        match found {
            Some(m) => find_last(material_trees(known@), known@.len(), name@) == Some(m.tree())
                && exists|i: int| 0 <= i < known@.len() && (#[trigger] known@[i]).1 == m,
            None => find_last(material_trees(known@), known@.len(), name@) is None,
        },
{
    let mut i: usize = known.len();
    while i > 0
        invariant
            i <= known.len(),
            find_last(material_trees(known@), known@.len(), name@) == find_last(
                material_trees(known@),
                i as nat,
                name@,
            ),
        decreases i,
    {
        if known[i - 1].0 == *name {
            let found = known[i - 1].1.clone();
            assert(known@[i - 1].1 == found);
            return Some(found);
        }
        i -= 1;
    }
    None
}

impl TextureSpec {
    /// Builds the texture that this entry describes, from the textures built
    /// before it. An image is decoded from the file at the entry's path and
    /// converted to linear light; a noise texture gets fresh tables.
    pub fn build<D, G, S, Q>(
        &self,
        name: &String,
        textures: &Vec<(String, Arc<Texture>)>,
        shop: &Workshop<D, G, S, Q>,
    ) -> (res: Result<Arc<Texture>, SceneError>) where
        D: Fn(&String) -> Option<(u32, u32, Vec<u8>)>,
        G: Fn() -> Vec<Vec3>,
        S: Fn(&Ray, Scalar) -> AABB,
        Q: Fn(&Point3, &Vec3, &Vec3) -> QuadFrame,

        requires
            shop.callable(),
        ensures
            match res {
                Ok(t) => resolve_texture(name@, self@, texture_trees(textures@)) == Ok::<
                    TextureTree,
                    Unresolved,
                >(t.tree()) && (shop.textures_made(textures@) ==> shop.texture_made(&*t))
                    && shop.image_entry_made(*self, &*t),
                Err(SceneError::Texture(n)) => resolve_texture(
                    name@,
                    self@,
                    texture_trees(textures@),
                ) == Err::<TextureTree, Unresolved>(Unresolved::Texture(n@)),
                Err(SceneError::Image(p)) => shop.image_entry_failed(*self, p@),
                Err(SceneError::Noise) => self@ is Perlin && exists|g: Vec<Vec3>|
                    #[trigger] call_ensures(shop.gradients, (), g) && g@.len() != 256,
                Err(_) => false,
            },
    {
        match self {
            TextureSpec::SolidColor { albedo } => Ok(
                Arc::new(Texture::Solid(SolidColor::new(name.clone(), *albedo))),
            ),
            TextureSpec::Checker { scale, even, odd } => {
                let even_texture = match find_texture(textures, even) {
                    Some(t) => t,
                    None => {
                        return Err(SceneError::Texture(even.clone()));
                    },
                };
                let odd_texture = match find_texture(textures, odd) {
                    Some(t) => t,
                    None => {
                        return Err(SceneError::Texture(odd.clone()));
                    },
                };
                Ok(Arc::new(Texture::Checker(CheckerTexture::new(*scale, even_texture, odd_texture))))
            },
            TextureSpec::Image { path } => {
                let (width, height, data) = match (shop.decode)(path) {
                    Some(pixels) => pixels,
                    None => {
                        return Err(SceneError::Image(path.clone()));
                    },
                };
                assert(call_ensures(shop.decode, (path,), Some((width, height, data))));
                match RtwImage::new(width, height, data) {
                    Ok(image) => {
                        let texture = ImageTexture::new(path.clone(), image);
                        assert(shop.image_made(*path, texture.image));
                        Ok(Arc::new(Texture::Image(texture)))
                    },
                    Err(_) => Err(SceneError::Image(path.clone())),
                }
            },
            TextureSpec::Perlin { scale } => {
                let g = (shop.gradients)();
                assert(call_ensures(shop.gradients, (), g));
                match Perlin::new(g) {
                    Some(noise) => Ok(Arc::new(Texture::Noise(NoiseTexture::new(*scale, noise)))),
                    None => Err(SceneError::Noise),
                }
            },
        }
    }
}

impl MaterialSpec {
    /// Builds the material that this entry describes. A diffuse material
    /// takes the latest texture that was built under the name it gives.
    pub fn build(&self, name: &String, textures: &Vec<(String, Arc<Texture>)>) -> (res: Result<
        Arc<Material>,
        SceneError,
    >)
        ensures
            match res {
                Ok(m) => resolve_material(name@, self@, texture_trees(textures@)) == Ok::<
                    MaterialTree,
                    Unresolved,
                >(m.tree()) && (*m matches Material::Lambertian(l) ==> exists|i: int|
                    0 <= i < textures@.len() && (#[trigger] textures@[i]).1 == l.tex),
                Err(SceneError::MaterialTexture(n)) => resolve_material(
                    name@,
                    self@,
                    texture_trees(textures@),
                ) == Err::<MaterialTree, Unresolved>(Unresolved::MaterialTexture(n@)),
                Err(_) => false,
            },
    {
        match self {
            MaterialSpec::Lambertian { texture } => match find_texture(textures, texture) {
                Some(t) => Ok(Arc::new(Material::Lambertian(Lambertian::from_texture(t)))),
                None => Err(SceneError::MaterialTexture(texture.clone())),
            },
            MaterialSpec::Metal { albedo, fuzz } => Ok(
                Arc::new(Material::Metal(Metal::new(name.clone(), *albedo, *fuzz))),
            ),
            MaterialSpec::Dielectric { refraction_index } => Ok(
                Arc::new(Material::Dielectric(Dielectric::new(name.clone(), *refraction_index))),
            ),
        }
    }
}

impl ShapeSpec {
    /// Builds the shape that this entry describes, with the latest material
    /// that was built under the name it gives.
    pub fn build<D, G, S, Q>(
        &self,
        materials: &Vec<(String, Arc<Material>)>,
        shop: &Workshop<D, G, S, Q>,
    ) -> (res: Result<Arc<Hittable>, SceneError>) where
        D: Fn(&String) -> Option<(u32, u32, Vec<u8>)>,
        G: Fn() -> Vec<Vec3>,
        S: Fn(&Ray, Scalar) -> AABB,
        Q: Fn(&Point3, &Vec3, &Vec3) -> QuadFrame,

        requires
            shop.callable(),
        ensures
            match res {
                Ok(h) => resolve_shape(self@, material_trees(materials@)) == Ok::<
                    ShapeTree,
                    Unresolved,
                >(h.tree()) && (shop.materials_made(materials@) ==> shop.shape_made(&*h)),
                Err(SceneError::Material(n)) => resolve_shape(self@, material_trees(materials@))
                    == Err::<ShapeTree, Unresolved>(Unresolved::Material(n@)),
                Err(_) => false,
            },
        decreases self,
    {
        match self {
            ShapeSpec::Circle { radius, center, material } => {
                let mat = match find_material(materials, material) {
                    Some(m) => m,
                    None => {
                        return Err(SceneError::Material(material.clone()));
                    },
                };
                let sphere = Sphere::new_moving(
                    center.orig,
                    center.dir,
                    *radius,
                    mat,
                    &shop.bound_sphere,
                );
                Ok(Arc::new(Hittable::Sphere(sphere)))
            },
            ShapeSpec::Quad { q, u, v, material } => {
                let mat = match find_material(materials, material) {
                    Some(m) => m,
                    None => {
                        return Err(SceneError::Material(material.clone()));
                    },
                };
                Ok(Arc::new(Hittable::Quad(Quad::new(*q, *u, *v, mat, &shop.frame_quad))))
            },
            ShapeSpec::List(shape_specs) => {
                proof {
                    lemma_shape_docs(shape_specs@, shape_specs@.len());
                }
                match build_shapes(shape_specs, materials, shop) {
                    Ok(world) => Ok(Arc::new(Hittable::List(world))),
                    Err(e) => Err(e),
                }
            },
            ShapeSpec::BVH { left, right } => {
                let left = match left.build(materials, shop) {
                    Ok(h) => h,
                    Err(e) => {
                        return Err(e);
                    },
                };
                let right = match right.build(materials, shop) {
                    Ok(h) => h,
                    Err(e) => {
                        return Err(e);
                    },
                };
                Ok(Arc::new(Hittable::Bvh(BVHNode::pair(left, right))))
            },
        }
    }
}

/// Builds the shapes of a row into a list.
pub fn build_shapes<D, G, S, Q>(
    specs: &Vec<ShapeSpec>,
    materials: &Vec<(String, Arc<Material>)>,
    shop: &Workshop<D, G, S, Q>,
) -> (res: Result<HittableList, SceneError>) where
    D: Fn(&String) -> Option<(u32, u32, Vec<u8>)>,
    G: Fn() -> Vec<Vec3>,
    S: Fn(&Ray, Scalar) -> AABB,
    Q: Fn(&Point3, &Vec3, &Vec3) -> QuadFrame,

    requires
        shop.callable(),
    ensures
        match res {
            Ok(list) => resolve_shapes(
                shape_docs(specs@, specs@.len()),
                specs@.len(),
                material_trees(materials@),
            ) == Ok::<Seq<ShapeTree>, Unresolved>(trees_of(list.objects@, list.objects@.len()))
                && list.bbox == bounds_of(list.objects@, list.objects@.len()) && (
            shop.materials_made(materials@) ==> forall|i: int|
                0 <= i < list.objects@.len() ==> shop.shape_made(&*(#[trigger] list.objects@[i]))),
            Err(SceneError::Material(n)) => resolve_shapes(
                shape_docs(specs@, specs@.len()),
                specs@.len(),
                material_trees(materials@),
            ) == Err::<Seq<ShapeTree>, Unresolved>(Unresolved::Material(n@)),
            Err(_) => false,
        },
    decreases specs@, specs@.len(),
{
    let mut world = HittableList::new();
    let mut k: usize = 0;
    let ghost docs = shape_docs(specs@, specs@.len());
    let ghost mats = material_trees(materials@);
    proof {
        lemma_shape_docs(specs@, specs@.len());
    }
    while k < specs.len()
        invariant
            k <= specs.len(),
            docs == shape_docs(specs@, specs@.len()),
            mats == material_trees(materials@),
            docs.len() == specs@.len(),
            forall|i: int| 0 <= i < specs@.len() ==> (#[trigger] docs[i]) == specs@[i].doc(),
            shop.callable(),
            world.objects@.len() == k,
            world.bbox == bounds_of(world.objects@, world.objects@.len()),
            shop.materials_made(materials@) ==> forall|i: int|
                0 <= i < world.objects@.len() ==> shop.shape_made(
                    &*(#[trigger] world.objects@[i]),
                ),
            resolve_shapes(docs, k as nat, mats) == Ok::<Seq<ShapeTree>, Unresolved>(
                trees_of(world.objects@, k as nat),
            ),
        decreases specs.len() - k,
    {
        let ghost before = world.objects@;
        match specs[k].build(materials, shop) {
            Ok(hittable) => {
                world.add(hittable);
                proof {
                    lemma_trees_of(before, k as nat);
                    lemma_trees_of(world.objects@, k as nat);
                    assert(trees_of(world.objects@, k as nat) =~= trees_of(before, k as nat));
                    assert forall|i: int| 0 <= i < world.objects@.len() && shop.materials_made(
                        materials@,
                    ) implies shop.shape_made(&*(#[trigger] world.objects@[i])) by {
                        if i < k {
                            assert(world.objects@[i] == before[i]);
                        }
                    }
                }
            },
            Err(e) => {
                proof {
                    lemma_resolve_shapes_fails(docs, (k + 1) as nat, docs.len(), mats);
                }
                return Err(e);
            },
        }
        k += 1;
    }
    Ok(world)
}

impl SceneFile {
    /// Makes the document into a scene: the textures in the order of their
    /// table, then the materials, then the shapes. A name refers to the
    /// latest entry that carries it, and loading fails where a name refers
    /// to nothing, where an image cannot be had, and where the gradients of
    /// a noise table are not 256.
    pub fn into_list<D, G, S, Q>(self, shop: &Workshop<D, G, S, Q>) -> (res: Result<
        HittableList,
        SceneError,
    >) where
        D: Fn(&String) -> Option<(u32, u32, Vec<u8>)>,
        G: Fn() -> Vec<Vec3>,
        S: Fn(&Ray, Scalar) -> AABB,
        Q: Fn(&Point3, &Vec3, &Vec3) -> QuadFrame,

        requires
            shop.callable(),
        ensures
            match res {
                Ok(list) => resolve(self@) == Ok::<Seq<ShapeTree>, Unresolved>(
                    trees_of(list.objects@, list.objects@.len()),
                ) && shop.shape_made(&Hittable::List(list)),
                Err(SceneError::Texture(n)) => resolve(self@) == Err::<
                    Seq<ShapeTree>,
                    Unresolved,
                >(Unresolved::Texture(n@)),
                Err(SceneError::MaterialTexture(n)) => resolve(self@) == Err::<
                    Seq<ShapeTree>,
                    Unresolved,
                >(Unresolved::MaterialTexture(n@)),
                Err(SceneError::Material(n)) => resolve(self@) == Err::<
                    Seq<ShapeTree>,
                    Unresolved,
                >(Unresolved::Material(n@)),
                Err(SceneError::Image(p)) => exists|i: int|
                    0 <= i < self.textures@.len() && shop.image_entry_failed(
                        (#[trigger] self.textures@[i]).1,
                        p@,
                    ),
                Err(SceneError::Noise) => (exists|i: int|
                    0 <= i < self@.textures.len() && (#[trigger] self@.textures[i]).1 is Perlin)
                    && exists|g: Vec<Vec3>|
                    #[trigger] call_ensures(shop.gradients, (), g) && g@.len() != 256,
            },
            // a document without images and noise is loaded exactly if its names resolve
            (forall|i: int|
                0 <= i < self@.textures.len() ==> !((#[trigger] self@.textures[i]).1 is Image)
                    && !(self@.textures[i].1 is Perlin)) ==> (res is Ok <==> resolve(self@) is Ok),
    {
        let ghost table = self@.textures;
        let mut textures: Vec<(String, Arc<Texture>)> = Vec::new();
        let mut k: usize = 0;
        assert(texture_trees(textures@) =~= Seq::empty());
        while k < self.textures.len()
            invariant
                k <= self.textures.len(),
                table == self@.textures,
                table.len() == self.textures@.len(),
                shop.callable(),
                shop.textures_made(textures@),
                resolve_textures(table, k as nat) == Ok::<
                    Seq<(Seq<char>, TextureTree)>,
                    Unresolved,
                >(texture_trees(textures@)),
            decreases self.textures.len() - k,
        {
            let name = &self.textures[k].0;
            let ghost known = textures@;
            assert(table[k as int] == (name@, self.textures@[k as int].1@));
            match self.textures[k].1.build(name, &textures, shop) {
                Ok(texture) => {
                    textures.push((name.clone(), texture));
                    assert(texture_trees(textures@) =~= texture_trees(known).push(
                        (name@, texture.tree()),
                    ));
                    assert forall|i: int| 0 <= i < textures@.len() implies shop.texture_made(
                        &*(#[trigger] textures@[i]).1,
                    ) by {
                        if i < known.len() {
                            assert(textures@[i] == known[i]);
                        }
                    }
                },
                Err(e) => {
                    proof {
                        if e is Texture {
                            lemma_resolve_textures_fails(table, (k + 1) as nat, table.len());
                        }
                    }
                    return Err(e);
                },
            }
            k += 1;
        }
        let ghost texture_view = texture_trees(textures@);
        let ghost mtable = self@.materials;
        assert(resolve_textures(self@.textures, self@.textures.len()) == Ok::<
            Seq<(Seq<char>, TextureTree)>,
            Unresolved,
        >(texture_view));
        let mut materials: Vec<(String, Arc<Material>)> = Vec::new();
        let mut k: usize = 0;
        assert(material_trees(materials@) =~= Seq::empty());
        while k < self.materials.len()
            invariant
                k <= self.materials.len(),
                mtable == self@.materials,
                mtable.len() == self.materials@.len(),
                texture_view == texture_trees(textures@),
                shop.textures_made(textures@),
                shop.materials_made(materials@),
                resolve_textures(self@.textures, self@.textures.len()) == Ok::<
                    Seq<(Seq<char>, TextureTree)>,
                    Unresolved,
                >(texture_view),
                resolve_materials(mtable, k as nat, texture_view) == Ok::<
                    Seq<(Seq<char>, MaterialTree)>,
                    Unresolved,
                >(material_trees(materials@)),
            decreases self.materials.len() - k,
        {
            let name = &self.materials[k].0;
            let ghost known = materials@;
            assert(mtable[k as int] == (name@, self.materials@[k as int].1@));
            match self.materials[k].1.build(name, &textures) {
                Ok(material) => {
                    materials.push((name.clone(), material));
                    assert(material_trees(materials@) =~= material_trees(known).push(
                        (name@, material.tree()),
                    ));
                    assert forall|i: int| 0 <= i < materials@.len() implies shop.material_made(
                        &*(#[trigger] materials@[i]).1,
                    ) by {
                        if i < known.len() {
                            assert(materials@[i] == known[i]);
                        }
                    }
                },
                Err(e) => {
                    proof {
                        lemma_resolve_materials_fails(
                            mtable,
                            (k + 1) as nat,
                            mtable.len(),
                            texture_view,
                        );
                    }
                    return Err(e);
                },
            }
            k += 1;
        }
        assert(resolve_materials(self@.materials, self@.materials.len(), texture_view) == Ok::<
            Seq<(Seq<char>, MaterialTree)>,
            Unresolved,
        >(material_trees(materials@)));
        proof {
            lemma_shape_docs(self.shapes@, self.shapes@.len());
        }
        build_shapes(&self.shapes, &materials, shop)
    }
}

} // verus!
