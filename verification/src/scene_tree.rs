//! What a scene is, apart from how it is stored: the tree of shapes with
//! their materials and textures written out in place, and the two mappings
//! between such trees and scene documents.
use vstd::prelude::*;
use std::sync::Arc;
use crate::color::Color;
use crate::hittable::Hittable;
use crate::material::{Material, Metal};
use crate::ray::Ray;
use crate::scalar::Scalar;
use crate::sphere::radius_spec;
use crate::texture::{CheckerTexture, ImageTexture, Texture};
use crate::vec::{Point3, Vec3};

verus! {

/// A texture with the textures it is made of.
pub enum TextureTree {
    Solid { name: Seq<char>, albedo: Color },
    Checker { name: Seq<char>, scale: Scalar, even: Box<TextureTree>, odd: Box<TextureTree> },
    Image { name: Seq<char>, path: Seq<char> },
    Perlin { scale: Scalar },
}

/// A material with its texture.
pub enum MaterialTree {
    Lambertian { tex: TextureTree },
    Metal { name: Seq<char>, albedo: Color, fuzz: Scalar },
    Dielectric { name: Seq<char>, refraction_index: Scalar },
}

/// A shape with its material, or a group of shapes.
pub enum ShapeTree {
    Circle { radius: Scalar, center: Ray, mat: MaterialTree },
    Quad { q: Point3, u: Vec3, v: Vec3, mat: MaterialTree },
    List(Seq<ShapeTree>),
    BVH { left: Box<ShapeTree>, right: Box<ShapeTree> },
}

/// A texture as a scene document lists it: other textures by name.
pub enum TextureDoc {
    SolidColor { albedo: Color },
    Checker { scale: Scalar, even: Seq<char>, odd: Seq<char> },
    Image { path: Seq<char> },
    Perlin { scale: Scalar },
}

/// A material as a scene document lists it: its texture by name.
pub enum MaterialDoc {
    Lambertian { texture: Seq<char> },
    Metal { albedo: Color, fuzz: Scalar },
    Dielectric { refraction_index: Scalar },
}

/// A shape as a scene document lists it: its material by name.
pub enum ShapeDoc {
    Circle { radius: Scalar, center: Ray, material: Seq<char> },
    Quad { q: Point3, u: Vec3, v: Vec3, material: Seq<char> },
    List(Seq<ShapeDoc>),
    BVH { left: Box<ShapeDoc>, right: Box<ShapeDoc> },
}

/// The two name tables of a document.
pub struct Tables {
    pub textures: Seq<(Seq<char>, TextureDoc)>,
    pub materials: Seq<(Seq<char>, MaterialDoc)>,
}

/// A scene document: named textures, named materials, and the shapes.
pub struct SceneDoc {
    pub textures: Seq<(Seq<char>, TextureDoc)>,
    pub materials: Seq<(Seq<char>, MaterialDoc)>,
    pub shapes: Seq<ShapeDoc>,
}

/// Why a document does not describe a scene.
pub enum Unresolved {
    /// A texture names a texture that no earlier entry of the table defines.
    Texture(Seq<char>),
    /// A material names a texture that the table does not define.
    MaterialTexture(Seq<char>),
    /// A shape names a material that the table does not define.
    Material(Seq<char>),
}

/// The name is a key of one of the first `n` entries.
pub open spec fn has_key<T>(table: Seq<(Seq<char>, T)>, n: int, name: Seq<char>) -> bool {
    exists|i: int| 0 <= i < n && i < table.len() && (#[trigger] table[i]).0 == name
}

/// The table with an entry added at its end, unless the name is a key
/// already: then the table as it is.
pub open spec fn register<T>(table: Seq<(Seq<char>, T)>, name: Seq<char>, entry: T) -> Seq<
    (Seq<char>, T),
> {
    if has_key(table, table.len() as int, name) {
        table
    } else {
        table.push((name, entry))
    }
}

/// What the latest of the first `n` entries with the key `name` holds.
pub open spec fn find_last<T>(table: Seq<(Seq<char>, T)>, n: nat, name: Seq<char>) -> Option<T>
    decreases n,
{
    if n == 0 || n > table.len() {
        None
    } else if table[n - 1].0 == name {
        Some(table[n - 1].1)
    } else {
        find_last(table, (n - 1) as nat, name)
    }
}

impl TextureTree {
    /// The name under which the texture is listed.
    pub open spec fn name(self) -> Seq<char> {
        match self {
            TextureTree::Solid { name, .. } => name,
            TextureTree::Checker { name, .. } => name,
            TextureTree::Image { name, .. } => name,
            TextureTree::Perlin { .. } => "perlin_default"@,
        }
    }

    /// The texture's own entry in a document.
    pub open spec fn doc(self) -> TextureDoc {
        match self {
            TextureTree::Solid { albedo, .. } => TextureDoc::SolidColor { albedo },
            TextureTree::Checker { scale, even, odd, .. } => TextureDoc::Checker {
                scale,
                even: even.name(),
                odd: odd.name(),
            },
            TextureTree::Image { path, .. } => TextureDoc::Image { path },
            TextureTree::Perlin { scale } => TextureDoc::Perlin { scale },
        }
    }

    /// The texture table once the textures that this one is made of are
    /// listed: for a checker its even texture with what that is made of,
    /// then its odd texture likewise. The texture itself is not listed.
    pub open spec fn list_parts(self, table: Seq<(Seq<char>, TextureDoc)>) -> Seq<
        (Seq<char>, TextureDoc),
    >
        decreases self,
    {
        match self {
            TextureTree::Checker { even, odd, .. } => {
                let with_even = register(even.list_parts(table), even.name(), even.doc());
                register(odd.list_parts(with_even), odd.name(), odd.doc())
            },
            _ => table,
        }
    }

    /// The texture table once this texture and all it is made of are listed.
    pub open spec fn list(self, table: Seq<(Seq<char>, TextureDoc)>) -> Seq<
        (Seq<char>, TextureDoc),
    > {
        register(self.list_parts(table), self.name(), self.doc())
    }

    /// The names are the ones that loading gives: a checker is named after
    /// its two textures and an image after its path.
    pub open spec fn canonical(self) -> bool
        decreases self,
    {
        match self {
            TextureTree::Checker { name, even, odd, .. } => {
                &&& name == CheckerTexture::name_of(even.name(), odd.name())
                &&& even.canonical()
                &&& odd.canonical()
            },
            TextureTree::Image { name, path } => name == ImageTexture::name_of(path),
            _ => true,
        }
    }
}

impl MaterialTree {
    /// The name under which the material is listed: a diffuse surface goes
    /// by the name of its texture.
    pub open spec fn name(self) -> Seq<char> {
        match self {
            MaterialTree::Lambertian { tex } => tex.name(),
            MaterialTree::Metal { name, .. } => name,
            MaterialTree::Dielectric { name, .. } => name,
        }
    }

    /// The material's own entry in a document.
    pub open spec fn doc(self) -> MaterialDoc {
        match self {
            MaterialTree::Lambertian { tex } => MaterialDoc::Lambertian { texture: tex.name() },
            MaterialTree::Metal { albedo, fuzz, .. } => MaterialDoc::Metal { albedo, fuzz },
            MaterialTree::Dielectric { refraction_index, .. } => MaterialDoc::Dielectric {
                refraction_index,
            },
        }
    }

    /// The tables once the material's texture is listed, with all it is made
    /// of. The material itself is not listed.
    pub open spec fn list_parts(self, tables: Tables) -> Tables {
        match self {
            MaterialTree::Lambertian { tex } => Tables {
                textures: tex.list(tables.textures),
                materials: tables.materials,
            },
            _ => tables,
        }
    }

    /// The tables once the material and its texture are listed.
    pub open spec fn list(self, tables: Tables) -> Tables {
        let with_parts = self.list_parts(tables);
        Tables {
            textures: with_parts.textures,
            materials: register(with_parts.materials, self.name(), self.doc()),
        }
    }

    /// The values are the ones that loading gives: canonical names, and a
    /// blur in `[0, 1]`.
    pub open spec fn canonical(self) -> bool {
        match self {
            MaterialTree::Lambertian { tex } => tex.canonical(),
            MaterialTree::Metal { fuzz, .. } => fuzz == Metal::fuzz_spec(fuzz),
            MaterialTree::Dielectric { .. } => true,
        }
    }
}

impl ShapeTree {
    /// The shape's own entry in a document.
    pub open spec fn doc(self) -> ShapeDoc
        decreases self,
    {
        match self {
            ShapeTree::Circle { radius, center, mat } => ShapeDoc::Circle {
                radius,
                center,
                material: mat.name(),
            },
            ShapeTree::Quad { q, u, v, mat } => ShapeDoc::Quad { q, u, v, material: mat.name() },
            ShapeTree::List(items) => ShapeDoc::List(docs_of(items, items.len())),
            ShapeTree::BVH { left, right } => ShapeDoc::BVH {
                left: Box::new(left.doc()),
                right: Box::new(right.doc()),
            },
        }
    }

    /// The tables once the materials of the shape are listed, in the order
    /// in which the shape holds them.
    pub open spec fn list(self, tables: Tables) -> Tables
        decreases self,
    {
        match self {
            ShapeTree::Circle { mat, .. } => mat.list(tables),
            ShapeTree::Quad { mat, .. } => mat.list(tables),
            ShapeTree::List(items) => list_all(items, items.len(), tables),
            ShapeTree::BVH { left, right } => right.list(left.list(tables)),
        }
    }

    /// The values are the ones that loading gives: canonical materials, a
    /// radius that is not negative, and a centre that starts at time 0.
    pub open spec fn canonical(self) -> bool
        decreases self,
    {
        match self {
            ShapeTree::Circle { radius, center, mat } => radius == radius_spec(radius)
                && center.tm == Scalar::zero_spec() && mat.canonical(),
            ShapeTree::Quad { mat, .. } => mat.canonical(),
            ShapeTree::List(items) => forall|i: int|
                0 <= i < items.len() ==> (#[trigger] items[i]).canonical(),
            ShapeTree::BVH { left, right } => left.canonical() && right.canonical(),
        }
    }
}

/// The document entries of the first `n` shapes of a row.
pub open spec fn docs_of(items: Seq<ShapeTree>, n: nat) -> Seq<ShapeDoc>
    decreases items, n,
{
    if n == 0 || n > items.len() {
        Seq::empty()
    } else {
        docs_of(items, (n - 1) as nat).push(items[n - 1].doc())
    }
}

/// The tables once the materials of the first `n` shapes of a row are
/// listed.
pub open spec fn list_all(items: Seq<ShapeTree>, n: nat, tables: Tables) -> Tables
    decreases items, n,
{
    if n == 0 || n > items.len() {
        tables
    } else {
        items[n - 1].list(list_all(items, (n - 1) as nat, tables))
    }
}

/// The document of a scene: every material and texture listed once, under
/// its name, in the order in which the shapes first need it.
pub open spec fn serialize(shapes: Seq<ShapeTree>) -> SceneDoc {
    let tables = list_all(
        shapes,
        shapes.len(),
        Tables { textures: Seq::empty(), materials: Seq::empty() },
    );
    SceneDoc {
        textures: tables.textures,
        materials: tables.materials,
        shapes: docs_of(shapes, shapes.len()),
    }
}

/// The texture that an entry of a document describes, given the textures
/// that the entries before it describe.
pub open spec fn resolve_texture(
    name: Seq<char>,
    doc: TextureDoc,
    known: Seq<(Seq<char>, TextureTree)>,
) -> Result<TextureTree, Unresolved> {
    match doc {
        TextureDoc::SolidColor { albedo } => Ok(TextureTree::Solid { name, albedo }),
        TextureDoc::Checker { scale, even, odd } => match find_last(known, known.len(), even) {
            None => Err(Unresolved::Texture(even)),
            Some(e) => match find_last(known, known.len(), odd) {
                None => Err(Unresolved::Texture(odd)),
                Some(o) => Ok(
                    TextureTree::Checker {
                        name: CheckerTexture::name_of(e.name(), o.name()),
                        scale,
                        even: Box::new(e),
                        odd: Box::new(o),
                    },
                ),
            },
        },
        TextureDoc::Image { path } => Ok(
            TextureTree::Image { name: ImageTexture::name_of(path), path },
        ),
        TextureDoc::Perlin { scale } => Ok(TextureTree::Perlin { scale }),
    }
}

/// The textures that the first `n` entries of a texture table describe, each
/// under its key.
pub open spec fn resolve_textures(table: Seq<(Seq<char>, TextureDoc)>, n: nat) -> Result<
    Seq<(Seq<char>, TextureTree)>,
    Unresolved,
>
    decreases n,
{
    if n == 0 || n > table.len() {
        Ok(Seq::empty())
    } else {
        match resolve_textures(table, (n - 1) as nat) {
            Err(e) => Err(e),
            Ok(known) => match resolve_texture(table[n - 1].0, table[n - 1].1, known) {
                Err(e) => Err(e),
                Ok(t) => Ok(known.push((table[n - 1].0, t))),
            },
        }
    }
}

/// The material that an entry of a document describes.
pub open spec fn resolve_material(
    name: Seq<char>,
    doc: MaterialDoc,
    textures: Seq<(Seq<char>, TextureTree)>,
) -> Result<MaterialTree, Unresolved> {
    match doc {
        MaterialDoc::Lambertian { texture } => match find_last(textures, textures.len(), texture) {
            None => Err(Unresolved::MaterialTexture(texture)),
            Some(tex) => Ok(MaterialTree::Lambertian { tex }),
        },
        MaterialDoc::Metal { albedo, fuzz } => Ok(
            MaterialTree::Metal { name, albedo, fuzz: Metal::fuzz_spec(fuzz) },
        ),
        MaterialDoc::Dielectric { refraction_index } => Ok(
            MaterialTree::Dielectric { name, refraction_index },
        ),
    }
}

/// The materials that the first `n` entries of a material table describe.
pub open spec fn resolve_materials(
    table: Seq<(Seq<char>, MaterialDoc)>,
    n: nat,
    textures: Seq<(Seq<char>, TextureTree)>,
) -> Result<Seq<(Seq<char>, MaterialTree)>, Unresolved>
    decreases n,
{
    if n == 0 || n > table.len() {
        Ok(Seq::empty())
    } else {
        match resolve_materials(table, (n - 1) as nat, textures) {
            Err(e) => Err(e),
            Ok(known) => match resolve_material(table[n - 1].0, table[n - 1].1, textures) {
                Err(e) => Err(e),
                Ok(m) => Ok(known.push((table[n - 1].0, m))),
            },
        }
    }
}

/// The shape that an entry of a document describes.
pub open spec fn resolve_shape(doc: ShapeDoc, materials: Seq<(Seq<char>, MaterialTree)>) -> Result<
    ShapeTree,
    Unresolved,
>
    decreases doc,
{
    match doc {
        ShapeDoc::Circle { radius, center, material } => match find_last(
            materials,
            materials.len(),
            material,
        ) {
            None => Err(Unresolved::Material(material)),
            Some(mat) => Ok(
                ShapeTree::Circle {
                    radius: radius_spec(radius),
                    center: Ray { orig: center.orig, dir: center.dir, tm: Scalar::zero_spec() },
                    mat,
                },
            ),
        },
        ShapeDoc::Quad { q, u, v, material } => match find_last(
            materials,
            materials.len(),
            material,
        ) {
            None => Err(Unresolved::Material(material)),
            Some(mat) => Ok(ShapeTree::Quad { q, u, v, mat }),
        },
        ShapeDoc::List(items) => match resolve_shapes(items, items.len(), materials) {
            Err(e) => Err(e),
            Ok(shapes) => Ok(ShapeTree::List(shapes)),
        },
        ShapeDoc::BVH { left, right } => match resolve_shape(*left, materials) {
            Err(e) => Err(e),
            Ok(l) => match resolve_shape(*right, materials) {
                Err(e) => Err(e),
                Ok(r) => Ok(ShapeTree::BVH { left: Box::new(l), right: Box::new(r) }),
            },
        },
    }
}

/// The shapes that the first `n` entries of a row describe.
pub open spec fn resolve_shapes(
    docs: Seq<ShapeDoc>,
    n: nat,
    materials: Seq<(Seq<char>, MaterialTree)>,
) -> Result<Seq<ShapeTree>, Unresolved>
    decreases docs, n,
{
    if n == 0 || n > docs.len() {
        Ok(Seq::empty())
    } else {
        match resolve_shapes(docs, (n - 1) as nat, materials) {
            Err(e) => Err(e),
            Ok(shapes) => match resolve_shape(docs[n - 1], materials) {
                Err(e) => Err(e),
                Ok(s) => Ok(shapes.push(s)),
            },
        }
    }
}

/// The scene that a document describes: the textures in the order of their
/// table, each from the textures before it; then the materials; then the
/// shapes. A name refers to the latest entry that carries it. The document
/// describes no scene if a name refers to nothing.
pub open spec fn resolve(doc: SceneDoc) -> Result<Seq<ShapeTree>, Unresolved> {
    match resolve_textures(doc.textures, doc.textures.len()) {
        Err(e) => Err(e),
        Ok(textures) => match resolve_materials(doc.materials, doc.materials.len(), textures) {
            Err(e) => Err(e),
            Ok(materials) => resolve_shapes(doc.shapes, doc.shapes.len(), materials),
        },
    }
}

impl Texture {
    /// The texture with the textures it is made of.
    pub open spec fn tree(&self) -> TextureTree
        decreases self,
    {
        match *self {
            Texture::Solid(s) => TextureTree::Solid { name: s.name@, albedo: s.albedo },
            Texture::Checker(c) => TextureTree::Checker {
                name: c.name@,
                scale: c.scale,
                even: Box::new(c.even.tree()),
                odd: Box::new(c.odd.tree()),
            },
            Texture::Image(i) => TextureTree::Image { name: i.name@, path: i.path@ },
            Texture::Noise(n) => TextureTree::Perlin { scale: n.scale },
        }
    }
}

impl Material {
    /// The material with its texture.
    pub open spec fn tree(&self) -> MaterialTree {
        match *self {
            Material::Lambertian(l) => MaterialTree::Lambertian { tex: l.tex.tree() },
            Material::Metal(m) => MaterialTree::Metal {
                name: m.name@,
                albedo: m.albedo,
                fuzz: m.fuzz,
            },
            Material::Dielectric(d) => MaterialTree::Dielectric {
                name: d.name@,
                refraction_index: d.refraction_index,
            },
        }
    }
}

impl Hittable {
    /// The shape with its materials, without what is derived from them.
    pub open spec fn tree(&self) -> ShapeTree
        decreases self,
    {
        match *self {
            Hittable::Sphere(s) => ShapeTree::Circle {
                radius: s.radius,
                center: s.center,
                mat: s.mat.tree(),
            },
            Hittable::Quad(q) => ShapeTree::Quad { q: q.q, u: q.u, v: q.v, mat: q.mat.tree() },
            Hittable::List(l) => ShapeTree::List(trees_of(l.objects@, l.objects@.len())),
            Hittable::Bvh(n) => ShapeTree::BVH {
                left: Box::new(n.left.tree()),
                right: Box::new(n.right.tree()),
            },
        }
    }
}

/// The trees of the first `n` shapes of a row.
pub open spec fn trees_of(objects: Seq<Arc<Hittable>>, n: nat) -> Seq<ShapeTree>
    decreases objects, n,
{
    if n == 0 || n > objects.len() {
        Seq::empty()
    } else {
        trees_of(objects, (n - 1) as nat).push(objects[n - 1].tree())
    }
}

/// The trees of a row stand in the order of the row.
pub proof fn lemma_trees_of(objects: Seq<Arc<Hittable>>, n: nat)
    requires
        n <= objects.len(),
    ensures
        trees_of(objects, n).len() == n,
        forall|i: int| 0 <= i < n ==> (#[trigger] trees_of(objects, n)[i]) == objects[i].tree(),
    decreases n,
{
    if n > 0 {
        lemma_trees_of(objects, (n - 1) as nat);
    }
}

/// The document entries of a row stand in the order of the row.
pub proof fn lemma_docs_of(items: Seq<ShapeTree>, n: nat)
    requires
        n <= items.len(),
    ensures
        docs_of(items, n).len() == n,
        forall|i: int| 0 <= i < n ==> (#[trigger] docs_of(items, n)[i]) == items[i].doc(),
    decreases n,
{
    if n > 0 {
        lemma_docs_of(items, (n - 1) as nat);
    }
}

/// A texture table that fails on its first entries fails as a whole, in the
/// same way.
pub proof fn lemma_resolve_textures_fails(table: Seq<(Seq<char>, TextureDoc)>, k: nat, n: nat)
    requires
        k <= n <= table.len(),
        resolve_textures(table, k) is Err,
    ensures
        resolve_textures(table, n) == resolve_textures(table, k),
    decreases n,
{
    if k < n {
        lemma_resolve_textures_fails(table, k, (n - 1) as nat);
    }
}

/// A material table that fails on its first entries fails as a whole, in
/// the same way.
pub proof fn lemma_resolve_materials_fails(
    table: Seq<(Seq<char>, MaterialDoc)>,
    k: nat,
    n: nat,
    textures: Seq<(Seq<char>, TextureTree)>,
)
    requires
        k <= n <= table.len(),
        resolve_materials(table, k, textures) is Err,
    ensures
        resolve_materials(table, n, textures) == resolve_materials(table, k, textures),
    decreases n,
{
    if k < n {
        lemma_resolve_materials_fails(table, k, (n - 1) as nat, textures);
    }
}

/// A row of shapes that fails on its first entries fails as a whole, in the
/// same way.
pub proof fn lemma_resolve_shapes_fails(
    docs: Seq<ShapeDoc>,
    k: nat,
    n: nat,
    materials: Seq<(Seq<char>, MaterialTree)>,
)
    requires
        k <= n <= docs.len(),
        resolve_shapes(docs, k, materials) is Err,
    ensures
        resolve_shapes(docs, n, materials) == resolve_shapes(docs, k, materials),
    decreases n,
{
    if k < n {
        lemma_resolve_shapes_fails(docs, k, (n - 1) as nat, materials);
    }
}

} // verus!
