//! Writing a scene into a document and loading the document gives the scene
//! back, provided that names are used consistently.
use vstd::prelude::*;
use crate::scene_tree::{
    docs_of, find_last, has_key, lemma_docs_of, list_all, register, resolve, resolve_material,
    resolve_materials, resolve_shape, resolve_shapes, resolve_texture, resolve_textures,
    serialize, MaterialDoc, MaterialTree, SceneDoc, ShapeDoc, ShapeTree, Tables, TextureDoc,
    TextureTree, Unresolved,
};

verus! {

/// The texture and all it is made of are what the dictionary `tex_of` holds
/// under their names.
pub open spec fn tex_agrees(t: TextureTree, tex_of: spec_fn(Seq<char>) -> TextureTree) -> bool
    decreases t,
{
    &&& tex_of(t.name()) == t
    &&& match t {
        TextureTree::Checker { even, odd, .. } => tex_agrees(*even, tex_of) && tex_agrees(
            *odd,
            tex_of,
        ),
        _ => true,
    }
}

/// The material and its texture are what the dictionaries hold under their
/// names.
pub open spec fn mat_agrees(
    m: MaterialTree,
    tex_of: spec_fn(Seq<char>) -> TextureTree,
    mat_of: spec_fn(Seq<char>) -> MaterialTree,
) -> bool {
    &&& mat_of(m.name()) == m
    &&& match m {
        MaterialTree::Lambertian { tex } => tex_agrees(tex, tex_of),
        _ => true,
    }
}

/// Every material and texture of the shape is what the dictionaries hold
/// under its name.
pub open spec fn shape_agrees(
    s: ShapeTree,
    tex_of: spec_fn(Seq<char>) -> TextureTree,
    mat_of: spec_fn(Seq<char>) -> MaterialTree,
) -> bool
    decreases s,
{
    match s {
        ShapeTree::Circle { mat, .. } => mat_agrees(mat, tex_of, mat_of),
        ShapeTree::Quad { mat, .. } => mat_agrees(mat, tex_of, mat_of),
        ShapeTree::List(items) => forall|i: int|
            0 <= i < items.len() ==> shape_agrees(#[trigger] items[i], tex_of, mat_of),
        ShapeTree::BVH { left, right } => shape_agrees(*left, tex_of, mat_of) && shape_agrees(
            *right,
            tex_of,
            mat_of,
        ),
    }
}

/// No two entries of the table have the same key.
pub open spec fn distinct_keys<T>(table: Seq<(Seq<char>, T)>) -> bool {
    forall|i: int, j: int|
        0 <= i < j < table.len() ==> (#[trigger] table[i]).0 != (#[trigger] table[j]).0
}

/// The table `a` is the beginning of the table `b`.
pub open spec fn begins<T>(a: Seq<T>, b: Seq<T>) -> bool {
    a.len() <= b.len() && forall|i: int| 0 <= i < a.len() ==> #[trigger] a[i] == b[i]
}

/// A texture table as writing leaves it: keys are distinct, each entry is
/// the dictionary's texture of that name, and the textures that a checker is
/// made of stand before it.
pub open spec fn tex_ok(
    table: Seq<(Seq<char>, TextureDoc)>,
    tex_of: spec_fn(Seq<char>) -> TextureTree,
) -> bool {
    &&& distinct_keys(table)
    &&& forall|i: int|
        0 <= i < table.len() ==> {
            let t = tex_of((#[trigger] table[i]).0);
            &&& t.name() == table[i].0
            &&& t.doc() == table[i].1
            &&& t.canonical()
            &&& tex_agrees(t, tex_of)
            &&& t matches TextureTree::Checker { even, odd, .. } ==> has_key(table, i, even.name())
                && has_key(table, i, odd.name())
        }
}

/// A material table as writing leaves it: keys are distinct, each entry is
/// the dictionary's material of that name, and the texture of a diffuse
/// material is listed.
pub open spec fn mat_ok(
    tables: Tables,
    tex_of: spec_fn(Seq<char>) -> TextureTree,
    mat_of: spec_fn(Seq<char>) -> MaterialTree,
) -> bool {
    &&& tex_ok(tables.textures, tex_of)
    &&& distinct_keys(tables.materials)
    &&& forall|i: int|
        0 <= i < tables.materials.len() ==> {
            let m = mat_of((#[trigger] tables.materials[i]).0);
            &&& m.name() == tables.materials[i].0
            &&& m.doc() == tables.materials[i].1
            &&& m.canonical()
            &&& mat_agrees(m, tex_of, mat_of)
            &&& m matches MaterialTree::Lambertian { tex } ==> has_key(
                tables.textures,
                tables.textures.len() as int,
                tex.name(),
            )
        }
}

/// Registering keeps what the table held, lists the name, and keeps keys
/// distinct.
pub proof fn lemma_register<T>(table: Seq<(Seq<char>, T)>, name: Seq<char>, entry: T)
    ensures
        begins(table, register(table, name, entry)),
        has_key(register(table, name, entry), register(table, name, entry).len() as int, name),
        distinct_keys(table) ==> distinct_keys(register(table, name, entry)),
        register(table, name, entry) == table || register(table, name, entry) == table.push(
            (name, entry),
        ),
        register(table, name, entry) != table ==> !has_key(table, table.len() as int, name),
{
    let out = register(table, name, entry);
    if has_key(table, table.len() as int, name) {
    } else {
        assert(out[table.len() as int].0 == name);
        if distinct_keys(table) {
            assert forall|i: int, j: int| 0 <= i < j < out.len() implies (#[trigger] out[i]).0 != (
            #[trigger] out[j]).0 by {
                if j == table.len() {
                    assert(table[i].0 != name);
                }
            }
        }
    }
}

/// A key of the beginning of a table is a key of the table.
pub proof fn lemma_has_key_grows<T>(
    a: Seq<(Seq<char>, T)>,
    b: Seq<(Seq<char>, T)>,
    n: int,
    name: Seq<char>,
)
    requires
        begins(a, b),
        has_key(a, n, name),
    ensures
        has_key(b, n, name),
        has_key(b, b.len() as int, name),
{
    let i = choose|i: int| 0 <= i < n && i < a.len() && (#[trigger] a[i]).0 == name;
    assert(b[i].0 == name);
}

/// Listing a texture keeps a texture table in order: what was listed stays,
/// the texture's name is listed, and the table is as writing leaves it.
pub proof fn lemma_list_texture(
    t: TextureTree,
    table: Seq<(Seq<char>, TextureDoc)>,
    tex_of: spec_fn(Seq<char>) -> TextureTree,
)
    requires
        tex_ok(table, tex_of),
        tex_agrees(t, tex_of),
        t.canonical(),
    ensures
        tex_ok(t.list(table), tex_of),
        begins(table, t.list(table)),
        has_key(t.list(table), t.list(table).len() as int, t.name()),
    decreases t,
{
    let parts = t.list_parts(table);
    match t {
        TextureTree::Checker { even, odd, .. } => {
            let with_even = even.list(table);
            lemma_list_texture(*even, table, tex_of);
            lemma_list_texture(*odd, with_even, tex_of);
            assert(parts == odd.list(with_even));
            lemma_has_key_grows(with_even, parts, with_even.len() as int, even.name());
        },
        _ => {
            assert(parts == table);
        },
    }
    assert(tex_ok(parts, tex_of));
    assert(begins(table, parts));
    lemma_register(parts, t.name(), t.doc());
    let out = register(parts, t.name(), t.doc());
    assert(out == t.list(table));
    if out != parts {
        assert(out == parts.push((t.name(), t.doc())));
        assert forall|i: int| 0 <= i < out.len() implies {
            let x = tex_of((#[trigger] out[i]).0);
            &&& x.name() == out[i].0
            &&& x.doc() == out[i].1
            &&& x.canonical()
            &&& tex_agrees(x, tex_of)
            &&& x matches TextureTree::Checker { even, odd, .. } ==> has_key(out, i, even.name())
                && has_key(out, i, odd.name())
        } by {
            let x = tex_of(out[i].0);
            if i < parts.len() {
                assert(parts[i] == out[i]);
                if let TextureTree::Checker { even, odd, .. } = x {
                    lemma_has_key_grows(parts, out, i, even.name());
                    lemma_has_key_grows(parts, out, i, odd.name());
                }
            } else {
                assert(x == t);
                if let TextureTree::Checker { even, odd, .. } = t {
                    lemma_has_key_grows(parts, out, parts.len() as int, even.name());
                    lemma_has_key_grows(parts, out, parts.len() as int, odd.name());
                }
            }
        }
    }
}

/// The textures of a table, each under its key, as the dictionary holds
/// them.
pub open spec fn textures_by_key(
    table: Seq<(Seq<char>, TextureDoc)>,
    n: nat,
    tex_of: spec_fn(Seq<char>) -> TextureTree,
) -> Seq<(Seq<char>, TextureTree)> {
    Seq::new(n, |i: int| (table[i].0, tex_of(table[i].0)))
}

/// The materials of a table, each under its key, as the dictionary holds
/// them.
pub open spec fn materials_by_key(
    table: Seq<(Seq<char>, MaterialDoc)>,
    n: nat,
    mat_of: spec_fn(Seq<char>) -> MaterialTree,
) -> Seq<(Seq<char>, MaterialTree)> {
    Seq::new(n, |i: int| (table[i].0, mat_of(table[i].0)))
}

/// Among entries with distinct keys, a name refers to the one entry that
/// carries it.
pub proof fn lemma_find_last<T>(table: Seq<(Seq<char>, T)>, n: nat, at: int, name: Seq<char>)
    requires
        n <= table.len(),
        0 <= at < n,
        table[at].0 == name,
        distinct_keys(table),
    ensures
        find_last(table, n, name) == Some(table[at].1),
    decreases n,
{
    if at != n - 1 {
        assert(table[at].0 != table[n - 1].0);
        lemma_find_last(table, (n - 1) as nat, at, name);
    }
}

/// Loading a texture table that writing left gives, under each key, the
/// dictionary's texture of that name.
pub proof fn lemma_resolve_textures(
    table: Seq<(Seq<char>, TextureDoc)>,
    n: nat,
    tex_of: spec_fn(Seq<char>) -> TextureTree,
)
    requires
        n <= table.len(),
        tex_ok(table, tex_of),
    ensures
        resolve_textures(table, n) == Ok::<Seq<(Seq<char>, TextureTree)>, Unresolved>(
            textures_by_key(table, n, tex_of),
        ),
    decreases n,
{
    if n == 0 {
        assert(textures_by_key(table, 0, tex_of) =~= Seq::empty());
    } else {
        lemma_resolve_textures(table, (n - 1) as nat, tex_of);
        let known = textures_by_key(table, (n - 1) as nat, tex_of);
        let key = table[n - 1].0;
        let t = tex_of(key);
        assert(distinct_keys(known)) by {
            assert forall|i: int, j: int| 0 <= i < j < known.len() implies (#[trigger] known[i]).0
                != (#[trigger] known[j]).0 by {
                assert(table[i].0 != table[j].0);
            }
        }
        match t {
            TextureTree::Checker { name, scale, even, odd } => {
                assert(has_key(table, n - 1, even.name()));
                let a = choose|i: int|
                    0 <= i < n - 1 && i < table.len() && (#[trigger] table[i]).0 == even.name();
                assert(known[a].0 == even.name());
                lemma_find_last(known, (n - 1) as nat, a, even.name());
                assert(has_key(table, n - 1, odd.name()));
                let b = choose|i: int|
                    0 <= i < n - 1 && i < table.len() && (#[trigger] table[i]).0 == odd.name();
                assert(known[b].0 == odd.name());
                lemma_find_last(known, (n - 1) as nat, b, odd.name());
                assert(tex_agrees(t, tex_of));
                assert(tex_agrees(*even, tex_of) && tex_agrees(*odd, tex_of));
                assert(tex_of(even.name()) == *even);
                assert(tex_of(odd.name()) == *odd);
                assert(t.canonical());
                assert(resolve_texture(key, table[n - 1].1, known) == Ok::<
                    TextureTree,
                    Unresolved,
                >(t));
            },
            _ => {
                assert(resolve_texture(key, table[n - 1].1, known) == Ok::<
                    TextureTree,
                    Unresolved,
                >(t));
            },
        }
        assert(known.push((key, t)) =~= textures_by_key(table, n, tex_of));
    }
}

/// Listing a material keeps the tables in order: what was listed stays, and
/// the material's name is listed.
pub proof fn lemma_list_material(
    m: MaterialTree,
    tables: Tables,
    tex_of: spec_fn(Seq<char>) -> TextureTree,
    mat_of: spec_fn(Seq<char>) -> MaterialTree,
)
    requires
        mat_ok(tables, tex_of, mat_of),
        mat_agrees(m, tex_of, mat_of),
        m.canonical(),
    ensures
        mat_ok(m.list(tables), tex_of, mat_of),
        begins(tables.textures, m.list(tables).textures),
        begins(tables.materials, m.list(tables).materials),
        has_key(m.list(tables).materials, m.list(tables).materials.len() as int, m.name()),
{
    let parts = m.list_parts(tables);
    match m {
        MaterialTree::Lambertian { tex } => {
            lemma_list_texture(tex, tables.textures, tex_of);
        },
        _ => {},
    }
    assert(tex_ok(parts.textures, tex_of));
    assert(begins(tables.textures, parts.textures));
    lemma_register(parts.materials, m.name(), m.doc());
    let out = m.list(tables);
    assert forall|i: int| 0 <= i < out.materials.len() implies {
        let x = mat_of((#[trigger] out.materials[i]).0);
        &&& x.name() == out.materials[i].0
        &&& x.doc() == out.materials[i].1
        &&& x.canonical()
        &&& mat_agrees(x, tex_of, mat_of)
        &&& x matches MaterialTree::Lambertian { tex } ==> has_key(
            out.textures,
            out.textures.len() as int,
            tex.name(),
        )
    } by {
        let x = mat_of(out.materials[i].0);
        if i < tables.materials.len() {
            assert(tables.materials[i] == out.materials[i]);
            if let MaterialTree::Lambertian { tex } = x {
                lemma_has_key_grows(
                    tables.textures,
                    out.textures,
                    tables.textures.len() as int,
                    tex.name(),
                );
            }
        } else {
            assert(x == m);
        }
    }
}

/// Loading a material table that writing left gives, under each key, the
/// dictionary's material of that name.
pub proof fn lemma_resolve_materials(
    tables: Tables,
    n: nat,
    tex_of: spec_fn(Seq<char>) -> TextureTree,
    mat_of: spec_fn(Seq<char>) -> MaterialTree,
)
    requires
        n <= tables.materials.len(),
        mat_ok(tables, tex_of, mat_of),
    ensures
        resolve_materials(
            tables.materials,
            n,
            textures_by_key(tables.textures, tables.textures.len(), tex_of),
        ) == Ok::<Seq<(Seq<char>, MaterialTree)>, Unresolved>(
            materials_by_key(tables.materials, n, mat_of),
        ),
    decreases n,
{
    let textures = textures_by_key(tables.textures, tables.textures.len(), tex_of);
    if n == 0 {
        assert(materials_by_key(tables.materials, 0, mat_of) =~= Seq::empty());
    } else {
        lemma_resolve_materials(tables, (n - 1) as nat, tex_of, mat_of);
        let known = materials_by_key(tables.materials, (n - 1) as nat, mat_of);
        let key = tables.materials[n - 1].0;
        let m = mat_of(key);
        assert(distinct_keys(textures)) by {
            assert forall|i: int, j: int| 0 <= i < j < textures.len() implies (
            #[trigger] textures[i]).0 != (#[trigger] textures[j]).0 by {
                assert(tables.textures[i].0 != tables.textures[j].0);
            }
        }
        match m {
            MaterialTree::Lambertian { tex } => {
                let a = choose|i: int|
                    0 <= i < tables.textures.len() && i < tables.textures.len() && (
                    #[trigger] tables.textures[i]).0 == tex.name();
                assert(textures[a].0 == tex.name());
                lemma_find_last(textures, textures.len(), a, tex.name());
                assert(tex_of(tex.name()) == tex);
            },
            _ => {},
        }
        assert(resolve_material(key, tables.materials[n - 1].1, textures) == Ok::<
            MaterialTree,
            Unresolved,
        >(m));
        assert(known.push((key, m)) =~= materials_by_key(tables.materials, n, mat_of));
    }
}

/// The name of every material of the shape is a key of the table.
pub open spec fn listed(s: ShapeTree, table: Seq<(Seq<char>, MaterialDoc)>) -> bool
    decreases s,
{
    match s {
        ShapeTree::Circle { mat, .. } => has_key(table, table.len() as int, mat.name()),
        ShapeTree::Quad { mat, .. } => has_key(table, table.len() as int, mat.name()),
        ShapeTree::List(items) => forall|i: int|
            0 <= i < items.len() ==> listed(#[trigger] items[i], table),
        ShapeTree::BVH { left, right } => listed(*left, table) && listed(*right, table),
    }
}

/// What is listed in the beginning of a table is listed in the table.
pub proof fn lemma_listed_grows(
    s: ShapeTree,
    a: Seq<(Seq<char>, MaterialDoc)>,
    b: Seq<(Seq<char>, MaterialDoc)>,
)
    requires
        begins(a, b),
        listed(s, a),
    ensures
        listed(s, b),
    decreases s,
{
    match s {
        ShapeTree::Circle { mat, .. } => {
            lemma_has_key_grows(a, b, a.len() as int, mat.name());
        },
        ShapeTree::Quad { mat, .. } => {
            lemma_has_key_grows(a, b, a.len() as int, mat.name());
        },
        ShapeTree::List(items) => {
            assert forall|i: int| 0 <= i < items.len() implies listed(#[trigger] items[i], b) by {
                lemma_listed_grows(items[i], a, b);
            }
        },
        ShapeTree::BVH { left, right } => {
            lemma_listed_grows(*left, a, b);
            lemma_listed_grows(*right, a, b);
        },
    }
}

/// Listing a shape keeps the tables in order: what was listed stays, and
/// the materials of the shape are listed.
pub proof fn lemma_list_shape(
    s: ShapeTree,
    tables: Tables,
    tex_of: spec_fn(Seq<char>) -> TextureTree,
    mat_of: spec_fn(Seq<char>) -> MaterialTree,
)
    requires
        mat_ok(tables, tex_of, mat_of),
        shape_agrees(s, tex_of, mat_of),
        s.canonical(),
    ensures
        mat_ok(s.list(tables), tex_of, mat_of),
        begins(tables.textures, s.list(tables).textures),
        begins(tables.materials, s.list(tables).materials),
        listed(s, s.list(tables).materials),
    decreases s,
{
    match s {
        ShapeTree::Circle { mat, .. } => {
            lemma_list_material(mat, tables, tex_of, mat_of);
        },
        ShapeTree::Quad { mat, .. } => {
            lemma_list_material(mat, tables, tex_of, mat_of);
        },
        ShapeTree::List(items) => {
            lemma_list_shapes(items, items.len(), tables, tex_of, mat_of);
        },
        ShapeTree::BVH { left, right } => {
            let first = left.list(tables);
            lemma_list_shape(*left, tables, tex_of, mat_of);
            lemma_list_shape(*right, first, tex_of, mat_of);
            lemma_listed_grows(*left, first.materials, s.list(tables).materials);
        },
    }
}

/// Listing the first `n` shapes of a row keeps the tables in order, and
/// their materials are listed.
pub proof fn lemma_list_shapes(
    items: Seq<ShapeTree>,
    n: nat,
    tables: Tables,
    tex_of: spec_fn(Seq<char>) -> TextureTree,
    mat_of: spec_fn(Seq<char>) -> MaterialTree,
)
    requires
        n <= items.len(),
        mat_ok(tables, tex_of, mat_of),
        forall|i: int|
            0 <= i < items.len() ==> shape_agrees(#[trigger] items[i], tex_of, mat_of)
                && items[i].canonical(),
    ensures
        mat_ok(list_all(items, n, tables), tex_of, mat_of),
        begins(tables.textures, list_all(items, n, tables).textures),
        begins(tables.materials, list_all(items, n, tables).materials),
        forall|i: int| 0 <= i < n ==> listed(#[trigger] items[i], list_all(items, n, tables).materials),
    decreases items, n,
{
    if n > 0 {
        let before = list_all(items, (n - 1) as nat, tables);
        let after = list_all(items, n, tables);
        lemma_list_shapes(items, (n - 1) as nat, tables, tex_of, mat_of);
        lemma_list_shape(items[n - 1], before, tex_of, mat_of);
        assert forall|i: int| 0 <= i < n implies listed(#[trigger] items[i], after.materials) by {
            if i < n - 1 {
                lemma_listed_grows(items[i], before.materials, after.materials);
            }
        }
    }
}

/// Loading the entry of a shape whose materials are listed gives the shape.
pub proof fn lemma_resolve_shape(
    s: ShapeTree,
    tables: Tables,
    tex_of: spec_fn(Seq<char>) -> TextureTree,
    mat_of: spec_fn(Seq<char>) -> MaterialTree,
)
    requires
        mat_ok(tables, tex_of, mat_of),
        shape_agrees(s, tex_of, mat_of),
        s.canonical(),
        listed(s, tables.materials),
    ensures
        resolve_shape(
            s.doc(),
            materials_by_key(tables.materials, tables.materials.len(), mat_of),
        ) == Ok::<ShapeTree, Unresolved>(s),
    decreases s,
{
    let known = materials_by_key(tables.materials, tables.materials.len(), mat_of);
    assert(distinct_keys(known)) by {
        assert forall|i: int, j: int| 0 <= i < j < known.len() implies (#[trigger] known[i]).0 != (
        #[trigger] known[j]).0 by {
            assert(tables.materials[i].0 != tables.materials[j].0);
        }
    }
    match s {
        ShapeTree::Circle { mat, .. } => {
            let a = choose|i: int|
                0 <= i < tables.materials.len() && i < tables.materials.len() && (
                #[trigger] tables.materials[i]).0 == mat.name();
            assert(known[a].0 == mat.name());
            lemma_find_last(known, known.len(), a, mat.name());
        },
        ShapeTree::Quad { mat, .. } => {
            let a = choose|i: int|
                0 <= i < tables.materials.len() && i < tables.materials.len() && (
                #[trigger] tables.materials[i]).0 == mat.name();
            assert(known[a].0 == mat.name());
            lemma_find_last(known, known.len(), a, mat.name());
        },
        ShapeTree::List(items) => {
            lemma_docs_of(items, items.len());
            lemma_resolve_shapes(items, items.len(), tables, tex_of, mat_of);
            assert(items.subrange(0, items.len() as int) =~= items);
        },
        ShapeTree::BVH { left, right } => {
            lemma_resolve_shape(*left, tables, tex_of, mat_of);
            lemma_resolve_shape(*right, tables, tex_of, mat_of);
        },
    }
}

/// Loading the entries of the first `n` shapes of a row gives these shapes.
pub proof fn lemma_resolve_shapes(
    items: Seq<ShapeTree>,
    n: nat,
    tables: Tables,
    tex_of: spec_fn(Seq<char>) -> TextureTree,
    mat_of: spec_fn(Seq<char>) -> MaterialTree,
)
    requires
        n <= items.len(),
        mat_ok(tables, tex_of, mat_of),
        forall|i: int|
            0 <= i < items.len() ==> shape_agrees(#[trigger] items[i], tex_of, mat_of)
                && items[i].canonical() && listed(items[i], tables.materials),
    ensures
        resolve_shapes(
            docs_of(items, items.len()),
            n,
            materials_by_key(tables.materials, tables.materials.len(), mat_of),
        ) == Ok::<Seq<ShapeTree>, Unresolved>(items.subrange(0, n as int)),
    decreases items, n,
{
    lemma_docs_of(items, items.len());
    if n == 0 {
        assert(items.subrange(0, 0) =~= Seq::empty());
    } else {
        lemma_resolve_shapes(items, (n - 1) as nat, tables, tex_of, mat_of);
        lemma_resolve_shape(items[n - 1], tables, tex_of, mat_of);
        assert(items.subrange(0, n - 1).push(items[n - 1]) =~= items.subrange(0, n as int));
    }
}

/// A scene that is written into a document and loaded again is the same
/// scene, and the document lists every material and texture under one name
/// once. This holds of a scene as loading leaves it (canonical) whose names
/// are used consistently: there are dictionaries that hold, under its name,
/// every material and texture of the scene.
pub proof fn lemma_round_trip(
    shapes: Seq<ShapeTree>,
    tex_of: spec_fn(Seq<char>) -> TextureTree,
    mat_of: spec_fn(Seq<char>) -> MaterialTree,
)
    requires
        forall|i: int|
            0 <= i < shapes.len() ==> shape_agrees(#[trigger] shapes[i], tex_of, mat_of)
                && shapes[i].canonical(),
    ensures
        resolve(serialize(shapes)) == Ok::<Seq<ShapeTree>, Unresolved>(shapes),
        distinct_keys(serialize(shapes).textures),
        distinct_keys(serialize(shapes).materials),
{
    let empty = Tables { textures: Seq::empty(), materials: Seq::empty() };
    let tables = list_all(shapes, shapes.len(), empty);
    assert(mat_ok(empty, tex_of, mat_of));
    lemma_list_shapes(shapes, shapes.len(), empty, tex_of, mat_of);
    lemma_resolve_textures(tables.textures, tables.textures.len(), tex_of);
    lemma_resolve_materials(tables, tables.materials.len(), tex_of, mat_of);
    lemma_resolve_shapes(shapes, shapes.len(), tables, tex_of, mat_of);
    lemma_docs_of(shapes, shapes.len());
    assert(shapes.subrange(0, shapes.len() as int) =~= shapes);
}

/// What a name refers to is an entry of the table.
pub proof fn lemma_find_last_member<T>(table: Seq<(Seq<char>, T)>, n: nat, name: Seq<char>)
    requires
        n <= table.len(),
    ensures
        find_last(table, n, name) matches Some(t) ==> exists|i: int|
            0 <= i < n && (#[trigger] table[i]).1 == t,
    decreases n,
{
    if n > 0 && table[n - 1].0 != name {
        lemma_find_last_member(table, (n - 1) as nat, name);
    }
}

/// The textures that loading builds are canonical.
pub proof fn lemma_loaded_textures_canonical(table: Seq<(Seq<char>, TextureDoc)>, n: nat)
    requires
        n <= table.len(),
    ensures
        resolve_textures(table, n) matches Ok(known) ==> known.len() == n && forall|i: int|
            0 <= i < n ==> (#[trigger] known[i]).1.canonical(),
    decreases n,
{
    if n > 0 {
        lemma_loaded_textures_canonical(table, (n - 1) as nat);
        if let Ok(known) = resolve_textures(table, (n - 1) as nat) {
            if let TextureDoc::Checker { scale, even, odd } = table[n - 1].1 {
                lemma_find_last_member(known, known.len(), even);
                lemma_find_last_member(known, known.len(), odd);
            }
        }
    }
}

/// The materials that loading builds are canonical.
pub proof fn lemma_loaded_materials_canonical(
    table: Seq<(Seq<char>, MaterialDoc)>,
    n: nat,
    textures: Seq<(Seq<char>, TextureTree)>,
)
    requires
        n <= table.len(),
        forall|i: int| 0 <= i < textures.len() ==> (#[trigger] textures[i]).1.canonical(),
    ensures
        resolve_materials(table, n, textures) matches Ok(known) ==> known.len() == n && forall|
            i: int,
        |
            0 <= i < n ==> (#[trigger] known[i]).1.canonical(),
    decreases n,
{
    if n > 0 {
        lemma_loaded_materials_canonical(table, (n - 1) as nat, textures);
        if let MaterialDoc::Lambertian { texture } = table[n - 1].1 {
            lemma_find_last_member(textures, textures.len(), texture);
        }
    }
}

/// The shape that loading builds is canonical.
pub proof fn lemma_loaded_shape_canonical(doc: ShapeDoc, materials: Seq<(Seq<char>, MaterialTree)>)
    requires
        forall|i: int| 0 <= i < materials.len() ==> (#[trigger] materials[i]).1.canonical(),
    ensures
        resolve_shape(doc, materials) matches Ok(s) ==> s.canonical(),
    decreases doc,
{
    match doc {
        ShapeDoc::Circle { material, .. } => {
            lemma_find_last_member(materials, materials.len(), material);
        },
        ShapeDoc::Quad { material, .. } => {
            lemma_find_last_member(materials, materials.len(), material);
        },
        ShapeDoc::List(items) => {
            lemma_loaded_shapes_canonical(items, items.len(), materials);
        },
        ShapeDoc::BVH { left, right } => {
            lemma_loaded_shape_canonical(*left, materials);
            lemma_loaded_shape_canonical(*right, materials);
        },
    }
}

/// The shapes that loading builds from a row are canonical.
pub proof fn lemma_loaded_shapes_canonical(
    docs: Seq<ShapeDoc>,
    n: nat,
    materials: Seq<(Seq<char>, MaterialTree)>,
)
    requires
        n <= docs.len(),
        forall|i: int| 0 <= i < materials.len() ==> (#[trigger] materials[i]).1.canonical(),
    ensures
        resolve_shapes(docs, n, materials) matches Ok(shapes) ==> shapes.len() == n && forall|
            i: int,
        |
            0 <= i < n ==> (#[trigger] shapes[i]).canonical(),
    decreases docs, n,
{
    if n > 0 {
        lemma_loaded_shapes_canonical(docs, (n - 1) as nat, materials);
        lemma_loaded_shape_canonical(docs[n - 1], materials);
    }
}

/// Every scene that a document describes is canonical: it is a scene of
/// which the round trip speaks.
pub proof fn lemma_loaded_scene_canonical(doc: SceneDoc)
    ensures
        resolve(doc) matches Ok(shapes) ==> forall|i: int|
            0 <= i < shapes.len() ==> (#[trigger] shapes[i]).canonical(),
{
    lemma_loaded_textures_canonical(doc.textures, doc.textures.len());
    if let Ok(textures) = resolve_textures(doc.textures, doc.textures.len()) {
        lemma_loaded_materials_canonical(doc.materials, doc.materials.len(), textures);
        if let Ok(materials) = resolve_materials(doc.materials, doc.materials.len(), textures) {
            lemma_loaded_shapes_canonical(doc.shapes, doc.shapes.len(), materials);
        }
    }
}

/// Every checker of the table stands behind the two textures it names.
pub open spec fn parts_first(table: Seq<(Seq<char>, TextureDoc)>) -> bool {
    forall|i: int|
        0 <= i < table.len() ==> ((#[trigger] table[i]).1 matches TextureDoc::Checker {
            even,
            odd,
            ..
        } ==> has_key(table, i, even) && has_key(table, i, odd))
}

/// The texture that a diffuse material of the tables names is listed.
pub open spec fn textures_listed(tables: Tables) -> bool {
    forall|i: int|
        0 <= i < tables.materials.len() ==> ((#[trigger] tables.materials[i]).1 matches MaterialDoc::Lambertian {
            texture,
        } ==> has_key(tables.textures, tables.textures.len() as int, texture))
}

/// The tables are in order: no name is listed twice, every checker stands
/// behind its two textures, and the texture of every diffuse material is
/// listed.
pub open spec fn orderly(tables: Tables) -> bool {
    &&& distinct_keys(tables.textures)
    &&& distinct_keys(tables.materials)
    &&& parts_first(tables.textures)
    &&& textures_listed(tables)
}

/// Listing a texture keeps a texture table in order, keeps what was listed,
/// and lists the texture.
pub proof fn lemma_list_texture_once(t: TextureTree, table: Seq<(Seq<char>, TextureDoc)>)
    requires
        distinct_keys(table),
        parts_first(table),
    ensures
        distinct_keys(t.list(table)),
        parts_first(t.list(table)),
        begins(table, t.list(table)),
        has_key(t.list(table), t.list(table).len() as int, t.name()),
    decreases t,
{
    let parts = t.list_parts(table);
    match t {
        TextureTree::Checker { even, odd, .. } => {
            let with_even = even.list(table);
            lemma_list_texture_once(*even, table);
            lemma_list_texture_once(*odd, with_even);
            assert(parts == odd.list(with_even));
            lemma_has_key_grows(with_even, parts, with_even.len() as int, even.name());
        },
        _ => {},
    }
    lemma_register(parts, t.name(), t.doc());
    let out = t.list(table);
    assert forall|i: int| 0 <= i < out.len() implies ((#[trigger] out[i]).1 matches TextureDoc::Checker {
        even,
        odd,
        ..
    } ==> has_key(out, i, even) && has_key(out, i, odd)) by {
        if let TextureDoc::Checker { even, odd, .. } = out[i].1 {
            if i < parts.len() {
                assert(parts[i] == out[i]);
                lemma_has_key_grows(parts, out, i, even);
                lemma_has_key_grows(parts, out, i, odd);
            } else {
                lemma_has_key_grows(parts, out, parts.len() as int, even);
                lemma_has_key_grows(parts, out, parts.len() as int, odd);
            }
        }
    }
}

/// Listing a material keeps the tables in order, keeps what was listed, and
/// lists the material.
pub proof fn lemma_list_material_once(m: MaterialTree, tables: Tables)
    requires
        orderly(tables),
    ensures
        orderly(m.list(tables)),
        begins(tables.textures, m.list(tables).textures),
        begins(tables.materials, m.list(tables).materials),
        has_key(m.list(tables).materials, m.list(tables).materials.len() as int, m.name()),
{
    if let MaterialTree::Lambertian { tex } = m {
        lemma_list_texture_once(tex, tables.textures);
    }
    let parts = m.list_parts(tables);
    lemma_register(parts.materials, m.name(), m.doc());
    let out = m.list(tables);
    assert forall|i: int| 0 <= i < out.materials.len() implies ((
    #[trigger] out.materials[i]).1 matches MaterialDoc::Lambertian { texture } ==> has_key(
        out.textures,
        out.textures.len() as int,
        texture,
    )) by {
        if let MaterialDoc::Lambertian { texture } = out.materials[i].1 {
            if i < tables.materials.len() {
                assert(tables.materials[i] == out.materials[i]);
                lemma_has_key_grows(
                    tables.textures,
                    out.textures,
                    tables.textures.len() as int,
                    texture,
                );
            }
        }
    }
}

/// Listing a shape keeps the tables in order, keeps what was listed, and
/// lists the materials of the shape.
pub proof fn lemma_list_shape_once(s: ShapeTree, tables: Tables)
    requires
        orderly(tables),
    ensures
        orderly(s.list(tables)),
        begins(tables.textures, s.list(tables).textures),
        begins(tables.materials, s.list(tables).materials),
        listed(s, s.list(tables).materials),
    decreases s,
{
    match s {
        ShapeTree::Circle { mat, .. } => {
            lemma_list_material_once(mat, tables);
        },
        ShapeTree::Quad { mat, .. } => {
            lemma_list_material_once(mat, tables);
        },
        ShapeTree::List(items) => {
            lemma_list_shapes_once(items, items.len(), tables);
        },
        ShapeTree::BVH { left, right } => {
            lemma_list_shape_once(*left, tables);
            lemma_list_shape_once(*right, left.list(tables));
            lemma_listed_grows(*left, left.list(tables).materials, s.list(tables).materials);
        },
    }
}

/// Listing the first `n` shapes of a row keeps the tables in order, keeps
/// what was listed, and lists the materials of these shapes.
pub proof fn lemma_list_shapes_once(items: Seq<ShapeTree>, n: nat, tables: Tables)
    requires
        n <= items.len(),
        orderly(tables),
    ensures
        orderly(list_all(items, n, tables)),
        begins(tables.textures, list_all(items, n, tables).textures),
        begins(tables.materials, list_all(items, n, tables).materials),
        forall|i: int| 0 <= i < n ==> listed(#[trigger] items[i], list_all(items, n, tables).materials),
    decreases items, n,
{
    if n > 0 {
        let before = list_all(items, (n - 1) as nat, tables);
        let after = list_all(items, n, tables);
        lemma_list_shapes_once(items, (n - 1) as nat, tables);
        lemma_list_shape_once(items[n - 1], before);
        assert forall|i: int| 0 <= i < n implies listed(#[trigger] items[i], after.materials) by {
            if i < n - 1 {
                lemma_listed_grows(items[i], before.materials, after.materials);
            }
        }
    }
}

/// The document of any scene is in order: no name is listed twice, every
/// checker stands behind the two textures it names, the texture that a
/// diffuse material names is listed, and every material of every shape is
/// listed, however many shapes share it.
pub proof fn lemma_listed_once(shapes: Seq<ShapeTree>)
    ensures
        distinct_keys(serialize(shapes).textures),
        distinct_keys(serialize(shapes).materials),
        parts_first(serialize(shapes).textures),
        textures_listed(
            Tables {
                textures: serialize(shapes).textures,
                materials: serialize(shapes).materials,
            },
        ),
        forall|i: int|
            0 <= i < shapes.len() ==> listed(#[trigger] shapes[i], serialize(shapes).materials),
{
    let empty = Tables { textures: Seq::empty(), materials: Seq::empty() };
    lemma_list_shapes_once(shapes, shapes.len(), empty);
}

} // verus!
