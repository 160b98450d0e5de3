use ray_tracer::aabb::{Slab, AABB};
use ray_tracer::bvh::{sort_by_axis, BVHNode};
use ray_tracer::hittable::{HitRecord, Hittable, HittableList, Probes};
use ray_tracer::interval::Interval;
use ray_tracer::material::{Dielectric, Material};
use ray_tracer::quad::{PlaneCrossing, Quad, QuadFrame};
use ray_tracer::ray::Ray;
use ray_tracer::scalar::Scalar;
use ray_tracer::sphere::{Sphere, SphereRoots, SurfacePoint};
use ray_tracer::vec::{Axis, Vec3};
use std::sync::Arc;

fn s(x: f64) -> Scalar {
    Scalar::from_bits(x.to_bits())
}

fn f(x: Scalar) -> f64 {
    f64::from_bits(x.to_bits())
}

fn v(a: [f64; 3]) -> Vec3 {
    Vec3::new(s(a[0]), s(a[1]), s(a[2]))
}

fn a(p: &Vec3) -> [f64; 3] {
    [f(p.x()), f(p.y()), f(p.z())]
}

fn dot(p: [f64; 3], q: [f64; 3]) -> f64 {
    p[0] * q[0] + p[1] * q[1] + p[2] * q[2]
}

fn cross(p: [f64; 3], q: [f64; 3]) -> [f64; 3] {
    [p[1] * q[2] - p[2] * q[1], p[2] * q[0] - p[0] * q[2], p[0] * q[1] - p[1] * q[0]]
}

fn sub(p: [f64; 3], q: [f64; 3]) -> [f64; 3] {
    [p[0] - q[0], p[1] - q[1], p[2] - q[2]]
}

fn along(o: [f64; 3], d: [f64; 3], t: f64) -> [f64; 3] {
    [o[0] + t * d[0], o[1] + t * d[1], o[2] + t * d[2]]
}

fn named(name: &str) -> Arc<Material> {
    Arc::new(Material::Dielectric(Dielectric::new(name.to_string(), s(1.5))))
}

fn bound_sphere(center: &Ray, radius: Scalar) -> AABB {
    let c = a(center.origin());
    let radius = f(radius);
    let lo = [c[0] - radius, c[1] - radius, c[2] - radius];
    let hi = [c[0] + radius, c[1] + radius, c[2] + radius];
    AABB::from_points(v(lo), v(hi), &extent, &widen)
}

fn frame_quad(q: &Vec3, u: &Vec3, w: &Vec3) -> QuadFrame {
    let (q, u, w) = (a(q), a(u), a(w));
    let n = cross(u, w);
    let len = dot(n, n).sqrt();
    let normal = [n[0] / len, n[1] / len, n[2] / len];
    let nn = dot(n, n);
    let far = [q[0] + u[0] + w[0], q[1] + u[1] + w[1], q[2] + u[2] + w[2]];
    QuadFrame {
        normal: v(normal),
        d: s(dot(normal, q)),
        w: v([n[0] / nn, n[1] / nn, n[2] / nn]),
        bbox: AABB::from_points(v(q), v(far), &extent, &widen),
    }
}

fn ball(center: [f64; 3], radius: f64, name: &str) -> Arc<Hittable> {
    Arc::new(Hittable::Sphere(Sphere::new(v(center), s(radius), named(name), &bound_sphere)))
}

fn tile(q: [f64; 3], u: [f64; 3], w: [f64; 3], name: &str) -> Arc<Hittable> {
    Arc::new(Hittable::Quad(Quad::new(v(q), v(u), v(w), named(name), &frame_quad)))
}

fn widen(range: &Interval) -> Interval {
    Interval::new(s(f(range.min) - 0.00005), s(f(range.max) + 0.00005))
}

fn center_at(sphere: &Sphere, r: &Ray) -> [f64; 3] {
    along(a(sphere.center.origin()), a(sphere.center.direction()), f(r.time()))
}

fn roots(sphere: &Sphere, r: &Ray) -> SphereRoots {
    let origin = a(r.origin());
    let dir = a(r.direction());
    let radius = f(sphere.radius);
    let oc = sub(center_at(sphere, r), origin);
    let aa = dot(dir, dir);
    let h = dot(dir, oc);
    let c = dot(oc, oc) - radius * radius;
    let discriminant = h * h - aa * c;
    let sqrtd = discriminant.sqrt();
    SphereRoots { discriminant: s(discriminant), near: s((h - sqrtd) / aa), far: s((h + sqrtd) / aa) }
}

fn surface(sphere: &Sphere, r: &Ray, t: Scalar) -> SurfacePoint {
    let dir = a(r.direction());
    let center = center_at(sphere, r);
    let radius = f(sphere.radius);
    let p = along(a(r.origin()), dir, f(t));
    let outward = [(p[0] - center[0]) / radius, (p[1] - center[1]) / radius, (p[2] - center[2]) / radius];
    SurfacePoint {
        p: v(p),
        outward_normal: v(outward),
        facing: s(dot(dir, outward)),
        u: s(0.0),
        v: s(0.0),
    }
}

fn crossing(quad: &Quad, r: &Ray) -> PlaneCrossing {
    let origin = a(r.origin());
    let dir = a(r.direction());
    let normal = a(&quad.normal);
    let denom = dot(normal, dir);
    let t = (f(quad.d) - dot(normal, origin)) / denom;
    let p = along(origin, dir, t);
    let planar = sub(p, a(&quad.q));
    PlaneCrossing {
        denom: s(denom),
        t: s(t),
        p: v(p),
        alpha: s(dot(a(&quad.w), cross(planar, a(&quad.v)))),
        beta: s(dot(a(&quad.w), cross(a(&quad.u), planar))),
    }
}

type Kit = Probes<
    fn(&AABB, &Ray) -> (Slab, Slab, Slab),
    fn(&Sphere, &Ray) -> SphereRoots,
    fn(&Sphere, &Ray, Scalar) -> SurfacePoint,
    fn(&Quad, &Ray) -> PlaneCrossing,
>;

fn kit() -> Kit {
    Probes { slabs, roots, surface, crossing }
}

fn leaf(shape: &Hittable, r: &Ray, ray_t: Interval) -> Option<HitRecord> {
    shape.hit(r, ray_t, &kit())
}

fn slabs(b: &AABB, r: &Ray) -> (Slab, Slab, Slab) {
    let origin = a(r.origin());
    let dir = a(r.direction());
    let one = |range: &Interval, k: usize| {
        let adinv = 1.0 / dir[k];
        Slab {
            t0: s((f(range.min) - origin[k]) * adinv),
            t1: s((f(range.max) - origin[k]) * adinv),
        }
    };
    (one(&b.x, 0), one(&b.y, 1), one(&b.z, 2))
}

fn extent(range: &Interval) -> Scalar {
    s(f(range.max) - f(range.min))
}

struct Dice(u64);

impl Dice {
    fn roll(&mut self) -> f64 {
        self.0 = self.0.wrapping_mul(6364136223846793005).wrapping_add(1442695040888963407);
        ((self.0 >> 11) as f64) / ((1u64 << 53) as f64)
    }
}

fn scattered_balls(count: usize, seed: u64) -> Vec<Arc<Hittable>> {
    let mut dice = Dice(seed);
    let mut balls = Vec::new();
    for k in 0..count {
        let center = [
            dice.roll() * 10.0 - 5.0,
            dice.roll() * 10.0 - 5.0,
            -2.0 - dice.roll() * 10.0,
        ];
        balls.push(ball(center, 0.2 + dice.roll(), &format!("ball_{k}")));
    }
    balls
}

fn list_of(objects: &Vec<Arc<Hittable>>) -> HittableList {
    let mut list = HittableList::new();
    for object in objects {
        list.add(object.clone());
    }
    list
}

fn name_of(rec: &HitRecord) -> String {
    rec.mat.name()
}

fn compare_on_rays(objects: &Vec<Arc<Hittable>>, seed: u64, rays: usize) -> usize {
    let list = list_of(objects);
    let tree = BVHNode::from_slice(objects, &extent);
    let mut dice = Dice(seed);
    let mut hits = 0;
    for _ in 0..rays {
        let origin = [dice.roll() - 0.5, dice.roll() - 0.5, 1.0];
        let dir = [dice.roll() * 2.0 - 1.0, dice.roll() * 2.0 - 1.0, -1.0 - dice.roll()];
        let r = Ray::new_with_time(v(origin), v(dir), s(dice.roll()));
        let range = Interval::new(s(0.001), s(f64::INFINITY));
        let in_row = list.hit(&r, range, &kit());
        let in_tree = tree.hit(&r, range, &kit());
        assert_eq!(in_row.is_some(), in_tree.is_some());
        if let (Some(x), Some(y)) = (in_row, in_tree) {
            assert_eq!(f(x.t), f(y.t));
            assert_eq!(name_of(&x), name_of(&y));
            assert_eq!(a(&x.p), a(&y.p));
            hits += 1;
        }
    }
    hits
}

#[test]
fn hierarchy_over_one_ball_holds_it_twice() {
    let objects = vec![ball([0.0, 0.0, -1.0], 0.5, "only")];
    let node = BVHNode::from_slice(&objects, &extent);
    assert!(Arc::ptr_eq(&node.left, &objects[0]));
    assert!(Arc::ptr_eq(&node.right, &objects[0]));
    assert_eq!(f(node.bounding_box().x.min), -0.5);
    assert_eq!(f(node.bounding_box().z.max), -0.5);
}

#[test]
fn hierarchy_over_two_balls_keeps_their_order() {
    let objects = vec![ball([3.0, 0.0, -1.0], 0.5, "first"), ball([-3.0, 0.0, -1.0], 0.5, "second")];
    let node = BVHNode::from_slice(&objects, &extent);
    assert!(Arc::ptr_eq(&node.left, &objects[0]));
    assert!(Arc::ptr_eq(&node.right, &objects[1]));
    assert_eq!(f(node.bbox.x.min), -3.5);
    assert_eq!(f(node.bbox.x.max), 3.5);
}

#[test]
fn hierarchy_over_three_balls_splits_along_the_longest_axis() {
    // the box is longest along y: sorted by the lower y bound, cut after the first
    let objects = vec![
        ball([0.0, 5.0, -1.0], 0.5, "top"),
        ball([1.0, -5.0, -1.0], 0.5, "bottom"),
        ball([-1.0, 0.0, -1.0], 0.5, "middle"),
    ];
    let node = BVHNode::from_slice(&objects, &extent);
    match (&*node.left, &*node.right) {
        (Hittable::Bvh(left), Hittable::Bvh(right)) => {
            assert!(Arc::ptr_eq(&left.left, &objects[1]));
            assert!(Arc::ptr_eq(&left.right, &objects[1]));
            assert!(Arc::ptr_eq(&right.left, &objects[2]));
            assert!(Arc::ptr_eq(&right.right, &objects[0]));
            assert_eq!(f(right.bbox.y.min), -0.5);
            assert_eq!(f(right.bbox.y.max), 5.5);
        }
        _ => panic!("both children of a split node are nodes"),
    }
    assert_eq!(f(node.bbox.y.min), -5.5);
    assert_eq!(f(node.bbox.y.max), 5.5);
}

#[test]
fn hierarchy_from_a_list() {
    let objects = scattered_balls(5, 11);
    let node = BVHNode::new(list_of(&objects), &extent);
    let again = BVHNode::from_slice(&objects, &extent);
    assert_eq!(f(node.bbox.x.min), f(again.bbox.x.min));
    assert_eq!(f(node.bbox.z.max), f(again.bbox.z.max));
}

#[test]
fn pair_node_bounds_both() {
    let left = ball([0.0, 0.0, 0.0], 1.0, "l");
    let right = ball([4.0, 0.0, 0.0], 1.0, "r");
    let node = BVHNode::pair(left.clone(), right.clone());
    assert!(Arc::ptr_eq(&node.left, &left));
    assert!(Arc::ptr_eq(&node.right, &right));
    assert_eq!(f(node.bbox.x.min), -1.0);
    assert_eq!(f(node.bbox.x.max), 5.0);
}

#[test]
fn sorting_is_ascending_and_stable() {
    let objects = vec![
        ball([3.0, 0.0, 0.0], 1.0, "a"),
        ball([1.0, 0.0, 0.0], 1.0, "b"),
        ball([3.0, 9.0, 0.0], 1.0, "c"),
        ball([-2.0, 0.0, 0.0], 1.0, "d"),
        ball([1.0, 5.0, 0.0], 1.0, "e"),
    ];
    let sorted = sort_by_axis(&objects, Axis::X);
    let order: Vec<usize> = sorted
        .iter()
        .map(|x| objects.iter().position(|o| Arc::ptr_eq(o, x)).unwrap())
        .collect();
    assert_eq!(order, vec![3, 1, 4, 0, 2]);
    let by_y = sort_by_axis(&objects, Axis::Y);
    let order: Vec<usize> = by_y
        .iter()
        .map(|x| objects.iter().position(|o| Arc::ptr_eq(o, x)).unwrap())
        .collect();
    assert_eq!(order, vec![0, 1, 3, 4, 2]);
    assert!(sort_by_axis(&Vec::new(), Axis::Z).is_empty());
}

#[test]
fn list_keeps_the_nearest_hit() {
    let objects = vec![
        ball([0.0, 0.0, -5.0], 1.0, "far"),
        ball([0.0, 0.0, -2.0], 0.5, "near"),
        ball([0.0, 3.0, -2.0], 0.5, "aside"),
    ];
    let list = list_of(&objects);
    let r = Ray::new(v([0.0, 0.0, 0.0]), v([0.0, 0.0, -1.0]));
    let hit = list.hit(&r, Interval::new(s(0.001), s(f64::INFINITY)), &kit()).unwrap();
    assert_eq!(f(hit.t), 1.5);
    assert_eq!(name_of(&hit), "near");
    assert!(hit.front_face);
    assert_eq!(f(hit.normal.z()), 1.0);
    let none = list.hit(&r, Interval::new(s(0.001), s(1.0)), &kit());
    assert!(none.is_none());
    let up = Ray::new(v([0.0, 0.0, 0.0]), v([0.0, 1.0, 0.0]));
    assert!(list.hit(&up, Interval::new(s(0.001), s(f64::INFINITY)), &kit()).is_none());
    assert_eq!(list.objects().len(), 3);
    assert_eq!(f(list.bounding_box().y.max), 3.5);
}

#[test]
fn empty_list_is_never_hit() {
    let list = HittableList::default();
    let r = Ray::new(v([0.0, 0.0, 0.0]), v([0.0, 0.0, -1.0]));
    assert!(list.hit(&r, Interval::universe(), &kit()).is_none());
    assert_eq!(f(list.bbox.x.min), f64::INFINITY);
}

#[test]
fn hierarchy_agrees_with_scan_on_one_ball() {
    let hits = compare_on_rays(&vec![ball([0.0, 0.0, -3.0], 2.0, "only")], 1, 200);
    assert!(hits > 20);
}

#[test]
fn hierarchy_agrees_with_scan_on_two_balls() {
    let objects = vec![ball([0.5, 0.0, -3.0], 1.0, "right"), ball([-0.5, 0.2, -5.0], 2.0, "left")];
    let hits = compare_on_rays(&objects, 2, 300);
    assert!(hits > 20);
}

#[test]
fn hierarchy_agrees_with_scan_on_three_balls() {
    let objects = vec![
        ball([0.5, 0.0, -3.0], 1.0, "right"),
        ball([-0.5, 0.2, -5.0], 2.0, "left"),
        ball([0.0, -0.5, -2.0], 0.3, "front"),
    ];
    let hits = compare_on_rays(&objects, 3, 300);
    assert!(hits > 20);
}

#[test]
fn hierarchy_agrees_with_scan_on_many_balls() {
    for (count, seed) in [(4, 5), (7, 6), (16, 7), (61, 8), (200, 9)] {
        let hits = compare_on_rays(&scattered_balls(count, seed), seed + 100, 400);
        assert!(hits > 10, "{count} balls: {hits} hits");
    }
}

#[test]
fn hierarchy_agrees_with_scan_on_balls_and_tiles() {
    let mut objects = scattered_balls(20, 77);
    objects.push(tile([-3.0, -2.0, -5.0], [0.0, 0.0, 4.0], [0.0, 4.0, 0.0], "left"));
    objects.push(tile([-2.0, -2.0, -8.0], [4.0, 0.0, 0.0], [0.0, 4.0, 0.0], "back"));
    objects.push(tile([-2.0, -3.0, -3.0], [4.0, 0.0, 0.0], [0.0, 0.0, -4.0], "floor"));
    let hits = compare_on_rays(&objects, 4242, 600);
    assert!(hits > 50);
}

#[test]
fn nested_groups_are_traversed() {
    let inner = list_of(&scattered_balls(6, 3));
    let tree = BVHNode::from_slice(&scattered_balls(9, 4), &extent);
    let mut world = HittableList::new();
    world.add(Arc::new(Hittable::List(inner)));
    world.add(Arc::new(Hittable::Bvh(tree)));
    world.add(ball([0.0, 0.0, -30.0], 20.0, "backdrop"));
    let mut flat = scattered_balls(6, 3);
    flat.extend(scattered_balls(9, 4));
    flat.push(ball([0.0, 0.0, -30.0], 20.0, "backdrop"));
    let flat = list_of(&flat);
    let mut dice = Dice(99);
    let mut hits = 0;
    for _ in 0..300 {
        let dir = [dice.roll() - 0.5, dice.roll() - 0.5, -1.0];
        let r = Ray::new(v([0.0, 0.0, 2.0]), v(dir));
        let range = Interval::new(s(0.001), s(f64::INFINITY));
        let x = world.hit(&r, range, &kit());
        let y = flat.hit(&r, range, &kit());
        assert_eq!(x.is_some(), y.is_some());
        if let (Some(x), Some(y)) = (x, y) {
            assert_eq!(f(x.t), f(y.t));
            assert_eq!(name_of(&x), name_of(&y));
            hits += 1;
        }
    }
    assert!(hits > 100);
    let shape = Hittable::List(world);
    assert_eq!(f(shape.bounding_box().z.min), -50.0);
}

#[test]
fn a_ray_parallel_to_a_tile_misses_it_from_any_origin() {
    let square = tile([-1.0, -1.0, -2.0], [2.0, 0.0, 0.0], [0.0, 2.0, 0.0], "square");
    let range = Interval::new(s(f64::NEG_INFINITY), s(f64::INFINITY));
    let mut dice = Dice(5);
    for _ in 0..200 {
        let origin = [dice.roll() * 4.0 - 2.0, dice.roll() * 4.0 - 2.0, dice.roll() * 4.0 - 4.0];
        let dir = [dice.roll() - 0.5, dice.roll() - 0.5, 0.0];
        let r = Ray::new(v(origin), v(dir));
        assert!(leaf(&square, &r, range).is_none());
    }
    // in the plane itself, too
    let r = Ray::new(v([0.0, 0.0, -2.0]), v([1.0, 0.0, 0.0]));
    assert!(leaf(&square, &r, range).is_none());
    // while a ray across the plane hits
    let r = Ray::new(v([0.0, 0.0, 0.0]), v([0.0, 0.0, -1.0]));
    let hit = leaf(&square, &r, range).unwrap();
    assert_eq!(f(hit.t), 2.0);
    assert_eq!(f(hit.u), 0.5);
    assert_eq!(f(hit.v), 0.5);
}

#[test]
fn group_boxes_hold_the_points_that_are_hit() {
    let objects = scattered_balls(40, 17);
    let tree = Hittable::Bvh(BVHNode::from_slice(&objects, &extent));
    let list = Hittable::List(list_of(&objects));
    let mut dice = Dice(23);
    let mut hits = 0;
    for _ in 0..500 {
        let dir = [dice.roll() * 2.0 - 1.0, dice.roll() * 2.0 - 1.0, -1.0];
        let r = Ray::new(v([0.0, 0.0, 1.0]), v(dir));
        let range = Interval::new(s(0.001), s(f64::INFINITY));
        for shape in [&tree, &list] {
            if let Some(rec) = shape.hit(&r, range, &kit()) {
                let b = shape.bounding_box();
                let slack = 1e-9;
                assert!(f(b.x.min) - slack <= f(rec.p.x()) && f(rec.p.x()) <= f(b.x.max) + slack);
                assert!(f(b.y.min) - slack <= f(rec.p.y()) && f(rec.p.y()) <= f(b.y.max) + slack);
                assert!(f(b.z.min) - slack <= f(rec.p.z()) && f(rec.p.z()) <= f(b.z.max) + slack);
                hits += 1;
            }
        }
    }
    assert!(hits > 100);
    // the box of the hierarchy is the box of the list, and covers every ball
    assert_eq!(f(tree.bounding_box().x.min), f(list.bounding_box().x.min));
    assert_eq!(f(tree.bounding_box().y.max), f(list.bounding_box().y.max));
    for object in &objects {
        assert!(f(tree.bounding_box().x.min) <= f(object.bounding_box().x.min));
        assert!(f(object.bounding_box().z.max) <= f(tree.bounding_box().z.max));
    }
}

#[test]
fn the_shapes_of_a_list_can_be_reordered() {
    let mut list = list_of(&scattered_balls(4, 9));
    let before = f(list.bounding_box().x.min);
    list.objects_mut().reverse();
    list.objects_mut().pop();
    assert_eq!(list.objects().len(), 3);
    assert_eq!(f(list.bounding_box().x.min), before);
}

#[test]
fn small_hierarchies_ask_no_extent() {
    let never = |_: &Interval| -> Scalar { panic!("one or two shapes are not sorted") };
    let objects = vec![ball([3.0, 0.0, -1.0], 0.5, "first"), ball([-3.0, 0.0, -1.0], 0.5, "second")];
    let node = BVHNode::from_slice(&objects, &never);
    assert!(Arc::ptr_eq(&node.left, &objects[0]));
    assert!(Arc::ptr_eq(&node.right, &objects[1]));
    let single = vec![ball([0.0, 0.0, -1.0], 0.5, "only")];
    let node = BVHNode::from_slice(&single, &never);
    assert!(Arc::ptr_eq(&node.left, &single[0]));
    assert!(Arc::ptr_eq(&node.right, &single[0]));
}
