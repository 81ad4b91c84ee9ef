use path_tracer::aabb::{surrounding_box, Slab, AABB};
use path_tracer::builder::{widest_axis, Builder};
use path_tracer::bvh::BVH;
use path_tracer::hitable::{Bounded, HitRecord, HitableList, Primitive, Probe};
use path_tracer::material::{Lambertian, Material};
use path_tracer::scalar::Scalar;
use path_tracer::sphere::{Crossing, Sphere};
use path_tracer::texture::{SolidColor, Texture};
use path_tracer::vec3::Vec3;
use rand::rngs::StdRng;
use rand::{Rng, SeedableRng};

fn s(x: f64) -> Scalar {
    Scalar::from_bits(x.to_bits())
}

fn f(x: Scalar) -> f64 {
    f64::from_bits(x.to_bits())
}

fn v(a: [f64; 3]) -> Vec3 {
    Vec3::new(s(a[0]), s(a[1]), s(a[2]))
}

fn a(p: Vec3) -> [f64; 3] {
    [f(p.x), f(p.y), f(p.z)]
}

fn grey(level: f64) -> Material {
    Material::Lambertian(Lambertian::new(Texture::Solid(SolidColor::new(v([level, level, level])))))
}

/// A sphere with its box and the sum of the box's corners.
fn ball(center: [f64; 3], radius: f64, level: f64) -> Bounded {
    let lo = [center[0] - radius, center[1] - radius, center[2] - radius];
    let hi = [center[0] + radius, center[1] + radius, center[2] + radius];
    Bounded {
        primitive: Primitive::Sphere(Sphere::new(v(center), s(radius), grey(level))),
        bbox: AABB::new(v(lo), v(hi)),
        centre: v([lo[0] + hi[0], lo[1] + hi[1], lo[2] + hi[2]]),
    }
}

fn build(items: Vec<Bounded>) -> BVH {
    let mut builder = Builder::new(items);
    while !builder.is_complete() {
        let spread = builder.spread();
        let lo = a(spread.least);
        let hi = a(spread.greatest);
        builder.split(v([hi[0] - lo[0], hi[1] - lo[1], hi[2] - lo[2]]));
    }
    BVH::new(builder)
}

fn dot(p: [f64; 3], q: [f64; 3]) -> f64 {
    p[0] * q[0] + p[1] * q[1] + p[2] * q[2]
}

fn crossing(origin: [f64; 3], direction: [f64; 3], center: [f64; 3], radius: f64, t: f64) -> Crossing {
    let p = [origin[0] + t * direction[0], origin[1] + t * direction[1], origin[2] + t * direction[2]];
    let n = [(p[0] - center[0]) / radius, (p[1] - center[1]) / radius, (p[2] - center[2]) / radius];
    Crossing { time: s(t), point: v(p), normal: v(n), u: s(0.0), v: s(0.0) }
}

fn test_primitive(
    primitive: &Primitive,
    origin: [f64; 3],
    direction: [f64; 3],
    t_min: Scalar,
    t_max: Scalar,
) -> Option<HitRecord> {
    match primitive {
        Primitive::Sphere(sphere) => {
            let center = a(sphere.center);
            let radius = f(sphere.radius);
            let oc = [origin[0] - center[0], origin[1] - center[1], origin[2] - center[2]];
            let qa = dot(direction, direction);
            let qb = dot(oc, direction);
            let qc = dot(oc, oc) - radius * radius;
            let discriminant = qb * qb - qa * qc;
            let root = discriminant.sqrt();
            let near = crossing(origin, direction, center, radius, (-qb - root) / qa);
            let far = crossing(origin, direction, center, radius, (-qb + root) / qa);
            sphere.hit(s(discriminant), &near, &far, t_min, t_max)
        }
        Primitive::MovingSphere(_) => None,
    }
}

fn test_box(bbox: &AABB, origin: [f64; 3], direction: [f64; 3], t_min: Scalar, t_max: Scalar) -> bool {
    let mut slabs = [Slab { inverse: s(0.0), t0: s(0.0), t1: s(0.0) }; 3];
    for i in 0..3 {
        let inv_d = 1.0 / direction[i];
        slabs[i] = Slab {
            inverse: s(inv_d),
            t0: s((f(bbox.min().get(i)) - origin[i]) * inv_d),
            t1: s((f(bbox.max().get(i)) - origin[i]) * inv_d),
        };
    }
    AABB::hit(&slabs, t_min, t_max)
}

/// Searches the hierarchy; returns the hit and the number of primitive tests.
fn search(bvh: &BVH, origin: [f64; 3], direction: [f64; 3], t_min: f64, t_max: f64) -> (Option<HitRecord>, usize) {
    let mut state = bvh.hit(s(t_min), s(t_max));
    let mut tested = 0;
    loop {
        match bvh.probe(&state) {
            Probe::Bounds { bbox, t_min, t_max } => {
                let inside = test_box(&bbox, origin, direction, t_min, t_max);
                state = bvh.answer_bounds(state, inside);
            }
            Probe::Primitive { index, t_min, t_max } => {
                tested += 1;
                let found = test_primitive(&bvh.items[index].primitive, origin, direction, t_min, t_max);
                state = bvh.answer_primitive(state, found);
            }
            Probe::Done => break,
        }
    }
    assert!(state.is_finished());
    (state.result(), tested)
}

fn scan(list: &HitableList, origin: [f64; 3], direction: [f64; 3], t_min: f64, t_max: f64) -> Option<HitRecord> {
    let mut state = list.hit(s(t_min), s(t_max));
    loop {
        match state.probe() {
            Probe::Primitive { index, t_min, t_max } => {
                let found = test_primitive(&list.0[index].primitive, origin, direction, t_min, t_max);
                state = state.answer(found);
            }
            _ => break,
        }
    }
    state.result()
}

fn row_of_balls() -> Vec<Bounded> {
    vec![
        ball([5.0, 0.0, 0.0], 0.25, 0.5),
        ball([1.0, 0.0, 0.0], 0.25, 0.1),
        ball([4.0, 0.0, 0.0], 0.25, 0.4),
        ball([2.0, 0.0, 0.0], 0.25, 0.2),
        ball([3.0, 0.0, 0.0], 0.25, 0.3),
    ]
}

#[test]
fn widest_axis_takes_the_greatest_extent() {
    assert_eq!(widest_axis(&v([3.0, 2.0, 1.0])), 0);
    assert_eq!(widest_axis(&v([1.0, 3.0, 2.0])), 1);
    assert_eq!(widest_axis(&v([1.0, 2.0, 3.0])), 2);
    assert_eq!(widest_axis(&v([0.0, 0.0, 0.0])), 2);
    assert_eq!(widest_axis(&v([2.0, 2.0, 1.0])), 1);
    assert_eq!(widest_axis(&v([2.0, 1.0, 2.0])), 2);
    assert_eq!(widest_axis(&v([2.0, 1.0, 1.0])), 0);
    assert_eq!(widest_axis(&v([f64::INFINITY, 1.0, 1.0])), 0);
}

#[test]
fn builder_of_one_primitive_is_complete_at_once() {
    let builder = Builder::new(vec![ball([0.0, 0.0, 0.0], 1.0, 0.5)]);
    assert!(builder.is_complete());
    let bvh = BVH::new(builder);
    assert_eq!(bvh.spans.len(), 1);
    assert_eq!(bvh.spans[0].cut, None);
    assert_eq!(bvh.order, vec![0]);
    assert_eq!(bvh.bounding_box(), Some(AABB::new(v([-1.0, -1.0, -1.0]), v([1.0, 1.0, 1.0]))));
}

#[test]
fn builder_reports_the_spread_of_the_centres() {
    let builder = Builder::new(row_of_balls());
    assert!(!builder.is_complete());
    let spread = builder.spread();
    assert_eq!(a(spread.least), [2.0, 0.0, 0.0]);
    assert_eq!(a(spread.greatest), [10.0, 0.0, 0.0]);
}

#[test]
fn split_orders_the_stretch_along_the_widest_axis() {
    let mut builder = Builder::new(row_of_balls());
    builder.split(v([8.0, 0.0, 0.0]));
    assert_eq!(builder.order, vec![1, 3, 4, 2, 0]);
    let root = builder.spans[0];
    let cut = root.cut.unwrap();
    assert_eq!((cut.left, cut.right, cut.axis), (1, 2, 0));
    assert_eq!((builder.spans[1].start, builder.spans[1].end), (0, 2));
    assert_eq!((builder.spans[2].start, builder.spans[2].end), (2, 5));
    assert_eq!(builder.next, 1);
}

#[test]
fn split_follows_the_extents_that_are_handed_in() {
    // the same primitives, but the caller reports y as the widest axis
    let mut builder = Builder::new(row_of_balls());
    builder.split(v([1.0, 2.0, 0.0]));
    assert_eq!(builder.spans[0].cut.unwrap().axis, 1);
    let mut sorted = builder.order.clone();
    sorted.sort();
    assert_eq!(sorted, vec![0, 1, 2, 3, 4]);
}

#[test]
fn hierarchy_over_five_primitives() {
    let bvh = build(row_of_balls());
    // 5 leaves and 4 branches
    assert_eq!(bvh.spans.len(), 9);
    assert_eq!(bvh.boxes.len(), 9);
    assert_eq!(bvh.order, vec![1, 3, 4, 2, 0]);
    assert_eq!(
        bvh.bounding_box(),
        Some(AABB::new(v([0.75, -0.25, -0.25]), v([5.25, 0.25, 0.25])))
    );
    // left child of the root: the two lowest
    let cut = bvh.spans[0].cut.unwrap();
    assert_eq!(bvh.boxes[cut.left], AABB::new(v([0.75, -0.25, -0.25]), v([2.25, 0.25, 0.25])));
    assert_eq!(bvh.boxes[cut.right], AABB::new(v([2.75, -0.25, -0.25]), v([5.25, 0.25, 0.25])));
}

fn check_structure(bvh: &BVH) {
    let n = bvh.items.len();
    assert_eq!(bvh.spans.len(), 2 * n - 1);
    let mut sorted = bvh.order.clone();
    sorted.sort();
    assert_eq!(sorted, (0..n).collect::<Vec<usize>>());
    assert_eq!((bvh.spans[0].start, bvh.spans[0].end), (0, n));
    for (k, span) in bvh.spans.iter().enumerate() {
        match span.cut {
            None => {
                assert_eq!(span.end - span.start, 1);
                assert_eq!(bvh.boxes[k], bvh.items[bvh.order[span.start]].bbox);
            }
            Some(cut) => {
                let mid = span.start + (span.end - span.start) / 2;
                assert!(cut.left > k && cut.right > k);
                assert_eq!((bvh.spans[cut.left].start, bvh.spans[cut.left].end), (span.start, mid));
                assert_eq!((bvh.spans[cut.right].start, bvh.spans[cut.right].end), (mid, span.end));
                assert_eq!(bvh.boxes[k], surrounding_box(&bvh.boxes[cut.left], &bvh.boxes[cut.right]));
                let key = |place: usize| f(bvh.items[bvh.order[place]].centre.get(cut.axis));
                for i in span.start..mid {
                    for j in mid..span.end {
                        assert!(key(i) <= key(j));
                    }
                }
            }
        }
    }
}

fn random_balls(rng: &mut StdRng, n: usize) -> Vec<Bounded> {
    let mut items = Vec::new();
    for _ in 0..n {
        let center = [rng.gen_range(-10.0..10.0), rng.gen_range(-10.0..10.0), rng.gen_range(-10.0..10.0)];
        let radius = rng.gen_range(0.1..1.5);
        items.push(ball(center, radius, rng.gen_range(0.0..1.0)));
    }
    items
}

#[test]
fn hierarchy_is_well_formed_for_every_size() {
    let mut rng = StdRng::seed_from_u64(7);
    for n in 1..40 {
        let bvh = build(random_balls(&mut rng, n));
        check_structure(&bvh);
    }
}

#[test]
fn builder_over_n_primitives_divides_n_less_one_times() {
    let mut rng = StdRng::seed_from_u64(3);
    for n in [1usize, 2, 3, 4, 5, 8, 9, 31, 64, 100] {
        let mut builder = Builder::new(random_balls(&mut rng, n));
        let mut divisions = 0;
        while !builder.is_complete() {
            let spread = builder.spread();
            let lo = a(spread.least);
            let hi = a(spread.greatest);
            let before = builder.spans.len();
            builder.split(v([hi[0] - lo[0], hi[1] - lo[1], hi[2] - lo[2]]));
            assert_eq!(builder.spans.len(), before + 2);
            divisions += 1;
        }
        assert_eq!(divisions, n - 1);
    }
}

#[test]
fn hierarchy_of_identical_primitives_is_well_formed() {
    let items: Vec<Bounded> = (0..17).map(|_| ball([1.0, 2.0, 3.0], 0.5, 0.5)).collect();
    let bvh = build(items);
    check_structure(&bvh);
    let (hit, _) = search(&bvh, [1.0, 2.0, -5.0], [0.0, 0.0, 1.0], 0.001, f64::MAX);
    assert_eq!(f(hit.unwrap().time), 7.5);
}

#[test]
fn search_finds_the_nearest_of_a_row() {
    let bvh = build(row_of_balls());
    let (hit, _) = search(&bvh, [-5.0, 0.0, 0.0], [1.0, 0.0, 0.0], 0.001, f64::MAX);
    let hit = hit.unwrap();
    assert_eq!(f(hit.time), 5.75);
    assert_eq!(*hit.material(), grey(0.1));
    let (hit, _) = search(&bvh, [10.0, 0.0, 0.0], [-1.0, 0.0, 0.0], 0.001, f64::MAX);
    let hit = hit.unwrap();
    assert_eq!(f(hit.time), 4.75);
    assert_eq!(*hit.material(), grey(0.5));
    let (hit, _) = search(&bvh, [-5.0, 1.0, 0.0], [1.0, 0.0, 0.0], 0.001, f64::MAX);
    assert_eq!(hit, None);
}

#[test]
fn search_heeds_the_window() {
    let bvh = build(row_of_balls());
    let (hit, _) = search(&bvh, [-5.0, 0.0, 0.0], [1.0, 0.0, 0.0], 0.001, 5.75);
    assert_eq!(hit, None);
    let (hit, _) = search(&bvh, [-5.0, 0.0, 0.0], [1.0, 0.0, 0.0], 6.5, f64::MAX);
    assert_eq!(f(hit.unwrap().time), 6.75);
    // from inside the first ball, the way out counts
    let (hit, _) = search(&bvh, [1.0, 0.0, 0.0], [1.0, 0.0, 0.0], 0.001, f64::MAX);
    assert_eq!(f(hit.unwrap().time), 0.25);
}

#[test]
fn search_tests_fewer_primitives_than_a_scan() {
    let mut rng = StdRng::seed_from_u64(11);
    let items = random_balls(&mut rng, 400);
    let bvh = build(items);
    let mut total = 0;
    for _ in 0..50 {
        let origin = [rng.gen_range(-10.0..10.0), rng.gen_range(-10.0..10.0), -30.0];
        let (_, tested) = search(&bvh, origin, [0.0, 0.0, 1.0], 0.001, f64::MAX);
        total += tested;
    }
    assert!(total < 50 * 400 / 4, "tested {} primitives", total);
}

#[test]
fn search_agrees_with_scan_on_random_scenes() {
    let mut rng = StdRng::seed_from_u64(2024);
    let mut hits = 0;
    let mut misses = 0;
    for round in 0..12 {
        let n = 1 + round * 17;
        let items = random_balls(&mut rng, n);
        let mut list = HitableList::new();
        for item in &items {
            list.push(item.clone());
        }
        let bvh = build(items);
        for _ in 0..120 {
            let origin = [rng.gen_range(-15.0..15.0), rng.gen_range(-15.0..15.0), rng.gen_range(-15.0..15.0)];
            let direction = [rng.gen_range(-1.0..1.0), rng.gen_range(-1.0..1.0), rng.gen_range(-1.0..1.0)];
            let t_max = if rng.gen_range(0..4) == 0 { rng.gen_range(1.0..30.0) } else { f64::MAX };
            let (tree, _) = search(&bvh, origin, direction, 0.001, t_max);
            let flat = scan(&list, origin, direction, 0.001, t_max);
            assert_eq!(tree.is_some(), flat.is_some());
            assert_eq!(tree.as_ref().map(|h| h.time), flat.as_ref().map(|h| h.time));
            assert_eq!(tree.as_ref().map(|h| h.material()), flat.as_ref().map(|h| h.material()));
            if let Some(hit) = &tree {
                assert!(f(hit.time) > 0.001 && f(hit.time) < t_max);
                hits += 1;
            } else {
                misses += 1;
            }
        }
    }
    assert!(hits > 100 && misses > 100, "{} hits, {} misses", hits, misses);
}

#[test]
fn scan_of_a_list_keeps_the_nearest() {
    let mut list = HitableList::new();
    for item in row_of_balls() {
        list.push(item);
    }
    assert_eq!(list.0.len(), 5);
    let hit = scan(&list, [-5.0, 0.0, 0.0], [1.0, 0.0, 0.0], 0.001, f64::MAX).unwrap();
    assert_eq!(f(hit.time), 5.75);
    assert_eq!(*hit.material(), grey(0.1));
    assert_eq!(scan(&list, [-5.0, 2.0, 0.0], [1.0, 0.0, 0.0], 0.001, f64::MAX), None);
    assert_eq!(scan(&HitableList::new(), [-5.0, 0.0, 0.0], [1.0, 0.0, 0.0], 0.001, f64::MAX), None);
}

#[test]
fn box_of_the_hierarchy_is_the_box_of_the_list() {
    let mut rng = StdRng::seed_from_u64(17);
    for n in [1usize, 2, 3, 7, 20, 55] {
        let items = random_balls(&mut rng, n);
        let mut list = HitableList::new();
        for item in &items {
            list.push(item.clone());
        }
        let bvh = build(items);
        assert_eq!(bvh.bounding_box(), list.bounding_box());
    }
}

#[test]
fn box_of_a_list_is_the_union_of_its_boxes() {
    let mut list = HitableList::new();
    for item in row_of_balls() {
        list.push(item);
    }
    assert_eq!(
        list.bounding_box(),
        Some(AABB::new(v([0.75, -0.25, -0.25]), v([5.25, 0.25, 0.25])))
    );
}
