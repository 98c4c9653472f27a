use raytrace_rs::bounds::BoundingBox;
use raytrace_rs::material::mirror;
use raytrace_rs::scalar::{constant, pow5};
use raytrace_rs::{
    build_scene, Arithmetic, Glass, HitData, Hittable, List, Material, Matte, Metal, Path, Root,
    Sample, Scene, Sphere, Tree, TreeNode, Vector,
};

/// A double, as the scalar of the library.
#[derive(Clone, Copy, Debug, PartialEq)]
struct Real(f64);

impl Arithmetic for Real {
    fn sum(self, rhs: Self) -> Self {
        self.add(rhs)
    }
    fn difference(self, rhs: Self) -> Self {
        self.sub(rhs)
    }
    fn product(self, rhs: Self) -> Self {
        self.mul(rhs)
    }
    fn quotient(self, rhs: Self) -> Self {
        self.div(rhs)
    }
    fn negation(self) -> Self {
        self.neg()
    }
    fn magnitude(self) -> Self {
        self.abs()
    }
    fn root(self) -> Self {
        self.sqrt()
    }
    fn less(self, rhs: Self) -> bool {
        self.lt(rhs)
    }
    fn at_most(self, rhs: Self) -> bool {
        self.le(rhs)
    }
    fn nan(self) -> bool {
        self.is_nan()
    }
    fn normal(self) -> bool {
        self.is_normal()
    }
    fn negative(self) -> bool {
        self.is_sign_negative()
    }
    fn of_count(n: usize) -> Self {
        Self::from_usize(n)
    }
    fn byte(self) -> u8 {
        self.to_u8()
    }
    fn unbounded() -> Self {
        Self::infinity()
    }
    fn add(self, rhs: Self) -> Self {
        Real(self.0 + rhs.0)
    }
    fn sub(self, rhs: Self) -> Self {
        Real(self.0 - rhs.0)
    }
    fn mul(self, rhs: Self) -> Self {
        Real(self.0 * rhs.0)
    }
    fn div(self, rhs: Self) -> Self {
        Real(self.0 / rhs.0)
    }
    fn neg(self) -> Self {
        Real(-self.0)
    }
    fn abs(self) -> Self {
        Real(self.0.abs())
    }
    fn sqrt(self) -> Self {
        Real(self.0.sqrt())
    }
    fn lt(self, rhs: Self) -> bool {
        self.0 < rhs.0
    }
    fn le(self, rhs: Self) -> bool {
        self.0 <= rhs.0
    }
    fn is_nan(self) -> bool {
        self.0.is_nan()
    }
    fn is_normal(self) -> bool {
        self.0.is_normal()
    }
    fn is_sign_negative(self) -> bool {
        self.0.is_sign_negative()
    }
    fn from_usize(n: usize) -> Self {
        Real(n as f64)
    }
    fn to_u8(self) -> u8 {
        self.0 as u8
    }
    fn infinity() -> Self {
        Real(f64::INFINITY)
    }
}

fn v(x: f64, y: f64, z: f64) -> Vector<Real> {
    Vector::new(Real(x), Real(y), Real(z))
}

/// A small generator of numbers in `[0, 1)`, the same on every run.
struct Dice(u64);

impl Dice {
    fn next(&mut self) -> f64 {
        self.0 = self.0.wrapping_mul(6364136223846793005).wrapping_add(1442695040888963407);
        (self.0 >> 11) as f64 / (1u64 << 53) as f64
    }

    fn signed(&mut self) -> f64 {
        2.0 * self.next() - 1.0
    }

    fn ball(&mut self) -> Vector<Real> {
        loop {
            let p = v(self.signed(), self.signed(), self.signed());
            if let Some(p) = Vector::random_ball(Real(1.0), p) {
                return p;
            }
        }
    }

    fn disk(&mut self) -> (Real, Real) {
        loop {
            let p = (Real(self.signed()), Real(self.signed()));
            if Scene::<List<Sphere<Real>>>::random_disk(Real(1.0), p).is_some() {
                return p;
            }
        }
    }

    fn path(&mut self, depth: usize) -> Path<Real> {
        let jitter = (Real(self.next()), Real(self.next()));
        let lens = self.disk();
        let bounces =
            (0..depth).map(|_| Sample { chance: Real(self.next()), ball: self.ball() }).collect();
        Path { jitter, lens, bounces }
    }
}

fn three_spheres() -> List<Sphere<Real>> {
    let mut list = List::new();
    list.register(Sphere::new(
        v(0.0, -100.5, -1.0),
        Real(100.0),
        Material::Matte(Matte::new(v(0.8, 0.8, 0.0))),
    ));
    list.register(Sphere::new(
        v(0.0, 0.0, -1.0),
        Real(0.5),
        Material::Matte(Matte::new(v(0.1, 0.2, 0.5))),
    ));
    list.register(Sphere::new(
        v(1.0, 0.0, -1.0),
        Real(0.5),
        Material::Metal(Metal::new(v(0.8, 0.6, 0.2), Real(0.0))),
    ));
    list
}

/// The camera at the origin that looks along `-z` with a vertical field of
/// view of 90 degrees on a picture twice as wide as high.
fn camera<H: Hittable<Scalar = Real>>(object: H) -> Scene<H> {
    let mut scene = Scene::new(
        v(0.0, 0.0, 0.0),
        v(-2.0, -1.0, -1.0),
        v(4.0, 0.0, 0.0),
        v(0.0, 2.0, 0.0),
        Real(0.0),
    );
    scene.save(object);
    scene
}

/// The same camera, from where it is and what it looks at, with the three
/// spheres registered one by one.
fn three_spheres_scene(use_bvh: bool) -> Scene<Root<Sphere<Real>>> {
    let mut scene = Scene::looking(
        v(0.0, 0.0, 0.0),
        v(0.0, 0.0, -1.0),
        v(0.0, 1.0, 0.0),
        Real((std::f64::consts::PI / 4.0).tan()),
        Real(2.0),
        Real(0.0),
    );
    for sphere in three_spheres().objects {
        scene.register(sphere);
    }
    scene.finalize(use_bvh)
}

#[test]
fn a_camera_spans_its_picture_plane() {
    let scene: Scene<List<Sphere<Real>>> = Scene::looking(
        v(0.0, 0.0, 0.0),
        v(0.0, 0.0, -1.0),
        v(0.0, 1.0, 0.0),
        Real(1.0),
        Real(2.0),
        Real(0.0),
    );
    assert!(near(scene.source(), 0.0, 0.0, 0.0));
    assert!(near(scene.corner(), -2.0, -1.0, -1.0));
    assert!(near(scene.horizon(), 4.0, 0.0, 0.0));
    assert!(near(scene.vertical(), 0.0, 2.0, 0.0));
    let plain: Scene<List<Sphere<Real>>> = build_scene(
        v(1.0, 2.0, 3.0),
        v(-2.0, -1.0, -1.0),
        v(4.0, 0.0, 0.0),
        v(0.0, 2.0, 0.0),
        Real(0.5),
    );
    assert!(near(plain.source(), 1.0, 2.0, 3.0));
    assert_eq!(plain.aperture.0, 0.5);
    assert!(plain.object.is_none());
}

#[test]
fn a_scene_is_set_up_and_closed() {
    let flat = three_spheres_scene(false);
    let grown = three_spheres_scene(true);
    assert!(matches!(flat.object, Some(Root::Flat(_))));
    assert!(matches!(grown.object, Some(Root::Grown(_))));
    let mut dice = Dice(8);
    for _ in 0..1000 {
        let towards = v(dice.signed(), dice.signed() * 0.5, -1.0);
        match (flat.hit(v(0.0, 0.0, 0.0), towards), grown.hit(v(0.0, 0.0, 0.0), towards)) {
            (HitData::Miss, HitData::Miss) => {},
            (HitData::Hit { t: a, .. }, HitData::Hit { t: b, .. }) => assert!(close(a.0, b.0)),
            (a, b) => panic!("the collection says {a:?}, the hierarchy {b:?}"),
        }
    }
    let (a, b) = (flat.bounds(), grown.bounds());
    assert_eq!((a.y.0 .0, a.y.1 .0), (b.y.0 .0, b.y.1 .0));
    // a scene without objects can be closed flat, and is missed
    let empty: Scene<Root<Sphere<Real>>> = build_scene(
        v(0.0, 0.0, 0.0),
        v(-2.0, -1.0, -1.0),
        v(4.0, 0.0, 0.0),
        v(0.0, 2.0, 0.0),
        Real(0.0),
    );
    let empty = empty.finalize(false);
    assert!(matches!(empty.hit(v(0.0, 0.0, 0.0), v(0.0, 0.0, -1.0)), HitData::Miss));
}

#[test]
fn surfaces_are_made_from_numbers_drawn() {
    let tint = v(0.5, 0.0, 1.0);
    match Material::material(Real(0.2), tint, Real(0.5), Real(0.25)) {
        Material::Matte(m) => assert!(near(m.albedo(), 0.75, 0.5, 1.0)),
        other => panic!("{other:?}"),
    }
    match Material::material(Real(0.5), tint, Real(0.5), Real(0.25)) {
        Material::Metal(m) => {
            assert!(near(m.albedo(), 0.75, 0.5, 1.0));
            assert_eq!(m.blur.0, 0.25);
        },
        other => panic!("{other:?}"),
    }
    match Material::material(Real(0.9), tint, Real(0.5), Real(0.25)) {
        Material::Glass(m) => {
            assert_eq!(m.blur.0, 0.25);
            assert_eq!(m.refractive.0, 1.25);
        },
        other => panic!("{other:?}"),
    }
}

#[test]
fn three_spheres_render_ground_and_sky() {
    let scene = three_spheres_scene(true);
    let (nx, ny, ns, depth) = (200usize, 100usize, 10usize, 10usize);
    let mut dice = Dice(7);
    let mut lower = [0u64; 3];
    let mut red_by_row = vec![0u64; ny];
    for i in 0..nx {
        for j in 0..ny {
            let paths: Vec<Path<Real>> = (0..ns).map(|_| dice.path(depth)).collect();
            let [r, g, b] = scene.color((i, j), (nx, ny, ns), depth, &paths);
            red_by_row[j] += r as u64;
            if j >= 80 {
                // well above the horizon and the spheres: the sky, white to blue
                assert!(b >= r && b >= g, "sky at ({i}, {j}) is ({r}, {g}, {b})");
                assert!(b > 200);
            }
            if j < ny / 2 {
                lower[0] += r as u64;
                lower[1] += g as u64;
                lower[2] += b as u64;
            }
        }
    }
    // the ground is yellow-green: red and green dominate the lower half
    assert!(lower[0] > lower[2] && lower[1] > lower[2], "lower sums {lower:?}");
    // the sky turns from white to blue with the height
    assert!(red_by_row[99] < red_by_row[90] && red_by_row[90] < red_by_row[80]);
}

#[test]
fn traced_colors_are_numbers() {
    let scene = camera(three_spheres());
    let mut dice = Dice(11);
    for i in 0..50 {
        for j in 0..25 {
            let path = dice.path(10);
            let start = scene.source();
            let u = Real((i as f64 + path.jitter.0 .0) / 50.0);
            let w = Real((j as f64 + path.jitter.1 .0) / 25.0);
            let end = scene.corner().add(scene.horizon().scale(u)).add(scene.vertical().scale(w));
            let color = scene.color_trace((start, end.sub(start)), 10, &path.bounces);
            assert!(!color.is_nan());
            assert!(color.x().0.is_finite() && color.y().0.is_finite() && color.z().0.is_finite());
        }
    }
}

#[test]
fn tree_and_list_meet_the_same() {
    let list = three_spheres();
    let tree = Tree::build(three_spheres());
    let mut dice = Dice(3);
    for _ in 0..2000 {
        let source = v(dice.next() * 4.0 - 2.0, dice.next() * 2.0, dice.next() * 4.0 - 2.0);
        let towards = v(dice.next() - 0.5, dice.next() - 0.5, dice.next() - 0.5);
        match (list.hit(source, towards), tree.hit(source, towards)) {
            (HitData::Miss, HitData::Miss) => {},
            (HitData::Hit { t: a, .. }, HitData::Hit { t: b, .. }) => {
                assert!((a.0 - b.0).abs() <= 1e-9 * a.0.abs());
            },
            (a, b) => panic!("list says {a:?}, tree says {b:?}"),
        }
    }
}

fn close(a: f64, b: f64) -> bool {
    (a - b).abs() <= 1e-12 * (1.0 + a.abs().max(b.abs()))
}

fn near(a: Vector<Real>, x: f64, y: f64, z: f64) -> bool {
    close(a.x().0, x) && close(a.y().0, y) && close(a.z().0, z)
}

fn finite(a: Vector<Real>) -> bool {
    a.x().0.is_finite() && a.y().0.is_finite() && a.z().0.is_finite()
}

fn many_spheres(count: usize, dice: &mut Dice) -> List<Sphere<Real>> {
    let mut list = List::new();
    for _ in 0..count {
        let center = v(dice.signed() * 10.0, dice.signed() * 10.0, dice.signed() * 10.0);
        let radius = Real(0.2 + dice.next());
        let matter = Material::Matte(Matte::new(v(0.5, 0.5, 0.5)));
        list.register(Sphere::new(center, radius, matter));
    }
    list
}

#[test]
fn constants_are_the_nearest_doubles() {
    assert_eq!(constant::<Real>(255999, 1000).0, 255.999);
    assert_eq!(constant::<Real>(7, 10).0, 0.7);
    assert_eq!(constant::<Real>(1, 2).0, 0.5);
    assert_eq!(pow5(Real(0.5)).0, 0.03125);
}

#[test]
fn a_box_has_its_bounds_in_order_whichever_way_given() {
    let mut dice = Dice(5);
    for _ in 0..500 {
        let pair = |d: &mut Dice| (Real(d.signed() * 9.0), Real(d.signed() * 9.0));
        let b = BoundingBox::new(pair(&mut dice), pair(&mut dice), pair(&mut dice));
        assert!(b.x.0 .0 <= b.x.1 .0 && b.y.0 .0 <= b.y.1 .0 && b.z.0 .0 <= b.z.1 .0);
        assert!(b.min().x().0 <= b.max().x().0);
    }
    let b = BoundingBox::new(
        (Real(2.0), Real(-1.0)),
        (Real(0.0), Real(0.0)),
        (Real(-3.0), Real(5.0)),
    );
    assert_eq!((b.x.0 .0, b.x.1 .0), (-1.0, 2.0));
    assert_eq!((b.y.0 .0, b.y.1 .0), (0.0, 0.0));
    assert_eq!((b.z.0 .0, b.z.1 .0), (-3.0, 5.0));
    assert!(near(b.center(), 0.5, 0.0, 1.0));
}

#[test]
fn a_union_holds_both_boxes() {
    let mut dice = Dice(6);
    for _ in 0..500 {
        let pair = |d: &mut Dice| (Real(d.signed() * 9.0), Real(d.signed() * 9.0));
        let a = BoundingBox::new(pair(&mut dice), pair(&mut dice), pair(&mut dice));
        let b = BoundingBox::new(pair(&mut dice), pair(&mut dice), pair(&mut dice));
        let u = BoundingBox::wraps(a, b);
        for inner in [a, b] {
            assert!(u.x.0 .0 <= inner.x.0 .0 && inner.x.1 .0 <= u.x.1 .0);
            assert!(u.y.0 .0 <= inner.y.0 .0 && inner.y.1 .0 <= u.y.1 .0);
            assert!(u.z.0 .0 <= inner.z.0 .0 && inner.z.1 .0 <= u.z.1 .0);
        }
    }
}

#[test]
fn the_slab_test_takes_a_direction_of_zero() {
    let b = BoundingBox::new(
        (Real(1.0), Real(2.0)),
        (Real(-1.0), Real(1.0)),
        (Real(-1.0), Real(1.0)),
    );
    assert!(b.through(v(0.0, 0.0, 0.0), v(1.0, 0.0, 0.0)));
    assert!(b.through(v(0.0, 0.5, -0.5), v(1.0, 0.0, 0.0)));
    assert!(!b.through(v(0.0, 2.0, 0.0), v(1.0, 0.0, 0.0)));
    assert!(!b.through(v(0.0, 0.0, 0.0), v(0.0, 1.0, 0.0)));
    assert!(b.through(v(0.0, 0.0, 0.0), v(1.0, 0.5, 0.5)));
    assert!(!b.through(v(0.0, 0.0, 0.0), v(1.0, 2.0, 0.0)));
}

#[test]
fn a_sphere_is_hit_on_its_surface() {
    let mut dice = Dice(9);
    let center = v(0.5, -0.25, -3.0);
    let sphere = Sphere::new(center, Real(0.75), Material::Matte(Matte::new(v(1.0, 1.0, 1.0))));
    let mut hits = 0;
    for _ in 0..2000 {
        let source = v(dice.signed() * 0.5, dice.signed() * 0.5, 2.0);
        let aim = v(0.5 + dice.signed(), -0.25 + dice.signed(), -3.0);
        match sphere.hit(source, aim.sub(source)) {
            HitData::Hit { t, point, normal, .. } => {
                hits += 1;
                assert!(t.0 > 0.0);
                assert!((point.sub(center).length().0 - 0.75).abs() < 1e-9);
                assert!(near(normal, point.x().0 - 0.5, point.y().0 + 0.25, point.z().0 + 3.0));
                assert!(sphere.bounds().through(source, aim.sub(source)));
            },
            HitData::Miss => {},
        }
    }
    assert!(hits > 100);
}

#[test]
fn a_sphere_is_hit_at_the_nearer_root() {
    let sphere = Sphere::new(
        v(0.0, 0.0, -5.0),
        Real(1.0),
        Material::Matte(Matte::new(v(1.0, 1.0, 1.0))),
    );
    match sphere.hit(v(0.0, 0.0, 0.0), v(0.0, 0.0, -1.0)) {
        HitData::Hit { t, point, normal, .. } => {
            assert_eq!(t.0, 4.0);
            assert!(near(point, 0.0, 0.0, -4.0));
            assert!(near(normal, 0.0, 0.0, 1.0));
        },
        HitData::Miss => panic!("the sphere was missed"),
    }
    // from the centre only the far root counts
    match sphere.hit(v(0.0, 0.0, -5.0), v(0.0, 0.0, -2.0)) {
        HitData::Hit { t, .. } => assert_eq!(t.0, 0.5),
        HitData::Miss => panic!("the sphere was missed"),
    }
    // behind the ray, beside it, and along no direction at all
    assert!(matches!(sphere.hit(v(0.0, 0.0, 0.0), v(0.0, 0.0, 1.0)), HitData::Miss));
    assert!(matches!(sphere.hit(v(0.0, 2.0, 0.0), v(0.0, 0.0, -1.0)), HitData::Miss));
    assert!(matches!(sphere.hit(v(0.0, 0.0, 0.0), v(0.0, 0.0, 0.0)), HitData::Miss));
    assert!(matches!(sphere.hit(v(0.0, 0.0, -5.0), v(0.0, 0.0, 0.0)), HitData::Miss));
    let b = sphere.bounds();
    assert_eq!((b.x.0 .0, b.x.1 .0), (-1.0, 1.0));
    assert_eq!((b.z.0 .0, b.z.1 .0), (-6.0, -4.0));
}

#[test]
fn a_tree_over_many_spheres_names_what_the_list_names() {
    let mut dice = Dice(21);
    let list = many_spheres(80, &mut dice);
    let mut again = Dice(21);
    let tree = Tree::build(many_spheres(80, &mut again));
    let mut hits = 0;
    for _ in 0..5000 {
        let source = v(dice.signed() * 12.0, dice.signed() * 12.0, dice.signed() * 12.0);
        let towards = v(dice.signed(), dice.signed(), dice.signed());
        match (list.hit(source, towards), tree.hit(source, towards)) {
            (HitData::Miss, HitData::Miss) => {},
            (HitData::Hit { t: a, .. }, HitData::Hit { t: b, .. }) => {
                hits += 1;
                assert!(close(a.0, b.0));
            },
            (a, b) => panic!("list says {a:?}, tree says {b:?}"),
        }
    }
    assert!(hits > 500);
    let (lb, tb) = (list.bounds(), tree.bounds());
    assert_eq!((lb.x.0 .0, lb.x.1 .0), (tb.x.0 .0, tb.x.1 .0));
    assert_eq!((lb.y.0 .0, lb.y.1 .0), (tb.y.0 .0, tb.y.1 .0));
    assert_eq!((lb.z.0 .0, lb.z.1 .0), (tb.z.0 .0, tb.z.1 .0));
}

#[test]
fn two_trees_over_the_same_spheres_are_the_same() {
    let first = Tree::build(many_spheres(40, &mut Dice(33)));
    let second = Tree::build(many_spheres(40, &mut Dice(33)));
    let (a, b) = (first.bounds(), second.bounds());
    assert_eq!((a.x.0 .0, a.x.1 .0), (b.x.0 .0, b.x.1 .0));
    assert_eq!((a.y.0 .0, a.y.1 .0), (b.y.0 .0, b.y.1 .0));
    assert_eq!((a.z.0 .0, a.z.1 .0), (b.z.0 .0, b.z.1 .0));
    let mut dice = Dice(34);
    for _ in 0..2000 {
        let source = v(dice.signed() * 12.0, dice.signed() * 12.0, dice.signed() * 12.0);
        let towards = v(dice.signed(), dice.signed(), dice.signed());
        match (first.hit(source, towards), second.hit(source, towards)) {
            (HitData::Miss, HitData::Miss) => {},
            (
                HitData::Hit { t: a, point: p, .. },
                HitData::Hit { t: b, point: q, .. },
            ) => {
                assert_eq!(a.0, b.0);
                assert_eq!((p.x().0, p.y().0, p.z().0), (q.x().0, q.y().0, q.z().0));
            },
            (a, b) => panic!("one says {a:?}, the other {b:?}"),
        }
    }
}

#[test]
fn a_mirror_reflects() {
    let none = v(0.0, 0.0, 0.0);
    // d - 2 (d . n) n for d = (1, -1, 0), n = (0, 1, 0)
    assert!(near(mirror(v(1.0, -1.0, 0.0), v(0.0, 1.0, 0.0), Real(0.0), none), 1.0, 1.0, 0.0));
    // the jitter is scaled to the blur
    let out = mirror(v(1.0, -1.0, 0.0), v(0.0, 1.0, 0.0), Real(0.5), v(0.0, 0.0, 1.0));
    assert!(near(out, 1.0, 1.0, 0.5));
    let metal = Metal::new(v(0.8, 0.6, 0.2), Real(0.0));
    let sample = Sample { ball: v(0.3, 0.3, 0.3), chance: Real(0.5) };
    let out = metal.scatter(v(3.0, -4.0, 0.0), v(0.0, 2.0, 0.0), &sample);
    assert!(near(out, 0.6, 0.8, 0.0));
    assert!(near(metal.albedo(), 0.8, 0.6, 0.2));
}

#[test]
fn a_matte_surface_scatters_round_the_normal() {
    let matte = Matte::new(v(0.1, 0.2, 0.5));
    let sample = Sample { ball: v(0.25, -0.5, 0.125), chance: Real(0.0) };
    let out = matte.scatter(v(9.0, 9.0, 9.0), v(0.0, 0.0, 2.0), &sample);
    assert!(near(out, 0.25, -0.5, 1.125));
    assert!(near(matte.albedo(), 0.1, 0.2, 0.5));
}

#[test]
fn the_mirrored_share_follows_schlick() {
    // r0 = ((1 - 1.5) / (1 + 1.5))^2 = 0.04
    assert!(close(Glass::schilick(Real(1.0), Real(1.5)).0, 0.04));
    assert!(close(Glass::schilick(Real(0.0), Real(1.5)).0, 1.0));
    assert!(close(Glass::schilick(Real(0.5), Real(1.5)).0, 0.04 + 0.96 * 0.03125));
}

#[test]
fn glass_bends_a_ray_that_enters() {
    let glass = Glass::new(v(1.0, 1.0, 1.0), Real(0.0), Real(1.5));
    // straight in: the mirrored share is 0.04, the draw is above it
    let sample = Sample { ball: v(0.0, 0.0, 0.0), chance: Real(0.5) };
    let out = glass.scatter(v(0.0, -1.0, 0.0), v(0.0, 1.0, 0.0), &sample);
    // cosine = -1, ratio = 1 / 1.5: (d + n cosine) ratio - n sqrt(1) = (0, -2 / 1.5 - 1, 0)
    assert!(near(out, 0.0, -2.0 / 1.5 - 1.0, 0.0));
    // a draw below the mirrored share mirrors
    let sample = Sample { ball: v(0.0, 0.0, 0.0), chance: Real(0.01) };
    let out = glass.scatter(v(0.0, -1.0, 0.0), v(0.0, 1.0, 0.0), &sample);
    assert!(near(out, 0.0, 1.0, 0.0));
    assert!(near(Material::Glass(glass).albedo(), 1.0, 1.0, 1.0));
}

#[test]
fn glass_mirrors_all_light_beyond_the_critical_angle() {
    let glass = Glass::new(v(1.0, 1.0, 1.0), Real(0.0), Real(1.5));
    // leaving at a flat angle: 1 - 1.5^2 (1 - cosine^2) is below zero
    let input = v(0.9, 0.1, 0.0).unit();
    let normal = v(0.0, 1.0, 0.0);
    let sample = Sample { ball: v(0.0, 0.0, 0.0), chance: Real(0.999) };
    let out = glass.scatter(input, normal, &sample);
    assert!(near(out, input.x().0, -input.y().0, 0.0));
}

#[test]
fn scattered_directions_are_finite() {
    let mut dice = Dice(17);
    let surfaces = [
        Material::Matte(Matte::new(v(0.5, 0.5, 0.5))),
        Material::Metal(Metal::new(v(0.5, 0.5, 0.5), Real(0.3))),
        Material::Glass(Glass::new(v(1.0, 1.0, 1.0), Real(0.1), Real(1.5))),
        Material::Glass(Glass::new(v(1.0, 1.0, 1.0), Real(0.0), Real(0.7))),
    ];
    for _ in 0..5000 {
        let input = v(dice.signed(), dice.signed(), dice.signed()).unit();
        let normal = v(dice.signed(), dice.signed(), dice.signed()).unit();
        let sample = Sample { ball: dice.ball(), chance: Real(dice.next()) };
        for surface in &surfaces {
            let out = surface.scatter(input, normal, &sample);
            assert!(!out.is_nan());
            assert!(finite(out), "{surface:?} sends {input:?} at {normal:?} to {out:?}");
        }
    }
}

#[test]
fn a_ray_that_meets_nothing_brings_the_sky() {
    let scene = camera(List::<Sphere<Real>>::new());
    let none = Vec::new();
    // straight up: t = 1, all blue
    assert!(near(scene.color_trace((v(0.0, 0.0, 0.0), v(0.0, 3.0, 0.0)), 1, &vec![
        Sample { ball: v(0.0, 0.0, 0.0), chance: Real(0.0) },
    ]), 0.5, 0.7, 1.0));
    // no bounce left: black, whatever the ray
    assert!(near(scene.color_trace((v(0.0, 0.0, 0.0), v(0.0, 3.0, 0.0)), 0, &none), 0.0, 0.0, 0.0));
    // level: t = 0.5, halfway between white and blue
    let path = Path {
        jitter: (Real(0.0), Real(0.0)),
        lens: (Real(0.0), Real(0.0)),
        bounces: vec![Sample { ball: v(0.0, 0.0, 0.0), chance: Real(0.0) }],
    };
    assert_eq!(scene.color((1, 1), (2, 2, 1), 1, &vec![path]), [191, 217, 255]);
}

#[test]
fn a_ray_that_never_leaves_brings_black() {
    // inside a large sphere every ray meets the wall again
    let mut list = List::new();
    list.register(Sphere::new(
        v(0.0, 0.0, 0.0),
        Real(50.0),
        Material::Metal(Metal::new(v(0.9, 0.9, 0.9), Real(0.0))),
    ));
    let scene = camera(list);
    let mut dice = Dice(2);
    let path = dice.path(5);
    let color = scene.color_trace((v(0.0, 0.0, 0.0), v(1.0, 0.2, -0.3)), 5, &path.bounces);
    assert_eq!((color.x().0, color.y().0, color.z().0), (0.0, 0.0, 0.0));
}

#[test]
fn one_bounce_takes_the_share_of_the_surface() {
    // a mirror floor below, the sky above: down onto the floor and up again
    let mut list = List::new();
    list.register(Sphere::new(
        v(0.0, -101.0, 0.0),
        Real(100.0),
        Material::Metal(Metal::new(v(0.8, 0.6, 0.2), Real(0.0))),
    ));
    let scene = camera(list);
    let samples = vec![Sample { ball: v(0.0, 0.0, 0.0), chance: Real(0.0) }; 2];
    let color = scene.color_trace((v(0.0, 0.0, 0.0), v(0.0, -1.0, 0.0)), 2, &samples);
    assert!(near(color, 0.8 * 0.5, 0.6 * 0.7, 0.2 * 1.0));
    // with one bounce only the ray does not get out
    let color = scene.color_trace((v(0.0, 0.0, 0.0), v(0.0, -1.0, 0.0)), 1, &samples);
    assert!(near(color, 0.0, 0.0, 0.0));
}

#[test]
fn the_lens_moves_the_eye() {
    let mut scene = Scene::new(
        v(0.0, 0.0, 0.0),
        v(-2.0, -1.0, -1.0),
        v(4.0, 0.0, 0.0),
        v(0.0, 2.0, 0.0),
        Real(2.0),
    );
    scene.save(List::<Sphere<Real>>::new());
    // from (2, 0, 0) to the middle of the plane: the direction is (-2, 0, -1), level
    let path = Path {
        jitter: (Real(0.0), Real(0.0)),
        lens: (Real(1.0), Real(0.0)),
        bounces: vec![Sample { ball: v(0.0, 0.0, 0.0), chance: Real(0.0) }],
    };
    assert_eq!(scene.color((1, 1), (2, 2, 1), 1, &vec![path]), [191, 217, 255]);
    assert!(near(scene.source(), 0.0, 0.0, 0.0));
    assert!(near(scene.corner(), -2.0, -1.0, -1.0));
    assert!(near(scene.horizon(), 4.0, 0.0, 0.0));
    assert!(near(scene.vertical(), 0.0, 2.0, 0.0));
}

/// Counts the nodes at which the ray goes through the box of a branch, and
/// checks that it goes through the box of the node there.
fn widens(node: &TreeNode<Sphere<Real>>, source: Vector<Real>, towards: Vector<Real>) -> usize {
    match node {
        TreeNode::Leaf(_) => 0,
        TreeNode::Fork { bounds, left, right } => {
            let below = left.bounds().through(source, towards)
                || right.bounds().through(source, towards);
            if below {
                assert!(bounds.through(source, towards));
            }
            below as usize + widens(left, source, towards) + widens(right, source, towards)
        },
    }
}

#[test]
fn a_ray_through_the_box_of_a_branch_goes_through_the_box_of_the_node() {
    let tree = Tree::build(many_spheres(60, &mut Dice(41)));
    let mut dice = Dice(42);
    let mut seen = 0;
    for _ in 0..2000 {
        let source = v(dice.signed() * 12.0, dice.signed() * 12.0, dice.signed() * 12.0);
        let towards = v(dice.signed(), dice.signed(), dice.signed());
        seen += widens(&tree.root, source, towards);
    }
    assert!(seen > 1000);
}

#[test]
fn a_vector_is_made_of_numbers_drawn() {
    let mut dice = Dice(1);
    let numbers = (Real(dice.next()), Real(dice.next()), Real(dice.next()));
    let made = Vector::random(numbers);
    assert_eq!((made.x(), made.y(), made.z()), numbers);
    assert!(0.0 <= made.x().0 && made.x().0 < 1.0);
}
