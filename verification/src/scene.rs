use vstd::prelude::*;

use crate::bounds::BoundingBox;
use crate::container::List;
use crate::hittable::{HitData, Hittable};
use crate::material::Sample;
use crate::scalar::{constant, ratio, Arithmetic};
use crate::tree::{grown, Root, Tree};
use crate::vector::Vector;

verus! {

/// What chance contributes to one path from the eye: where in the pixel it
/// starts (two numbers in `[0, 1)`), where on the lens (a point of the unit
/// disk), and one sample for each bounce.
pub struct Path<T: Arithmetic> {
    pub jitter: (T, T),
    pub lens: (T, T),
    pub bounces: Vec<Sample<T>>,
}

/// A camera and what it looks at. The camera is at `source`; the picture
/// plane has one corner at `corner` and spans `horizon` and `vertical` from
/// there; `aperture` is the radius of the lens.
pub struct Scene<H: Hittable> {
    pub source: Vector<H::Scalar>,
    pub corner: Vector<H::Scalar>,
    pub horizon: Vector<H::Scalar>,
    pub vertical: Vector<H::Scalar>,
    pub aperture: H::Scalar,
    pub object: Option<H>,
}

/// The colour of the sky in the direction `towards`: white at the bottom,
/// `(0.5, 0.7, 1)` at the top, and between them in proportion to
/// `t = 0.5 (y + 1)`, where `y` is the height of the unit direction.
pub open spec fn sky<T: Arithmetic>(towards: Vector<T>) -> Vector<T> {
    let one = T::of_count(1);
    let t = ratio::<T>(1, 2).product(towards.direction().y.sum(one));
    let blue = Vector { x: ratio::<T>(1, 2), y: ratio::<T>(7, 10), z: one };
    Vector::all(one).scaled(one.difference(t)).sum(blue.scaled(t))
}

/// A point of the unit disk, scaled to `radius`.
pub open spec fn on_disk<T: Arithmetic>(radius: T, point: (T, T)) -> (T, T) {
    (point.0.product(radius), point.1.product(radius))
}

/// The point lies in the unit disk.
pub open spec fn in_disk<T: Arithmetic>(point: (T, T)) -> bool {
    point.0.product(point.0).sum(point.1.product(point.1)).at_most(T::of_count(1))
}

/// The colour cut down to three bytes.
pub open spec fn bytes<T: Arithmetic>(color: Vector<T>) -> Seq<u8> {
    seq![color.x.byte(), color.y.byte(), color.z.byte()]
}

fn background<T: Arithmetic>(towards: Vector<T>) -> (r: Vector<T>)
    ensures
        r == sky(towards),
{
    let one = T::from_usize(1);
    let t = constant::<T>(1, 2).mul(towards.unit().y().add(one));
    let blue = Vector::new(constant::<T>(1, 2), constant::<T>(7, 10), one);
    Vector::uniform(one).scale(one.sub(t)).add(blue.scale(t))
}

impl<H: Hittable> Scene<H> {
    /// The colour that comes back along a ray which has `left` bounces to
    /// go and has kept the share `color` of the light so far. With no
    /// bounce left it is black. Where the ray meets nothing it is the
    /// share of the sky. Where it meets a surface, the surface takes its
    /// share and sends the ray on from there, with the next sample.
    pub open spec fn gathered(
        self,
        starting: Vector<H::Scalar>,
        towards: Vector<H::Scalar>,
        color: Vector<H::Scalar>,
        samples: Seq<Sample<H::Scalar>>,
        left: nat,
    ) -> Vector<H::Scalar>
        decreases left,
    {
        if left == 0 {
            Vector::of_counts(0, 0, 0)
        } else {
            match self.object.unwrap().struck(starting, towards) {
                HitData::Hit { point, normal, matter, .. } => self.gathered(
                    point,
                    matter.scattered(towards, normal, samples[0]),
                    color.product(matter.tint()),
                    samples.subrange(1, samples.len() as int),
                    (left - 1) as nat,
                ),
                HitData::Miss => color.product(sky(towards)),
            }
        }
    }

    /// The colour that comes back along the ray from `starting` along
    /// `towards` after at most `depth` bounces.
    pub open spec fn traced(
        self,
        starting: Vector<H::Scalar>,
        towards: Vector<H::Scalar>,
        depth: nat,
        samples: Seq<Sample<H::Scalar>>,
    ) -> Vector<H::Scalar> {
        self.gathered(starting, towards, Vector::all(H::Scalar::of_count(1)), samples, depth)
    }

    /// Where a path starts: the eye, moved on the lens.
    pub open spec fn eye(self, lens: (H::Scalar, H::Scalar)) -> Vector<H::Scalar> {
        let (dx, dy) = on_disk(self.aperture, lens);
        self.source.sum(self.horizon.direction().scaled(dx)).sum(
            self.vertical.direction().scaled(dy),
        )
    }

    /// The point of the picture plane that the path through pixel
    /// `(i, j)` of a picture of `nx` by `ny` goes to.
    pub open spec fn target(
        self,
        i: usize,
        j: usize,
        nx: usize,
        ny: usize,
        jitter: (H::Scalar, H::Scalar),
    ) -> Vector<H::Scalar> {
        let u = H::Scalar::of_count(i).sum(jitter.0).quotient(H::Scalar::of_count(nx));
        let v = H::Scalar::of_count(j).sum(jitter.1).quotient(H::Scalar::of_count(ny));
        self.corner.sum(self.horizon.scaled(u)).sum(self.vertical.scaled(v))
    }

    /// The colour that one path brings.
    pub open spec fn sampled(
        self,
        i: usize,
        j: usize,
        nx: usize,
        ny: usize,
        depth: nat,
        path: Path<H::Scalar>,
    ) -> Vector<H::Scalar> {
        let start = self.eye(path.lens);
        let towards = self.target(i, j, nx, ny, path.jitter).difference(start);
        self.traced(start, towards, depth, path.bounces@)
    }

    /// The sum of what the paths bring, from black on and in order.
    pub open spec fn summed(
        self,
        i: usize,
        j: usize,
        nx: usize,
        ny: usize,
        depth: nat,
        paths: Seq<Path<H::Scalar>>,
    ) -> Vector<H::Scalar>
        decreases paths.len(),
    {
        if paths.len() == 0 {
            Vector::of_counts(0, 0, 0)
        } else {
            self.summed(i, j, nx, ny, depth, paths.drop_last()).sum(
                self.sampled(i, j, nx, ny, depth, paths.last()),
            )
        }
    }

    /// The colour of a pixel: the mean of what the paths bring, times
    /// 255.999 (no gamma is applied).
    pub open spec fn shade(
        self,
        i: usize,
        j: usize,
        nx: usize,
        ny: usize,
        depth: nat,
        paths: Seq<Path<H::Scalar>>,
    ) -> Vector<H::Scalar> {
        self.summed(i, j, nx, ny, depth, paths).shrunk(
            H::Scalar::of_count(paths.len() as usize),
        ).scaled(ratio::<H::Scalar>(255999, 1000))
    }

    /// The scene of a camera at `eye` that looks at `lookat` with `viewup`
    /// upwards. `slope` is the tangent of half the vertical angle of view
    /// and `ratio` the width of the picture over its height. The picture
    /// plane goes through `lookat`, at right angles to the line of sight.
    pub open spec fn facing(
        eye: Vector<H::Scalar>,
        lookat: Vector<H::Scalar>,
        viewup: Vector<H::Scalar>,
        slope: H::Scalar,
        ratio: H::Scalar,
        aperture: H::Scalar,
    ) -> Self {
        let two = H::Scalar::of_count(2);
        let vision = lookat.difference(eye);
        let height = slope.product(vision.norm());
        let width = height.product(ratio);
        let unit = vision.direction();
        let projection = unit.scaled(viewup.inner(unit));
        let up = viewup.difference(projection).direction();
        let side = vision.outer(up).direction();
        let up = up.scaled(height);
        let side = side.scaled(width);
        Scene {
            source: eye,
            corner: lookat.difference(up).difference(side),
            horizon: side.scaled(two),
            vertical: up.scaled(two),
            aperture,
            object: None,
        }
    }

    /// The scene of a camera at `eye` that looks at `lookat`; see
    /// [`Scene::facing`].
    pub fn looking(
        eye: Vector<H::Scalar>,
        lookat: Vector<H::Scalar>,
        viewup: Vector<H::Scalar>,
        slope: H::Scalar,
        ratio: H::Scalar,
        aperture: H::Scalar,
    ) -> (r: Self)
        ensures
            r == Self::facing(eye, lookat, viewup, slope, ratio, aperture),
    {
        let two = H::Scalar::from_usize(2);
        let vision = lookat.sub(eye);
        let height = slope.mul(vision.length());
        let width = height.mul(ratio);
        let unit = vision.unit();
        let projection = unit.scale(viewup.dot(&unit));
        let up = viewup.sub(projection).unit();
        let side = vision.cross(&up).unit();
        let up = up.scale(height);
        let side = side.scale(width);
        Scene::new(eye, lookat.sub(up).sub(side), side.scale(two), up.scale(two), aperture)
    }

    pub fn new(
        source: Vector<H::Scalar>,
        corner: Vector<H::Scalar>,
        horizon: Vector<H::Scalar>,
        vertical: Vector<H::Scalar>,
        aperture: H::Scalar,
    ) -> (r: Self)
        ensures
            r == (Scene::<H> { source, corner, horizon, vertical, aperture, object: None }),
    {
        Scene { source, corner, horizon, vertical, aperture, object: None }
    }

    pub fn source(&self) -> (r: Vector<H::Scalar>)
        ensures
            r == self.source,
    {
        self.source
    }

    pub fn corner(&self) -> (r: Vector<H::Scalar>)
        ensures
            r == self.corner,
    {
        self.corner
    }

    pub fn horizon(&self) -> (r: Vector<H::Scalar>)
        ensures
            r == self.horizon,
    {
        self.horizon
    }

    pub fn vertical(&self) -> (r: Vector<H::Scalar>)
        ensures
            r == self.vertical,
    {
        self.vertical
    }

    /// Gives the scene what the camera looks at.
    pub fn save(&mut self, object: H)
        ensures
            *final(self) == (Scene::<H> { object: Some(object), ..*old(self) }),
    {
        self.object = Some(object);
    }

    /// A point of the unit disk scaled to `radius`, or nothing where
    /// `point` lies outside the disk and another one has to be drawn.
    pub fn random_disk(radius: H::Scalar, point: (H::Scalar, H::Scalar)) -> (r: Option<
        (H::Scalar, H::Scalar),
    >)
        ensures
            r == if in_disk(point) {
                Some(on_disk(radius, point))
            } else {
                None
            },
    {
        let (x, y) = point;
        if x.mul(x).add(y.mul(y)).le(H::Scalar::from_usize(1)) {
            Some((x.mul(radius), y.mul(radius)))
        } else {
            None
        }
    }

    /// The colour that comes back along a ray after at most `depth`
    /// bounces; bounce `k` takes `samples[k]`. A ray that has not left the
    /// scene by then brings black.
    pub fn color_trace(
        &self,
        ray: (Vector<H::Scalar>, Vector<H::Scalar>),
        depth: usize,
        samples: &Vec<Sample<H::Scalar>>,
    ) -> (r: Vector<H::Scalar>)
        requires
            self.ready(),
            samples@.len() >= depth,
        ensures
            r == self.traced(ray.0, ray.1, depth as nat, samples@),
    {
        let (mut starting, mut towards) = ray;
        let mut color = Vector::uniform(H::Scalar::from_usize(1));
        let mut k: usize = 0;
        proof {
            assert(samples@.subrange(0, samples@.len() as int) =~= samples@);
        }
        while k < depth
            invariant
                k <= depth <= samples@.len(),
                self.ready(),
                self.gathered(
                    starting,
                    towards,
                    color,
                    samples@.subrange(k as int, samples@.len() as int),
                    (depth - k) as nat,
                ) == self.traced(ray.0, ray.1, depth as nat, samples@),
            decreases depth - k,
        {
            let ghost rest = samples@.subrange(k as int, samples@.len() as int);
            proof {
                assert(rest[0] == samples@[k as int]);
                assert(rest.subrange(1, rest.len() as int) =~= samples@.subrange(
                    k + 1,
                    samples@.len() as int,
                ));
            }
            match self.hit(starting, towards) {
                HitData::Hit { point, normal, matter, .. } => {
                    let reflected = matter.scatter(towards, normal, &samples[k]);
                    color = color.mul(matter.albedo());
                    starting = point;
                    towards = reflected;
                },
                HitData::Miss => {
                    return color.mul(background(towards));
                },
            }
            k += 1;
        }
        Vector::uniform(H::Scalar::from_usize(0))
    }

    /// The colour of pixel `(i, j)` in a picture of `nx` by `ny`, from
    /// `ns` paths of at most `depth` bounces each.
    pub fn color(
        &self,
        pixel: (usize, usize),
        size: (usize, usize, usize),
        depth: usize,
        paths: &Vec<Path<H::Scalar>>,
    ) -> (r: [u8; 3])
        requires
            self.ready(),
            paths@.len() == size.2,
            forall|k: int| 0 <= k < paths@.len() ==> (#[trigger] paths@[k]).bounces@.len() >= depth,
        ensures
            r@ == bytes(self.shade(pixel.0, pixel.1, size.0, size.1, depth as nat, paths@)),
    {
        let (i, j) = pixel;
        let (nx, ny, ns) = size;
        let mut color = Vector::uniform(H::Scalar::from_usize(0));
        let mut k: usize = 0;
        while k < ns
            invariant
                k <= ns == paths@.len(),
                self.ready(),
                forall|k: int|
                    0 <= k < paths@.len() ==> (#[trigger] paths@[k]).bounces@.len() >= depth,
                color == self.summed(i, j, nx, ny, depth as nat, paths@.take(k as int)),
            decreases ns - k,
        {
            let path = &paths[k];
            let (dx, dy) = (path.lens.0.mul(self.aperture), path.lens.1.mul(self.aperture));
            let h = self.horizon.unit().scale(dx);
            let v = self.vertical.unit().scale(dy);
            let start = self.source.add(h).add(v);

            let u = H::Scalar::from_usize(i).add(path.jitter.0).div(H::Scalar::from_usize(nx));
            let w = H::Scalar::from_usize(j).add(path.jitter.1).div(H::Scalar::from_usize(ny));
            let end = self.corner.add(self.horizon.scale(u)).add(self.vertical.scale(w));
            let towards = end.sub(start);

            proof {
                assert(paths@.take(k + 1).drop_last() == paths@.take(k as int));
            }
            color = color.add(self.color_trace((start, towards), depth, &path.bounces));
            k += 1;
        }
        proof {
            assert(paths@.take(k as int) == paths@);
        }
        let scaled = color.shrink(H::Scalar::from_usize(ns)).scale(
            constant::<H::Scalar>(255999, 1000),
        );
        [scaled.x().to_u8(), scaled.y().to_u8(), scaled.z().to_u8()]
    }
}

/// The scene with the given camera, which looks at nothing yet.
pub fn build_scene<H: Hittable>(
    eye: Vector<H::Scalar>,
    corner: Vector<H::Scalar>,
    horizontal: Vector<H::Scalar>,
    vertical: Vector<H::Scalar>,
    aperture: H::Scalar,
) -> (r: Scene<H>)
    ensures
        r == (Scene::<H> {
            source: eye,
            corner,
            horizon: horizontal,
            vertical,
            aperture,
            object: None,
        }),
{
    Scene::new(eye, corner, horizontal, vertical, aperture)
}

impl<H: Hittable + Copy> Scene<Root<H>> {
    /// The objects registered so far, while the scene is being set up.
    pub open spec fn registered(self) -> Seq<H> {
        match self.object {
            Some(Root::Flat(list)) => list.objects@,
            _ => Seq::empty(),
        }
    }

    /// The scene is being set up: no hierarchy has been built yet.
    pub open spec fn open(self) -> bool {
        !(self.object matches Some(Root::Grown(_)))
    }

    /// Adds an object to a scene that is being set up.
    pub fn register(&mut self, primitive: H)
        requires
            old(self).open(),
        ensures
            final(self).open(),
            final(self).registered() == old(self).registered().push(primitive),
            *final(self) == (Scene::<Root<H>> { object: final(self).object, ..*old(self) }),
    {
        let mut list = match self.object.take() {
            Some(Root::Flat(list)) => list,
            _ => List::new(),
        };
        list.register(primitive);
        self.object = Some(Root::Flat(list));
    }

    /// Ends the setting up. With `use_bvh` the hierarchy over the objects
    /// is built, and at least one object is needed; without it the
    /// objects stay in their flat collection.
    pub fn finalize(self, use_bvh: bool) -> (r: Self)
        requires
            self.open(),
            use_bvh ==> self.registered().len() > 0 && forall|i: int|
                0 <= i < self.registered().len() ==> (#[trigger] self.registered()[i]).bounded(),
        ensures
            r == (Scene::<Root<H>> { object: r.object, ..self }),
            match r.object {
                Some(Root::Grown(tree)) => use_bvh && tree.root == grown(self.registered()),
                Some(Root::Flat(list)) => !use_bvh && list.objects@ == self.registered(),
                None => false,
            },
            (forall|i: int|
                0 <= i < self.registered().len() ==> (#[trigger] self.registered()[i]).ready())
                ==> r.ready(),
    {
        let Scene { source, corner, horizon, vertical, aperture, object } = self;
        let list = match object {
            Some(Root::Flat(list)) => list,
            _ => List::new(),
        };
        let root = if use_bvh {
            Root::Grown(Tree::build(list))
        } else {
            Root::Flat(list)
        };
        Scene { source, corner, horizon, vertical, aperture, object: Some(root) }
    }
}

impl<H: Hittable> Hittable for Scene<H> {
    type Scalar = H::Scalar;

    open spec fn ready(&self) -> bool {
        self.object is Some && self.object.unwrap().ready()
    }

    open spec fn bounded(&self) -> bool {
        self.object is Some && self.object.unwrap().bounded()
    }

    open spec fn struck(&self, source: Vector<H::Scalar>, towards: Vector<H::Scalar>) -> HitData<
        H::Scalar,
    > {
        self.object.unwrap().struck(source, towards)
    }

    open spec fn extent(&self) -> BoundingBox<H::Scalar> {
        self.object.unwrap().extent()
    }

    fn hit(&self, source: Vector<H::Scalar>, towards: Vector<H::Scalar>) -> (r: HitData<
        H::Scalar,
    >) {
        self.object.as_ref().unwrap().hit(source, towards)
    }

    fn bounds(&self) -> (r: BoundingBox<H::Scalar>) {
        self.object.as_ref().unwrap().bounds()
    }
}

} // verus!
