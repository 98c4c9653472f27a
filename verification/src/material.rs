use vstd::prelude::*;

use crate::scalar::{constant, fifth, pow5, ratio, Arithmetic};
use crate::vector::Vector;

verus! {

/// What chance contributes to one bounce: a point of the unit ball, which a
/// surface scales to its own roughness, and a number in `[0, 1)`, against
/// which glass decides between bending and mirroring the ray.
#[derive(Copy, Debug)]
pub struct Sample<T: Arithmetic> {
    pub ball: Vector<T>,
    pub chance: T,
}

impl<T: Arithmetic> Clone for Sample<T> {
    fn clone(&self) -> (r: Self)
        ensures
            r == *self,
    {
        *self
    }
}

/// A diffuse surface.
#[derive(Copy, Debug)]
pub struct Matte<T: Arithmetic> {
    pub albedo: Vector<T>,
}

/// A mirroring surface; `blur` is its roughness, 0 for a perfect mirror.
#[derive(Copy, Debug)]
pub struct Metal<T: Arithmetic> {
    pub albedo: Vector<T>,
    pub blur: T,
}

/// A transparent surface with the refractive index `refractive`.
#[derive(Copy, Debug)]
pub struct Glass<T: Arithmetic> {
    pub albedo: Vector<T>,
    pub blur: T,
    pub refractive: T,
}

/// The surfaces there are.
#[derive(Copy, Debug)]
pub enum Material<T: Arithmetic> {
    Matte(Matte<T>),
    Metal(Metal<T>),
    Glass(Glass<T>),
}

impl<T: Arithmetic> Clone for Matte<T> {
    fn clone(&self) -> (r: Self)
        ensures
            r == *self,
    {
        *self
    }
}

impl<T: Arithmetic> Clone for Metal<T> {
    fn clone(&self) -> (r: Self)
        ensures
            r == *self,
    {
        *self
    }
}

impl<T: Arithmetic> Clone for Glass<T> {
    fn clone(&self) -> (r: Self)
        ensures
            r == *self,
    {
        *self
    }
}

impl<T: Arithmetic> Clone for Material<T> {
    fn clone(&self) -> (r: Self)
        ensures
            r == *self,
    {
        *self
    }
}

/// The mirrored direction `d - 2 (d . n) n`, moved by the jitter `ball`
/// scaled to `blur`.
pub open spec fn mirrored<T: Arithmetic>(
    input: Vector<T>,
    normal: Vector<T>,
    blur: T,
    ball: Vector<T>,
) -> Vector<T> {
    let casted = normal.scaled(input.inner(normal).product(T::of_count(2)));
    ball.scaled(blur).sum(input).difference(casted)
}

/// Schlick's estimate of the share of light that a surface between two
/// media mirrors: `r0 + (1 - r0) (1 - cosine)^5` with
/// `r0 = ((1 - ratio) / (1 + ratio))^2`.
pub open spec fn reflectance<T: Arithmetic>(cosine: T, ratio: T) -> T {
    let one = T::of_count(1);
    let r = one.difference(ratio).quotient(one.sum(ratio));
    let sq = r.product(r);
    sq.sum(one.difference(sq).product(fifth(one.difference(cosine))))
}

/// The ratio of the refractive indices that a ray meets: the inverse of the
/// surface's index where the ray enters (a cosine that is negative and
/// normal), the index itself where it leaves.
pub open spec fn index_ratio<T: Arithmetic>(cosine: T, refractive: T) -> T {
    if cosine.normal() && cosine.negative() {
        T::of_count(1).quotient(refractive)
    } else {
        refractive
    }
}

/// The squared cosine of the bent ray: `1 - ratio^2 (1 - cosine^2)`.
pub open spec fn bent_cosine_squared<T: Arithmetic>(cosine: T, ratio: T) -> T {
    let one = T::of_count(1);
    let sine_squared = one.difference(cosine.product(cosine));
    one.difference(ratio.product(ratio).product(sine_squared))
}

/// Whether glass bends the ray: the cosine is a number, the squared cosine
/// of the bent ray is not negative (else all light is mirrored), and the
/// number drawn is above the share that is mirrored.
pub open spec fn bends<T: Arithmetic>(cosine: T, ratio: T, chance: T) -> bool {
    &&& !cosine.nan()
    &&& T::of_count(0).at_most(bent_cosine_squared(cosine, ratio))
    &&& reflectance(cosine.magnitude(), ratio).less(chance)
}

/// The bent direction `(d + n cosine) ratio - n sqrt(cosine_out^2)`, moved
/// by the jitter.
pub open spec fn bent<T: Arithmetic>(
    input: Vector<T>,
    normal: Vector<T>,
    cosine: T,
    ratio: T,
    blur: T,
    ball: Vector<T>,
) -> Vector<T> {
    input.sum(normal.scaled(cosine)).scaled(ratio).difference(
        normal.scaled(bent_cosine_squared(cosine, ratio).root()),
    ).sum(ball.scaled(blur))
}

/// The direction that mirrors `input` at a surface with the unit normal
/// `normal`, moved by `ball` scaled to `blur`.
pub fn mirror<T: Arithmetic>(input: Vector<T>, normal: Vector<T>, blur: T, ball: Vector<T>) -> (r:
    Vector<T>)
    ensures
        r == mirrored(input, normal, blur, ball),
{
    let random = ball.scale(blur);
    let casted = normal.scale(input.dot(&normal).mul(T::from_usize(2)));
    random.add(input).sub(casted)
}

impl<T: Arithmetic> Matte<T> {
    /// The direction a ray leaves in: the unit normal plus the point of
    /// the ball. The incoming direction plays no part.
    pub open spec fn scattered(self, input: Vector<T>, normal: Vector<T>, sample: Sample<T>)
        -> Vector<T> {
        sample.ball.scaled(T::of_count(1)).sum(normal.direction())
    }

    pub fn new(albedo: Vector<T>) -> (r: Self)
        ensures
            r == (Matte { albedo }),
    {
        Matte { albedo }
    }

    pub fn scatter(&self, input: Vector<T>, normal: Vector<T>, sample: &Sample<T>) -> (r: Vector<
        T,
    >)
        ensures
            r == self.scattered(input, normal, *sample),
    {
        let normal = normal.unit();
        sample.ball.scale(T::from_usize(1)).add(normal)
    }

    pub fn albedo(&self) -> (r: Vector<T>)
        ensures
            r == self.albedo,
    {
        self.albedo
    }
}

impl<T: Arithmetic> Metal<T> {
    /// The direction a ray leaves in: its own direction mirrored at the
    /// surface, both taken at unit length, and blurred.
    pub open spec fn scattered(self, input: Vector<T>, normal: Vector<T>, sample: Sample<T>)
        -> Vector<T> {
        mirrored(input.direction(), normal.direction(), self.blur, sample.ball)
    }

    pub fn new(albedo: Vector<T>, blur: T) -> (r: Self)
        ensures
            r == (Metal { albedo, blur }),
    {
        Metal { albedo, blur }
    }

    pub fn scatter(&self, input: Vector<T>, normal: Vector<T>, sample: &Sample<T>) -> (r: Vector<
        T,
    >)
        ensures
            r == self.scattered(input, normal, *sample),
    {
        let input = input.unit();
        let normal = normal.unit();
        mirror(input, normal, self.blur, sample.ball)
    }

    pub fn albedo(&self) -> (r: Vector<T>)
        ensures
            r == self.albedo,
    {
        self.albedo
    }
}

impl<T: Arithmetic> Glass<T> {
    /// The direction a ray leaves in: bent where [`bends`] says so, else
    /// mirrored; direction and normal are taken at unit length.
    pub open spec fn scattered(self, input: Vector<T>, normal: Vector<T>, sample: Sample<T>)
        -> Vector<T> {
        let input = input.direction();
        let normal = normal.direction();
        let cosine = input.inner(normal);
        let ratio = index_ratio(cosine, self.refractive);
        if bends(cosine, ratio, sample.chance) {
            bent(input, normal, cosine, ratio, self.blur, sample.ball)
        } else {
            mirrored(input, normal, self.blur, sample.ball)
        }
    }

    pub fn new(albedo: Vector<T>, blur: T, refractive: T) -> (r: Self)
        ensures
            r == (Glass { albedo, blur, refractive }),
    {
        Glass { albedo, blur, refractive }
    }

    /// Schlick's estimate of the mirrored share.
    pub fn schilick(cosine: T, ratio: T) -> (r: T)
        ensures
            r == reflectance(cosine, ratio),
    {
        let one = T::from_usize(1);
        let r = one.sub(ratio).div(one.add(ratio));
        let sq = r.mul(r);
        sq.add(one.sub(sq).mul(pow5(one.sub(cosine))))
    }

    pub fn scatter(&self, input: Vector<T>, normal: Vector<T>, sample: &Sample<T>) -> (r: Vector<
        T,
    >)
        ensures
            r == self.scattered(input, normal, *sample),
    {
        let input = input.unit();
        let normal = normal.unit();
        let one = T::from_usize(1);

        let cosine = input.dot(&normal);
        let ratio = if cosine.is_normal() && cosine.is_sign_negative() {
            one.div(self.refractive)
        } else {
            self.refractive
        };
        let sine_squared = one.sub(cosine.mul(cosine));
        let cosine_squared = one.sub(ratio.mul(ratio).mul(sine_squared));
        let refract = !cosine.is_nan() && T::from_usize(0).le(cosine_squared);

        if refract && Self::schilick(cosine.abs(), ratio).lt(sample.chance) {
            let jitter = sample.ball.scale(self.blur);
            input.add(normal.scale(cosine)).scale(ratio).sub(
                normal.scale(cosine_squared.sqrt()),
            ).add(jitter)
        } else {
            mirror(input, normal, self.blur, sample.ball)
        }
    }

    pub fn albedo(&self) -> (r: Vector<T>)
        ensures
            r == self.albedo,
    {
        self.albedo
    }
}

impl<T: Arithmetic> Material<T> {
    /// The direction a ray leaves the surface in.
    pub open spec fn scattered(self, input: Vector<T>, normal: Vector<T>, sample: Sample<T>)
        -> Vector<T> {
        match self {
            Material::Matte(m) => m.scattered(input, normal, sample),
            Material::Metal(m) => m.scattered(input, normal, sample),
            Material::Glass(m) => m.scattered(input, normal, sample),
        }
    }

    /// The share of each colour that the surface passes on.
    pub open spec fn tint(self) -> Vector<T> {
        match self {
            Material::Matte(m) => m.albedo,
            Material::Metal(m) => m.albedo,
            Material::Glass(m) => m.albedo,
        }
    }

    /// The kind of surface that the number `code` of `[0, 1)` stands for: 0
    /// for a diffuse one, 1 for a mirroring one, 2 for a transparent one.
    pub open spec fn kind(code: T) -> u8 {
        code.product(T::of_count(3)).byte()
    }

    /// The surface that four numbers of `[0, 1)` and a colour of such
    /// numbers stand for: the colour is moved into the upper half, the
    /// roughness into the lower half, and the refractive index is above one.
    pub open spec fn chosen(code: T, albedo: Vector<T>, blur: T, refractive: T) -> Self {
        let albedo = albedo.shrunk(T::of_count(2)).raised(ratio::<T>(1, 2));
        let blur = blur.quotient(T::of_count(2));
        let refractive = refractive.sum(T::of_count(1));
        if Self::kind(code) == 0 {
            Material::Matte(Matte { albedo })
        } else if Self::kind(code) == 1 {
            Material::Metal(Metal { albedo, blur })
        } else {
            Material::Glass(Glass { albedo, blur, refractive })
        }
    }

    /// A surface made from numbers that were drawn.
    pub fn material(code: T, albedo: Vector<T>, blur: T, refractive: T) -> (r: Self)
        requires
            Self::kind(code) < 3,
        ensures
            r == Self::chosen(code, albedo, blur, refractive),
    {
        let mat = code.mul(T::from_usize(3)).to_u8();
        let albedo = albedo.shrink(T::from_usize(2)).raise(constant::<T>(1, 2));
        let blur = blur.div(T::from_usize(2));
        let refractive = refractive.add(T::from_usize(1));
        if mat == 0 {
            Material::Matte(Matte::new(albedo))
        } else if mat == 1 {
            Material::Metal(Metal::new(albedo, blur))
        } else {
            Material::Glass(Glass::new(albedo, blur, refractive))
        }
    }

    pub fn scatter(&self, input: Vector<T>, normal: Vector<T>, sample: &Sample<T>) -> (r: Vector<
        T,
    >)
        ensures
            r == self.scattered(input, normal, *sample),
    {
        match self {
            Material::Matte(m) => m.scatter(input, normal, sample),
            Material::Metal(m) => m.scatter(input, normal, sample),
            Material::Glass(m) => m.scatter(input, normal, sample),
        }
    }

    pub fn albedo(&self) -> (r: Vector<T>)
        ensures
            r == self.tint(),
    {
        match self {
            Material::Matte(m) => m.albedo(),
            Material::Metal(m) => m.albedo(),
            Material::Glass(m) => m.albedo(),
        }
    }
}

} // verus!
