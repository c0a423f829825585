//! Exact affine maps of the plane: their mathematical model and the
//! machine-integer matrices that realise it.

use vstd::prelude::*;
use vstd::arithmetic::div_mod::lemma_fundamental_div_mod_converse;
use vstd::arithmetic::div_mod::lemma_fundamental_div_mod;

verus! {

/// A point of the plane with unbounded integer coordinates.
pub struct Point {
    pub x: int,
    pub y: int,
}

/// The affine map `(x, y) -> (a*x + b*y + tx, c*x + d*y + ty)` over the
/// unbounded integers.
pub struct Affine {
    pub a: int,
    pub b: int,
    pub c: int,
    pub d: int,
    pub tx: int,
    pub ty: int,
}

/// A point of the plane with the rational coordinates `x / den` and
/// `y / den`. A denominator of zero stands for no point at all.
pub struct Fraction2 {
    pub x: int,
    pub y: int,
    pub den: int,
}

/// Whether `v` is a value of `i32`.
pub open spec fn in_i32(v: int) -> bool {
    i32::MIN <= v <= i32::MAX
}

/// Whether `v` is a value of `i64`.
pub open spec fn in_i64(v: int) -> bool {
    i64::MIN <= v <= i64::MAX
}

/// The greatest integer `q` with `q * d <= n` when `d` is positive, and the
/// same for `-n` and `-d` when `d` is negative: the floor of the exact
/// quotient `n / d`.
pub open spec fn floor_div(n: int, d: int) -> int {
    if d > 0 {
        n / d
    } else {
        (-n) / (-d)
    }
}

/// Cosine of `q` quarter turns.
pub open spec fn quarter_cos(q: int) -> int {
    if q % 4 == 0 {
        1
    } else if q % 4 == 2 {
        -1
    } else {
        0
    }
}

/// Sine of `q` quarter turns.
pub open spec fn quarter_sin(q: int) -> int {
    if q % 4 == 1 {
        1
    } else if q % 4 == 3 {
        -1
    } else {
        0
    }
}

/// The vector `v` turned counter-clockwise by `q` quarter turns.
pub open spec fn turned(v: Point, q: int) -> Point {
    if q % 4 == 0 {
        v
    } else if q % 4 == 1 {
        Point { x: -v.y, y: v.x }
    } else if q % 4 == 2 {
        Point { x: -v.x, y: -v.y }
    } else {
        Point { x: v.y, y: -v.x }
    }
}

impl Point {
    /// Whether both coordinates are values of `i32`.
    pub open spec fn representable(self) -> bool {
        in_i32(self.x) && in_i32(self.y)
    }
}

impl Fraction2 {
    /// The lattice point `p`, over the denominator one.
    pub open spec fn lattice(p: Point) -> Fraction2 {
        Fraction2 { x: p.x, y: p.y, den: 1 }
    }

    /// The same fractions with numerators and denominator multiplied by `k`.
    pub open spec fn scaled(self, k: int) -> Fraction2 {
        Fraction2 { x: k * self.x, y: k * self.y, den: k * self.den }
    }

    /// Whether `self` and `other` are the same point of the plane: both
    /// denominators differ from zero and the fractions agree.
    pub open spec fn same(self, other: Fraction2) -> bool {
        &&& self.den != 0
        &&& other.den != 0
        &&& self.x * other.den == other.x * self.den
        &&& self.y * other.den == other.y * self.den
    }

    /// Whether the numerators are at most `num` and the denominator at most
    /// `den` in magnitude.
    pub open spec fn within(self, num: int, den: int) -> bool {
        &&& -num <= self.x <= num
        &&& -num <= self.y <= num
        &&& -den <= self.den <= den
    }

    /// Whether the image under a compact map can be computed in 128-bit
    /// arithmetic: numerators up to `2^94 + 2^64`, denominator up to `2^63`.
    pub open spec fn fits_image(self) -> bool {
        self.within(0x4000_0001_0000_0000_0000_0000, 0x8000_0000_0000_0000)
    }

    /// Whether the preimage under a compact map can be computed in 128-bit
    /// arithmetic: numerators up to `2^93`, denominator up to `2^31`.
    pub open spec fn fits_preimage(self) -> bool {
        self.within(0x2000_0000_0000_0000_0000_0000, 0x8000_0000)
    }
}

impl Affine {
    /// The image of the rational point `p`, over the denominator of `p`.
    pub open spec fn image(self, p: Fraction2) -> Fraction2 {
        Fraction2 {
            x: self.a * p.x + self.b * p.y + self.tx * p.den,
            y: self.c * p.x + self.d * p.y + self.ty * p.den,
            den: p.den,
        }
    }

    /// The exact image of the rational point `p` under the inverse map, over
    /// the determinant times the denominator of `p`. Where the determinant is
    /// zero there is no inverse, and the denominator says so.
    pub open spec fn preimage(self, p: Fraction2) -> Fraction2 {
        Fraction2 {
            x: self.d * (p.x - self.tx * p.den) - self.b * (p.y - self.ty * p.den),
            y: self.a * (p.y - self.ty * p.den) - self.c * (p.x - self.tx * p.den),
            den: self.det() * p.den,
        }
    }

    /// The map that moves every point by `(x, y)`.
    pub open spec fn translation(x: int, y: int) -> Affine {
        Affine { a: 1, b: 0, c: 0, d: 1, tx: x, ty: y }
    }

    /// The counter-clockwise rotation about the origin by `q` quarter turns.
    pub open spec fn rotation(q: int) -> Affine {
        Affine {
            a: quarter_cos(q),
            b: -quarter_sin(q),
            c: quarter_sin(q),
            d: quarter_cos(q),
            tx: 0,
            ty: 0,
        }
    }

    /// The map that stretches the axes by `sx` and `sy`.
    pub open spec fn scaling(sx: int, sy: int) -> Affine {
        Affine { a: sx, b: 0, c: 0, d: sy, tx: 0, ty: 0 }
    }

    /// The matrix product `self * first`: the map that applies `first` and
    /// then `self`.
    pub open spec fn after(self, first: Affine) -> Affine {
        Affine {
            a: self.a * first.a + self.b * first.c,
            b: self.a * first.b + self.b * first.d,
            c: self.c * first.a + self.d * first.c,
            d: self.c * first.b + self.d * first.d,
            tx: self.a * first.tx + self.b * first.ty + self.tx,
            ty: self.c * first.tx + self.d * first.ty + self.ty,
        }
    }

    /// The image of `p`.
    pub open spec fn apply(self, p: Point) -> Point {
        Point {
            x: self.a * p.x + self.b * p.y + self.tx,
            y: self.c * p.x + self.d * p.y + self.ty,
        }
    }

    /// The determinant of the linear part.
    pub open spec fn det(self) -> int {
        self.a * self.d - self.b * self.c
    }

    /// The determinant times the first coordinate of the exact preimage of `p`.
    pub open spec fn preimage_num_x(self, p: Point) -> int {
        self.d * (p.x - self.tx) - self.b * (p.y - self.ty)
    }

    /// The determinant times the second coordinate of the exact preimage of `p`.
    pub open spec fn preimage_num_y(self, p: Point) -> int {
        self.a * (p.y - self.ty) - self.c * (p.x - self.tx)
    }

    /// The image of `p` under the inverse map, each coordinate rounded down
    /// to the lattice. Meaningful when the determinant is not zero.
    pub open spec fn unapply(self, p: Point) -> Point {
        Point {
            x: floor_div(self.preimage_num_x(p), self.det()),
            y: floor_div(self.preimage_num_y(p), self.det()),
        }
    }

    /// Whether every entry is a value of `i64`.
    pub open spec fn representable(self) -> bool {
        &&& in_i64(self.a)
        &&& in_i64(self.b)
        &&& in_i64(self.c)
        &&& in_i64(self.d)
        &&& in_i64(self.tx)
        &&& in_i64(self.ty)
    }

    /// Whether the entries of the linear part are at most `2^31` in
    /// magnitude and those of the translation at most `2^62 + 2^30`, which
    /// leaves room to invert the map in 128-bit arithmetic.
    pub open spec fn compact(self) -> bool {
        &&& -0x8000_0000 <= self.a <= 0x8000_0000
        &&& -0x8000_0000 <= self.b <= 0x8000_0000
        &&& -0x8000_0000 <= self.c <= 0x8000_0000
        &&& -0x8000_0000 <= self.d <= 0x8000_0000
        &&& -0x4000_0000_4000_0000 <= self.tx <= 0x4000_0000_4000_0000
        &&& -0x4000_0000_4000_0000 <= self.ty <= 0x4000_0000_4000_0000
    }
}

/// A point or displacement with `i32` coordinates.
#[derive(Clone, Copy, Debug, PartialEq, Eq, Structural)]
pub struct Vec2 {
    pub x: i32,
    pub y: i32,
}

impl View for Vec2 {
    type V = Point;

    open spec fn view(&self) -> Point {
        Point { x: self.x as int, y: self.y as int }
    }
}

impl Vec2 {
    /// The vector `(x, y)`.
    pub fn new(x: i32, y: i32) -> (v: Vec2)
        ensures
            v.x == x,
            v.y == y,
    {
        Vec2 { x, y }
    }

    /// The origin.
    pub fn zero() -> (v: Vec2)
        ensures
            v.x == 0,
            v.y == 0,
    {
        Vec2 { x: 0, y: 0 }
    }
}

/// A number `num / den`.
#[derive(Clone, Copy, Debug, PartialEq, Eq, Structural)]
pub struct Ratio {
    pub num: i128,
    pub den: i128,
}

/// A point with the rational coordinates `x / den` and `y / den`. A
/// denominator of zero stands for no point at all.
#[derive(Clone, Copy, Debug, PartialEq, Eq, Structural)]
pub struct Ratio2 {
    pub x: i128,
    pub y: i128,
    pub den: i128,
}

impl View for Ratio2 {
    type V = Fraction2;

    open spec fn view(&self) -> Fraction2 {
        Fraction2 { x: self.x as int, y: self.y as int, den: self.den as int }
    }
}

impl Ratio2 {
    /// The lattice point `v`, over the denominator one.
    pub fn lattice(v: Vec2) -> (r: Ratio2)
        ensures
            r@ == Fraction2::lattice(v@),
    {
        Ratio2 { x: v.x as i128, y: v.y as i128, den: 1 }
    }

    /// The first coordinate.
    pub fn x(&self) -> (r: Ratio)
        ensures
            r.num == self.x,
            r.den == self.den,
    {
        Ratio { num: self.x, den: self.den }
    }

    /// The second coordinate.
    pub fn y(&self) -> (r: Ratio)
        ensures
            r.num == self.y,
            r.den == self.den,
    {
        Ratio { num: self.y, den: self.den }
    }

    /// Whether the numerators are at most `num` and the denominator at most
    /// `den` in magnitude.
    pub fn is_within(&self, num: i128, den: i128) -> (b: bool)
        requires
            num >= 0,
            den >= 0,
        ensures
            b == self@.within(num as int, den as int),
    {
        -num <= self.x && self.x <= num && -num <= self.y && self.y <= num && -den <= self.den
            && self.den <= den
    }
}

/// The bounds of a product of bounded factors.
pub proof fn lemma_bounded_product(u: int, v: int, bu: int, bv: int)
    requires
        -bu <= u <= bu,
        -bv <= v <= bv,
    ensures
        -(bu * bv) <= u * v <= bu * bv,
{
    assert(-(bu * bv) <= u * v <= bu * bv) by (nonlinear_arith)
        requires
            -bu <= u <= bu,
            -bv <= v <= bv,
    ;
}

/// An affine map of the plane with `i64` entries:
/// `(x, y) -> (a*x + b*y + tx, c*x + d*y + ty)`. Written as a homogeneous
/// 4 x 4 matrix it has the columns `(a, c, 0, 0)`, `(b, d, 0, 0)`,
/// `(0, 0, 1, 0)` and `(tx, ty, 0, 1)`.
#[derive(Clone, Copy, Debug, PartialEq, Eq, Structural)]
pub struct Mat {
    pub a: i64,
    pub b: i64,
    pub c: i64,
    pub d: i64,
    pub tx: i64,
    pub ty: i64,
}

impl View for Mat {
    type V = Affine;

    open spec fn view(&self) -> Affine {
        Affine {
            a: self.a as int,
            b: self.b as int,
            c: self.c as int,
            d: self.d as int,
            tx: self.tx as int,
            ty: self.ty as int,
        }
    }
}

/// The bounds of a product of a 64-bit and a 33-bit factor.
proof fn lemma_product_bound(u: int, v: int)
    requires
        -0x8000_0000_0000_0000 <= u <= 0x8000_0000_0000_0000,
        -0x1_0000_0000 <= v <= 0x1_0000_0000,
    ensures
        -0x8000_0000_0000_0000_0000_0000 <= u * v <= 0x8000_0000_0000_0000_0000_0000,
        u * v == v * u,
{
    assert(-0x8000_0000_0000_0000_0000_0000 <= u * v <= 0x8000_0000_0000_0000_0000_0000
        && u * v == v * u) by (nonlinear_arith)
        requires
            -0x8000_0000_0000_0000 <= u <= 0x8000_0000_0000_0000,
            -0x1_0000_0000 <= v <= 0x1_0000_0000,
    ;
}

/// The product of two values of `i64` lies between `-(2^126 - 2^63)` and
/// `2^126`.
proof fn lemma_wide_product(u: int, v: int)
    requires
        -0x8000_0000_0000_0000 <= u <= 0x7fff_ffff_ffff_ffff,
        -0x8000_0000_0000_0000 <= v <= 0x7fff_ffff_ffff_ffff,
    ensures
        -0x3fff_ffff_ffff_ffff_8000_0000_0000_0000 <= u * v
            <= 0x4000_0000_0000_0000_0000_0000_0000_0000,
{
    assert(-0x3fff_ffff_ffff_ffff_8000_0000_0000_0000 <= u * v
        <= 0x4000_0000_0000_0000_0000_0000_0000_0000) by (nonlinear_arith)
        requires
            -0x8000_0000_0000_0000 <= u <= 0x7fff_ffff_ffff_ffff,
            -0x8000_0000_0000_0000 <= v <= 0x7fff_ffff_ffff_ffff,
    ;
}

/// The floor of `n / d` for a positive divisor.
fn floor_quotient(n: i128, d: i128) -> (q: i128)
    requires
        d > 0,
        n > i128::MIN,
    ensures
        q == floor_div(n as int, d as int),
{
    if n >= 0 {
        n / d
    } else {
        let m: i128 = -(n + 1);
        let k: i128 = m / d;
        proof {
            let r = (m % d) as int;
            lemma_fundamental_div_mod(m as int, d as int);
            assert(m == d * k + r);
            assert(n == (-k - 1) * d + (d - 1 - r)) by (nonlinear_arith)
                requires
                    m == d * k + r,
                    m == -(n + 1),
            ;
            lemma_fundamental_div_mod_converse(n as int, d as int, -k - 1, d - 1 - r);
        }
        -k - 1
    }
}

/// Whether `v` is a value of `i32`.
fn fits_i32(v: i128) -> (b: bool)
    ensures
        b == in_i32(v as int),
{
    -0x8000_0000 <= v && v <= 0x7fff_ffff
}

/// The bounds of a product of two factors of at most 32 bits.
pub proof fn lemma_small_product(u: int, v: int)
    requires
        -0x8000_0000 <= u <= 0x8000_0000,
        -0x8000_0000 <= v <= 0x8000_0000,
    ensures
        -0x4000_0000_0000_0000 <= u * v <= 0x4000_0000_0000_0000,
{
    assert(-0x4000_0000_0000_0000 <= u * v <= 0x4000_0000_0000_0000) by (nonlinear_arith)
        requires
            -0x8000_0000 <= u <= 0x8000_0000,
            -0x8000_0000 <= v <= 0x8000_0000,
    ;
}

/// A product with a factor of magnitude at most one is zero, the other
/// factor, or its negation.
pub proof fn lemma_unit_product(z: int, u: int)
    requires
        -1 <= u <= 1,
    ensures
        z * u == (if u == 1 {
            z
        } else if u == -1 {
            -z
        } else {
            0
        }),
{
    assert(z * u == (if u == 1 {
        z
    } else if u == -1 {
        -z
    } else {
        0
    })) by (nonlinear_arith)
        requires
            -1 <= u <= 1,
    ;
}

/// Half of `v`, rounded towards zero.
pub open spec fn half(v: int) -> int {
    if v >= 0 {
        v / 2
    } else {
        -((-v) / 2)
    }
}

/// Half of `v`, rounded towards zero.
pub fn half_of(v: i32) -> (h: i32)
    ensures
        h == half(v as int),
{
    if v >= 0 {
        v / 2
    } else {
        let m: i64 = -(v as i64);
        (-(m / 2)) as i32
    }
}

/// What a rotation by quarter turns does to the entries of the map it
/// follows: it permutes them and changes signs.
pub proof fn lemma_rotation_after(q: int, n: Affine)
    ensures
        q % 4 == 0 ==> Affine::rotation(q).after(n) == n,
        q % 4 == 1 ==> Affine::rotation(q).after(n) == (Affine {
            a: -n.c,
            b: -n.d,
            c: n.a,
            d: n.b,
            tx: -n.ty,
            ty: n.tx,
        }),
        q % 4 == 2 ==> Affine::rotation(q).after(n) == (Affine {
            a: -n.a,
            b: -n.b,
            c: -n.c,
            d: -n.d,
            tx: -n.tx,
            ty: -n.ty,
        }),
        q % 4 == 3 ==> Affine::rotation(q).after(n) == (Affine {
            a: n.c,
            b: n.d,
            c: -n.a,
            d: -n.b,
            tx: n.ty,
            ty: -n.tx,
        }),
{
    let c = quarter_cos(q);
    let s = quarter_sin(q);
    let r = Affine::rotation(q).after(n);
    assert(r.a == c * n.a - s * n.c && r.b == c * n.b - s * n.d && r.tx == c * n.tx - s * n.ty
        && r.c == s * n.a + c * n.c && r.d == s * n.b + c * n.d && r.ty == s * n.tx + c * n.ty)
        by (nonlinear_arith)
        requires
            r.a == c * n.a + (-s) * n.c,
            r.b == c * n.b + (-s) * n.d,
            r.tx == c * n.tx + (-s) * n.ty + 0,
            r.c == s * n.a + c * n.c,
            r.d == s * n.b + c * n.d,
            r.ty == s * n.tx + c * n.ty + 0,
    ;
    if q % 4 == 0 {
        assert(c == 1 && s == 0);
    } else if q % 4 == 1 {
        assert(c == 0 && s == 1);
    } else if q % 4 == 2 {
        assert(c == -1 && s == 0);
    } else {
        assert(q % 4 == 3);
        assert(c == 0 && s == -1);
    }
    assert(c * n.a == (if c == 1 { n.a } else if c == -1 { -n.a } else { 0 })
        && c * n.b == (if c == 1 { n.b } else if c == -1 { -n.b } else { 0 })
        && c * n.c == (if c == 1 { n.c } else if c == -1 { -n.c } else { 0 })
        && c * n.d == (if c == 1 { n.d } else if c == -1 { -n.d } else { 0 })
        && c * n.tx == (if c == 1 { n.tx } else if c == -1 { -n.tx } else { 0 })
        && c * n.ty == (if c == 1 { n.ty } else if c == -1 { -n.ty } else { 0 }))
        by (nonlinear_arith)
        requires
            -1 <= c <= 1,
    ;
    assert(s * n.a == (if s == 1 { n.a } else if s == -1 { -n.a } else { 0 })
        && s * n.b == (if s == 1 { n.b } else if s == -1 { -n.b } else { 0 })
        && s * n.c == (if s == 1 { n.c } else if s == -1 { -n.c } else { 0 })
        && s * n.d == (if s == 1 { n.d } else if s == -1 { -n.d } else { 0 })
        && s * n.tx == (if s == 1 { n.tx } else if s == -1 { -n.tx } else { 0 })
        && s * n.ty == (if s == 1 { n.ty } else if s == -1 { -n.ty } else { 0 }))
        by (nonlinear_arith)
        requires
            -1 <= s <= 1,
    ;
}

impl Mat {
    /// The translation by `(x, y)`.
    pub fn translation_2d(x: i64, y: i64) -> (m: Mat)
        ensures
            m@ == Affine::translation(x as int, y as int),
    {
        Mat { a: 1, b: 0, c: 0, d: 1, tx: x, ty: y }
    }

    /// Follows this map by a counter-clockwise rotation of `quarter_turns`
    /// quarter turns about the origin.
    pub fn rotate_z(&mut self, quarter_turns: i32)
        requires
            Affine::rotation(quarter_turns as int).after(old(self)@).representable(),
        ensures
            final(self)@ == Affine::rotation(quarter_turns as int).after(old(self)@),
    {
        let r: i64 = (quarter_turns as i64 + 0x8000_0000) % 4;
        assert(r == (quarter_turns as int) % 4);
        let m: Mat = *self;
        proof {
            lemma_rotation_after(quarter_turns as int, m@);
        }
        if r == 1 {
            *self = Mat { a: -m.c, b: -m.d, c: m.a, d: m.b, tx: -m.ty, ty: m.tx };
        } else if r == 2 {
            *self = Mat { a: -m.a, b: -m.b, c: -m.c, d: -m.d, tx: -m.tx, ty: -m.ty };
        } else if r == 3 {
            *self = Mat { a: m.c, b: m.d, c: -m.a, d: -m.b, tx: m.ty, ty: -m.tx };
        }
    }

    /// Follows this map by a stretch of the axes by `factors.x` and
    /// `factors.y`.
    pub fn scale_2d(&mut self, factors: Vec2)
        requires
            Affine::scaling(factors.x as int, factors.y as int).after(old(self)@).representable(),
        ensures
            final(self)@ == Affine::scaling(factors.x as int, factors.y as int).after(old(self)@),
    {
        let m: Mat = *self;
        let sx: i128 = factors.x as i128;
        let sy: i128 = factors.y as i128;
        proof {
            lemma_product_bound(m.a as int, sx as int);
            lemma_product_bound(m.b as int, sx as int);
            lemma_product_bound(m.tx as int, sx as int);
            lemma_product_bound(m.c as int, sy as int);
            lemma_product_bound(m.d as int, sy as int);
            lemma_product_bound(m.ty as int, sy as int);
        }
        *self = Mat {
            a: (sx * (m.a as i128)) as i64,
            b: (sx * (m.b as i128)) as i64,
            c: (sy * (m.c as i128)) as i64,
            d: (sy * (m.d as i128)) as i64,
            tx: (sx * (m.tx as i128)) as i64,
            ty: (sy * (m.ty as i128)) as i64,
        };
    }

    /// Follows this map by a translation by `v`.
    pub fn translate_2d(&mut self, v: Vec2)
        requires
            Affine::translation(v.x as int, v.y as int).after(old(self)@).representable(),
        ensures
            final(self)@ == Affine::translation(v.x as int, v.y as int).after(old(self)@),
    {
        let m: Mat = *self;
        *self = Mat {
            a: m.a,
            b: m.b,
            c: m.c,
            d: m.d,
            tx: ((m.tx as i128) + (v.x as i128)) as i64,
            ty: ((m.ty as i128) + (v.y as i128)) as i64,
        };
    }

    /// The exact image of `p`, in 128-bit arithmetic.
    fn image(&self, p: Vec2) -> (r: (i128, i128))
        ensures
            r.0 == self@.apply(p@).x,
            r.1 == self@.apply(p@).y,
    {
        let x: i128 = p.x as i128;
        let y: i128 = p.y as i128;
        proof {
            lemma_product_bound(self.a as int, x as int);
            lemma_product_bound(self.b as int, y as int);
            lemma_product_bound(self.c as int, x as int);
            lemma_product_bound(self.d as int, y as int);
        }
        let rx: i128 = (self.a as i128) * x + (self.b as i128) * y + (self.tx as i128);
        let ry: i128 = (self.c as i128) * x + (self.d as i128) * y + (self.ty as i128);
        (rx, ry)
    }

    /// The image of `p`.
    pub fn mul_point(&self, p: Vec2) -> (r: Vec2)
        requires
            self@.apply(p@).representable(),
        ensures
            r@ == self@.apply(p@),
    {
        let (rx, ry) = self.image(p);
        Vec2 { x: rx as i32, y: ry as i32 }
    }

    /// The image of `p`, or `None` when a coordinate of it is no `i32`.
    pub fn checked_mul_point(&self, p: Vec2) -> (r: Option<Vec2>)
        ensures
            r.is_some() <==> self@.apply(p@).representable(),
            r.is_some() ==> r.unwrap()@ == self@.apply(p@),
    {
        let (rx, ry) = self.image(p);
        if fits_i32(rx) && fits_i32(ry) {
            Some(Vec2 { x: rx as i32, y: ry as i32 })
        } else {
            None
        }
    }

    /// Whether the entries leave room to invert the map in 128-bit
    /// arithmetic.
    pub fn is_compact(&self) -> (b: bool)
        ensures
            b == self@.compact(),
    {
        -0x8000_0000 <= self.a && self.a <= 0x8000_0000
            && -0x8000_0000 <= self.b && self.b <= 0x8000_0000
            && -0x8000_0000 <= self.c && self.c <= 0x8000_0000
            && -0x8000_0000 <= self.d && self.d <= 0x8000_0000
            && -0x4000_0000_4000_0000 <= self.tx && self.tx <= 0x4000_0000_4000_0000
            && -0x4000_0000_4000_0000 <= self.ty && self.ty <= 0x4000_0000_4000_0000
    }

    /// The determinant of the linear part.
    pub fn determinant(&self) -> (det: i128)
        ensures
            det == self@.det(),
    {
        proof {
            lemma_wide_product(self.a as int, self.d as int);
            lemma_wide_product(self.b as int, self.c as int);
        }
        (self.a as i128) * (self.d as i128) - (self.b as i128) * (self.c as i128)
    }

    /// The image of the rational point `p`.
    pub fn mul_ratio(&self, p: Ratio2) -> (r: Ratio2)
        requires
            self@.compact(),
            p@.fits_image(),
        ensures
            r@ == self@.image(p@),
    {
        proof {
            lemma_bounded_product(self.a as int, p.x as int, 0x8000_0000, 0x4000_0001_0000_0000_0000_0000);
            lemma_bounded_product(self.b as int, p.y as int, 0x8000_0000, 0x4000_0001_0000_0000_0000_0000);
            lemma_bounded_product(self.c as int, p.x as int, 0x8000_0000, 0x4000_0001_0000_0000_0000_0000);
            lemma_bounded_product(self.d as int, p.y as int, 0x8000_0000, 0x4000_0001_0000_0000_0000_0000);
            lemma_bounded_product(self.tx as int, p.den as int, 0x4000_0000_4000_0000, 0x8000_0000_0000_0000);
            lemma_bounded_product(self.ty as int, p.den as int, 0x4000_0000_4000_0000, 0x8000_0000_0000_0000);
        }
        let x: i128 = (self.a as i128) * p.x + (self.b as i128) * p.y + (self.tx as i128) * p.den;
        let y: i128 = (self.c as i128) * p.x + (self.d as i128) * p.y + (self.ty as i128) * p.den;
        Ratio2 { x, y, den: p.den }
    }

    /// The exact image of the rational point `p` under the inverse map. Its
    /// denominator is zero where the map has no inverse.
    pub fn inverse_mul_ratio(&self, p: Ratio2) -> (r: Ratio2)
        requires
            self@.compact(),
            p@.fits_preimage(),
        ensures
            r@ == self@.preimage(p@),
    {
        let det: i128 = self.determinant();
        proof {
            lemma_bounded_product(self.tx as int, p.den as int, 0x4000_0000_4000_0000, 0x8000_0000);
            lemma_bounded_product(self.ty as int, p.den as int, 0x4000_0000_4000_0000, 0x8000_0000);
        }
        let dx: i128 = p.x - (self.tx as i128) * p.den;
        let dy: i128 = p.y - (self.ty as i128) * p.den;
        proof {
            lemma_bounded_product(self.d as int, dx as int, 0x8000_0000, 0x4000_0000_2000_0000_0000_0000);
            lemma_bounded_product(self.b as int, dy as int, 0x8000_0000, 0x4000_0000_2000_0000_0000_0000);
            lemma_bounded_product(self.a as int, dy as int, 0x8000_0000, 0x4000_0000_2000_0000_0000_0000);
            lemma_bounded_product(self.c as int, dx as int, 0x8000_0000, 0x4000_0000_2000_0000_0000_0000);
            lemma_bounded_product(self.a as int, self.d as int, 0x8000_0000, 0x8000_0000);
            lemma_bounded_product(self.b as int, self.c as int, 0x8000_0000, 0x8000_0000);
            lemma_bounded_product(det as int, p.den as int, 0x8000_0000_0000_0000, 0x8000_0000);
        }
        let x: i128 = (self.d as i128) * dx - (self.b as i128) * dy;
        let y: i128 = (self.a as i128) * dy - (self.c as i128) * dx;
        Ratio2 { x, y, den: det * p.den }
    }

    /// The rounded-down image of `p` under the inverse map, in 128-bit
    /// arithmetic.
    fn preimage(&self, p: Vec2) -> (r: (i128, i128))
        requires
            self@.compact(),
            self@.det() != 0,
        ensures
            r.0 == self@.unapply(p@).x,
            r.1 == self@.unapply(p@).y,
    {
        let det: i128 = self.determinant();
        let dx: i128 = (p.x as i128) - (self.tx as i128);
        let dy: i128 = (p.y as i128) - (self.ty as i128);
        proof {
            lemma_product_bound(dx as int, self.d as int);
            lemma_product_bound(dy as int, self.b as int);
            lemma_product_bound(dy as int, self.a as int);
            lemma_product_bound(dx as int, self.c as int);
            lemma_product_bound(self.a as int, self.d as int);
            lemma_product_bound(self.b as int, self.c as int);
        }
        let nx: i128 = (self.d as i128) * dx - (self.b as i128) * dy;
        let ny: i128 = (self.a as i128) * dy - (self.c as i128) * dx;
        if det > 0 {
            (floor_quotient(nx, det), floor_quotient(ny, det))
        } else {
            (floor_quotient(-nx, -det), floor_quotient(-ny, -det))
        }
    }

    /// The image of `p` under the inverse map, each coordinate rounded down
    /// to the lattice.
    pub fn inverse_mul_point(&self, p: Vec2) -> (r: Vec2)
        requires
            self@.compact(),
            self@.det() != 0,
            self@.unapply(p@).representable(),
        ensures
            r@ == self@.unapply(p@),
    {
        let (qx, qy) = self.preimage(p);
        Vec2 { x: qx as i32, y: qy as i32 }
    }

    /// The image of `p` under the inverse map, each coordinate rounded down
    /// to the lattice, or `None` when the map has no inverse, its entries
    /// are not compact, or a coordinate of the result is no `i32`.
    pub fn checked_inverse_mul_point(&self, p: Vec2) -> (r: Option<Vec2>)
        ensures
            r.is_some() <==> self@.compact() && self@.det() != 0 && self@.unapply(
                p@,
            ).representable(),
            r.is_some() ==> r.unwrap()@ == self@.unapply(p@),
    {
        if !self.is_compact() {
            return None;
        }
        if self.determinant() == 0 {
            return None;
        }
        let (qx, qy) = self.preimage(p);
        if fits_i32(qx) && fits_i32(qy) {
            Some(Vec2 { x: qx as i32, y: qy as i32 })
        } else {
            None
        }
    }
}

} // verus!
