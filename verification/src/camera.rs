//! The camera: view parameters, a cached transform, and conversion between
//! the two coordinate spaces it relates.

use vstd::prelude::*;
use crate::math::Affine;
use crate::math::Fraction2;
use crate::math::Ratio;
use crate::math::Ratio2;
use crate::math::Mat;
use crate::math::Point;
use crate::math::Vec2;
use crate::math::half;
use crate::math::half_of;
use crate::math::lemma_rotation_after;
use crate::math::lemma_small_product;
use crate::math::lemma_unit_product;

verus! {

/// The transform that a camera keeps between rebuilds. Only `Camera::new`
/// and `Camera::update` make one, so its entries always leave room to
/// invert it in 128-bit arithmetic.
#[derive(Debug, Clone, Copy)]
pub struct Cache {
    matrix: Mat,
}

impl View for Cache {
    type V = Affine;

    closed spec fn view(&self) -> Affine {
        self.matrix@
    }
}

impl Cache {
    /// The linear part is at most `2^31` in magnitude, the translation at
    /// most `2^62 + 2^30`.
    #[verifier::type_invariant]
    spec fn compact(self) -> bool {
        self.matrix@.compact()
    }
}

/// A camera that transforms the player's view of a scene.
///
/// The transform is cached. After changing `position`, `rotation`, `zoom` or
/// the viewport size, call `update` to rebuild it; until then `as_matrix`,
/// `project` and `unproject` keep answering from the transform that was last
/// built.
///
/// `project` and `unproject` are exact and undo each other; they work on
/// points with rational coordinates, since the inverse of a zoom divides.
/// `project_floor` and `unproject_lattice` stay on the lattice.
#[derive(Debug, Clone)]
pub struct Camera {
    /// The point the camera is centred on.
    pub position: Vec2,
    /// The rotation of the camera, in counter-clockwise quarter turns.
    pub rotation: i32,
    /// The zoom factor of the camera; 1 leaves sizes as they are.
    pub zoom: i32,
    /// The width of the camera's viewport.
    pub viewport_width: i32,
    /// The height of the camera's viewport.
    pub viewport_height: i32,
    /// The cached transform. `new` and `update` write it; read it through
    /// `as_matrix`.
    pub matrix: Cache,
}

impl Camera {
    /// The transform that the camera holds at the moment.
    pub open spec fn cached(&self) -> Affine {
        self.matrix@
    }

    /// The centre of the viewport.
    pub open spec fn center(&self) -> Point {
        Point { x: half(self.viewport_width as int), y: half(self.viewport_height as int) }
    }

    /// The transform that the camera's fields call for: move `position` to
    /// the origin, turn by `rotation`, stretch by `zoom`, then move the
    /// origin to the centre of the viewport.
    pub open spec fn target(&self) -> Affine {
        Affine::translation(self.center().x, self.center().y).after(
            Affine::scaling(self.zoom as int, self.zoom as int).after(
                Affine::rotation(self.rotation as int).after(
                    Affine::translation(-(self.position.x as int), -(self.position.y as int)),
                ),
            ),
        )
    }

    /// Whether the five fields of `self` and `other` agree; the cached
    /// transforms may differ.
    pub open spec fn same_fields(&self, other: &Camera) -> bool {
        &&& self.position == other.position
        &&& self.rotation == other.rotation
        &&& self.zoom == other.zoom
        &&& self.viewport_width == other.viewport_width
        &&& self.viewport_height == other.viewport_height
    }

    /// Creates a camera with the given viewport size, centred on the origin,
    /// not rotated and not zoomed. Its transform is ready for use: it moves
    /// the origin to the centre of the viewport.
    pub fn new(viewport_width: i32, viewport_height: i32) -> (camera: Camera)
        ensures
            camera.position == (Vec2 { x: 0, y: 0 }),
            camera.rotation == 0,
            camera.zoom == 1,
            camera.viewport_width == viewport_width,
            camera.viewport_height == viewport_height,
            camera.cached() == Affine::translation(
                half(viewport_width as int),
                half(viewport_height as int),
            ),
            camera.cached() == camera.target(),
            camera.cached().apply(Point { x: 0, y: 0 }) == camera.center(),
    {
        let matrix = Mat::translation_2d(
            half_of(viewport_width) as i64,
            half_of(viewport_height) as i64,
        );
        let camera = Camera {
            position: Vec2::zero(),
            rotation: 0,
            zoom: 1,
            viewport_width,
            viewport_height,
            matrix: Cache { matrix },
        };
        proof {
            lemma_rotation_after(0, Affine::translation(0, 0));
        }
        camera
    }

    /// Creates a camera whose viewport has the size of a window of
    /// `width` by `height`. Later changes of the window do not reach the
    /// camera.
    pub fn with_window_size(width: i32, height: i32) -> (camera: Camera)
        ensures
            camera.position == (Vec2 { x: 0, y: 0 }),
            camera.rotation == 0,
            camera.zoom == 1,
            camera.viewport_width == width,
            camera.viewport_height == height,
            camera.cached() == Affine::translation(half(width as int), half(height as int)),
    {
        Camera::new(width, height)
    }

    /// Sets the size of the camera's viewport. The cached transform stays as
    /// it is.
    pub fn set_viewport_size(&mut self, width: i32, height: i32)
        ensures
            final(self).viewport_width == width,
            final(self).viewport_height == height,
            final(self).position == old(self).position,
            final(self).rotation == old(self).rotation,
            final(self).zoom == old(self).zoom,
            final(self).cached() == old(self).cached(),
    {
        self.viewport_width = width;
        self.viewport_height = height;
    }

    /// Rebuilds the cached transform from the camera's fields.
    pub fn update(&mut self)
        ensures
            final(self).same_fields(old(self)),
            final(self).cached() == old(self).target(),
    {
        let ghost t1 = Affine::translation(-(self.position.x as int), -(self.position.y as int));
        let ghost t2 = Affine::rotation(self.rotation as int).after(t1);
        let ghost t3 = Affine::scaling(self.zoom as int, self.zoom as int).after(t2);
        proof {
            lemma_rotation_after(self.rotation as int, t1);
            lemma_unit_product(self.zoom as int, t2.a);
            lemma_unit_product(self.zoom as int, t2.b);
            lemma_unit_product(self.zoom as int, t2.c);
            lemma_unit_product(self.zoom as int, t2.d);
            lemma_small_product(self.zoom as int, t2.tx);
            lemma_small_product(self.zoom as int, t2.ty);
            assert(t3.compact());
            assert(Affine::translation(self.center().x, self.center().y).after(t3).compact());
        }
        let mut matrix = Mat::translation_2d(-(self.position.x as i64), -(self.position.y as i64));
        matrix.rotate_z(self.rotation);
        matrix.scale_2d(Vec2::new(self.zoom, self.zoom));
        matrix.translate_2d(Vec2::new(half_of(self.viewport_width), half_of(self.viewport_height)));
        self.matrix = Cache { matrix };
    }

    /// Returns the cached transform, without rebuilding it.
    pub fn as_matrix(&self) -> (matrix: Mat)
        ensures
            matrix@ == self.cached(),
            matrix@.compact(),
    {
        proof {
            use_type_invariant(&self.matrix);
        }
        self.matrix.matrix
    }

    /// Converts `point` by the inverse of the cached transform, exactly: the
    /// result is the one point that the cached transform carries to `point`.
    /// Where the cached transform has no inverse, as one built with a zoom of
    /// zero, the result has the denominator zero. The numerators of `point`
    /// may reach `2^93` and its denominator `2^31`; `checked_project` tests
    /// that.
    pub fn project(&self, point: Ratio2) -> (r: Ratio2)
        requires
            point@.fits_preimage(),
        ensures
            r@ == self.cached().preimage(point@),
    {
        self.as_matrix().inverse_mul_ratio(point)
    }

    /// Converts `point` by the cached transform. The numerators of `point`
    /// may reach `2^94 + 2^64` and its denominator `2^63`, which holds of
    /// whatever `project` makes of a lattice point; `checked_unproject` tests
    /// that.
    pub fn unproject(&self, point: Ratio2) -> (r: Ratio2)
        requires
            point@.fits_image(),
        ensures
            r@ == self.cached().image(point@),
    {
        self.as_matrix().mul_ratio(point)
    }

    /// As `project`, for every point: `None` when `point` is too large to
    /// convert in 128-bit arithmetic.
    pub fn checked_project(&self, point: Ratio2) -> (r: Option<Ratio2>)
        ensures
            r.is_some() <==> point@.fits_preimage(),
            r.is_some() ==> r.unwrap()@ == self.cached().preimage(point@),
    {
        if point.is_within(0x2000_0000_0000_0000_0000_0000, 0x8000_0000) {
            Some(self.project(point))
        } else {
            None
        }
    }

    /// As `unproject`, for every point: `None` when `point` is too large to
    /// convert in 128-bit arithmetic.
    pub fn checked_unproject(&self, point: Ratio2) -> (r: Option<Ratio2>)
        ensures
            r.is_some() <==> point@.fits_image(),
            r.is_some() ==> r.unwrap()@ == self.cached().image(point@),
    {
        if point.is_within(0x4000_0001_0000_0000_0000_0000, 0x8000_0000_0000_0000) {
            Some(self.unproject(point))
        } else {
            None
        }
    }

    /// The lattice point at or next below the exact result of `project`:
    /// each coordinate rounded down. The cached transform must have an
    /// inverse and the result must lie within `i32`;
    /// `checked_project_floor` tests both.
    pub fn project_floor(&self, point: Vec2) -> (r: Vec2)
        requires
            self.cached().det() != 0,
            self.cached().unapply(point@).representable(),
        ensures
            r@ == self.cached().unapply(point@),
    {
        self.as_matrix().inverse_mul_point(point)
    }

    /// Converts the lattice point `point` by the cached transform. The
    /// result must lie within `i32`; `checked_unproject_lattice` tests that.
    pub fn unproject_lattice(&self, point: Vec2) -> (r: Vec2)
        requires
            self.cached().apply(point@).representable(),
        ensures
            r@ == self.cached().apply(point@),
    {
        self.as_matrix().mul_point(point)
    }

    /// As `project_floor`, for every point: `None` when the cached transform
    /// has no inverse or a coordinate of the result is no `i32`.
    pub fn checked_project_floor(&self, point: Vec2) -> (r: Option<Vec2>)
        ensures
            r.is_some() <==> self.cached().det() != 0 && self.cached().unapply(
                point@,
            ).representable(),
            r.is_some() ==> r.unwrap()@ == self.cached().unapply(point@),
    {
        self.as_matrix().checked_inverse_mul_point(point)
    }

    /// As `unproject_lattice`, for every point: `None` when a coordinate of
    /// the result is no `i32`.
    pub fn checked_unproject_lattice(&self, point: Vec2) -> (r: Option<Vec2>)
        ensures
            r.is_some() <==> self.cached().apply(point@).representable(),
            r.is_some() ==> r.unwrap()@ == self.cached().apply(point@),
    {
        self.as_matrix().checked_mul_point(point)
    }

    /// Where the pointer, which the window reports at the pixel `pointer`,
    /// stands in the camera's coordinates: `project` of that pixel.
    pub fn mouse_position(&self, pointer: Vec2) -> (r: Ratio2)
        ensures
            r@ == self.cached().preimage(Fraction2::lattice(pointer@)),
    {
        self.project(Ratio2::lattice(pointer))
    }

    /// The first coordinate of `mouse_position(pointer)`.
    pub fn mouse_x(&self, pointer: Vec2) -> (x: Ratio)
        ensures
            x.num == self.cached().preimage(Fraction2::lattice(pointer@)).x,
            x.den == self.cached().preimage(Fraction2::lattice(pointer@)).den,
    {
        self.mouse_position(pointer).x()
    }

    /// The second coordinate of `mouse_position(pointer)`.
    pub fn mouse_y(&self, pointer: Vec2) -> (y: Ratio)
        ensures
            y.num == self.cached().preimage(Fraction2::lattice(pointer@)).y,
            y.den == self.cached().preimage(Fraction2::lattice(pointer@)).den,
    {
        self.mouse_position(pointer).y()
    }
}

} // verus!
