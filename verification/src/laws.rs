//! What holds of every camera: the shape of the transform that `update`
//! builds, how `project` and `unproject` undo each other exactly, and how
//! far the rounded `project_floor` lies from that.

use vstd::prelude::*;
use vstd::arithmetic::div_mod::lemma_fundamental_div_mod;
use vstd::arithmetic::div_mod::lemma_fundamental_div_mod_converse;
use crate::camera::Camera;
use crate::math::Affine;
use crate::math::Fraction2;
use crate::math::Point;
use crate::math::Vec2;
use crate::math::floor_div;
use crate::math::lemma_bounded_product;
use crate::math::lemma_rotation_after;
use crate::math::lemma_unit_product;
use crate::math::quarter_cos;
use crate::math::quarter_sin;
use crate::math::turned;

verus! {

/// Rounding down the quotient of an exact multiple gives the multiple's
/// factor back.
pub proof fn lemma_floor_div_exact(k: int, d: int)
    requires
        d != 0,
    ensures
        floor_div(d * k, d) == k,
{
    if d > 0 {
        assert(d * k == k * d + 0) by (nonlinear_arith);
        lemma_fundamental_div_mod_converse(d * k, d, k, 0);
    } else {
        assert(-(d * k) == k * (-d) + 0) by (nonlinear_arith);
        lemma_fundamental_div_mod_converse(-(d * k), -d, k, 0);
    }
}

/// Applying an invertible map and then its rounded inverse gives every
/// point back exactly.
pub proof fn lemma_unapply_apply(m: Affine, p: Point)
    requires
        m.det() != 0,
    ensures
        m.unapply(m.apply(p)) == p,
{
    let q = m.apply(p);
    assert(m.preimage_num_x(q) == m.det() * p.x) by (nonlinear_arith)
        requires
            m.preimage_num_x(q) == m.d * (q.x - m.tx) - m.b * (q.y - m.ty),
            q.x == m.a * p.x + m.b * p.y + m.tx,
            q.y == m.c * p.x + m.d * p.y + m.ty,
            m.det() == m.a * m.d - m.b * m.c,
    ;
    assert(m.preimage_num_y(q) == m.det() * p.y) by (nonlinear_arith)
        requires
            m.preimage_num_y(q) == m.a * (q.y - m.ty) - m.c * (q.x - m.tx),
            q.x == m.a * p.x + m.b * p.y + m.tx,
            q.y == m.c * p.x + m.d * p.y + m.ty,
            m.det() == m.a * m.d - m.b * m.c,
    ;
    lemma_floor_div_exact(p.x, m.det());
    lemma_floor_div_exact(p.y, m.det());
}

/// The product of two maps is their composition: `m.after(n)` applies `n`
/// first and `m` to what comes out.
pub proof fn lemma_after_composes(m: Affine, n: Affine, p: Point)
    ensures
        m.after(n).apply(p) == m.apply(n.apply(p)),
{
    let np = n.apply(p);
    lemma_expand(m.a, n.a, p.x, n.b, p.y, n.tx);
    lemma_expand(m.b, n.c, p.x, n.d, p.y, n.ty);
    lemma_expand(m.c, n.a, p.x, n.b, p.y, n.tx);
    lemma_expand(m.d, n.c, p.x, n.d, p.y, n.ty);
    lemma_collect(m.a * n.a, m.b * n.c, p.x);
    lemma_collect(m.a * n.b, m.b * n.d, p.y);
    lemma_collect(m.c * n.a, m.d * n.c, p.x);
    lemma_collect(m.c * n.b, m.d * n.d, p.y);
    assert(m.after(n).apply(p).x == m.apply(np).x);
    assert(m.after(n).apply(p).y == m.apply(np).y);
}

/// Multiplying out `u * (a*x + b*y + t)`.
proof fn lemma_expand(u: int, a: int, x: int, b: int, y: int, t: int)
    ensures
        u * (a * x + b * y + t) == (u * a) * x + (u * b) * y + u * t,
{
    assert(u * (a * x + b * y + t) == (u * a) * x + (u * b) * y + u * t) by (nonlinear_arith);
}

/// Multiplying out `(u + v) * x`.
proof fn lemma_collect(u: int, v: int, x: int)
    ensures
        (u + v) * x == u * x + v * x,
{
    assert((u + v) * x == u * x + v * x) by (nonlinear_arith);
}

/// The transform that a camera's fields call for takes a point through four
/// steps in this order: move it by minus `position`, turn it by `rotation`,
/// stretch it by `zoom`, move it by the centre of the viewport.
pub proof fn law_target_steps(camera: Camera, p: Point)
    ensures
        camera.target().apply(p) == Affine::translation(
            camera.center().x,
            camera.center().y,
        ).apply(
            Affine::scaling(camera.zoom as int, camera.zoom as int).apply(
                Affine::rotation(camera.rotation as int).apply(
                    Affine::translation(
                        -(camera.position.x as int),
                        -(camera.position.y as int),
                    ).apply(p),
                ),
            ),
        ),
{
    let t1 = Affine::translation(-(camera.position.x as int), -(camera.position.y as int));
    let r = Affine::rotation(camera.rotation as int);
    let s = Affine::scaling(camera.zoom as int, camera.zoom as int);
    let t2 = Affine::translation(camera.center().x, camera.center().y);
    lemma_after_composes(r, t1, p);
    lemma_after_composes(s, r.after(t1), p);
    lemma_after_composes(t2, s.after(r.after(t1)), p);
}

/// The entries of the transform that a camera's fields call for: the
/// rotation stretched by the zoom, and the translation that carries
/// `position` to the centre of the viewport.
pub proof fn lemma_target_entries(camera: Camera)
    ensures
        camera.target().a == camera.zoom * quarter_cos(camera.rotation as int),
        camera.target().b == -(camera.zoom * quarter_sin(camera.rotation as int)),
        camera.target().c == camera.zoom * quarter_sin(camera.rotation as int),
        camera.target().d == camera.zoom * quarter_cos(camera.rotation as int),
        camera.target().apply(camera.position@) == camera.center(),
        camera.target().det() == camera.zoom * camera.zoom,
        camera.rotation as int % 4 == 0 ==> camera.target().a == camera.zoom && camera.target().b
            == 0 && camera.target().c == 0 && camera.target().d == camera.zoom,
        camera.rotation as int % 4 == 1 ==> camera.target().a == 0 && camera.target().b
            == -camera.zoom && camera.target().c == camera.zoom && camera.target().d == 0,
        camera.rotation as int % 4 == 2 ==> camera.target().a == -camera.zoom && camera.target().b
            == 0 && camera.target().c == 0 && camera.target().d == -camera.zoom,
        camera.rotation as int % 4 == 3 ==> camera.target().a == 0 && camera.target().b
            == camera.zoom && camera.target().c == -camera.zoom && camera.target().d == 0,
{
    let z = camera.zoom as int;
    let px = camera.position.x as int;
    let py = camera.position.y as int;
    let cq = quarter_cos(camera.rotation as int);
    let sq = quarter_sin(camera.rotation as int);
    let t1 = Affine::translation(-px, -py);
    let t2 = Affine::rotation(camera.rotation as int).after(t1);
    let t3 = Affine::scaling(z, z).after(t2);
    let t = camera.target();
    lemma_rotation_after(camera.rotation as int, t1);
    assert(t2.a == cq && t2.b == -sq && t2.c == sq && t2.d == cq);
    lemma_unit_product(z, t2.a);
    lemma_unit_product(z, t2.b);
    lemma_unit_product(z, t2.c);
    lemma_unit_product(z, t2.d);
    assert(t3.a == z * t2.a && t3.b == z * t2.b && t3.c == z * t2.c && t3.d == z * t2.d
        && t3.tx == z * t2.tx && t3.ty == z * t2.ty);
    assert(t.a == t3.a && t.b == t3.b && t.c == t3.c && t.d == t3.d);
    assert(t.tx == t3.tx + camera.center().x && t.ty == t3.ty + camera.center().y);
    assert(z * (-sq) == -(z * sq)) by (nonlinear_arith);
    assert(t2.a * px + t2.b * py + t2.tx == 0 && t2.c * px + t2.d * py + t2.ty == 0) by {
        assert(t2.a * px == (if t2.a == 1 { px } else if t2.a == -1 { -px } else { 0 })
            && t2.b * py == (if t2.b == 1 { py } else if t2.b == -1 { -py } else { 0 })
            && t2.c * px == (if t2.c == 1 { px } else if t2.c == -1 { -px } else { 0 })
            && t2.d * py == (if t2.d == 1 { py } else if t2.d == -1 { -py } else { 0 }))
            by (nonlinear_arith)
            requires
                -1 <= t2.a <= 1,
                -1 <= t2.b <= 1,
                -1 <= t2.c <= 1,
                -1 <= t2.d <= 1,
        ;
    }
    assert(t.a * px + t.b * py + t.tx == camera.center().x) by (nonlinear_arith)
        requires
            t.a == z * t2.a,
            t.b == z * t2.b,
            t.tx == z * t2.tx + camera.center().x,
            t2.a * px + t2.b * py + t2.tx == 0,
    ;
    assert(t.c * px + t.d * py + t.ty == camera.center().y) by (nonlinear_arith)
        requires
            t.c == z * t2.c,
            t.d == z * t2.d,
            t.ty == z * t2.ty + camera.center().y,
            t2.c * px + t2.d * py + t2.ty == 0,
    ;
    assert(cq * cq + sq * sq == 1);
    assert(t.a * t.d - t.b * t.c == z * z) by (nonlinear_arith)
        requires
            t.a == z * cq,
            t.b == -(z * sq),
            t.c == z * sq,
            t.d == z * cq,
            cq * cq + sq * sq == 1,
    ;
}

/// A camera whose transform is up to date carries its `position` to the
/// centre of its viewport, whatever its rotation and zoom.
pub proof fn law_position_lands_on_center(camera: Camera)
    requires
        camera.cached() == camera.target(),
    ensures
        camera.cached().apply(camera.position@) == camera.center(),
{
    lemma_target_entries(camera);
}

/// With a zoom other than zero, the rounded inverse of an up-to-date
/// transform carries the centre of the viewport back to `position`.
pub proof fn law_center_comes_from_position(camera: Camera)
    requires
        camera.cached() == camera.target(),
        camera.zoom != 0,
    ensures
        camera.cached().unapply(camera.center()) == camera.position@,
{
    lemma_target_entries(camera);
    lemma_zoom_squared(camera.zoom as int);
    lemma_unapply_apply(camera.cached(), camera.position@);
}

/// The square of a number other than zero is positive.
proof fn lemma_zoom_squared(z: int)
    requires
        z != 0,
    ensures
        z * z > 0,
{
    assert(z * z > 0) by (nonlinear_arith)
        requires
            z != 0,
    ;
}

/// A camera that is neither rotated nor zoomed and is centred on the centre
/// of its own viewport maps that centre to its `position`.
pub proof fn law_untransformed_center(camera: Camera)
    requires
        camera.cached() == camera.target(),
        camera.rotation == 0,
        camera.zoom == 1,
        camera.position@ == camera.center(),
    ensures
        camera.cached().apply(camera.center()) == camera.position@,
{
    lemma_target_entries(camera);
}

/// With a zoom greater than zero, converting a point by an up-to-date
/// transform and then by its rounded inverse gives the point back exactly.
pub proof fn law_unproject_then_floor(camera: Camera, p: Point)
    requires
        camera.cached() == camera.target(),
        camera.zoom > 0,
    ensures
        camera.cached().unapply(camera.cached().apply(p)) == p,
{
    lemma_target_entries(camera);
    lemma_zoom_squared(camera.zoom as int);
    lemma_unapply_apply(camera.cached(), p);
}

/// Rounding down the quotient of `z * n` by `z * z` rounds down the
/// quotient of `n` by `z`, which lies less than `z` below `n` when
/// multiplied back.
proof fn lemma_floor_div_scaled(n: int, z: int)
    requires
        z > 0,
    ensures
        floor_div(z * n, z * z) == n / z,
        z * (n / z) == n - n % z,
        (-z) * (n / z) == -(n - n % z),
        0 <= n % z < z,
{
    let k = n / z;
    let r = n % z;
    lemma_fundamental_div_mod(n, z);
    assert(z * n == k * (z * z) + z * r && 0 <= z * r < z * z && z * z > 0 && (-z) * k == -(z
        * k)) by (nonlinear_arith)
        requires
            n == z * k + r,
            0 <= r < z,
    ;
    lemma_fundamental_div_mod_converse(z * n, z * z, k, z * r);
}

/// For a map that turns by quarter turns and stretches by `z > 0`, the
/// rounded inverse followed by the map moves no coordinate by `z` or more.
proof fn lemma_similarity_round_trip(m: Affine, z: int, q: int, p: Point)
    requires
        z > 0,
        m.a == z * quarter_cos(q),
        m.b == -(z * quarter_sin(q)),
        m.c == z * quarter_sin(q),
        m.d == z * quarter_cos(q),
    ensures
        -z < m.apply(m.unapply(p)).x - p.x < z,
        -z < m.apply(m.unapply(p)).y - p.y < z,
{
    let dx = p.x - m.tx;
    let dy = p.y - m.ty;
    let u = m.unapply(p);
    if q % 4 == 0 {
        assert(m.a == z && m.b == 0 && m.c == 0 && m.d == z);
        assert(m.det() == z * z) by (nonlinear_arith)
            requires
                m.det() == m.a * m.d - m.b * m.c,
                m.a == z && m.b == 0 && m.c == 0 && m.d == z,
        ;
        assert(m.preimage_num_x(p) == z * dx && m.preimage_num_y(p) == z * dy)
            by (nonlinear_arith)
            requires
                m.preimage_num_x(p) == m.d * dx - m.b * dy,
                m.preimage_num_y(p) == m.a * dy - m.c * dx,
                m.a == z && m.b == 0 && m.c == 0 && m.d == z,
        ;
        lemma_floor_div_scaled(dx, z);
        lemma_floor_div_scaled(dy, z);
        assert(u.x == dx / z && u.y == dy / z);
        assert(m.apply(u).x == z * (dx / z) + m.tx);
        assert(m.apply(u).y == z * (dy / z) + m.ty);
    } else if q % 4 == 1 {
        assert(m.a == 0 && m.b == -z && m.c == z && m.d == 0);
        assert(m.det() == z * z) by (nonlinear_arith)
            requires
                m.det() == m.a * m.d - m.b * m.c,
                m.a == 0 && m.b == -z && m.c == z && m.d == 0,
        ;
        assert(m.preimage_num_x(p) == z * dy && m.preimage_num_y(p) == z * (-dx))
            by (nonlinear_arith)
            requires
                m.preimage_num_x(p) == m.d * dx - m.b * dy,
                m.preimage_num_y(p) == m.a * dy - m.c * dx,
                m.a == 0 && m.b == -z && m.c == z && m.d == 0,
        ;
        lemma_floor_div_scaled(dy, z);
        lemma_floor_div_scaled(-dx, z);
        assert(u.x == dy / z && u.y == (-dx) / z);
        assert(m.apply(u).x == (-z) * ((-dx) / z) + m.tx);
        assert(m.apply(u).y == z * (dy / z) + m.ty);
    } else if q % 4 == 2 {
        assert(m.a == -z && m.b == 0 && m.c == 0 && m.d == -z);
        assert(m.det() == z * z) by (nonlinear_arith)
            requires
                m.det() == m.a * m.d - m.b * m.c,
                m.a == -z && m.b == 0 && m.c == 0 && m.d == -z,
        ;
        assert(m.preimage_num_x(p) == z * (-dx) && m.preimage_num_y(p) == z * (-dy))
            by (nonlinear_arith)
            requires
                m.preimage_num_x(p) == m.d * dx - m.b * dy,
                m.preimage_num_y(p) == m.a * dy - m.c * dx,
                m.a == -z && m.b == 0 && m.c == 0 && m.d == -z,
        ;
        lemma_floor_div_scaled(-dx, z);
        lemma_floor_div_scaled(-dy, z);
        assert(u.x == (-dx) / z && u.y == (-dy) / z);
        assert(m.apply(u).x == (-z) * ((-dx) / z) + m.tx);
        assert(m.apply(u).y == (-z) * ((-dy) / z) + m.ty);
    } else {
        assert(q % 4 == 3);
        assert(m.a == 0 && m.b == z && m.c == -z && m.d == 0);
        assert(m.det() == z * z) by (nonlinear_arith)
            requires
                m.det() == m.a * m.d - m.b * m.c,
                m.a == 0 && m.b == z && m.c == -z && m.d == 0,
        ;
        assert(m.preimage_num_x(p) == z * (-dy) && m.preimage_num_y(p) == z * dx)
            by (nonlinear_arith)
            requires
                m.preimage_num_x(p) == m.d * dx - m.b * dy,
                m.preimage_num_y(p) == m.a * dy - m.c * dx,
                m.a == 0 && m.b == z && m.c == -z && m.d == 0,
        ;
        lemma_floor_div_scaled(-dy, z);
        lemma_floor_div_scaled(dx, z);
        assert(u.x == (-dy) / z && u.y == dx / z);
        assert(m.apply(u).x == z * (dx / z) + m.tx);
        assert(m.apply(u).y == (-z) * ((-dy) / z) + m.ty);
    }
}

/// With a zoom greater than zero, converting a point by the rounded inverse
/// of an up-to-date transform and then by the transform moves no coordinate
/// by as much as the zoom; with a zoom of one the point comes back exactly.
pub proof fn law_floor_then_unproject(camera: Camera, p: Point)
    requires
        camera.cached() == camera.target(),
        camera.zoom > 0,
    ensures
        -camera.zoom < camera.cached().apply(camera.cached().unapply(p)).x - p.x < camera.zoom,
        -camera.zoom < camera.cached().apply(camera.cached().unapply(p)).y - p.y < camera.zoom,
        camera.zoom == 1 ==> camera.cached().apply(camera.cached().unapply(p)) == p,
{
    lemma_target_entries(camera);
    lemma_similarity_round_trip(camera.cached(), camera.zoom as int, camera.rotation as int, p);
}

/// Rounding down the quotient of `z * e + z * z * k` by `z * z` gives `k`
/// more than rounding down the quotient of `e` by `z`.
proof fn lemma_floor_div_shift(e: int, z: int, k: int)
    requires
        z != 0,
    ensures
        z * z > 0,
        floor_div(z * e + (z * z) * k, z * z) == k + floor_div(e, z),
{
    lemma_zoom_squared(z);
    if z > 0 {
        let q = e / z;
        let r = e % z;
        lemma_fundamental_div_mod(e, z);
        assert(z * e + (z * z) * k == (q + k) * (z * z) + z * r && 0 <= z * r < z * z)
            by (nonlinear_arith)
            requires
                e == z * q + r,
                0 <= r < z,
        ;
        lemma_fundamental_div_mod_converse(z * e + (z * z) * k, z * z, q + k, z * r);
    } else {
        let w = -z;
        let q = (-e) / w;
        let r = (-e) % w;
        lemma_fundamental_div_mod(-e, w);
        assert(z * e + (z * z) * k == (q + k) * (z * z) + w * r && 0 <= w * r < z * z)
            by (nonlinear_arith)
            requires
                -e == w * q + r,
                0 <= r < w,
                w == -z,
        ;
        lemma_fundamental_div_mod_converse(z * e + (z * z) * k, z * z, q + k, w * r);
    }
}

/// What `unproject_lattice` computes from an up-to-date transform, in terms of the
/// camera's fields: the offset from `position`, turned by `rotation`,
/// stretched by `zoom` and laid off from the centre of the viewport.
pub proof fn law_unproject_lattice_from_fields(camera: Camera, p: Point)
    requires
        camera.cached() == camera.target(),
    ensures
        camera.cached().apply(p) == ({
            let v = turned(
                Point { x: p.x - camera.position.x, y: p.y - camera.position.y },
                camera.rotation as int,
            );
            Point { x: camera.center().x + camera.zoom * v.x, y: camera.center().y + camera.zoom * v.y }
        }),
{
    lemma_target_entries(camera);
    let m = camera.target();
    let z = camera.zoom as int;
    let q = camera.rotation as int;
    let px = camera.position.x as int;
    let py = camera.position.y as int;
    let c = camera.center();
    let v = turned(Point { x: p.x - px, y: p.y - py }, q);
    assert(m.a * px + m.b * py + m.tx == c.x && m.c * px + m.d * py + m.ty == c.y);
    if q % 4 == 0 {
        assert(m.a == z && m.b == 0 && m.c == 0 && m.d == z);
    } else if q % 4 == 1 {
        assert(m.a == 0 && m.b == -z && m.c == z && m.d == 0);
    } else if q % 4 == 2 {
        assert(m.a == -z && m.b == 0 && m.c == 0 && m.d == -z);
    } else {
        assert(q % 4 == 3);
        assert(m.a == 0 && m.b == z && m.c == -z && m.d == 0);
    }
    assert(m.a * p.x + m.b * p.y + m.tx == c.x + z * v.x && m.c * p.x + m.d * p.y + m.ty == c.y + z
        * v.y) by (nonlinear_arith)
        requires
            m.a * px + m.b * py + m.tx == c.x,
            m.c * px + m.d * py + m.ty == c.y,
            (m.a == z && m.b == 0 && m.c == 0 && m.d == z && v.x == p.x - px && v.y == p.y - py)
                || (m.a == 0 && m.b == -z && m.c == z && m.d == 0 && v.x == -(p.y - py) && v.y
                == p.x - px) || (m.a == -z && m.b == 0 && m.c == 0 && m.d == -z && v.x == -(p.x
                - px) && v.y == -(p.y - py)) || (m.a == 0 && m.b == z && m.c == -z && m.d == 0
                && v.x == p.y - py && v.y == -(p.x - px)),
    ;
}

/// The numerators of the exact preimage under an up-to-date transform, in
/// terms of the camera's fields.
proof fn lemma_project_numerators(camera: Camera, p: Point)
    requires
        camera.cached() == camera.target(),
        camera.zoom != 0,
    ensures
        ({
            let v = turned(
                Point { x: p.x - camera.center().x, y: p.y - camera.center().y },
                -(camera.rotation as int),
            );
            &&& camera.target().preimage_num_x(p) == camera.zoom * v.x + (camera.zoom
                * camera.zoom) * camera.position.x
            &&& camera.target().preimage_num_y(p) == camera.zoom * v.y + (camera.zoom
                * camera.zoom) * camera.position.y
        }),
{
    lemma_target_entries(camera);
    let m = camera.target();
    let z = camera.zoom as int;
    let q = camera.rotation as int;
    let px = camera.position.x as int;
    let py = camera.position.y as int;
    let c = camera.center();
    let dx = p.x - c.x;
    let dy = p.y - c.y;
    let v = turned(Point { x: dx, y: dy }, -q);
    assert(m.a * px + m.b * py + m.tx == c.x && m.c * px + m.d * py + m.ty == c.y);
    assert(m.preimage_num_x(p) == m.d * (p.x - m.tx) - m.b * (p.y - m.ty));
    assert(m.preimage_num_y(p) == m.a * (p.y - m.ty) - m.c * (p.x - m.tx));
    if q % 4 == 0 {
        assert(m.a == z && m.b == 0 && m.c == 0 && m.d == z);
        assert(v.x == dx && v.y == dy);
        assert(m.preimage_num_x(p) == z * v.x + (z * z) * px && m.preimage_num_y(p) == z * v.y + (z
            * z) * py) by (nonlinear_arith)
            requires
                m.preimage_num_x(p) == m.d * (p.x - m.tx) - m.b * (p.y - m.ty),
                m.preimage_num_y(p) == m.a * (p.y - m.ty) - m.c * (p.x - m.tx),
                m.a * px + m.b * py + m.tx == c.x,
                m.c * px + m.d * py + m.ty == c.y,
                m.a == z && m.b == 0 && m.c == 0 && m.d == z,
                v.x == p.x - c.x && v.y == p.y - c.y,
        ;
    } else if q % 4 == 1 {
        assert(m.a == 0 && m.b == -z && m.c == z && m.d == 0);
        assert((-q) % 4 == 3);
        assert(v.x == dy && v.y == -dx);
        assert(m.preimage_num_x(p) == z * v.x + (z * z) * px && m.preimage_num_y(p) == z * v.y + (z
            * z) * py) by (nonlinear_arith)
            requires
                m.preimage_num_x(p) == m.d * (p.x - m.tx) - m.b * (p.y - m.ty),
                m.preimage_num_y(p) == m.a * (p.y - m.ty) - m.c * (p.x - m.tx),
                m.a * px + m.b * py + m.tx == c.x,
                m.c * px + m.d * py + m.ty == c.y,
                m.a == 0 && m.b == -z && m.c == z && m.d == 0,
                v.x == p.y - c.y && v.y == -(p.x - c.x),
        ;
    } else if q % 4 == 2 {
        assert(m.a == -z && m.b == 0 && m.c == 0 && m.d == -z);
        assert((-q) % 4 == 2);
        assert(v.x == -dx && v.y == -dy);
        assert(m.preimage_num_x(p) == z * v.x + (z * z) * px && m.preimage_num_y(p) == z * v.y + (z
            * z) * py) by (nonlinear_arith)
            requires
                m.preimage_num_x(p) == m.d * (p.x - m.tx) - m.b * (p.y - m.ty),
                m.preimage_num_y(p) == m.a * (p.y - m.ty) - m.c * (p.x - m.tx),
                m.a * px + m.b * py + m.tx == c.x,
                m.c * px + m.d * py + m.ty == c.y,
                m.a == -z && m.b == 0 && m.c == 0 && m.d == -z,
                v.x == -(p.x - c.x) && v.y == -(p.y - c.y),
        ;
    } else {
        assert(q % 4 == 3);
        assert(m.a == 0 && m.b == z && m.c == -z && m.d == 0);
        assert((-q) % 4 == 1);
        assert(v.x == -dy && v.y == dx);
        assert(m.preimage_num_x(p) == z * v.x + (z * z) * px && m.preimage_num_y(p) == z * v.y + (z
            * z) * py) by (nonlinear_arith)
            requires
                m.preimage_num_x(p) == m.d * (p.x - m.tx) - m.b * (p.y - m.ty),
                m.preimage_num_y(p) == m.a * (p.y - m.ty) - m.c * (p.x - m.tx),
                m.a * px + m.b * py + m.tx == c.x,
                m.c * px + m.d * py + m.ty == c.y,
                m.a == 0 && m.b == z && m.c == -z && m.d == 0,
                v.x == -(p.y - c.y) && v.y == p.x - c.x,
        ;
    }
}

/// What `project_floor` computes from an up-to-date transform with a zoom other
/// than zero, in terms of the camera's fields: the offset from the centre of
/// the viewport, turned back by `rotation`, divided by `zoom` with each
/// coordinate rounded down, and laid off from `position`.
pub proof fn law_project_floor_from_fields(camera: Camera, p: Point)
    requires
        camera.cached() == camera.target(),
        camera.zoom != 0,
    ensures
        camera.cached().det() != 0,
        camera.cached().unapply(p) == ({
            let v = turned(
                Point { x: p.x - camera.center().x, y: p.y - camera.center().y },
                -(camera.rotation as int),
            );
            Point {
                x: camera.position.x + floor_div(v.x, camera.zoom as int),
                y: camera.position.y + floor_div(v.y, camera.zoom as int),
            }
        }),
{
    let z = camera.zoom as int;
    let v = turned(
        Point { x: p.x - camera.center().x, y: p.y - camera.center().y },
        -(camera.rotation as int),
    );
    lemma_target_entries(camera);
    lemma_project_numerators(camera, p);
    lemma_floor_div_shift(v.x, z, camera.position.x as int);
    lemma_floor_div_shift(v.y, z, camera.position.y as int);
}

/// Scaling numerators and denominator by the same number other than zero
/// leaves a point where it is.
pub proof fn lemma_scaled_same(p: Fraction2, k: int)
    requires
        k != 0,
        p.den != 0,
    ensures
        p.scaled(k).same(p),
{
    assert((k * p.x) * p.den == p.x * (k * p.den) && (k * p.y) * p.den == p.y * (k * p.den) && k
        * p.den != 0) by (nonlinear_arith)
        requires
            k != 0,
            p.den != 0,
    ;
}

/// A matrix times its adjugate is the determinant, row by row.
proof fn lemma_adjugate(a: int, b: int, c: int, d: int, x: int, y: int)
    ensures
        a * (d * x - b * y) + b * (a * y - c * x) == (a * d - b * c) * x,
        c * (d * x - b * y) + d * (a * y - c * x) == (a * d - b * c) * y,
        d * (a * x + b * y) - b * (c * x + d * y) == (a * d - b * c) * x,
        a * (c * x + d * y) - c * (a * x + b * y) == (a * d - b * c) * y,
{
    assert(a * (d * x - b * y) + b * (a * y - c * x) == (a * d - b * c) * x) by (nonlinear_arith);
    assert(c * (d * x - b * y) + d * (a * y - c * x) == (a * d - b * c) * y) by (nonlinear_arith);
    assert(d * (a * x + b * y) - b * (c * x + d * y) == (a * d - b * c) * x) by (nonlinear_arith);
    assert(a * (c * x + d * y) - c * (a * x + b * y) == (a * d - b * c) * y) by (nonlinear_arith);
}

/// Moving a point back by `t` and forward again, over a common denominator.
proof fn lemma_shift(k: int, t: int, n: int, x: int)
    ensures
        k * (x - t * n) + t * (k * n) == k * x,
{
    assert(k * (x - t * n) + t * (k * n) == k * x) by (nonlinear_arith);
}

/// The exact preimage of `p`, carried forward again, is `p` with numerators
/// and denominator multiplied by the determinant.
pub proof fn lemma_image_of_preimage(m: Affine, p: Fraction2)
    ensures
        m.image(m.preimage(p)) == p.scaled(m.det()),
{
    let ex = p.x - m.tx * p.den;
    let ey = p.y - m.ty * p.den;
    lemma_adjugate(m.a, m.b, m.c, m.d, ex, ey);
    lemma_shift(m.det(), m.tx, p.den, p.x);
    lemma_shift(m.det(), m.ty, p.den, p.y);
}

/// The image of `p`, carried back exactly, is `p` with numerators and
/// denominator multiplied by the determinant.
pub proof fn lemma_preimage_of_image(m: Affine, p: Fraction2)
    ensures
        m.preimage(m.image(p)) == p.scaled(m.det()),
{
    lemma_adjugate(m.a, m.b, m.c, m.d, p.x, p.y);
}

/// Twice a multiple of a midpoint is the sum of the multiples of the ends.
proof fn lemma_half_sum(u: int, s: int, t: int, h: int)
    requires
        2 * h == s + t,
    ensures
        2 * (u * h) == u * s + u * t,
{
    assert(2 * (u * h) == u * s + u * t) by (nonlinear_arith)
        requires
            2 * h == s + t,
    ;
}

/// With a zoom greater than zero, `project` and `unproject` of an
/// up-to-date camera undo each other exactly, in either order, on every
/// point: each round trip gives the point back, with numerators and
/// denominator multiplied by the determinant.
pub proof fn law_project_and_unproject_are_inverse(camera: Camera, p: Fraction2)
    requires
        camera.cached() == camera.target(),
        camera.zoom > 0,
        p.den != 0,
    ensures
        camera.cached().image(camera.cached().preimage(p)).same(p),
        camera.cached().preimage(camera.cached().image(p)).same(p),
        camera.cached().image(camera.cached().preimage(p)) == p.scaled(camera.zoom * camera.zoom),
        camera.cached().preimage(camera.cached().image(p)) == p.scaled(camera.zoom * camera.zoom),
{
    lemma_target_entries(camera);
    lemma_zoom_squared(camera.zoom as int);
    lemma_image_of_preimage(camera.cached(), p);
    lemma_preimage_of_image(camera.cached(), p);
    lemma_scaled_same(p, camera.cached().det());
}

/// `project` and `unproject` carry midpoints to midpoints: where `mid` lies
/// halfway between `a` and `b`, all three over one denominator, so do their
/// results.
pub proof fn law_midpoints(m: Affine, a: Fraction2, b: Fraction2, mid: Fraction2)
    requires
        a.den == mid.den,
        b.den == mid.den,
        2 * mid.x == a.x + b.x,
        2 * mid.y == a.y + b.y,
    ensures
        m.preimage(a).den == m.preimage(mid).den,
        m.preimage(b).den == m.preimage(mid).den,
        2 * m.preimage(mid).x == m.preimage(a).x + m.preimage(b).x,
        2 * m.preimage(mid).y == m.preimage(a).y + m.preimage(b).y,
        m.image(a).den == m.image(mid).den,
        m.image(b).den == m.image(mid).den,
        2 * m.image(mid).x == m.image(a).x + m.image(b).x,
        2 * m.image(mid).y == m.image(a).y + m.image(b).y,
{
    let sx = m.tx * mid.den;
    let sy = m.ty * mid.den;
    lemma_half_sum(m.a, a.x, b.x, mid.x);
    lemma_half_sum(m.b, a.y, b.y, mid.y);
    lemma_half_sum(m.c, a.x, b.x, mid.x);
    lemma_half_sum(m.d, a.y, b.y, mid.y);
    lemma_half_sum(m.d, a.x - sx, b.x - sx, mid.x - sx);
    lemma_half_sum(m.b, a.y - sy, b.y - sy, mid.y - sy);
    lemma_half_sum(m.a, a.y - sy, b.y - sy, mid.y - sy);
    lemma_half_sum(m.c, a.x - sx, b.x - sx, mid.x - sx);
}

/// A lattice point within `i32` is within reach of `project` and of
/// `unproject`, and so is what the other one makes of it.
pub proof fn law_lattice_points_are_in_reach(m: Affine, p: Point)
    requires
        m.compact(),
        p.representable(),
    ensures
        Fraction2::lattice(p).fits_preimage(),
        Fraction2::lattice(p).fits_image(),
        m.preimage(Fraction2::lattice(p)).fits_image(),
        m.image(Fraction2::lattice(p)).fits_preimage(),
{
    let ex = p.x - m.tx * 1;
    let ey = p.y - m.ty * 1;
    lemma_bounded_product(m.d, ex, 0x8000_0000, 0x4000_0000_c000_0000);
    lemma_bounded_product(m.b, ey, 0x8000_0000, 0x4000_0000_c000_0000);
    lemma_bounded_product(m.a, ey, 0x8000_0000, 0x4000_0000_c000_0000);
    lemma_bounded_product(m.c, ex, 0x8000_0000, 0x4000_0000_c000_0000);
    lemma_bounded_product(m.a, m.d, 0x8000_0000, 0x8000_0000);
    lemma_bounded_product(m.b, m.c, 0x8000_0000, 0x8000_0000);
    lemma_bounded_product(m.a, p.x, 0x8000_0000, 0x8000_0000);
    lemma_bounded_product(m.b, p.y, 0x8000_0000, 0x8000_0000);
    lemma_bounded_product(m.c, p.x, 0x8000_0000, 0x8000_0000);
    lemma_bounded_product(m.d, p.y, 0x8000_0000, 0x8000_0000);
    assert(m.det() * 1 == m.det());
}

/// What `project` computes from an up-to-date transform with a zoom other
/// than zero, in terms of the camera's fields: the offset of a lattice point
/// from the centre of the viewport, turned back by `rotation` and divided by
/// `zoom`, laid off from `position`.
pub proof fn law_project_from_fields(camera: Camera, p: Point)
    requires
        camera.cached() == camera.target(),
        camera.zoom != 0,
    ensures
        camera.cached().preimage(Fraction2::lattice(p)).same(
            ({
                let v = turned(
                    Point { x: p.x - camera.center().x, y: p.y - camera.center().y },
                    -(camera.rotation as int),
                );
                Fraction2 {
                    x: camera.zoom * camera.position.x + v.x,
                    y: camera.zoom * camera.position.y + v.y,
                    den: camera.zoom as int,
                }
            }),
        ),
{
    let m = camera.cached();
    let z = camera.zoom as int;
    let px = camera.position.x as int;
    let py = camera.position.y as int;
    let v = turned(
        Point { x: p.x - camera.center().x, y: p.y - camera.center().y },
        -(camera.rotation as int),
    );
    let q = m.preimage(Fraction2::lattice(p));
    lemma_target_entries(camera);
    lemma_project_numerators(camera, p);
    assert(q.x == m.preimage_num_x(p) && q.y == m.preimage_num_y(p) && q.den == z * z);
    assert(q.den != 0 && q.x * z == (z * px + v.x) * q.den && q.y * z == (z * py + v.y) * q.den)
        by (nonlinear_arith)
        requires
            z != 0,
            q.den == z * z,
            q.x == z * v.x + (z * z) * px,
            q.y == z * v.y + (z * z) * py,
    ;
}

/// Writing the fields of a camera leaves the cached transform as it was:
/// only `update` rebuilds it.
pub proof fn law_cache_outlives_field_writes(
    camera: Camera,
    position: Vec2,
    rotation: i32,
    zoom: i32,
    viewport_width: i32,
    viewport_height: i32,
)
    ensures
        (Camera {
            position,
            rotation,
            zoom,
            viewport_width,
            viewport_height,
            matrix: camera.matrix,
        }).cached() == camera.cached(),
{
}

/// Two cameras at the origin, not rotated, the second with twice the zoom
/// of the first: where two pairs of points appear the same displacement
/// apart in their viewports, the pair of the second camera lies half as far
/// apart as the pair of the first.
pub proof fn law_double_zoom_halves_extent(
    first: Camera,
    second: Camera,
    a1: Point,
    b1: Point,
    a2: Point,
    b2: Point,
)
    requires
        first.rotation == 0,
        second.rotation == 0,
        first.position == (Vec2 { x: 0, y: 0 }),
        second.position == (Vec2 { x: 0, y: 0 }),
        first.zoom != 0,
        second.zoom == 2 * first.zoom,
        first.target().apply(a1).x - first.target().apply(b1).x == second.target().apply(a2).x
            - second.target().apply(b2).x,
        first.target().apply(a1).y - first.target().apply(b1).y == second.target().apply(a2).y
            - second.target().apply(b2).y,
    ensures
        a1.x - b1.x == 2 * (a2.x - b2.x),
        a1.y - b1.y == 2 * (a2.y - b2.y),
{
    lemma_target_entries(first);
    lemma_target_entries(second);
    let z = first.zoom as int;
    let m1 = first.target();
    let m2 = second.target();
    assert(m1.a == z && m1.b == 0 && m1.c == 0 && m1.d == z);
    assert(m2.a == 2 * z && m2.b == 0 && m2.c == 0 && m2.d == 2 * z);
    assert(a1.x - b1.x == 2 * (a2.x - b2.x)) by (nonlinear_arith)
        requires
            z != 0,
            z * a1.x + 0 * a1.y + m1.tx - (z * b1.x + 0 * b1.y + m1.tx) == (2 * z) * a2.x + 0
                * a2.y + m2.tx - ((2 * z) * b2.x + 0 * b2.y + m2.tx),
    ;
    assert(a1.y - b1.y == 2 * (a2.y - b2.y)) by (nonlinear_arith)
        requires
            z != 0,
            0 * a1.x + z * a1.y + m1.ty - (0 * b1.x + z * b1.y + m1.ty) == 0 * a2.x + (2 * z)
                * a2.y + m2.ty - (0 * b2.x + (2 * z) * b2.y + m2.ty),
    ;
}

} // verus!
