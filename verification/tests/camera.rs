use camera2d::camera::Camera;
use camera2d::math::Mat;
use camera2d::math::Ratio;
use camera2d::math::Ratio2;
use camera2d::math::Vec2;

fn camera(px: i32, py: i32, rotation: i32, zoom: i32, w: i32, h: i32) -> Camera {
    let mut c = Camera::new(w, h);
    c.position = Vec2::new(px, py);
    c.rotation = rotation;
    c.zoom = zoom;
    c.update();
    c
}

#[test]
fn new_has_default_fields() {
    let c = Camera::new(800, 600);
    assert_eq!(c.position, Vec2::new(0, 0));
    assert_eq!(c.rotation, 0);
    assert_eq!(c.zoom, 1);
    assert_eq!(c.viewport_width, 800);
    assert_eq!(c.viewport_height, 600);
}

#[test]
fn new_maps_origin_to_viewport_center_without_update() {
    let c = Camera::new(800, 600);
    assert_eq!(c.as_matrix(), Mat { a: 1, b: 0, c: 0, d: 1, tx: 400, ty: 300 });
    assert_eq!(c.unproject_lattice(Vec2::new(0, 0)), Vec2::new(400, 300));
    let d = Camera::new(1024, 2);
    assert_eq!(d.unproject_lattice(Vec2::new(0, 0)), Vec2::new(512, 1));
}

#[test]
fn new_halves_odd_and_negative_sizes_towards_zero() {
    assert_eq!(Camera::new(801, 3).as_matrix(), Mat { a: 1, b: 0, c: 0, d: 1, tx: 400, ty: 1 });
    assert_eq!(Camera::new(-801, -3).as_matrix(), Mat { a: 1, b: 0, c: 0, d: 1, tx: -400, ty: -1 });
    assert_eq!(
        Camera::new(i32::MIN, i32::MAX).as_matrix(),
        Mat { a: 1, b: 0, c: 0, d: 1, tx: -1073741824, ty: 1073741823 }
    );
}

#[test]
fn update_after_new_changes_nothing() {
    let mut c = Camera::new(800, 600);
    let before = c.as_matrix();
    c.update();
    assert_eq!(c.as_matrix(), before);
}

#[test]
fn with_window_size_forwards_to_new() {
    let c = Camera::with_window_size(1280, 720);
    assert_eq!(c.viewport_width, 1280);
    assert_eq!(c.viewport_height, 720);
    assert_eq!(c.position, Vec2::zero());
    assert_eq!(c.rotation, 0);
    assert_eq!(c.zoom, 1);
    assert_eq!(c.as_matrix(), Camera::new(1280, 720).as_matrix());
}

#[test]
fn set_viewport_size_waits_for_update() {
    let mut c = Camera::new(800, 600);
    c.set_viewport_size(200, 100);
    assert_eq!(c.viewport_width, 200);
    assert_eq!(c.viewport_height, 100);
    assert_eq!(c.as_matrix(), Mat { a: 1, b: 0, c: 0, d: 1, tx: 400, ty: 300 });
    c.update();
    assert_eq!(c.as_matrix(), Mat { a: 1, b: 0, c: 0, d: 1, tx: 100, ty: 50 });
}

#[test]
fn update_composes_translate_rotate_scale_translate() {
    // position (10, 20), one quarter turn, zoom 3, viewport 800 x 600:
    // (x, y) -> (x - 10, y - 20) -> (20 - y, x - 10) -> (60 - 3y, 3x - 30)
    //        -> (460 - 3y, 3x + 270)
    let c = camera(10, 20, 1, 3, 800, 600);
    assert_eq!(c.as_matrix(), Mat { a: 0, b: -3, c: 3, d: 0, tx: 460, ty: 270 });
    let c = camera(10, 20, 0, 3, 800, 600);
    assert_eq!(c.as_matrix(), Mat { a: 3, b: 0, c: 0, d: 3, tx: 370, ty: 240 });
    let c = camera(10, 20, 2, 3, 800, 600);
    assert_eq!(c.as_matrix(), Mat { a: -3, b: 0, c: 0, d: -3, tx: 430, ty: 360 });
    let c = camera(10, 20, 3, 3, 800, 600);
    assert_eq!(c.as_matrix(), Mat { a: 0, b: 3, c: -3, d: 0, tx: 340, ty: 330 });
}

#[test]
fn rotation_counts_quarter_turns_modulo_four() {
    let base = camera(10, 20, 1, 3, 800, 600).as_matrix();
    assert_eq!(camera(10, 20, 5, 3, 800, 600).as_matrix(), base);
    assert_eq!(camera(10, 20, -3, 3, 800, 600).as_matrix(), base);
    assert_eq!(camera(10, 20, -7, 3, 800, 600).as_matrix(), base);
    assert_eq!(
        camera(10, 20, -1, 3, 800, 600).as_matrix(),
        camera(10, 20, 3, 3, 800, 600).as_matrix()
    );
    assert_eq!(
        camera(10, 20, i32::MIN, 3, 800, 600).as_matrix(),
        camera(10, 20, 0, 3, 800, 600).as_matrix()
    );
    assert_eq!(
        camera(10, 20, i32::MAX, 3, 800, 600).as_matrix(),
        camera(10, 20, 3, 3, 800, 600).as_matrix()
    );
}

#[test]
fn quarter_turn_and_zoom_move_the_axes() {
    // a quarter turn carries (1, 0) to (0, 1), and the zoom doubles it
    let c = camera(0, 0, 1, 2, 0, 0);
    assert_eq!(c.unproject_lattice(Vec2::new(1, 0)), Vec2::new(0, 2));
    assert_eq!(c.unproject_lattice(Vec2::new(0, 1)), Vec2::new(-2, 0));
}

#[test]
fn scenario_default_camera_800_by_600() {
    let c = camera(0, 0, 0, 1, 800, 600);
    // the cached transform carries world to viewport, `unproject_lattice` applies it
    assert_eq!(c.unproject_lattice(Vec2::new(0, 0)), Vec2::new(400, 300));
    assert_eq!(c.unproject_lattice(Vec2::new(400, 300)), Vec2::new(800, 600));
    assert_eq!(c.unproject_lattice(Vec2::new(-400, -300)), Vec2::new(0, 0));
    // `project_floor` applies its inverse
    assert_eq!(c.project_floor(Vec2::new(400, 300)), Vec2::new(0, 0));
    assert_eq!(c.project_floor(Vec2::new(0, 0)), Vec2::new(-400, -300));
    assert_eq!(c.project_floor(Vec2::new(-400, -300)), Vec2::new(-800, -600));
}

#[test]
fn scenario_moved_and_zoomed_camera() {
    let c = camera(100, 0, 0, 2, 800, 600);
    assert_eq!(c.as_matrix(), Mat { a: 2, b: 0, c: 0, d: 2, tx: 200, ty: 300 });
    assert_eq!(c.project_floor(Vec2::new(400, 300)), Vec2::new(100, 0));
    assert_eq!(c.unproject_lattice(Vec2::new(100, 0)), Vec2::new(400, 300));
    assert_eq!(c.unproject_lattice(Vec2::new(400, 300)), Vec2::new(1000, 900));
}

#[test]
fn position_lands_on_center_for_every_rotation_and_zoom() {
    let zooms: [i32; 5] = [1, 2, 7, -3, 1000];
    for rotation in -4..8 {
        for zoom in zooms {
            let c = camera(123, -45, rotation, zoom, 801, 600);
            assert_eq!(c.unproject_lattice(c.position), Vec2::new(400, 300));
            assert_eq!(c.project_floor(Vec2::new(400, 300)), c.position);
        }
    }
}

#[test]
fn untransformed_camera_on_its_own_center() {
    let c = camera(400, 300, 0, 1, 800, 600);
    assert_eq!(c.unproject_lattice(Vec2::new(400, 300)), Vec2::new(400, 300));
    assert_eq!(c.unproject_lattice(Vec2::new(400, 300)), c.position);
}

#[test]
fn project_floor_undoes_unproject_lattice_exactly() {
    let zooms: [i32; 4] = [1, 2, 5, 64];
    for rotation in 0..4 {
        for zoom in zooms {
            let c = camera(17, -9, rotation, zoom, 640, 480);
            for x in -20..20 {
                for y in -20..20 {
                    let p = Vec2::new(x * 3, y * 7);
                    assert_eq!(c.project_floor(c.unproject_lattice(p)), p);
                }
            }
        }
    }
}

#[test]
fn unproject_lattice_undoes_project_floor_within_the_zoom() {
    let zooms: [i32; 4] = [1, 2, 5, 64];
    for rotation in 0..4 {
        for zoom in zooms {
            let c = camera(17, -9, rotation, zoom, 640, 480);
            for x in -30..30 {
                for y in -30..30 {
                    let p = Vec2::new(x * 11, y * 13);
                    let r = c.unproject_lattice(c.project_floor(p));
                    assert!((r.x - p.x).abs() < zoom);
                    assert!((r.y - p.y).abs() < zoom);
                    if zoom == 1 {
                        assert_eq!(r, p);
                    }
                }
            }
        }
    }
}

#[test]
fn project_floor_rounds_down() {
    let c = camera(0, 0, 0, 2, 0, 0);
    assert_eq!(c.project_floor(Vec2::new(3, -3)), Vec2::new(1, -2));
    assert_eq!(c.project_floor(Vec2::new(-1, 1)), Vec2::new(-1, 0));
    assert_eq!(c.project_floor(Vec2::new(4, -4)), Vec2::new(2, -2));
    // half a turn: the exact preimage of (3, -3) is (-1.5, 1.5)
    let c = camera(0, 0, 2, 2, 0, 0);
    assert_eq!(c.project_floor(Vec2::new(3, -3)), Vec2::new(-2, 1));
    // a negative zoom is invertible too
    let c = camera(0, 0, 0, -2, 0, 0);
    assert_eq!(c.project_floor(Vec2::new(3, -3)), Vec2::new(-2, 1));
}

#[test]
fn doubling_zoom_halves_world_extent() {
    let one = camera(0, 0, 0, 3, 800, 600);
    let two = camera(0, 0, 0, 6, 800, 600);
    // both pairs appear (60, 120) apart in the viewport
    let (a1, b1) = (Vec2::new(25, 50), Vec2::new(5, 10));
    let (a2, b2) = (Vec2::new(17, 13), Vec2::new(7, -7));
    let d1 = (one.unproject_lattice(a1).x - one.unproject_lattice(b1).x, one.unproject_lattice(a1).y - one.unproject_lattice(b1).y);
    let d2 = (two.unproject_lattice(a2).x - two.unproject_lattice(b2).x, two.unproject_lattice(a2).y - two.unproject_lattice(b2).y);
    assert_eq!(d1, (60, 120));
    assert_eq!(d2, (60, 120));
    assert_eq!(a1.x - b1.x, 2 * (a2.x - b2.x));
    assert_eq!(a1.y - b1.y, 2 * (a2.y - b2.y));
    // and in terms of `project_floor`: the same viewport points come from half as far apart
    let (v, w) = (Vec2::new(460, 420), Vec2::new(400, 300));
    assert_eq!(one.project_floor(v).x - one.project_floor(w).x, 20);
    assert_eq!(two.project_floor(v).x - two.project_floor(w).x, 10);
    assert_eq!(one.project_floor(v).y - one.project_floor(w).y, 40);
    assert_eq!(two.project_floor(v).y - two.project_floor(w).y, 20);
}

#[test]
fn matrix_is_stale_until_update() {
    let mut c = Camera::new(800, 600);
    let before = c.as_matrix();
    c.position = Vec2::new(50, 60);
    assert_eq!(c.as_matrix(), before);
    assert_eq!(c.unproject_lattice(Vec2::new(0, 0)), Vec2::new(400, 300));
    c.rotation = 1;
    c.zoom = 4;
    assert_eq!(c.as_matrix(), before);
    c.update();
    assert_ne!(c.as_matrix(), before);
    assert_eq!(c.as_matrix(), Mat { a: 0, b: -4, c: 4, d: 0, tx: 640, ty: 100 });
    assert_eq!(c.unproject_lattice(Vec2::new(50, 60)), Vec2::new(400, 300));
}

#[test]
fn clone_keeps_fields_and_cache() {
    let c = camera(10, 20, 1, 3, 800, 600);
    let d = c.clone();
    assert_eq!(d.position, c.position);
    assert_eq!(d.rotation, c.rotation);
    assert_eq!(d.zoom, c.zoom);
    assert_eq!(d.as_matrix(), c.as_matrix());
}

#[test]
fn zero_zoom_has_no_inverse() {
    let c = camera(5, 5, 0, 0, 800, 600);
    assert_eq!(c.as_matrix(), Mat { a: 0, b: 0, c: 0, d: 0, tx: 400, ty: 300 });
    assert_eq!(c.checked_project_floor(Vec2::new(1, 2)), None);
    assert_eq!(c.checked_unproject_lattice(Vec2::new(1, 2)), Some(Vec2::new(400, 300)));
}

#[test]
fn checked_lattice_conversions_agree_with_the_plain_ones() {
    let c = camera(100, 0, 3, 2, 800, 600);
    for x in -5..5 {
        for y in -5..5 {
            let p = Vec2::new(x * 37, y * 41);
            assert_eq!(c.checked_project_floor(p), Some(c.project_floor(p)));
            assert_eq!(c.checked_unproject_lattice(p), Some(c.unproject_lattice(p)));
        }
    }
}

#[test]
fn checked_lattice_conversions_refuse_results_beyond_i32() {
    let c = camera(0, 0, 0, 2, 0, 0);
    assert_eq!(c.checked_unproject_lattice(Vec2::new(i32::MAX, 0)), None);
    assert_eq!(c.checked_unproject_lattice(Vec2::new(0, i32::MIN)), None);
    assert_eq!(c.checked_unproject_lattice(Vec2::new(1073741823, -1073741824)), Some(Vec2::new(2147483646, i32::MIN)));
    assert_eq!(c.checked_project_floor(Vec2::new(i32::MAX, i32::MIN)), Some(Vec2::new(1073741823, -1073741824)));
    let far = camera(i32::MIN, i32::MIN, 0, 1, 0, 0);
    assert_eq!(far.as_matrix(), Mat { a: 1, b: 0, c: 0, d: 1, tx: 2147483648, ty: 2147483648 });
    assert_eq!(far.checked_project_floor(Vec2::new(i32::MIN, i32::MIN)), None);
    assert_eq!(far.checked_project_floor(Vec2::new(i32::MAX, i32::MAX)), Some(Vec2::new(-1, -1)));
}

#[test]
fn update_takes_the_extremes_of_every_field() {
    let ends: [i32; 3] = [i32::MIN, 0, i32::MAX];
    for px in ends {
        for zoom in ends {
            for rotation in 0..4 {
                for w in ends {
                    let c = camera(px, i32::MIN, rotation, zoom, w, i32::MAX);
                    assert_eq!(c.position, Vec2::new(px, i32::MIN));
                    assert_eq!(c.zoom, zoom);
                    assert!(c.as_matrix().is_compact());
                    let back = c.checked_unproject_lattice(c.position);
                    assert_eq!(back, Some(Vec2::new(w / 2, 1073741823)));
                }
            }
        }
    }
    let c = camera(i32::MIN, i32::MIN, 0, i32::MIN, 0, 0);
    assert_eq!(
        c.as_matrix(),
        Mat {
            a: -2147483648,
            b: 0,
            c: 0,
            d: -2147483648,
            tx: -4611686018427387904,
            ty: -4611686018427387904
        }
    );
}

#[test]
fn mouse_position_projects_the_pointer() {
    let c = camera(100, 0, 0, 2, 800, 600);
    let pointer = Vec2::new(410, 290);
    assert_eq!(c.mouse_position(pointer), Ratio2 { x: 420, y: -20, den: 4 });
    assert_eq!(c.mouse_position(pointer), c.project(Ratio2::lattice(pointer)));
    assert_eq!(c.mouse_x(pointer), Ratio { num: 420, den: 4 });
    assert_eq!(c.mouse_y(pointer), Ratio { num: -20, den: 4 });
    let turned = camera(100, 0, 1, 2, 800, 600);
    assert_eq!(turned.mouse_position(pointer), Ratio2 { x: 380, y: -20, den: 4 });
    assert_eq!(turned.mouse_x(pointer), Ratio { num: 380, den: 4 });
    assert_eq!(turned.mouse_y(pointer), Ratio { num: -20, den: 4 });
}

fn same(a: Ratio2, b: Ratio2) -> bool {
    a.den != 0 && b.den != 0 && a.x * b.den == b.x * a.den && a.y * b.den == b.y * a.den
}

#[test]
fn project_gives_the_exact_preimage() {
    // twice the identity: the preimage of (1, 0) is (1/2, 0)
    let c = camera(0, 0, 0, 2, 0, 0);
    let p = Ratio2::lattice(Vec2::new(1, 0));
    assert_eq!(p, Ratio2 { x: 1, y: 0, den: 1 });
    let q = c.project(p);
    assert_eq!(q, Ratio2 { x: 2, y: 0, den: 4 });
    assert!(same(q, Ratio2 { x: 1, y: 0, den: 2 }));
    assert_eq!(c.unproject(q), Ratio2 { x: 4, y: 0, den: 4 });
    assert!(same(c.unproject(q), p));
    // default camera, 800 x 600
    let d = camera(0, 0, 0, 1, 800, 600);
    assert_eq!(d.project(Ratio2::lattice(Vec2::new(400, 300))), Ratio2 { x: 0, y: 0, den: 1 });
    assert_eq!(d.project(Ratio2::lattice(Vec2::new(0, 0))), Ratio2 { x: -400, y: -300, den: 1 });
    assert_eq!(d.unproject(Ratio2::lattice(Vec2::new(-400, -300))), Ratio2 { x: 0, y: 0, den: 1 });
    assert_eq!(d.unproject(Ratio2::lattice(Vec2::new(400, 300))), Ratio2 { x: 800, y: 600, den: 1 });
    // moved and zoomed
    let e = camera(100, 0, 0, 2, 800, 600);
    assert!(same(e.project(Ratio2::lattice(Vec2::new(400, 300))), Ratio2 { x: 100, y: 0, den: 1 }));
    assert_eq!(e.unproject(Ratio2::lattice(Vec2::new(400, 300))), Ratio2 { x: 1000, y: 900, den: 1 });
    // a point that is no lattice point: (1/3, 5/3)
    assert_eq!(e.unproject(Ratio2 { x: 1, y: 5, den: 3 }), Ratio2 { x: 602, y: 910, den: 3 });
    assert_eq!(e.project(Ratio2 { x: 602, y: 910, den: 3 }), Ratio2 { x: 4, y: 20, den: 12 });
}

#[test]
fn project_and_unproject_undo_each_other_exactly() {
    let zooms: [i32; 5] = [1, 2, 5, 64, -3];
    for rotation in -1..5 {
        for zoom in zooms {
            let c = camera(17, -9, rotation, zoom, 641, 480);
            for x in -12..12 {
                for y in -12..12 {
                    for den in [1, 2, 7, -3] {
                        let p = Ratio2 { x: x * 11 + 1, y: y * 13 - 5, den };
                        assert!(same(c.unproject(c.project(p)), p));
                        assert!(same(c.project(c.unproject(p)), p));
                        let det = c.as_matrix().determinant();
                        let scaled = Ratio2 { x: det * p.x, y: det * p.y, den: det * p.den };
                        assert_eq!(c.unproject(c.project(p)), scaled);
                        assert_eq!(c.project(c.unproject(p)), scaled);
                    }
                }
            }
        }
    }
}

#[test]
fn project_carries_midpoints_to_midpoints() {
    let c = camera(0, 0, 0, 2, 0, 0);
    let a = c.project(Ratio2::lattice(Vec2::new(1, 0)));
    let b = c.project(Ratio2::lattice(Vec2::new(3, 0)));
    let mid = c.project(Ratio2::lattice(Vec2::new(2, 0)));
    assert_eq!((a.den, b.den), (mid.den, mid.den));
    assert_eq!(2 * mid.x, a.x + b.x);
    assert_eq!(2 * mid.y, a.y + b.y);
    let t = camera(31, -7, 3, 5, 640, 480);
    for x in -5..5 {
        for y in -5..5 {
            let a = Ratio2 { x: 2 * x + 1, y: 3 * y, den: 4 };
            let b = Ratio2 { x: 7 - 2 * x, y: y + 2, den: 4 };
            let mid = Ratio2 { x: 4, y: 2 * y + 1, den: 4 };
            let (pa, pb, pm) = (t.project(a), t.project(b), t.project(mid));
            assert_eq!((pa.den, pb.den), (pm.den, pm.den));
            assert_eq!((2 * pm.x, 2 * pm.y), (pa.x + pb.x, pa.y + pb.y));
            let (ua, ub, um) = (t.unproject(a), t.unproject(b), t.unproject(mid));
            assert_eq!((ua.den, ub.den), (um.den, um.den));
            assert_eq!((2 * um.x, 2 * um.y), (ua.x + ub.x, ua.y + ub.y));
        }
    }
}

#[test]
fn project_with_zero_zoom_has_denominator_zero() {
    let c = camera(5, 5, 0, 0, 800, 600);
    let q = c.project(Ratio2::lattice(Vec2::new(1, 2)));
    assert_eq!(q, Ratio2 { x: 0, y: 0, den: 0 });
    assert_eq!(c.unproject(Ratio2::lattice(Vec2::new(1, 2))), Ratio2 { x: 400, y: 300, den: 1 });
}

#[test]
fn project_floor_is_the_floor_of_project() {
    let zooms: [i32; 4] = [1, 2, 7, -3];
    for rotation in 0..4 {
        for zoom in zooms {
            let c = camera(3, 4, rotation, zoom, 100, 50);
            for x in -9..9 {
                for y in -9..9 {
                    let p = Vec2::new(x * 5, y * 3 + 1);
                    let q = c.project(Ratio2::lattice(p));
                    let f = c.project_floor(p);
                    let (nx, ny, d) = if q.den > 0 { (q.x, q.y, q.den) } else { (-q.x, -q.y, -q.den) };
                    assert_eq!((f.x as i128, f.y as i128), (nx.div_euclid(d), ny.div_euclid(d)));
                }
            }
        }
    }
}

#[test]
fn checked_conversions_refuse_what_is_out_of_reach() {
    let c = camera(i32::MIN, i32::MAX, 1, i32::MIN, i32::MAX, i32::MIN);
    let corner = Ratio2::lattice(Vec2::new(i32::MAX, i32::MIN));
    let q = c.checked_project(corner);
    assert_eq!(q, Some(c.project(corner)));
    let back = c.checked_unproject(q.unwrap());
    assert_eq!(back, Some(c.unproject(q.unwrap())));
    assert!(same(back.unwrap(), corner));
    let u = c.checked_unproject(corner);
    assert_eq!(u, Some(c.unproject(corner)));
    assert!(same(c.checked_project(u.unwrap()).unwrap(), corner));
    let reach: i128 = 1 << 93;
    assert_eq!(
        c.checked_project(Ratio2 { x: reach, y: -reach, den: 1 << 31 }),
        Some(c.project(Ratio2 { x: reach, y: -reach, den: 1 << 31 }))
    );
    assert_eq!(c.checked_project(Ratio2 { x: reach + 1, y: 0, den: 1 }), None);
    assert_eq!(c.checked_project(Ratio2 { x: 0, y: -reach - 1, den: 1 }), None);
    assert_eq!(c.checked_project(Ratio2 { x: 0, y: 0, den: (1 << 31) + 1 }), None);
    let wide: i128 = (1 << 94) + (1 << 64);
    assert_eq!(
        c.checked_unproject(Ratio2 { x: wide, y: -wide, den: -(1 << 63) }),
        Some(c.unproject(Ratio2 { x: wide, y: -wide, den: -(1 << 63) }))
    );
    assert_eq!(c.checked_unproject(Ratio2 { x: wide + 1, y: 0, den: 1 }), None);
    assert_eq!(c.checked_unproject(Ratio2 { x: 0, y: 0, den: (1 << 63) + 1 }), None);
}

fn turn(x: i32, y: i32, quarter_turns: i32) -> (i32, i32) {
    match quarter_turns.rem_euclid(4) {
        0 => (x, y),
        1 => (-y, x),
        2 => (-x, -y),
        _ => (y, -x),
    }
}

fn floor_quotient(n: i32, d: i32) -> i32 {
    if d > 0 {
        n.div_euclid(d)
    } else {
        (-n).div_euclid(-d)
    }
}

#[test]
fn lattice_conversions_follow_the_fields() {
    let zooms: [i32; 5] = [1, 2, 3, -2, 10];
    for rotation in -4..8 {
        for zoom in zooms {
            let c = camera(13, -8, rotation, zoom, 320, 241);
            for x in -6..6 {
                for y in -6..6 {
                    let p = Vec2::new(x * 17 + 1, y * 19 - 2);
                    let (vx, vy) = turn(p.x - 13, p.y + 8, rotation);
                    assert_eq!(c.unproject_lattice(p), Vec2::new(160 + zoom * vx, 120 + zoom * vy));
                    let (wx, wy) = turn(p.x - 160, p.y - 120, -rotation);
                    assert_eq!(
                        c.project_floor(p),
                        Vec2::new(13 + floor_quotient(wx, zoom), -8 + floor_quotient(wy, zoom))
                    );
                }
            }
        }
    }
}
