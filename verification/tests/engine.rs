use raycaster::angle::cos_hd;
use raycaster::angle::normalize_hd;
use raycaster::angle::sin_hd;
use raycaster::camera::apply_event;
use raycaster::camera::Camera;
use raycaster::camera::InputEvent;
use raycaster::color::column_color;
use raycaster::frame::render_frame;
use raycaster::grid::TileMap;
use raycaster::raycast::cast;
use raycaster::raycast::cast_ray;
use raycaster::raycast::column_ray_dir;
use raycaster::raycast::isqrt;
use raycaster::raycast::wall_slice;

/// A 24x24 closed box with a few extra solid tiles for aiming at.
fn boxed_map(extra: &[(usize, usize, u8)]) -> TileMap {
    let mut tiles: Vec<u8> = Vec::new();
    for j in 0..24 {
        for i in 0..24 {
            if i == 0 || j == 0 || i == 23 || j == 23 {
                tiles.push(1);
            } else {
                tiles.push(0);
            }
        }
    }
    for &(i, j, v) in extra {
        tiles[j * 24 + i] = v;
    }
    TileMap::new(tiles, 24, 24).unwrap()
}

#[test]
fn normalize_stays_in_half_open_turn() {
    assert_eq!(normalize_hd(0), 0);
    assert_eq!(normalize_hd(360), 360);
    assert_eq!(normalize_hd(-360), 360);
    assert_eq!(normalize_hd(361), -359);
    assert_eq!(normalize_hd(720), 0);
    assert_eq!(normalize_hd(-100000), 80);
    assert_eq!(normalize_hd(100000), -80);
}

#[test]
fn rotate_wraps_into_range() {
    let mut cam = Camera { pos_x: 12288, pos_y: 12288, angle: 0 };
    cam.rotate(5);
    assert_eq!(cam.angle, -5);
    cam.rotate(-10);
    assert_eq!(cam.angle, 5);
    cam.angle = 360;
    cam.rotate(-5);
    assert_eq!(cam.angle, -355);
    cam.angle = 0;
    cam.rotate(100000);
    assert_eq!(cam.angle, 80);
    assert!(-360 < cam.angle && cam.angle <= 360);
    cam.angle = 0;
    cam.rotate(-100000);
    assert_eq!(cam.angle, -80);
    assert!(-360 < cam.angle && cam.angle <= 360);
}

#[test]
fn trig_quarter_turns_are_exact() {
    assert_eq!(sin_hd(0), 0);
    assert_eq!(sin_hd(180), 1024);
    assert_eq!(sin_hd(-180), -1024);
    assert_eq!(sin_hd(360), 0);
    assert_eq!(cos_hd(0), 1024);
    assert_eq!(cos_hd(180), 0);
    assert_eq!(cos_hd(360), -1024);
    assert_eq!(cos_hd(-180), 0);
}

#[test]
fn facing_dir_follows_angle() {
    let cam = Camera { pos_x: 12288, pos_y: 12288, angle: 0 };
    assert_eq!(cam.facing_dir(), (-1024, 0));
    let cam = Camera { pos_x: 12288, pos_y: 12288, angle: 180 };
    assert_eq!(cam.facing_dir(), (0, -1024));
    let cam = Camera { pos_x: 12288, pos_y: 12288, angle: 360 };
    assert_eq!(cam.facing_dir(), (1024, 0));
}

#[test]
fn isqrt_brackets_squares() {
    assert_eq!(isqrt(0), 0);
    assert_eq!(isqrt(1), 1);
    assert_eq!(isqrt(3), 1);
    assert_eq!(isqrt(4), 2);
    assert_eq!(isqrt(8), 2);
    assert_eq!(isqrt(9), 3);
    assert_eq!(isqrt(1024 * 1024), 1024);
    assert_eq!(isqrt(0x1_0000_0000), 0x1_0000);
}

#[test]
fn axis_aligned_ray_reports_side_and_distance() {
    // Camera a quarter tile into cell (12, 12), ray straight along +x into a
    // wall one tile ahead: the vertical grid line is crossed first and the
    // perpendicular distance is one minus the sub-tile offset.
    let map = boxed_map(&[(13, 12, 2), (12, 13, 1)]);
    let hit = cast_ray(&map, 12 * 1024 + 256, 12 * 1024 + 512, 1024, 0);
    assert_eq!(hit.side, 0);
    assert_eq!(hit.hit_val, 2);
    assert_eq!(hit.perp_dist, 768); // 1.0 - 0.25 tiles
    assert_eq!((hit.hit_x, hit.hit_y), (13, 12));
    // Straight along +y into a wall one tile ahead: horizontal grid line.
    let hit = cast_ray(&map, 12 * 1024 + 256, 12 * 1024 + 512, 0, 1024);
    assert_eq!(hit.side, 1);
    assert_eq!(hit.hit_val, 1);
    assert_eq!(hit.perp_dist, 512); // 1.0 - 0.5 tiles
    assert_eq!((hit.hit_x, hit.hit_y), (12, 13));
}

#[test]
fn zero_fov_keeps_camera_direction_for_every_column() {
    for x in [0usize, 1, 160, 320, 639, 640] {
        assert_eq!(column_ray_dir(-1024, 0, 0, x, 640), (-1024, 0));
        assert_eq!(column_ray_dir(0, -1024, 0, x, 640), (0, -1024));
        assert_eq!(column_ray_dir(723, -723, 0, x, 640), (723, -723));
    }
}

#[test]
fn slice_length_non_increasing_with_distance() {
    let (s1, l1) = wall_slice(1024, 1024, 480);
    let (s2, l2) = wall_slice(2048, 1024, 480);
    let (s3, l3) = wall_slice(4096, 1024, 480);
    let (_s4, l4) = wall_slice(100 * 1024, 1024, 480);
    assert_eq!(l1, 480);
    assert_eq!(l2, 240);
    assert_eq!(l3, 120);
    assert!(l1 >= l2 && l2 >= l3 && l3 >= l4);
    assert_eq!(s1, 0);
    assert_eq!(s2, 120);
    assert_eq!(s3, 180);
}

#[test]
fn wall_bands_are_vertically_centered() {
    for dist in [768i64, 1024, 2048, 4096, 11264, 100 * 1024] {
        let (start, length) = wall_slice(dist, 1024, 480);
        if length <= 480 {
            assert_eq!(start + length / 2, 240);
        }
    }
}

#[test]
fn zero_distance_fills_the_column() {
    let (start, length) = wall_slice(0, 1024, 480);
    assert_eq!(length, u32::MAX);
    assert_eq!(start, 0);
}

#[test]
fn move_into_margin_is_rejected() {
    let map = boxed_map(&[]);
    // Facing -x from a position whose candidate step would put the one-tile
    // margin onto the border ring: the move must be a silent no-op.
    let mut cam = Camera { pos_x: 1536, pos_y: 12288, angle: 0 };
    cam.try_move(-1024, 0, true, &map);
    assert_eq!(cam.pos_x, 1536);
    assert_eq!(cam.pos_y, 12288);
    // The same step away from the border commits.
    let mut cam = Camera { pos_x: 12288, pos_y: 12288, angle: 0 };
    cam.try_move(-1024, 0, true, &map);
    assert_eq!(cam.pos_x, 11264);
    assert_eq!(cam.pos_y, 12288);
    // Backward movement is checked the same way.
    let mut cam = Camera { pos_x: 1536, pos_y: 12288, angle: 360 };
    cam.try_move(1024, 0, false, &map);
    assert_eq!(cam.pos_x, 1536);
    assert_eq!(cam.pos_y, 12288);
}

#[test]
fn center_column_scenario() {
    // 24x24 box, camera at (12, 12) facing angle zero, 60 degree fov:
    // the center column must strike a solid wall at a finite positive
    // perpendicular distance.
    let map = boxed_map(&[]);
    let ray = column_ray_dir(-1024, 0, 120, 320, 640);
    assert_eq!(ray, (-1024, 0));
    let hit = cast_ray(&map, 12 * 1024, 12 * 1024, ray.0, ray.1);
    assert!(hit.hit_val > 0);
    assert!(hit.perp_dist > 0);
    assert_eq!(hit.hit_val, 1);
    assert_eq!(hit.perp_dist, 11 * 1024);
    assert_eq!(hit.side, 0);
    assert_eq!((hit.hit_x, hit.hit_y), (0, 12));
    let r = cast(320, &map, 12 * 1024, 12 * 1024, -1024, 0, 120, 640, 480);
    assert_eq!(r.hit_val, 1);
    assert_eq!(r.side, 0);
    assert_eq!(r.length, 44);
    assert_eq!(r.start_y, 218);
    assert_eq!(r.start_y + r.length / 2, 240);
}

#[test]
fn colors_follow_tile_code_and_side() {
    assert_eq!(column_color(1, 0), 0xFFFF0000);
    assert_eq!(column_color(2, 0), 0xFF0000FF);
    assert_eq!(column_color(0, 0), 0x00000000);
    assert_eq!(column_color(7, 0), 0x00000000);
    assert_eq!(column_color(1, 1), 0xFFBF0000);
    assert_eq!(column_color(2, 1), 0xFF0000BF);
    assert_eq!(column_color(0, 1), 0xFF000000);
}

#[test]
fn map_loader_accepts_only_closed_boxes() {
    let mut tiles: Vec<u8> = Vec::new();
    for j in 0..5 {
        for i in 0..5 {
            if i == 0 || j == 0 || i == 4 || j == 4 {
                tiles.push(9);
            } else {
                tiles.push(0);
            }
        }
    }
    let ok = TileMap::new(tiles.clone(), 5, 5);
    assert!(ok.is_some());
    assert_eq!(ok.unwrap().tile(0, 0), 9);
    // A hole in the border is refused.
    let mut open = tiles.clone();
    open[2] = 0;
    assert!(TileMap::new(open, 5, 5).is_none());
    // A grid that does not fill the dimensions is refused.
    assert!(TileMap::new(tiles.clone(), 5, 6).is_none());
    // Dimensions too small to have an interior are refused.
    assert!(TileMap::new(vec![1, 1, 1, 1], 2, 2).is_none());
}

#[test]
fn place_accepts_only_valid_cameras() {
    let map = boxed_map(&[]);
    assert!(Camera::place(&map, 12288, 12288, 0).is_some());
    assert!(Camera::place(&map, 12288, 12288, 360).is_some());
    // Angle outside the normalized range is refused.
    assert!(Camera::place(&map, 12288, 12288, 361).is_none());
    assert!(Camera::place(&map, 12288, 12288, -360).is_none());
    // Positions whose one-tile margin leaves the interior are refused.
    assert!(Camera::place(&map, 512, 12288, 0).is_none());
    assert!(Camera::place(&map, 12288, 23 * 1024, 0).is_none());
    let cam = Camera::place(&map, 1024, 12288, 0).unwrap();
    assert_eq!(cam.pos_x, 1024);
}

#[test]
fn bordered_map_layout() {
    let map = TileMap::bordered(24, 24);
    assert_eq!(map.tile(0, 0), 1);
    assert_eq!(map.tile(23, 0), 1);
    assert_eq!(map.tile(0, 23), 1);
    assert_eq!(map.tile(23, 23), 1);
    assert_eq!(map.tile(12, 0), 1);
    assert_eq!(map.tile(12, 12), 0);
    assert_eq!(map.tile(1, 1), 0);
}

#[test]
fn events_drive_camera_and_quit() {
    let map = boxed_map(&[]);
    let mut cam = Camera { pos_x: 12288, pos_y: 12288, angle: 0 };
    assert!(apply_event(&mut cam, &InputEvent::Quit, &map));
    assert!(apply_event(&mut cam, &InputEvent::PressEscape, &map));
    assert_eq!(cam.angle, 0);
    assert!(!apply_event(&mut cam, &InputEvent::TurnRight, &map));
    assert_eq!(cam.angle, -5);
    assert!(!apply_event(&mut cam, &InputEvent::TurnLeft, &map));
    assert_eq!(cam.angle, 0);
    assert!(!apply_event(&mut cam, &InputEvent::MouseTurn(7), &map));
    assert_eq!(cam.angle, -7);
    assert!(!apply_event(&mut cam, &InputEvent::MouseTurn(-7), &map));
    assert_eq!(cam.angle, 0);
    // Forward along -x moves one whole tile; backward moves back.
    assert!(!apply_event(&mut cam, &InputEvent::StepForward, &map));
    assert_eq!((cam.pos_x, cam.pos_y), (11264, 12288));
    assert!(!apply_event(&mut cam, &InputEvent::StepBackward, &map));
    assert_eq!((cam.pos_x, cam.pos_y), (12288, 12288));
    assert!(!apply_event(&mut cam, &InputEvent::Other, &map));
    assert_eq!((cam.pos_x, cam.pos_y, cam.angle), (12288, 12288, 0));
}

#[test]
fn frame_has_one_centered_band_per_column() {
    let map = boxed_map(&[]);
    let cam = Camera { pos_x: 12288, pos_y: 12288, angle: 0 };
    let v = render_frame(&map, &cam, 120, 640, 480);
    assert_eq!(v.len(), 640);
    for (k, band) in v.iter().enumerate() {
        assert_eq!(band.x, k);
        if band.length <= 480 {
            assert_eq!(band.start_y + band.length / 2, 240);
        }
        // Every ray hits the border box, so every band is a wall color.
        assert!(
            band.color == 0xFFFF0000 || band.color == 0xFFBF0000
        );
    }
}
