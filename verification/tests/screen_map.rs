use rock_run::screen_map::{motion_between, Motion, PixelPoint, Screen, ScreenMap, Transition};

fn px(x: i64, y: i64) -> PixelPoint {
    PixelPoint { x, y }
}

#[allow(clippy::too_many_arguments)]
fn assert_screen(
    screen: &Screen,
    x_range: (i64, i64),
    y_range: (i64, i64),
    indices: (usize, usize),
    start: bool,
    allowed: bool,
    fixed: bool,
    transition: Transition,
) {
    let (xr, yr) = screen.get_ranges();
    assert_eq!((xr.start, xr.end), x_range);
    assert_eq!((yr.start, yr.end), y_range);
    assert_eq!(screen.get_indices(), indices);
    assert_eq!(screen.is_start_screen(), start);
    assert_eq!(screen.is_allowed_screen(), allowed);
    assert_eq!(screen.is_fixed_screen(), fixed);
    assert_eq!(screen.get_transition(), transition);
}

/// Where the camera goes from `old` when `new` is requested (no smoothing).
fn move_camera(map: &ScreenMap, old: (i64, i64), new: (i64, i64)) -> (i64, i64) {
    let (o, n) = (px(old.0, old.1), px(new.0, new.1));
    let mv = map.move_camera(o, n, motion_between(o.x, n.x), motion_between(o.y, n.y));
    let p = mv.target(o, n);
    (p.x, p.y)
}

#[test]
fn test_map_parsing() {
    let screen_width = 1280;
    let screen_height = 720;
    let map = ScreenMap::new("XOX\nSOO\nXXX", screen_width, screen_height);

    assert_eq!(map.width(), 3 * screen_width);
    assert_eq!(map.height(), 3 * screen_height);
    assert_eq!(map.screen_width(), screen_width);
    assert_eq!(map.screen_height(), screen_height);

    let rows = map.screens();
    assert_eq!(rows.len(), 3);
    let x_ranges = [(-1920, -640), (-640, 640), (640, 1920)];
    let y_ranges = [(361, 1081), (-359, 361), (-1079, -359)];
    let allowed = [[false, true, false], [true, true, true], [false, false, false]];
    for (j, row) in rows.iter().enumerate() {
        assert_eq!(row.len(), 3);
        for (i, screen) in row.iter().enumerate() {
            assert_screen(
                screen,
                x_ranges[i],
                y_ranges[j],
                (i, j),
                i == 0 && j == 1,
                allowed[j][i],
                false,
                Transition::Smooth,
            );
        }
    }
}

#[test]
fn test_tiled_to_bevy_coord() {
    let map = ScreenMap::new("XOX\nSOO\nXXX", 1280, 720);

    assert_eq!(map.tiled_to_bevy_coord(px(0, 0)), px(-1920, 1079));
    assert_eq!(map.tiled_to_bevy_coord(px(1919, 0)), px(-1, 1079));
    assert_eq!(map.tiled_to_bevy_coord(px(0, 719)), px(-1920, 360));
    assert_eq!(map.tiled_to_bevy_coord(px(3839, 2159)), px(1919, -1080));
}

#[test]
fn test_tiled_to_bevy_coord2() {
    let map = ScreenMap::new("SO", 1280, 720);

    assert_eq!(map.tiled_to_bevy_coord(px(0, 0)), px(-1280, 359));
    assert_eq!(map.tiled_to_bevy_coord(px(1280, 360)), px(0, -1));
    assert_eq!(map.tiled_to_bevy_coord(px(0, 719)), px(-1280, -360));
    assert_eq!(map.tiled_to_bevy_coord(px(2559, 719)), px(1279, -360));
}

#[test]
fn test_get_screen() {
    let map = ScreenMap::new("XOX\nSOO\nXXX", 1280, 720);

    let screen = map.get_screen(px(0, 0), 0, 0).unwrap();
    assert_screen(screen, (-640, 640), (-359, 361), (1, 1), false, true, false, Transition::Smooth);
}

#[test]
fn test_get_window_points_coord() {
    let map = ScreenMap::new("XOX\nSOO\nXXX", 1280, 720);

    assert_eq!(
        map.get_camera_points_coords(px(0, 0)),
        vec![px(639, -359), px(-640, -359), px(-640, 360), px(639, 360)]
    );
}

#[test]
fn test_move_camera() {
    let map = ScreenMap::new("XXO\nSOO\nOXX", 1280, 720);

    // From middle screen
    // Move to right
    assert_eq!(move_camera(&map, (0, 0), (10, 0)), (10, 0));
    // Move to left
    assert_eq!(move_camera(&map, (0, 0), (-10, 0)), (-10, 0));
    // Move up is not possible so the camera should not move
    assert_eq!(move_camera(&map, (0, 0), (0, 10)), (0, 0));
    // Move down is not possible so the camera should not move
    assert_eq!(move_camera(&map, (0, 0), (0, -10)), (0, 0));
    // Move up and move right: camera should only move on x
    assert_eq!(move_camera(&map, (0, 0), (100, 10)), (100, 0));
    // Move down and move left: camera should only move on x
    assert_eq!(move_camera(&map, (0, 0), (-100, -10)), (-100, 0));

    // From right middle screen
    // Move right is not possible so the camera should not move
    assert_eq!(move_camera(&map, (1280, 0), (1300, 0)), (1280, 0));
    // Move to left
    assert_eq!(move_camera(&map, (1280, 0), (1260, 0)), (1260, 0));
    // Move up
    assert_eq!(move_camera(&map, (1280, 0), (1280, 100)), (1280, 100));
    // Move down is not possible so the camera should not move
    assert_eq!(move_camera(&map, (1280, 0), (1280, -100)), (1280, 0));
    // Move up and move right: only on y, x at the screen center
    assert_eq!(move_camera(&map, (1290, 0), (1300, 150)), (1280, 150));
    // Move down and move left: camera should only move on x
    assert_eq!(move_camera(&map, (1280, 0), (1200, -120)), (1200, 0));
    // Move down and move left: clipped to the screen center
    assert_eq!(move_camera(&map, (1380, 0), (1300, -120)), (1300, 0));
}

#[test]
fn test_get_center() {
    let map = ScreenMap::new("XXO\nSOO\nOXX", 1280, 720);

    assert_eq!(map.get_screen(px(0, 0), 0, 0).unwrap().get_center(), px(0, 0));
    assert_eq!(map.get_screen(px(-1900, 400), 0, 0).unwrap().get_center(), px(-1280, 720));
}

#[test]
fn test_get_start_screen_and_move_camera() {
    let map = ScreenMap::new("XXO\nSOO\nOXX", 1280, 720);

    assert_eq!(map.get_start_screen().get_center(), px(-1280, 0));

    // From left middle screen
    // Move to right
    assert_eq!(move_camera(&map, (-1280, 0), (-1240, 0)), (-1240, 0));
    // Move to left: the camera remains at the screen center
    assert_eq!(move_camera(&map, (-1280, 0), (-1300, 0)), (-1280, 0));
    // Move up and left: the camera remains at the screen center
    assert_eq!(move_camera(&map, (-1290, 0), (-1300, 100)), (-1280, 0));
    // Move down and left: only on y, x at the screen center
    assert_eq!(move_camera(&map, (-1290, 0), (-1300, -250)), (-1280, -250));
}

#[test]
fn test_get_screen_from_index() {
    let map = ScreenMap::new("XXO\nSHO\nOOX", 1280, 720);

    let screen = map.get_screen_from_index(1, 1).unwrap();
    assert_screen(screen, (-640, 640), (-359, 361), (1, 1), false, true, true, Transition::Hard);

    let screen = map.get_screen_from_index(2, 2).unwrap();
    assert_screen(screen, (640, 1920), (-1079, -359), (2, 2), false, false, false, Transition::Smooth);

    assert!(map.get_screen_from_index(2, 3).is_none());
}

#[test]
fn motion_between_gives_the_sign_of_the_change() {
    assert_eq!(motion_between(3, 5), Motion::Forward);
    assert_eq!(motion_between(5, 3), Motion::Backward);
    assert_eq!(motion_between(4, 4), Motion::Still);
}

#[test]
fn get_screen_margins_widen_the_screens() {
    let map = ScreenMap::new("XXO\nSOO\nOXX", 1280, 720);
    // Just above the top row: no screen without margin, the top row with one.
    assert!(map.get_screen(px(0, 1081), 0, 0).is_none());
    let screen = map.get_screen(px(0, 1081), 0, 5).unwrap();
    assert_eq!(screen.get_indices(), (1, 0));
}

#[test]
fn above_and_below_screens() {
    let map = ScreenMap::new("XXO\nSOO\nOXX", 1280, 720);
    let above = map.get_above_screen(px(1280, 0)).unwrap();
    assert_eq!(above.get_indices(), (2, 0));
    let below = map.get_below_screen(px(-1280, 0)).unwrap();
    assert_eq!(below.get_indices(), (0, 2));
    assert!(map.get_above_screen(px(1280, 720)).is_none());
}

#[test]
fn camera_edge_on_screen() {
    let map = ScreenMap::new("XXO\nSOO\nOXX", 1280, 720);
    // Centred on the middle screen, the right edge is on the middle row.
    let points = map.get_camera_points_coords(px(0, 0));
    assert!(map.is_camera_edge_on_screen(&points, (0, 3)));
    // Ten pixels higher, the top edge reaches a forbidden screen.
    let points = map.get_camera_points_coords(px(0, 10));
    assert!(!map.is_camera_edge_on_screen(&points, (2, 3)));
}

#[test]
fn documented_examples() {
    let map = ScreenMap::new("XXO\nSOO\nOXX", 1280, 720);
    assert_eq!(map.get_screen_from_index(1, 1).unwrap().get_center(), px(0, 0));
    assert!(!map.get_screen_from_index(1, 1).unwrap().is_start_screen());
    assert_eq!(map.tiled_to_bevy_coord(px(1920, 1079)), px(0, 0));

    assert_eq!(map.get_screen(px(0, 0), 0, 0).unwrap().get_indices(), (1, 1));
    let screen = map.get_screen(px(0, -1090), 0, 20);
    assert_eq!(screen.unwrap().get_indices(), (1, 2));
    assert!(map.get_screen(px(0, -1090), 0, 0).is_none());

    assert_eq!(map.get_above_screen(px(0, 0)).unwrap().get_indices(), (1, 0));
    assert_eq!(map.get_below_screen(px(0, 0)).unwrap().get_indices(), (1, 2));
}

#[test]
fn screens_looked_up_carry_their_indices() {
    let map = ScreenMap::new("XXO\nSOO\nOXX", 1280, 720);
    for row in 0..3 {
        for col in 0..3 {
            assert_eq!(map.get_screen_from_index(col, row).unwrap().get_indices(), (col, row));
        }
    }
    assert_eq!(map.get_screen(px(-1280, 0), 0, 0).unwrap().get_indices(), (0, 1));
    assert_eq!(map.get_start_screen().get_indices(), (0, 1));
}

#[test]
fn get_screen_finds_nothing_only_far_from_every_screen() {
    let map = ScreenMap::new("XXO\nSOO\nOXX", 1280, 720);
    // The map covers x in -1920..1920 and y in -1079..1081.
    assert!(map.get_screen(px(1920, 0), 0, 0).is_none());
    assert!(map.get_screen(px(1920, 0), 1, 0).is_some());
    assert!(map.get_screen(px(1920, 0), 100, 100).is_some());
    assert!(map.get_screen(px(0, -1080), 0, 0).is_none());
    assert_eq!(map.get_screen(px(0, -1080), 0, 1).unwrap().get_indices(), (1, 2));
}

#[test]
fn a_map_has_a_start_screen_when_its_text_has_an_s() {
    let map = ScreenMap::new("XXO\nOOS\nOSX", 1280, 720);
    // The first 'S', reading rows from the top and each row from the left.
    let start = map.get_start_screen();
    assert!(start.is_start_screen());
    assert_eq!(start.get_indices(), (2, 1));
}

#[test]
fn camera_asked_to_stay_stays() {
    let map = ScreenMap::new("XXO\nSOO\nOXX", 1280, 720);
    for &(x, y) in &[(0, 0), (-1290, 10), (1500, -900), (640, 360)] {
        assert_eq!(move_camera(&map, (x, y), (x, y)), (x, y));
    }
}

#[test]
fn tiled_moves_keep_x_and_mirror_y() {
    let map = ScreenMap::new("XXO\nSOO\nOXX", 1280, 720);
    let p = map.tiled_to_bevy_coord(px(100, 200));
    let q = map.tiled_to_bevy_coord(px(130, 250));
    assert_eq!((q.x - p.x, q.y - p.y), (30, -50));
}

#[test]
fn has_start_screen_tells_whether_the_text_has_an_s() {
    assert!(ScreenMap::new("XXO\nSOO\nOXX", 1280, 720).has_start_screen());
    assert!(!ScreenMap::new("XXO\nOOO\nOXX", 1280, 720).has_start_screen());
}

#[test]
fn new_screens_follow_their_letters() {
    let map = ScreenMap::new("XOS\nFHX", 100, 50);
    let letters = ["XOS", "FHX"];
    for (r, line) in letters.iter().enumerate() {
        for (i, c) in line.chars().enumerate() {
            let s = map.get_screen_from_index(i, r).unwrap();
            assert_eq!(s.get_indices(), (i, r));
            assert_eq!(s.is_allowed_screen(), c != 'X');
            assert_eq!(s.is_start_screen(), c == 'S');
            assert_eq!(s.is_fixed_screen(), c == 'F' || c == 'H');
            assert_eq!(s.get_transition() == Transition::Hard, c == 'H');
        }
    }
}
