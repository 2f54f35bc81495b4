use vstd::prelude::*;

use crate::player::PlayerState;
use crate::screen_map::{bevy_of_tiled, MapView, PixelPoint, ScreenMap};

verus! {

/// The way a moving platform goes.
#[derive(Debug, Clone, Copy, PartialEq, Eq, Structural)]
pub enum MovingPlatformDirection {
    Left,
    Right,
    Up,
    Down,
    Clockwise,
    Anticlockwise,
}

/// How a moving platform moves: between two abscissas, between two
/// ordinates, or round a center. Linear speeds are in pixels a second,
/// rotation speeds in radians a second.
#[derive(Debug, Clone, Copy, PartialEq, Eq, Structural)]
pub enum MovingPlatformMovement {
    LeftRight { direction: MovingPlatformDirection, max_right: i64, max_left: i64, speed: u32 },
    UpDown { direction: MovingPlatformDirection, max_down: i64, max_up: i64, speed: u32 },
    Circle { direction: MovingPlatformDirection, center: PixelPoint, speed: u32 },
}

/// A moving platform: where it starts and how it moves.
#[derive(Debug, Clone, Copy, PartialEq, Eq, Structural)]
pub struct MovingPlatform {
    pub start_pos: PixelPoint,
    pub movement: MovingPlatformMovement,
}

/// The sign of a platform's move in a frame and the way it goes next, from
/// the way it goes and whether it is still short of the bound it heads for.
/// A platform at its bound stays in place for the frame and turns back.
/// Going "up", a platform moves towards lower ordinates until `max_down`,
/// going "down" towards higher ones until `max_up`. A platform going round
/// turns clockwise (positive) or anticlockwise (negative).
pub open spec fn platform_step_spec(direction: MovingPlatformDirection, short_of_bound: bool) -> (int, MovingPlatformDirection) {
    match direction {
        MovingPlatformDirection::Left => if short_of_bound {
            (-1, direction)
        } else {
            (0, MovingPlatformDirection::Right)
        },
        MovingPlatformDirection::Right => if short_of_bound {
            (1, direction)
        } else {
            (0, MovingPlatformDirection::Left)
        },
        MovingPlatformDirection::Up => if short_of_bound {
            (-1, direction)
        } else {
            (0, MovingPlatformDirection::Down)
        },
        MovingPlatformDirection::Down => if short_of_bound {
            (1, direction)
        } else {
            (0, MovingPlatformDirection::Up)
        },
        MovingPlatformDirection::Clockwise => (1, direction),
        MovingPlatformDirection::Anticlockwise => (-1, direction),
    }
}

/// A frame of a moving platform: the sign of its move and the way it goes
/// next.
pub fn platform_step(direction: MovingPlatformDirection, short_of_bound: bool) -> (r: (i8, MovingPlatformDirection))
    ensures
        (r.0 as int, r.1) == platform_step_spec(direction, short_of_bound),
{
    match direction {
        MovingPlatformDirection::Left => if short_of_bound {
            (-1, direction)
        } else {
            (0, MovingPlatformDirection::Right)
        },
        MovingPlatformDirection::Right => if short_of_bound {
            (1, direction)
        } else {
            (0, MovingPlatformDirection::Left)
        },
        MovingPlatformDirection::Up => if short_of_bound {
            (-1, direction)
        } else {
            (0, MovingPlatformDirection::Down)
        },
        MovingPlatformDirection::Down => if short_of_bound {
            (1, direction)
        } else {
            (0, MovingPlatformDirection::Up)
        },
        MovingPlatformDirection::Clockwise => (1, direction),
        MovingPlatformDirection::Anticlockwise => (-1, direction),
    }
}

/// A platform that reaches a bound turns back, and reaching the other bound
/// brings it back to its first way; while short of its bound it keeps its
/// way.
pub proof fn lemma_platform_turns_back(d: MovingPlatformDirection)
    requires
        d != MovingPlatformDirection::Clockwise && d != MovingPlatformDirection::Anticlockwise,
    ensures
        platform_step_spec(d, false).1 != d,
        platform_step_spec(platform_step_spec(d, false).1, false).1 == d,
        platform_step_spec(d, true).1 == d,
        platform_step_spec(d, true).0 != 0,
{
}

/// Whether the player, idling on the platform that moves down in this frame,
/// is told of the descent (to follow the platform down).
pub fn reports_descent(on_this_platform: bool, moving_down: bool, state: PlayerState) -> (b: bool)
    ensures
        b == (on_this_platform && moving_down && state == PlayerState::Idling),
{
    on_this_platform && moving_down && state == PlayerState::Idling
}

/// A right answer to the enigma of story 05 starts the platforms that move
/// up and down and were waiting at rest, at 200 pixels a second.
pub fn start_platform(p: &mut MovingPlatform)
    ensures
        final(p).start_pos == old(p).start_pos,
        final(p).movement == match old(p).movement {
            MovingPlatformMovement::UpDown { direction, max_down, max_up, speed } => if speed == 0 {
                MovingPlatformMovement::UpDown { direction, max_down, max_up, speed: 200 }
            } else {
                old(p).movement
            },
            m => m,
        },
{
    if let MovingPlatformMovement::UpDown { direction, max_down, max_up, speed } = p.movement {
        if speed == 0 {
            p.movement = MovingPlatformMovement::UpDown { direction, max_down, max_up, speed: 200 };
        }
    }
}

/// The moving platforms of a level, as in the level's map (Tiled
/// coordinates, bounds as the Tiled coordinate they hold).
pub open spec fn platform_table(level: int) -> Seq<MovingPlatform> {
    if level == 1 {
        seq![
            MovingPlatform {
                start_pos: PixelPoint { x: 2145, y: 550 },
                movement: MovingPlatformMovement::UpDown {
                    direction: MovingPlatformDirection::Up,
                    max_down: 575,
                    max_up: 335,
                    speed: 100,
                },
            },
            MovingPlatform {
                start_pos: PixelPoint { x: 5750, y: 368 },
                movement: MovingPlatformMovement::Circle {
                    direction: MovingPlatformDirection::Anticlockwise,
                    center: PixelPoint { x: 5875, y: 368 },
                    speed: 1,
                },
            },
            MovingPlatform {
                start_pos: PixelPoint { x: 6165, y: 368 },
                movement: MovingPlatformMovement::Circle {
                    direction: MovingPlatformDirection::Clockwise,
                    center: PixelPoint { x: 6290, y: 368 },
                    speed: 2,
                },
            },
            MovingPlatform {
                start_pos: PixelPoint { x: 6515, y: 368 },
                movement: MovingPlatformMovement::LeftRight {
                    direction: MovingPlatformDirection::Right,
                    max_right: 6915,
                    max_left: 6515,
                    speed: 250,
                },
            },
            MovingPlatform {
                start_pos: PixelPoint { x: 7100, y: 400 },
                movement: MovingPlatformMovement::UpDown {
                    direction: MovingPlatformDirection::Up,
                    max_down: 549,
                    max_up: 400,
                    speed: 0,
                },
            },
        ]
    } else if level == 3 {
        seq![
            MovingPlatform {
                start_pos: PixelPoint { x: 5920, y: 576 },
                movement: MovingPlatformMovement::Circle {
                    direction: MovingPlatformDirection::Clockwise,
                    center: PixelPoint { x: 5920, y: 451 },
                    speed: 1,
                },
            },
            MovingPlatform {
                start_pos: PixelPoint { x: 5920, y: 326 },
                movement: MovingPlatformMovement::Circle {
                    direction: MovingPlatformDirection::Clockwise,
                    center: PixelPoint { x: 5920, y: 451 },
                    speed: 1,
                },
            },
        ]
    } else {
        Seq::empty()
    }
}

/// The point in game coordinates.
pub open spec fn placed_point(m: MapView, p: PixelPoint) -> PixelPoint {
    PixelPoint { x: bevy_of_tiled(m, p.x as int, p.y as int).0 as i64, y: bevy_of_tiled(m, p.x as int, p.y as int).1 as i64 }
}

/// A platform of the table, in game coordinates on the map `m`: points are
/// converted, abscissa bounds as abscissas and ordinate bounds as
/// ordinates.
pub open spec fn placed_platform(m: MapView, p: MovingPlatform) -> MovingPlatform {
    MovingPlatform {
        start_pos: placed_point(m, p.start_pos),
        movement: match p.movement {
            MovingPlatformMovement::LeftRight { direction, max_right, max_left, speed } =>
                MovingPlatformMovement::LeftRight {
                direction,
                max_right: bevy_of_tiled(m, max_right as int, 0).0 as i64,
                max_left: bevy_of_tiled(m, max_left as int, 0).0 as i64,
                speed,
            },
            MovingPlatformMovement::UpDown { direction, max_down, max_up, speed } =>
                MovingPlatformMovement::UpDown {
                direction,
                max_down: bevy_of_tiled(m, 0, max_down as int).1 as i64,
                max_up: bevy_of_tiled(m, 0, max_up as int).1 as i64,
                speed,
            },
            MovingPlatformMovement::Circle { direction, center, speed } =>
                MovingPlatformMovement::Circle { direction, center: placed_point(m, center), speed },
        },
    }
}

/// `true` when all the coordinates of the platform are small enough to
/// convert.
pub open spec fn platform_fits(p: MovingPlatform) -> bool {
    &&& 0 <= p.start_pos.x <= 100_000 && 0 <= p.start_pos.y <= 100_000
    &&& match p.movement {
        MovingPlatformMovement::LeftRight { max_right, max_left, .. } => 0 <= max_right <= 100_000 && 0
            <= max_left <= 100_000,
        MovingPlatformMovement::UpDown { max_down, max_up, .. } => 0 <= max_down <= 100_000 && 0
            <= max_up <= 100_000,
        MovingPlatformMovement::Circle { center, .. } => 0 <= center.x <= 100_000 && 0 <= center.y
            <= 100_000,
    }
}

fn place_point(map: &ScreenMap, p: PixelPoint) -> (r: PixelPoint)
    requires
        0 <= p.x <= 100_000 && 0 <= p.y <= 100_000,
    ensures
        r == placed_point(map@, p),
{
    map.tiled_to_bevy_coord(p)
}

/// A platform in game coordinates on `map`.
fn place_platform(map: &ScreenMap, p: &MovingPlatform) -> (r: MovingPlatform)
    requires
        platform_fits(*p),
    ensures
        r == placed_platform(map@, *p),
{
    let start_pos = place_point(map, p.start_pos);
    let movement = match p.movement {
        MovingPlatformMovement::LeftRight { direction, max_right, max_left, speed } => {
            let r = map.tiled_to_bevy_coord(PixelPoint { x: max_right, y: 0 });
            let l = map.tiled_to_bevy_coord(PixelPoint { x: max_left, y: 0 });
            MovingPlatformMovement::LeftRight { direction, max_right: r.x, max_left: l.x, speed }
        },
        MovingPlatformMovement::UpDown { direction, max_down, max_up, speed } => {
            let d = map.tiled_to_bevy_coord(PixelPoint { x: 0, y: max_down });
            let u = map.tiled_to_bevy_coord(PixelPoint { x: 0, y: max_up });
            MovingPlatformMovement::UpDown { direction, max_down: d.y, max_up: u.y, speed }
        },
        MovingPlatformMovement::Circle { direction, center, speed } => {
            MovingPlatformMovement::Circle { direction, center: place_point(map, center), speed }
        },
    };
    MovingPlatform { start_pos, movement }
}

fn tiled_platforms(level: u8) -> (r: Vec<MovingPlatform>)
    ensures
        r@ == platform_table(level as int),
{
    if level == 1 {
        let v = vec![
            MovingPlatform {
                start_pos: PixelPoint { x: 2145, y: 550 },
                movement: MovingPlatformMovement::UpDown {
                    direction: MovingPlatformDirection::Up,
                    max_down: 575,
                    max_up: 335,
                    speed: 100,
                },
            },
            MovingPlatform {
                start_pos: PixelPoint { x: 5750, y: 368 },
                movement: MovingPlatformMovement::Circle {
                    direction: MovingPlatformDirection::Anticlockwise,
                    center: PixelPoint { x: 5875, y: 368 },
                    speed: 1,
                },
            },
            MovingPlatform {
                start_pos: PixelPoint { x: 6165, y: 368 },
                movement: MovingPlatformMovement::Circle {
                    direction: MovingPlatformDirection::Clockwise,
                    center: PixelPoint { x: 6290, y: 368 },
                    speed: 2,
                },
            },
            MovingPlatform {
                start_pos: PixelPoint { x: 6515, y: 368 },
                movement: MovingPlatformMovement::LeftRight {
                    direction: MovingPlatformDirection::Right,
                    max_right: 6915,
                    max_left: 6515,
                    speed: 250,
                },
            },
            MovingPlatform {
                start_pos: PixelPoint { x: 7100, y: 400 },
                movement: MovingPlatformMovement::UpDown {
                    direction: MovingPlatformDirection::Up,
                    max_down: 549,
                    max_up: 400,
                    speed: 0,
                },
            },
        ];
        assert(v@ =~= platform_table(1));
        v
    } else if level == 3 {
        let v = vec![
            MovingPlatform {
                start_pos: PixelPoint { x: 5920, y: 576 },
                movement: MovingPlatformMovement::Circle {
                    direction: MovingPlatformDirection::Clockwise,
                    center: PixelPoint { x: 5920, y: 451 },
                    speed: 1,
                },
            },
            MovingPlatform {
                start_pos: PixelPoint { x: 5920, y: 326 },
                movement: MovingPlatformMovement::Circle {
                    direction: MovingPlatformDirection::Clockwise,
                    center: PixelPoint { x: 5920, y: 451 },
                    speed: 1,
                },
            },
        ];
        assert(v@ =~= platform_table(3));
        v
    } else {
        let v: Vec<MovingPlatform> = Vec::new();
        assert(v@ =~= platform_table(level as int));
        v
    }
}

/// The moving platforms of `level`, in game coordinates on `map`.
pub fn setup_moving_platforms(level: u8, map: &ScreenMap) -> (r: Vec<MovingPlatform>)
    ensures
        r@.len() == platform_table(level as int).len(),
        forall|i: int|
            0 <= i < r@.len() ==> #[trigger] r@[i] == placed_platform(map@, platform_table(level as int)[i]),
{
    let table = tiled_platforms(level);
    let mut out: Vec<MovingPlatform> = Vec::new();
    for i in 0..table.len()
        invariant
            table@ == platform_table(level as int),
            out@.len() == i,
            forall|k: int| 0 <= k < i ==> #[trigger] out@[k] == placed_platform(map@, table@[k]),
    {
        assert(platform_fits(table@[i as int]));
        out.push(place_platform(map, &table[i]));
    }
    out
}

} // verus!
