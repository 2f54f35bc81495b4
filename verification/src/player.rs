use vstd::prelude::*;

use crate::screen_map::{
    bevy_of_tiled, center_spec, first_start, has_start_screen, point_fits, screen_index_at, PixelPoint,
    ScreenMap,
};
use crate::texture::{
    cycle_next, cycle_texture, swing_direction, swing_next, swing_texture, clamp_frame,
    IndexDirection,
};

verus! {

/// The states of the player.
#[derive(Debug, Clone, Copy, PartialEq, Eq, Structural, Hash)]
pub enum PlayerState {
    Idling,
    Jumping,
    Falling,
    Hit,
    Climbing,
}

impl Default for PlayerState {
    fn default() -> (s: Self)
        ensures
            s == PlayerState::Falling,
    {
        PlayerState::Falling
    }
}

/// A horizontal direction.
#[derive(Debug, Clone, Copy, PartialEq, Eq, Structural, Hash)]
pub enum PlayerDirection {
    Left,
    Right,
}

/// The player's movements, as input actions.
#[derive(Debug, Clone, Copy, PartialEq, Eq, Structural, Hash)]
pub enum PlayerMovement {
    Idle,
    Jump,
    Climb,
    Crouch,
    Run(PlayerDirection),
    Hit,
}

/// The movement actions held or pressed during a frame.
#[derive(Debug, Clone, Copy, PartialEq, Eq, Structural, Default)]
pub struct PlayerInput {
    /// Run left is held.
    pub run_left: bool,
    /// Run right is held.
    pub run_right: bool,
    /// Jump was just pressed.
    pub jump: bool,
    /// Climb (up) is held.
    pub climb: bool,
    /// Crouch (down) is held.
    pub crouch: bool,
}

/// What the player wants to do in a frame: the movement, the direction
/// along each axis (-1, 0 or 1) and whether a jump was asked for.
#[derive(Debug, Clone, Copy, PartialEq, Eq, Structural)]
pub struct PlayerIntent {
    pub movement: PlayerMovement,
    pub direction_x: i8,
    pub direction_y: i8,
    pub jump_requested: bool,
}

impl Default for PlayerIntent {
    fn default() -> (i: Self)
        ensures
            i == (PlayerIntent {
                movement: PlayerMovement::Idle,
                direction_x: 0,
                direction_y: 0,
                jump_requested: false,
            }),
    {
        PlayerIntent { movement: PlayerMovement::Idle, direction_x: 0, direction_y: 0, jump_requested: false }
    }
}

/// The intent of a frame. Later actions win over earlier ones, in the order
/// run left, run right, jump, climb, crouch; climbing and crouching count
/// only on a ladder.
pub open spec fn intent_spec(i: PlayerInput, touching_ladder: bool) -> PlayerIntent {
    let climbs = touching_ladder && i.climb;
    let crouches = touching_ladder && i.crouch;
    PlayerIntent {
        movement: if crouches {
            PlayerMovement::Crouch
        } else if climbs {
            PlayerMovement::Climb
        } else if i.jump {
            PlayerMovement::Jump
        } else if i.run_right {
            PlayerMovement::Run(PlayerDirection::Right)
        } else if i.run_left {
            PlayerMovement::Run(PlayerDirection::Left)
        } else {
            PlayerMovement::Idle
        },
        direction_x: if i.run_right {
            1i8
        } else if i.run_left {
            -1i8
        } else {
            0i8
        },
        direction_y: if crouches {
            -1i8
        } else if climbs {
            1i8
        } else {
            0i8
        },
        jump_requested: i.jump,
    }
}

/// Reads what the player wants to do from the actions of the frame.
pub fn read_player_intent(input: PlayerInput, touching_ladder: bool) -> (r: PlayerIntent)
    ensures
        r == intent_spec(input, touching_ladder),
{
    let mut intent = PlayerIntent::default();
    if input.run_left {
        intent.direction_x = -1;
        intent.movement = PlayerMovement::Run(PlayerDirection::Left);
    }
    if input.run_right {
        intent.direction_x = 1;
        intent.movement = PlayerMovement::Run(PlayerDirection::Right);
    }
    if input.jump {
        intent.jump_requested = true;
        intent.movement = PlayerMovement::Jump;
    }
    if touching_ladder && input.climb {
        intent.direction_y = 1;
        intent.movement = PlayerMovement::Climb;
    }
    if touching_ladder && input.crouch {
        intent.direction_y = -1;
        intent.movement = PlayerMovement::Crouch;
    }
    intent
}

/// Whether a jump starts: the player asked for one and is neither jumping
/// nor falling.
pub fn handle_jump_request(intent: PlayerIntent, state: PlayerState) -> (jump: bool)
    ensures
        jump == (intent.jump_requested && state != PlayerState::Jumping && state
            != PlayerState::Falling),
{
    if !intent.jump_requested || state == PlayerState::Jumping || state == PlayerState::Falling {
        return false;
    }
    true
}

/// Whether the player starts climbing: climbing or crouching while on a
/// ladder.
pub fn starts_climbing(intent: PlayerIntent, touching_ladder: bool) -> (b: bool)
    ensures
        b == ((intent.movement == PlayerMovement::Climb || intent.movement == PlayerMovement::Crouch)
            && touching_ladder),
{
    (intent.movement == PlayerMovement::Climb || intent.movement == PlayerMovement::Crouch)
        && touching_ladder
}

/// How the player looks.
#[derive(Debug, Clone, Copy, PartialEq, Eq, Structural)]
pub enum PlayerVisualState {
    Idle,
    Run,
    Jump,
    Fall,
    Climb,
    ClimbIdle,
    Hit,
}

/// How the player looks, from the state, the intent, and whether the
/// player stands on something (the ground or a platform).
pub open spec fn visual_spec(state: PlayerState, intent: PlayerIntent, grounded: bool) -> PlayerVisualState {
    if state == PlayerState::Hit {
        PlayerVisualState::Hit
    } else if state == PlayerState::Jumping {
        PlayerVisualState::Jump
    } else if state == PlayerState::Falling && !grounded {
        PlayerVisualState::Fall
    } else if state == PlayerState::Climbing {
        if intent.direction_y == 0 {
            PlayerVisualState::ClimbIdle
        } else {
            PlayerVisualState::Climb
        }
    } else {
        match intent.movement {
            PlayerMovement::Run(_) => PlayerVisualState::Run,
            PlayerMovement::Jump => PlayerVisualState::Jump,
            PlayerMovement::Climb | PlayerMovement::Crouch => PlayerVisualState::Climb,
            _ => PlayerVisualState::Idle,
        }
    }
}

/// How the player looks in this frame.
pub fn compute_player_visual_state(state: PlayerState, intent: PlayerIntent, grounded_preview: bool) -> (v:
    PlayerVisualState)
    ensures
        v == visual_spec(state, intent, grounded_preview),
{
    match state {
        PlayerState::Hit => PlayerVisualState::Hit,
        PlayerState::Jumping => PlayerVisualState::Jump,
        PlayerState::Falling if !grounded_preview => PlayerVisualState::Fall,
        PlayerState::Climbing => {
            if intent.direction_y == 0 {
                PlayerVisualState::ClimbIdle
            } else {
                PlayerVisualState::Climb
            }
        },
        _ => match intent.movement {
            PlayerMovement::Run(_) => PlayerVisualState::Run,
            PlayerMovement::Jump => PlayerVisualState::Jump,
            PlayerMovement::Climb | PlayerMovement::Crouch => PlayerVisualState::Climb,
            _ => PlayerVisualState::Idle,
        },
    }
}

/// The state the player goes to at the end of a frame of motion, if it
/// changes: a finished jump turns into a fall, and a fall that meets the
/// ground turns into idling.
pub fn sync_player_state(state: PlayerState, grounded_preview: bool, jump_finished: bool) -> (next:
    Option<PlayerState>)
    ensures
        next == if state == PlayerState::Jumping && jump_finished {
            Some(PlayerState::Falling)
        } else if grounded_preview && state == PlayerState::Falling {
            Some(PlayerState::Idling)
        } else {
            None
        },
{
    let mut next = None;
    if state == PlayerState::Jumping && jump_finished {
        next = Some(PlayerState::Falling);
    }
    if grounded_preview && state == PlayerState::Falling {
        next = Some(PlayerState::Idling);
    }
    next
}

/// Whether the player touches a ladder after the ladder collisions of a
/// frame, and whether the player starts falling (leaving a ladder).
pub fn update_ladder_state(touching_ladder: bool, ladder_start: bool, ladder_stop: bool) -> (r: (
    bool,
    bool,
))
    ensures
        r == (if ladder_stop {
            false
        } else if ladder_start {
            true
        } else {
            touching_ladder
        }, ladder_stop),
{
    let mut touching = touching_ladder;
    if ladder_start {
        touching = true;
    }
    if ladder_stop {
        touching = false;
    }
    (touching, ladder_stop)
}

/// How the player moves in a frame.
#[derive(Debug, Clone, Copy, PartialEq, Eq, Structural)]
pub enum MotionKind {
    /// Going up in a jump.
    Jump,
    /// Climbing a ladder.
    Climb,
    /// Walking, falling or riding a platform.
    Walk,
}

/// How the player moves, from the state and whether a ladder is touched.
pub fn motion_kind(state: PlayerState, touching_ladder: bool) -> (k: MotionKind)
    ensures
        k == if state == PlayerState::Jumping {
            MotionKind::Jump
        } else if touching_ladder && state == PlayerState::Climbing {
            MotionKind::Climb
        } else {
            MotionKind::Walk
        },
{
    if state == PlayerState::Jumping {
        MotionKind::Jump
    } else if touching_ladder && state == PlayerState::Climbing {
        MotionKind::Climb
    } else {
        MotionKind::Walk
    }
}

/// The level with icy ground.
pub const ICE_LEVEL: u8 = 3;

/// Whether the player slides on ice: on the icy level, standing on the
/// ground, neither riding nor standing on a moving platform.
pub fn uses_ice_motion(level: u8, grounded: bool, riding_platform: bool, on_moving_platform: bool) -> (b:
    bool)
    ensures
        b == (level == ICE_LEVEL && grounded && !riding_platform && !on_moving_platform),
{
    level == ICE_LEVEL && grounded && !riding_platform && !on_moving_platform
}

/// How the player moves horizontally in a frame.
#[derive(Debug, Clone, Copy, PartialEq, Eq, Structural)]
pub enum HorizontalMove {
    /// Not at all.
    Still,
    /// At the player's speed, the way asked for.
    Run,
    /// With the velocity kept on ice.
    Slide,
    /// A tiny step to the right (positive) or left, so that a player idle on
    /// a ladder keeps touching it.
    Nudge(i8),
}

/// How the player moves vertically in a frame.
#[derive(Debug, Clone, Copy, PartialEq, Eq, Structural)]
pub enum VerticalMove {
    Still,
    /// Up at the player's speed (a jump).
    Up,
    /// Down at the player's speed (falling, or following what carries it).
    Down,
    /// At the player's speed, the way asked for (on a ladder).
    Climb,
}

/// How the player moves in a frame, and what it tells the rest of the
/// frame.
#[derive(Debug, Clone, Copy, PartialEq, Eq, Structural)]
pub struct MotionPlan {
    pub horizontal: HorizontalMove,
    pub vertical: VerticalMove,
    /// The velocity kept on ice goes back to zero.
    pub stop_ice: bool,
    /// The side of the next nudge on a ladder.
    pub nudge_right: bool,
    /// The player counts as standing on something.
    pub grounded_preview: bool,
}

/// How the player moves, from its state, whether it touches a ladder,
/// whether its jump just ended, the directions asked for, the side of the
/// next nudge, whether a platform carries it, whether it stands on a moving
/// platform that moved, whether it stands on the ground, whether it slides
/// down a slope, and the level.
pub open spec fn motion_plan_spec(
    state: PlayerState,
    touching_ladder: bool,
    jump_finished: bool,
    direction_x: i8,
    direction_y: i8,
    nudge_right: bool,
    riding: bool,
    on_moving_platform: bool,
    grounded: bool,
    sliding: bool,
    level: u8,
) -> MotionPlan {
    if state == PlayerState::Jumping {
        if jump_finished {
            MotionPlan { horizontal: HorizontalMove::Still, vertical: VerticalMove::Still, stop_ice: true, nudge_right, grounded_preview: false }
        } else {
            MotionPlan { horizontal: HorizontalMove::Run, vertical: VerticalMove::Up, stop_ice: true, nudge_right, grounded_preview: false }
        }
    } else if touching_ladder && state == PlayerState::Climbing {
        if direction_x == 0 && direction_y == 0 {
            MotionPlan {
                horizontal: HorizontalMove::Nudge(if nudge_right { 1i8 } else { -1i8 }),
                vertical: VerticalMove::Still,
                stop_ice: true,
                nudge_right: !nudge_right,
                grounded_preview: false,
            }
        } else {
            MotionPlan { horizontal: HorizontalMove::Run, vertical: VerticalMove::Climb, stop_ice: true, nudge_right, grounded_preview: false }
        }
    } else {
        let ice = level == ICE_LEVEL && grounded && !riding && !on_moving_platform;
        MotionPlan {
            horizontal: if on_moving_platform {
                HorizontalMove::Still
            } else if ice {
                HorizontalMove::Slide
            } else {
                HorizontalMove::Run
            },
            vertical: if riding || on_moving_platform || !grounded || sliding {
                VerticalMove::Down
            } else {
                VerticalMove::Still
            },
            stop_ice: !ice,
            nudge_right,
            grounded_preview: grounded || riding,
        }
    }
}

/// How the player moves in a frame.
pub fn plan_player_motion(
    state: PlayerState,
    touching_ladder: bool,
    jump_finished: bool,
    direction_x: i8,
    direction_y: i8,
    nudge_right: bool,
    riding: bool,
    on_moving_platform: bool,
    grounded: bool,
    sliding: bool,
    level: u8,
) -> (p: MotionPlan)
    ensures
        p == motion_plan_spec(
            state,
            touching_ladder,
            jump_finished,
            direction_x,
            direction_y,
            nudge_right,
            riding,
            on_moving_platform,
            grounded,
            sliding,
            level,
        ),
{
    match motion_kind(state, touching_ladder) {
        MotionKind::Jump => {
            if jump_finished {
                MotionPlan { horizontal: HorizontalMove::Still, vertical: VerticalMove::Still, stop_ice: true, nudge_right, grounded_preview: false }
            } else {
                MotionPlan { horizontal: HorizontalMove::Run, vertical: VerticalMove::Up, stop_ice: true, nudge_right, grounded_preview: false }
            }
        },
        MotionKind::Climb => {
            if direction_x == 0 && direction_y == 0 {
                let side: i8 = if nudge_right { 1 } else { -1 };
                MotionPlan {
                    horizontal: HorizontalMove::Nudge(side),
                    vertical: VerticalMove::Still,
                    stop_ice: true,
                    nudge_right: !nudge_right,
                    grounded_preview: false,
                }
            } else {
                MotionPlan { horizontal: HorizontalMove::Run, vertical: VerticalMove::Climb, stop_ice: true, nudge_right, grounded_preview: false }
            }
        },
        MotionKind::Walk => {
            let ice = uses_ice_motion(level, grounded, riding, on_moving_platform);
            let horizontal = if on_moving_platform {
                HorizontalMove::Still
            } else if ice {
                HorizontalMove::Slide
            } else {
                HorizontalMove::Run
            };
            let vertical = if riding || on_moving_platform || !grounded || sliding {
                VerticalMove::Down
            } else {
                VerticalMove::Still
            };
            MotionPlan { horizontal, vertical, stop_ice: !ice, nudge_right, grounded_preview: grounded || riding }
        },
    }
}

/// How the player moves in a frame:
/// - in a jump it goes up and runs the way asked, until the jump ends,
///   when it stands still for the frame;
/// - climbing a ladder it climbs and runs the way asked, or, asked for
///   nothing, is nudged by one to the side of the next nudge, which then
///   changes sides;
/// - otherwise it goes down when it is carried by a platform, stands on a
///   moving one, is off the ground or slides down a slope, and does not
///   move vertically otherwise; it does not move sideways on a moving
///   platform, slides on the icy level's ground and runs elsewhere; it
///   counts as standing on something when it is on the ground or carried;
/// - the velocity kept on ice is dropped unless the player slides on ice.
pub proof fn lemma_motion_plan_laws(
    state: PlayerState,
    touching_ladder: bool,
    jump_finished: bool,
    direction_x: i8,
    direction_y: i8,
    nudge_right: bool,
    riding: bool,
    on_moving_platform: bool,
    grounded: bool,
    sliding: bool,
    level: u8,
)
    ensures
        ({
            let p = motion_plan_spec(
                state,
                touching_ladder,
                jump_finished,
                direction_x,
                direction_y,
                nudge_right,
                riding,
                on_moving_platform,
                grounded,
                sliding,
                level,
            );
            let jumping = state == PlayerState::Jumping;
            let climbing = !jumping && touching_ladder && state == PlayerState::Climbing;
            let walking = !jumping && !climbing;
            let on_ice = level == ICE_LEVEL && grounded && !riding && !on_moving_platform;
            &&& (jumping && !jump_finished ==> p.vertical == VerticalMove::Up && p.horizontal
                == HorizontalMove::Run)
            &&& (jumping && jump_finished ==> p.vertical == VerticalMove::Still && p.horizontal
                == HorizontalMove::Still)
            &&& (climbing && (direction_x != 0 || direction_y != 0) ==> p.vertical == VerticalMove::Climb
                && p.horizontal == HorizontalMove::Run && p.nudge_right == nudge_right)
            &&& (climbing && direction_x == 0 && direction_y == 0 ==> p.vertical == VerticalMove::Still
                && p.horizontal == HorizontalMove::Nudge(if nudge_right { 1i8 } else { -1i8 })
                && p.nudge_right == !nudge_right)
            &&& (walking && sliding ==> p.vertical == VerticalMove::Down)
            &&& (walking && !grounded ==> p.vertical == VerticalMove::Down)
            &&& (walking && (riding || on_moving_platform) ==> p.vertical == VerticalMove::Down)
            &&& (walking && grounded && !sliding && !riding && !on_moving_platform ==> p.vertical
                == VerticalMove::Still)
            &&& (walking && on_moving_platform ==> p.horizontal == HorizontalMove::Still)
            &&& (walking && on_ice ==> p.horizontal == HorizontalMove::Slide)
            &&& (walking && !on_ice && !on_moving_platform ==> p.horizontal == HorizontalMove::Run)
            &&& (walking ==> p.grounded_preview == (grounded || riding) && p.nudge_right == nudge_right)
            &&& (!walking ==> !p.grounded_preview && p.stop_ice)
            &&& (jumping ==> p.nudge_right == nudge_right)
            &&& (walking ==> p.stop_ice == !on_ice)
        }),
{
}

/// A player idle on a ladder is nudged one way and then the other, so that
/// two idle frames bring it back where it was and to the same next side.
pub proof fn lemma_nudges_alternate(nudge_right: bool, jump_finished: bool, riding: bool, on_moving: bool, grounded: bool, sliding: bool, level: u8)
    ensures
        ({
            let p1 = motion_plan_spec(PlayerState::Climbing, true, jump_finished, 0, 0, nudge_right, riding, on_moving, grounded, sliding, level);
            let p2 = motion_plan_spec(PlayerState::Climbing, true, jump_finished, 0, 0, p1.nudge_right, riding, on_moving, grounded, sliding, level);
            &&& p1.horizontal matches HorizontalMove::Nudge(a) && p2.horizontal matches HorizontalMove::Nudge(b) && a + b == 0
            &&& p2.nudge_right == nudge_right
        }),
{
}

/// The number of frames a lost contact with a moving platform still counts
/// as riding it.
pub const CONTACT_FRAMES: u8 = 3;

/// The frames of grace left after the collisions of a frame: back to the
/// full grace on contact with a platform, one less while the player stays
/// on the ground without contact, none otherwise. The player rides the
/// platform while some are left.
pub fn update_contact_frames(frames_left: u8, on_platform: bool, grounded: bool) -> (r: u8)
    ensures
        r == if on_platform {
            CONTACT_FRAMES
        } else if frames_left > 0 && grounded {
            (frames_left - 1) as u8
        } else {
            0
        },
{
    if on_platform {
        CONTACT_FRAMES
    } else if frames_left > 0 && grounded {
        frames_left - 1
    } else {
        0
    }
}

/// The moving platform that carries the player (by its entity id), and the
/// frames of grace left.
#[derive(Debug, Clone, Copy, PartialEq, Eq, Structural)]
pub struct PlatformCarry {
    pub entity: Option<u64>,
    pub contact_frames_left: u8,
}

/// What the platform carry does in a frame.
#[derive(Debug, Clone, Copy, PartialEq, Eq, Structural)]
pub struct CarryStep {
    /// The carry afterwards.
    pub carry: PlatformCarry,
    /// The player's offset from the platform is measured again (a new
    /// platform was touched).
    pub measure_offsets: bool,
    /// The player rides the platform in this frame.
    pub riding: bool,
}

/// A frame of platform carry, from the platform the player touches (if
/// any) and whether the player stands on something: touching a platform
/// gives the full grace (measuring the offsets when it is a new one); a
/// grounded player keeps riding while some grace is left; otherwise the
/// carry ends.
pub open spec fn carry_spec(c: PlatformCarry, touching: Option<u64>, grounded: bool) -> CarryStep {
    let next = match touching {
        Some(e) => PlatformCarry { entity: Some(e), contact_frames_left: CONTACT_FRAMES },
        None => if c.contact_frames_left > 0 && grounded {
            PlatformCarry { entity: c.entity, contact_frames_left: (c.contact_frames_left - 1) as u8 }
        } else {
            PlatformCarry { entity: None, contact_frames_left: 0 }
        },
    };
    CarryStep {
        carry: next,
        measure_offsets: touching is Some && c.entity != touching,
        riding: next.contact_frames_left > 0,
    }
}

/// A frame of platform carry.
pub fn update_platform_carry(c: PlatformCarry, touching: Option<u64>, grounded: bool) -> (r: CarryStep)
    ensures
        r == carry_spec(c, touching, grounded),
{
    let measure = match touching {
        Some(e) => match c.entity {
            Some(current) => current != e,
            None => true,
        },
        None => false,
    };
    let frames = update_contact_frames(c.contact_frames_left, touching.is_some(), grounded);
    let entity = if touching.is_some() {
        touching
    } else if c.contact_frames_left > 0 && grounded {
        c.entity
    } else {
        None
    };
    let carry = PlatformCarry { entity, contact_frames_left: frames };
    CarryStep { carry, measure_offsets: measure, riding: carry.contact_frames_left > 0 }
}

/// A player that stops touching its platform keeps riding it while on the
/// ground for the grace frames less the last one, and the platform is
/// forgotten the frame after.
pub proof fn lemma_carry_grace(e: u64)
    ensures
        ({
            let s0 = carry_spec(PlatformCarry { entity: None, contact_frames_left: 0 }, Some(e), true);
            let s1 = carry_spec(s0.carry, None, true);
            let s2 = carry_spec(s1.carry, None, true);
            let s3 = carry_spec(s2.carry, None, true);
            let s4 = carry_spec(s3.carry, None, true);
            &&& s0.riding && s0.measure_offsets
            &&& s1.riding && s2.riding && !s3.riding
            &&& s3.carry.entity == Some(e)
            &&& !s4.riding && s4.carry.entity is None
        }),
{
}

/// What a frame does to the player's sprite frame.
#[derive(Debug, Clone, Copy, PartialEq, Eq, Structural)]
pub enum FrameAction {
    /// Shows this frame.
    Show(usize),
    /// Cycles through the frames of the range.
    Cycle(usize, usize),
    /// Swings up and down through the frames of the range.
    Swing(usize, usize),
}

/// How the sprite changes for a look: the action, and whether it waits for
/// the animation timer.
pub open spec fn animation_spec(visual: PlayerVisualState, riding_platform: bool) -> (bool, FrameAction) {
    match visual {
        PlayerVisualState::Run => (true, if riding_platform {
            FrameAction::Show(6)
        } else {
            FrameAction::Cycle(6, 10)
        }),
        PlayerVisualState::Idle => (true, if riding_platform {
            FrameAction::Show(0)
        } else {
            FrameAction::Swing(0, 4)
        }),
        PlayerVisualState::Jump => (false, FrameAction::Show(11)),
        PlayerVisualState::Fall => (true, FrameAction::Cycle(14, 16)),
        PlayerVisualState::Climb => (true, FrameAction::Cycle(33, 36)),
        PlayerVisualState::ClimbIdle => (false, FrameAction::Show(34)),
        PlayerVisualState::Hit => (false, FrameAction::Show(26)),
    }
}

/// How the sprite changes for a look: whether the change waits for the
/// animation timer, and what it does.
pub fn player_animation(visual: PlayerVisualState, riding_platform: bool) -> (r: (bool, FrameAction))
    ensures
        r == animation_spec(visual, riding_platform),
{
    match visual {
        PlayerVisualState::Run => (true, if riding_platform {
            FrameAction::Show(6)
        } else {
            FrameAction::Cycle(6, 10)
        }),
        PlayerVisualState::Idle => (true, if riding_platform {
            FrameAction::Show(0)
        } else {
            FrameAction::Swing(0, 4)
        }),
        PlayerVisualState::Jump => (false, FrameAction::Show(11)),
        PlayerVisualState::Fall => (true, FrameAction::Cycle(14, 16)),
        PlayerVisualState::Climb => (true, FrameAction::Cycle(33, 36)),
        PlayerVisualState::ClimbIdle => (false, FrameAction::Show(34)),
        PlayerVisualState::Hit => (false, FrameAction::Show(26)),
    }
}

/// Applies a frame action of the player's animation to the sprite frame
/// `index`, with `direction` the direction of a swing.
pub fn apply_frame_action(index: &mut usize, direction: &mut IndexDirection, action: FrameAction)
    requires
        action matches FrameAction::Cycle(s, e) ==> s <= e < usize::MAX,
        action matches FrameAction::Swing(s, e) ==> s < e < usize::MAX,
    ensures
        match action {
            FrameAction::Show(i) => *final(index) == i && *final(direction) == *old(direction),
            FrameAction::Cycle(s, e) => *final(index) as int == cycle_next(*old(index) as int, s as int, e as int)
                && *final(direction) == *old(direction),
            FrameAction::Swing(s, e) => *final(index) as int == swing_next(
                *old(index) as int,
                s as int,
                e as int,
                *old(direction),
            ) && *final(direction) == swing_direction(
                clamp_frame(*old(index) as int, s as int, e as int),
                s as int,
                e as int,
                *old(direction),
            ),
        },
{
    match action {
        FrameAction::Show(i) => {
            *index = i;
        },
        FrameAction::Cycle(s, e) => {
            cycle_texture(index, s, e);
        },
        FrameAction::Swing(s, e) => {
            swing_texture(index, s, e, direction);
        },
    }
}

/// What the hit check does in a frame.
#[derive(Debug, Clone, Copy, PartialEq, Eq, Structural)]
pub struct HitStep {
    /// The player goes to the hit state.
    pub set_hit: bool,
    /// The hit starts: the timer restarts and the hit sound plays.
    pub start_hit: bool,
    /// Whether a hit is under way afterwards.
    pub just_hit: bool,
    /// The level restarts.
    pub restart: bool,
}

/// What the hit check does, from whether a hit event came, the state,
/// whether the hit timer is over, and whether a hit is under way: a hit
/// puts the player in the hit state (starting the timer and the sound unless
/// a hit is already under way); once the timer is over in the hit state,
/// the level restarts.
pub open spec fn hit_spec(hit: bool, state: PlayerState, timer_finished: bool, just_hit: bool) -> HitStep {
    let set_hit = hit && state != PlayerState::Hit;
    let start_hit = set_hit && !just_hit;
    let jh = just_hit || start_hit;
    let restart = state == PlayerState::Hit && timer_finished && jh && !start_hit;
    HitStep { set_hit, start_hit, just_hit: jh && !restart, restart }
}

/// The hit check of a frame.
pub fn check_hit(hit: bool, state: PlayerState, timer_finished: bool, just_hit: bool) -> (r: HitStep)
    ensures
        r == hit_spec(hit, state, timer_finished, just_hit),
{
    let mut jh = just_hit;
    let mut set_hit = false;
    let mut start_hit = false;
    let mut finished = timer_finished;
    if hit && state != PlayerState::Hit {
        set_hit = true;
        if !jh {
            // the timer restarts
            finished = false;
            jh = true;
            start_hit = true;
        }
    }
    let mut restart = false;
    if state == PlayerState::Hit && finished && jh {
        jh = false;
        restart = true;
    }
    HitStep { set_hit, start_hit, just_hit: jh, restart }
}

/// The player's height, in pixels.
pub const PLAYER_HEIGHT: i64 = 75;

/// How far left of the start screen's center the player starts, in pixels.
pub const PLAYER_START_OFFSET_X: i64 = -480;

/// The player has fallen off the level when no screen holds it, even with
/// the screens widened by twice the player's height above and below.
pub fn is_out_of_screen(map: &ScreenMap, pos: PixelPoint) -> (b: bool)
    ensures
        b == (screen_index_at(map@, pos, 0, 2 * PLAYER_HEIGHT) is None),
{
    map.get_screen(pos, 0, 2 * PLAYER_HEIGHT).is_none()
}

/// Where the player starts: at the Tiled position given in the settings,
/// if any, and otherwise left of the center of the level's start screen.
pub fn player_start_position(map: &ScreenMap, start: Option<PixelPoint>) -> (p: PixelPoint)
    requires
        start matches Some(s) ==> point_fits(s),
        start is None ==> has_start_screen(map@),
    ensures
        match start {
            Some(s) => (p.x as int, p.y as int) == bevy_of_tiled(map@, s.x as int, s.y as int),
            None => exists|i: int, j: int|
                first_start(map@, i, j) && p.x == center_spec(map@.screens[j][i]).0 + PLAYER_START_OFFSET_X
                    && p.y == center_spec(map@.screens[j][i]).1,
        },
{
    match start {
        Some(s) => map.tiled_to_bevy_coord(s),
        None => map.get_start_screen().center_shifted(PLAYER_START_OFFSET_X),
    }
}

} // verus!
