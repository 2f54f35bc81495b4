use rock_run::beasts::{
    heading_of, move_squirrel, SquirelMovement, move_bat, move_monkey, move_pterodactyl, move_trex, move_triceratops, pterodactyl_movement,
    trex_bite_sound, trex_bites, BatMovement, Heading, MonkeyMovement, PterodactylAction,
    PterodactylMovement, TrexMovement, TriceratopsMovement,
};
use rock_run::camera::{camera_mode, shake_sticks_to_center, CameraMode};
use rock_run::player::{
    apply_frame_action, check_hit, compute_player_visual_state, handle_jump_request, motion_kind,
    player_animation, read_player_intent, starts_climbing, sync_player_state, update_contact_frames,
    plan_player_motion, update_ladder_state, update_platform_carry, uses_ice_motion, HorizontalMove, PlatformCarry,
    VerticalMove, FrameAction, MotionKind, PlayerDirection, PlayerInput,
    PlayerMovement, PlayerState, PlayerVisualState, CONTACT_FRAMES, ICE_LEVEL,
};
use rock_run::screen_map::Transition;
use rock_run::texture::{cycle_texture, swing_texture, IndexDirection};

#[test]
fn later_actions_win_in_the_intent() {
    let input = PlayerInput { run_right: true, jump: true, ..PlayerInput::default() };
    let intent = read_player_intent(input, false);
    assert_eq!(intent.movement, PlayerMovement::Jump);
    assert_eq!(intent.direction_x, 1);
    assert!(intent.jump_requested);

    let input = PlayerInput { run_left: true, climb: true, ..PlayerInput::default() };
    let off_ladder = read_player_intent(input, false);
    assert_eq!(off_ladder.movement, PlayerMovement::Run(PlayerDirection::Left));
    assert_eq!(off_ladder.direction_y, 0);
    let on_ladder = read_player_intent(input, true);
    assert_eq!(on_ladder.movement, PlayerMovement::Climb);
    assert_eq!(on_ladder.direction_y, 1);
    assert!(starts_climbing(on_ladder, true));
    assert!(!starts_climbing(off_ladder, true));
}

#[test]
fn jumps_start_only_from_the_ground() {
    let jump = read_player_intent(PlayerInput { jump: true, ..PlayerInput::default() }, false);
    assert!(handle_jump_request(jump, PlayerState::Idling));
    assert!(!handle_jump_request(jump, PlayerState::Jumping));
    assert!(!handle_jump_request(jump, PlayerState::Falling));
    let idle = read_player_intent(PlayerInput::default(), false);
    assert!(!handle_jump_request(idle, PlayerState::Idling));
}

#[test]
fn how_the_player_looks() {
    let run = read_player_intent(PlayerInput { run_right: true, ..PlayerInput::default() }, false);
    let idle = read_player_intent(PlayerInput::default(), false);
    assert_eq!(compute_player_visual_state(PlayerState::Idling, run, true), PlayerVisualState::Run);
    assert_eq!(compute_player_visual_state(PlayerState::Falling, run, false), PlayerVisualState::Fall);
    assert_eq!(compute_player_visual_state(PlayerState::Falling, idle, true), PlayerVisualState::Idle);
    assert_eq!(compute_player_visual_state(PlayerState::Hit, run, true), PlayerVisualState::Hit);
    assert_eq!(compute_player_visual_state(PlayerState::Climbing, idle, true), PlayerVisualState::ClimbIdle);
}

#[test]
fn state_changes_after_motion() {
    assert_eq!(sync_player_state(PlayerState::Jumping, false, true), Some(PlayerState::Falling));
    assert_eq!(sync_player_state(PlayerState::Falling, true, false), Some(PlayerState::Idling));
    assert_eq!(sync_player_state(PlayerState::Idling, true, false), None);
    assert_eq!(update_ladder_state(false, true, false), (true, false));
    assert_eq!(update_ladder_state(true, true, true), (false, true));
    assert_eq!(motion_kind(PlayerState::Jumping, true), MotionKind::Jump);
    assert_eq!(motion_kind(PlayerState::Climbing, true), MotionKind::Climb);
    assert_eq!(motion_kind(PlayerState::Climbing, false), MotionKind::Walk);
}

#[test]
fn ice_and_platforms() {
    assert!(uses_ice_motion(ICE_LEVEL, true, false, false));
    assert!(!uses_ice_motion(ICE_LEVEL, true, true, false));
    assert!(!uses_ice_motion(1, true, false, false));
    assert_eq!(update_contact_frames(0, true, false), CONTACT_FRAMES);
    assert_eq!(update_contact_frames(2, false, true), 1);
    assert_eq!(update_contact_frames(2, false, false), 0);
}

#[test]
fn animations() {
    assert_eq!(player_animation(PlayerVisualState::Run, false), (true, FrameAction::Cycle(6, 10)));
    assert_eq!(player_animation(PlayerVisualState::Run, true), (true, FrameAction::Show(6)));
    assert_eq!(player_animation(PlayerVisualState::Idle, false), (true, FrameAction::Swing(0, 4)));
    assert_eq!(player_animation(PlayerVisualState::Jump, false), (false, FrameAction::Show(11)));

    let mut index = 10;
    let mut dir = IndexDirection::Up;
    apply_frame_action(&mut index, &mut dir, FrameAction::Cycle(6, 10));
    assert_eq!(index, 6);
    apply_frame_action(&mut index, &mut dir, FrameAction::Show(26));
    assert_eq!(index, 26);
    apply_frame_action(&mut index, &mut dir, FrameAction::Swing(0, 4));
    assert_eq!((index, dir), (1, IndexDirection::Up));
}

#[test]
fn textures_cycle_and_swing() {
    let mut i = 9;
    cycle_texture(&mut i, 6, 10);
    assert_eq!(i, 10);
    cycle_texture(&mut i, 6, 10);
    assert_eq!(i, 6);
    let mut out = 42;
    cycle_texture(&mut out, 6, 10);
    assert_eq!(out, 7);

    let mut j = 3;
    let mut dir = IndexDirection::Up;
    let mut seen = vec![];
    for _ in 0..6 {
        swing_texture(&mut j, 0, 4, &mut dir);
        seen.push(j);
    }
    assert_eq!(seen, vec![4, 3, 2, 1, 0, 1]);
    assert_eq!(IndexDirection::default(), IndexDirection::Up);
}

#[test]
fn hits_restart_the_level_once_the_timer_ends() {
    let r = check_hit(true, PlayerState::Idling, false, false);
    assert!(r.set_hit && r.start_hit && r.just_hit && !r.restart);
    let r = check_hit(true, PlayerState::Hit, false, true);
    assert!(!r.set_hit && !r.start_hit && r.just_hit && !r.restart);
    let r = check_hit(false, PlayerState::Hit, true, true);
    assert!(r.restart && !r.just_hit);
}

#[test]
fn camera_modes() {
    assert_eq!(camera_mode(Some((true, Transition::Hard)), None), CameraMode::HardDown);
    assert_eq!(camera_mode(Some((false, Transition::Smooth)), Some((true, Transition::Hard))), CameraMode::HardUp);
    assert_eq!(camera_mode(Some((true, Transition::Smooth)), None), CameraMode::SmoothDown);
    assert_eq!(camera_mode(None, None), CameraMode::SmoothUp);
    assert_eq!(camera_mode(Some((false, Transition::Smooth)), Some((false, Transition::Hard))), CameraMode::Follow);
    assert!(shake_sticks_to_center(true, true, false));
    assert!(!shake_sticks_to_center(true, true, true));
    assert!(!shake_sticks_to_center(false, false, false));
}

#[test]
fn triceratops_turns_at_each_collision() {
    let right = TriceratopsMovement::default();
    let left = move_triceratops(right, true);
    assert_eq!(left, TriceratopsMovement::Run(Heading::Left));
    assert_eq!(move_triceratops(left, false), left);
    assert_eq!(move_triceratops(left, true), right);
}

#[test]
fn trex_runs_towards_the_player() {
    let step = move_trex(Heading::Right, TrexMovement::Idle, false, false, false);
    assert_eq!(step.movement, TrexMovement::Run(Heading::Left));
    assert_eq!(step.direction, Heading::Left);
    assert!(step.reset_speed && step.rush_sound);
    let step = move_trex(Heading::Left, TrexMovement::Run(Heading::Left), false, false, false);
    assert!(!step.reset_speed && !step.rush_sound);
    let step = move_trex(Heading::Left, TrexMovement::Run(Heading::Left), false, false, true);
    assert_eq!(step.movement, TrexMovement::Idle);
    let step = move_trex(Heading::Left, TrexMovement::Idle, true, true, false);
    assert_eq!(step.movement, TrexMovement::Idle);
    assert_eq!(step.direction, Heading::Left);
    assert!(trex_bites(16) && !trex_bites(15));
    assert!(trex_bite_sound(16) && !trex_bite_sound(17));
}

#[test]
fn pterodactyl_drops_rocks_above_the_player() {
    assert_eq!(move_pterodactyl(Heading::Left, true, false, true), PterodactylAction::DropRock(Heading::Left));
    assert_eq!(move_pterodactyl(Heading::Left, true, false, false), PterodactylAction::Hover);
    assert_eq!(move_pterodactyl(Heading::Right, true, true, true), PterodactylAction::Fly(Heading::Right));
    assert_eq!(pterodactyl_movement(PterodactylAction::Hover), PterodactylMovement::Throw);
    assert_eq!(heading_of(false), Heading::Left);
}

#[test]
fn bats_and_monkeys() {
    assert_eq!(move_bat(true, true), BatMovement::Crunch);
    assert_eq!(move_bat(false, false), BatMovement::Fly(Heading::Left));
    // A released rock starts a throw from the first frame.
    let (m, f) = move_monkey(MonkeyMovement::Look(Heading::Right), MonkeyMovement::Look(Heading::Right), 9, false, true);
    assert_eq!((m, f), (MonkeyMovement::Throw, 0));
    // Nine firings of the timer later, the monkey looks around again.
    let initial = MonkeyMovement::Look(Heading::Left);
    let (mut m, mut f) = (MonkeyMovement::Throw, 0);
    for k in 1..=9 {
        let r = move_monkey(m, initial, f, true, false);
        m = r.0;
        f = r.1;
        assert_eq!(f, k);
        if k < 9 {
            assert_eq!(m, MonkeyMovement::Throw);
        }
    }
    assert_eq!(m, initial);
}

#[test]
fn platform_carry_keeps_a_short_grace() {
    let none = PlatformCarry { entity: None, contact_frames_left: 0 };
    let s0 = update_platform_carry(none, Some(7), true);
    assert!(s0.riding && s0.measure_offsets);
    assert_eq!(s0.carry, PlatformCarry { entity: Some(7), contact_frames_left: CONTACT_FRAMES });
    let again = update_platform_carry(s0.carry, Some(7), true);
    assert!(!again.measure_offsets);
    let s1 = update_platform_carry(s0.carry, None, true);
    let s2 = update_platform_carry(s1.carry, None, true);
    let s3 = update_platform_carry(s2.carry, None, true);
    assert!(s1.riding && s2.riding && !s3.riding);
    assert_eq!(s3.carry.entity, Some(7));
    let s4 = update_platform_carry(s3.carry, None, true);
    assert_eq!(s4.carry, none);
    // In the air, the carry ends at once.
    assert_eq!(update_platform_carry(s0.carry, None, false).carry, none);
}

#[test]
fn motion_plans() {
    let p = plan_player_motion(PlayerState::Jumping, false, false, 1, 0, true, false, false, false, false, 1);
    assert_eq!((p.horizontal, p.vertical, p.stop_ice), (HorizontalMove::Run, VerticalMove::Up, true));
    let p = plan_player_motion(PlayerState::Jumping, false, true, 1, 0, true, false, false, false, false, 1);
    assert_eq!((p.horizontal, p.vertical), (HorizontalMove::Still, VerticalMove::Still));
    let p = plan_player_motion(PlayerState::Climbing, true, false, 0, 0, true, false, false, false, false, 1);
    assert_eq!((p.horizontal, p.nudge_right), (HorizontalMove::Nudge(1), false));
    let q = plan_player_motion(PlayerState::Climbing, true, false, 0, 0, p.nudge_right, false, false, false, false, 1);
    assert_eq!((q.horizontal, q.nudge_right), (HorizontalMove::Nudge(-1), true));
    let p = plan_player_motion(PlayerState::Climbing, true, false, 0, 1, true, false, false, false, false, 1);
    assert_eq!(p.vertical, VerticalMove::Climb);
    let p = plan_player_motion(PlayerState::Idling, false, false, 1, 0, true, false, false, true, false, 3);
    assert_eq!((p.horizontal, p.vertical, p.stop_ice), (HorizontalMove::Slide, VerticalMove::Still, false));
    let p = plan_player_motion(PlayerState::Idling, false, false, 1, 0, true, true, true, true, false, 3);
    assert_eq!((p.horizontal, p.vertical, p.grounded_preview), (HorizontalMove::Still, VerticalMove::Down, true));
    let p = plan_player_motion(PlayerState::Falling, false, false, -1, 0, true, false, false, false, false, 1);
    assert_eq!((p.horizontal, p.vertical, p.grounded_preview), (HorizontalMove::Run, VerticalMove::Down, false));
}

#[test]
fn squirrels_run_once_told() {
    let idle = move_squirrel(SquirelMovement::Idle, false, false, false);
    assert_eq!((idle.movement, idle.gone, idle.climbs), (SquirelMovement::Idle, false, None));
    let run = move_squirrel(SquirelMovement::Idle, true, false, true);
    assert_eq!((run.movement, run.climbs), (SquirelMovement::Run(Heading::Right), Some(true)));
    let end = move_squirrel(SquirelMovement::Run(Heading::Right), false, true, false);
    assert!(end.gone);
    assert_eq!(end.climbs, Some(false));
}

#[test]
fn swinging_frames_repeat_every_twice_the_range() {
    let (start, end) = (2usize, 6usize);
    let mut index = start;
    let mut dir = IndexDirection::Up;
    let mut frames = Vec::new();
    for _ in 0..4 * (end - start) {
        swing_texture(&mut index, start, end, &mut dir);
        frames.push(index);
    }
    assert_eq!(frames[..8], [3, 4, 5, 6, 5, 4, 3, 2]);
    assert_eq!(frames[..8], frames[8..]);
    // After one period the animation is back on its first frame, going down.
    let mut index = start;
    let mut dir = IndexDirection::Up;
    for _ in 0..2 * (end - start) {
        swing_texture(&mut index, start, end, &mut dir);
    }
    assert_eq!((index, dir), (start, IndexDirection::Down));
}
