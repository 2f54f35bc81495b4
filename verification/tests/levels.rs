use rock_run::gates::{enigma_materials, Answer, ROCKGATE_IMPULSE};
use rock_run::levels::{music_for_level, Music};
use rock_run::life::life_icon_offset;
use rock_run::story::argb_to_rgba;
use rock_run::beasts::{monkey_placements, squirrel_placements, trex_positions, Heading, MonkeyMovement};
use rock_run::camera::{camera_offset, CameraAim, CameraMode, OffsetChange};
use rock_run::collisions::{collision_partner, player_collisions, CollisionKind};
use rock_run::enigma::EnigmaFollowUp;
use rock_run::hazards::{
    rocks_to_spawn, small_rock_positions, small_rock_step, volcano_frame, volcano_reaction, VolcanoReaction,
};
use rock_run::level_items::follow_up_item;
use rock_run::levels::level_map;
use rock_run::localization::{clean_translation, current_level_message, locale_tag};
use rock_run::platforms::{
    platform_step, reports_descent, setup_moving_platforms, start_platform, MovingPlatform,
    MovingPlatformDirection, MovingPlatformMovement,
};
use rock_run::player::{is_out_of_screen, player_start_position, PlayerState};
use rock_run::screen_map::{PixelPoint, Transition};
use rock_run::state::{game_messages, AppState, Lang};
use rock_run::story::StoryMessageKind;

fn px(x: i64, y: i64) -> PixelPoint {
    PixelPoint { x, y }
}

fn names(v: &[&str]) -> Vec<String> {
    v.iter().map(|s| s.to_string()).collect()
}

#[test]
fn level_maps() {
    let one = level_map(1).unwrap();
    assert_eq!((one.width(), one.height()), (1280, 720));
    let two = level_map(2).unwrap();
    assert_eq!((two.width(), two.height()), (6400, 1440));
    let s = two.get_screen_from_index(1, 0).unwrap();
    assert!(s.is_fixed_screen());
    assert_eq!(s.get_transition(), Transition::Hard);
    assert!(!two.get_screen_from_index(3, 0).unwrap().is_allowed_screen());
    assert!(level_map(4).is_none());
}

#[test]
fn player_start_and_fall() {
    let one = level_map(1).unwrap();
    assert_eq!(player_start_position(&one, None), px(-480, 0));
    assert_eq!(player_start_position(&one, Some(px(640, 360))), px(0, -1));
    assert!(!is_out_of_screen(&one, px(0, 0)));
    assert!(!is_out_of_screen(&one, px(0, 510)));
    assert!(is_out_of_screen(&one, px(0, 511)));
    assert!(is_out_of_screen(&one, px(700, 0)));
}

#[test]
fn player_collisions_of_a_frame() {
    let r = player_collisions(PlayerState::Falling, &vec![CollisionKind::Ground], true, false);
    assert_eq!(r.next_state, Some(PlayerState::Idling));
    assert_eq!(r.hits, 0);

    let cs = vec![CollisionKind::Spike, CollisionKind::Bat, CollisionKind::Rock { fast: false }];
    let r = player_collisions(PlayerState::Idling, &cs, false, true);
    assert_eq!(r.next_state, Some(PlayerState::Falling));
    assert_eq!(r.hits, 2);

    let cs = vec![CollisionKind::MovingPlatform(2), CollisionKind::Ground];
    let r = player_collisions(PlayerState::Jumping, &cs, true, false);
    assert_eq!(r.next_state, None);
    assert!(r.platforms.is_empty());

    let cs = vec![CollisionKind::MovingPlatform(1), CollisionKind::Rock { fast: true }, CollisionKind::MovingPlatform(0)];
    let r = player_collisions(PlayerState::Falling, &cs, false, false);
    assert_eq!(r.next_state, Some(PlayerState::Idling));
    assert_eq!(r.platforms, vec![1, 0]);
    assert_eq!(r.hits, 1);

    let r = player_collisions(PlayerState::Hit, &vec![CollisionKind::Spike], true, false);
    assert_eq!((r.next_state, r.hits), (None, 0));
}

#[test]
fn collision_partners() {
    assert_eq!(collision_partner(&vec![10, 20, 30], 20, 5, 5), Some(1));
    assert_eq!(collision_partner(&vec![10, 20, 30], 5, 30, 5), Some(2));
    assert_eq!(collision_partner(&vec![10, 20], 7, 8, 5), None);
    assert_eq!(collision_partner(&vec![10, 20], 10, 20, 5), None);
}

#[test]
fn moving_platforms() {
    assert_eq!(platform_step(MovingPlatformDirection::Left, true), (-1, MovingPlatformDirection::Left));
    assert_eq!(platform_step(MovingPlatformDirection::Left, false), (0, MovingPlatformDirection::Right));
    assert_eq!(platform_step(MovingPlatformDirection::Up, true), (-1, MovingPlatformDirection::Up));
    assert_eq!(platform_step(MovingPlatformDirection::Down, false), (0, MovingPlatformDirection::Up));
    assert_eq!(platform_step(MovingPlatformDirection::Clockwise, false), (1, MovingPlatformDirection::Clockwise));
    assert!(reports_descent(true, true, PlayerState::Idling));
    assert!(!reports_descent(true, true, PlayerState::Jumping));

    let map = level_map(1).unwrap();
    let ps = setup_moving_platforms(1, &map);
    assert_eq!(ps.len(), 5);
    assert_eq!(
        ps[0],
        MovingPlatform {
            start_pos: px(1505, -191),
            movement: MovingPlatformMovement::UpDown {
                direction: MovingPlatformDirection::Up,
                max_down: -216,
                max_up: 24,
                speed: 100,
            },
        }
    );
    assert_eq!(setup_moving_platforms(2, &map).len(), 0);
    assert_eq!(setup_moving_platforms(3, &map).len(), 2);

    let mut waiting = ps[4];
    start_platform(&mut waiting);
    assert!(matches!(waiting.movement, MovingPlatformMovement::UpDown { speed: 200, .. }));
    let mut circling = ps[1];
    start_platform(&mut circling);
    assert_eq!(circling, ps[1]);
}

#[test]
fn rocks_and_volcano() {
    assert_eq!(rocks_to_spawn(&names(&["rock01", "rock02", "bat01", "rock03"])), 2);
    assert_eq!(rocks_to_spawn(&names(&[])), 0);
    assert_eq!(volcano_reaction("volcano01_02"), VolcanoReaction::Rumble);
    assert_eq!(volcano_reaction("volcano01_01"), VolcanoReaction::Erupt);
    assert_eq!(volcano_reaction("exit01"), VolcanoReaction::Ignore);

    let f = volcano_frame(&names(&["volcano01_01", "volcano01_03", "volcano01_02", "volcano01_04"]));
    assert_eq!((f.shakes, f.eruption, f.stopped), (3, Some(1), true));
    let f = volcano_frame(&names(&["volcano01_01"]));
    assert_eq!((f.shakes, f.eruption, f.stopped), (1, Some(0), false));
    let f = volcano_frame(&names(&[]));
    assert_eq!((f.shakes, f.eruption, f.stopped), (0, None, false));
}

#[test]
fn small_rocks_fall_on_the_second_level() {
    let r = small_rock_step(1, false, true, true);
    assert!(!r.warn && !r.drop);
    let r = small_rock_step(2, false, true, false);
    assert!(r.warn && !r.drop && r.warned);
    let r = small_rock_step(2, true, true, false);
    assert!(!r.warn && r.warned);
    let r = small_rock_step(2, true, false, true);
    assert!(r.drop && !r.warned);
    let map = level_map(2).unwrap();
    assert_eq!(small_rock_positions(&map), vec![px(-1725, -31), px(2400, -31)]);
}

#[test]
fn translations() {
    assert_eq!(clean_translation("Level \u{2068}2\u{2069}!"), "Level 2!");
    assert_eq!(clean_translation("plain"), "plain");
    assert_eq!(locale_tag(Lang::French), "fr-FR");
    assert_eq!(locale_tag(Lang::English), "en-US");
    assert_eq!(
        current_level_message(2),
        ("current_level".to_string(), Some(vec![("current_level".to_string(), "2".to_string())]))
    );
}

#[test]
fn follow_up_items() {
    let map = level_map(2).unwrap();
    assert_eq!(follow_up_item(EnigmaFollowUp::SpawnKey, &map), Some(("key01".to_string(), px(2784, -1345))));
    assert_eq!(follow_up_item(EnigmaFollowUp::SpawnStory100, &map).unwrap().0, "story100");
    assert!(follow_up_item(EnigmaFollowUp::Nothing, &map).is_none());
}

#[test]
fn camera_offsets() {
    let idle = PlayerState::Idling;
    assert_eq!(camera_offset(CameraMode::SmoothDown, true, false, idle, true, false), (OffsetChange::Raise, CameraAim::Offset));
    assert_eq!(camera_offset(CameraMode::SmoothDown, true, false, idle, false, false), (OffsetChange::ToCenter, CameraAim::Offset));
    assert_eq!(
        camera_offset(CameraMode::SmoothDown, true, false, PlayerState::Falling, true, false),
        (OffsetChange::Keep, CameraAim::Offset)
    );
    assert_eq!(camera_offset(CameraMode::SmoothUp, false, true, idle, false, true), (OffsetChange::Lower, CameraAim::Offset));
    assert_eq!(camera_offset(CameraMode::SmoothUp, false, true, idle, false, false), (OffsetChange::Reset, CameraAim::Offset));
    assert_eq!(camera_offset(CameraMode::HardUp, true, false, idle, true, true), (OffsetChange::Keep, CameraAim::ScreenCenter));
    assert_eq!(camera_offset(CameraMode::Follow, true, false, idle, true, true), (OffsetChange::Keep, CameraAim::Player));
}

#[test]
fn story_messages_open_the_box() {
    assert_eq!(game_messages(&vec![StoryMessageKind::Next, StoryMessageKind::Display]), Some(AppState::GameMessage));
    assert_eq!(game_messages(&vec![StoryMessageKind::Hide]), None);
}

#[test]
fn pixels_for_the_story_box() {
    assert_eq!(argb_to_rgba(&[0xff9e3613, 0x00102030]), vec![0x9e, 0x36, 0x13, 0xff, 0x10, 0x20, 0x30, 0x00]);
    assert!(argb_to_rgba(&[]).is_empty());
}

#[test]
fn music_and_life_icons() {
    assert_eq!(music_for_level(1), Some(Music::Level01));
    assert_eq!(music_for_level(3), Some(Music::Level03));
    assert_eq!(music_for_level(4), None);
    assert_eq!(life_icon_offset(0), 0);
    assert_eq!(life_icon_offset(3), 60);
}

#[test]
fn enigma_materials_of_each_level() {
    let map = level_map(1).unwrap();
    let m = enigma_materials(1, &map);
    assert_eq!(m.rockgates.len(), 2);
    assert_eq!(m.rockgates[0].pos, px(2800 - 640, -(128 - 360) - 1));
    assert_eq!(m.rockgates[0].associated_story, "story04-03");
    assert_eq!((m.rockgates[0].impulse_x, m.rockgates[0].move_on), (ROCKGATE_IMPULSE, Answer::Correct));
    assert_eq!((m.rockgates[1].impulse_x, m.rockgates[1].move_on), (-ROCKGATE_IMPULSE, Answer::Incorrect));
    assert_eq!(m.gates.len(), 1);
    assert_eq!(m.gates[0].associated_story, "story06-03");
    assert!(m.warriors.is_empty());
    let m = enigma_materials(2, &map);
    assert!(m.gates[0].flipped);
    let m = enigma_materials(3, &map);
    assert_eq!(m.warriors, vec![px(5575 - 640, -(608 - 360) - 1)]);
    assert_eq!(m.gates[0].associated_story, "story03-03");
    assert!(enigma_materials(4, &map).gates.is_empty());
}

#[test]
fn beasts_of_each_level() {
    let one = level_map(1).unwrap();
    let sq = squirrel_placements(1, &one);
    assert_eq!(sq.len(), 2);
    assert_eq!(sq[0].pos, px(5189 - 640, -(437 - 360) - 1));
    assert_eq!(sq[0].end_pos, px(7300 - 640, -(600 - 360) - 1));
    assert!(sq[0].visible && !sq[1].visible);
    assert!(squirrel_placements(2, &one).is_empty());

    let two = level_map(2).unwrap();
    let (pos, looks) = monkey_placements(2, &two);
    assert_eq!(pos, vec![px(1415 - 3200, -(705 - 720) - 1), px(5650 - 3200, -(705 - 720) - 1)]);
    assert_eq!(looks, vec![MonkeyMovement::Look(Heading::Right), MonkeyMovement::Look(Heading::Left)]);
    assert_eq!(trex_positions(2, &two), vec![px(9200 - 3200, -(2030 - 720) - 1)]);
    assert!(trex_positions(1, &two).is_empty());
}
