use rock_run::life::{collect_key, life_management, LifeEvent, START_LIVES};
use rock_run::state::{
    check_exit, lang_from_tag, menu_input_system, start_level, state_enter_despawn, update_menu, AppState,
    Lang, MenuChoice,
    MenuColor, MenuInput, LAST_LEVEL,
};
use rock_run::story::{SelectionDirection, StoryMessageKind};

#[test]
fn losing_lives_ends_the_game_on_the_last_one() {
    let mut lives = START_LIVES;
    let mut over = false;
    for _ in 0..START_LIVES {
        assert!(!over);
        let r = life_management(lives, LifeEvent::Lost);
        lives = r.0;
        over = r.1;
    }
    assert_eq!(lives, 0);
    assert!(over);
}

#[test]
fn a_life_won_then_lost_changes_nothing() {
    assert_eq!(life_management(2, LifeEvent::Win), (3, false));
    assert_eq!(life_management(3, LifeEvent::Lost), (2, false));
    assert_eq!(life_management(1, LifeEvent::Lost), (0, true));
    assert_eq!(collect_key(0), 1);
}

#[test]
fn menu_states() {
    assert!(AppState::is_any_game_menu(&AppState::GamePaused));
    assert!(AppState::is_any_game_menu(&AppState::StartMenu));
    assert!(!AppState::is_any_game_menu(&AppState::GameRunning));
    assert_eq!(AppState::default(), AppState::Loading);
}

#[test]
fn pause_and_resume() {
    let pause = MenuInput { pause_unpause: true, ..MenuInput::default() };
    let step = menu_input_system(AppState::GameRunning, pause, false, 1, 1);
    assert_eq!(step.next_state, Some(AppState::GamePaused));
    assert_eq!(step.physics_active, Some(false));
    let step = menu_input_system(AppState::GamePaused, pause, false, 1, 1);
    assert_eq!(step.next_state, Some(AppState::GameRunning));
    assert_eq!(step.physics_active, Some(true));
}

#[test]
fn story_message_inputs() {
    let input = MenuInput { accept: true, up: true, ..MenuInput::default() };
    let step = menu_input_system(AppState::GameMessage, input, false, 2, 1);
    assert_eq!(step.next_state, None);
    assert_eq!(step.story_messages, vec![StoryMessageKind::Next]);
    assert_eq!(step.selections, vec![SelectionDirection::Up]);

    let step = menu_input_system(AppState::GameMessage, MenuInput::default(), true, 2, 1);
    assert_eq!(step.next_state, Some(AppState::GameRunning));
    assert_eq!(step.story_messages, vec![StoryMessageKind::Hide]);
    assert!(step.clear_no_more_messages);
}

#[test]
fn exit_to_menu_from_anywhere_but_the_menu() {
    let exit = MenuInput { exit_to_menu: true, ..MenuInput::default() };
    let step = menu_input_system(AppState::GameRunning, exit, false, 2, 1);
    assert_eq!(step.next_state, Some(AppState::StartMenu));
    assert!(step.ladder_stop);
    assert_eq!(step.story_messages, vec![StoryMessageKind::Hide]);
    let step = menu_input_system(AppState::StartMenu, exit, false, 2, 1);
    assert_eq!(step.next_state, None);
}

#[test]
fn levels_follow_each_other_until_the_last() {
    let step = menu_input_system(AppState::FinishLevel, MenuInput::default(), false, 1, 1);
    assert_eq!(step.next_state, Some(AppState::NextLevel));
    assert_eq!(step.current_level, 2);
    let step = menu_input_system(AppState::FinishLevel, MenuInput::default(), false, LAST_LEVEL, 1);
    assert_eq!(step.next_state, Some(AppState::GameFinished));
    let step = menu_input_system(AppState::NextLevel, MenuInput::default(), false, 2, 1);
    assert!(step.next_level);
    assert_eq!(step.next_state, Some(AppState::GameRunning));
}

#[test]
fn start_menu_selection() {
    let r = update_menu(0, true, false, false, Lang::English);
    assert_eq!(r.menu_sel, 1);
    assert_eq!(r.choice, None);
    assert_eq!(r.colors, (MenuColor::OtherLang, MenuColor::Selected, MenuColor::CurrentLang));
    assert_eq!(update_menu(2, true, false, false, Lang::English).menu_sel, 0);
    assert_eq!(update_menu(0, false, true, false, Lang::English).menu_sel, 2);
    // Up then down comes back.
    assert_eq!(update_menu(1, true, true, false, Lang::French).menu_sel, 1);
    let r = update_menu(1, false, false, true, Lang::English);
    assert_eq!(r.choice, Some(MenuChoice::SetLang(Lang::French)));
    assert_eq!(r.colors, (MenuColor::OtherLang, MenuColor::Selected, MenuColor::OtherLang));
    assert_eq!(update_menu(0, false, false, true, Lang::French).choice, Some(MenuChoice::Start));
}

#[test]
fn language_and_level_settings() {
    assert_eq!(lang_from_tag("fr-FR"), Lang::French);
    assert_eq!(lang_from_tag("en-US"), Lang::English);
    assert_eq!(lang_from_tag("de-DE"), Lang::English);
    assert_eq!(start_level(None), 1);
    assert_eq!(start_level(Some("2")), 2);
    assert_eq!(start_level(Some("3")), 3);
    assert_eq!(start_level(Some("7")), 1);
    assert_eq!(start_level(Some("0")), 1);
}

#[test]
fn climbing_at_the_exit_finishes_the_level() {
    let exit = vec!["exit01".to_string()];
    let none: Vec<String> = vec![];
    assert_eq!(check_exit(false, &exit, &none, true), (false, true));
    assert_eq!(check_exit(false, &exit, &none, false), (true, false));
    assert_eq!(check_exit(true, &none, &exit, true), (false, false));
    let rock = vec!["rock01".to_string()];
    assert_eq!(check_exit(false, &rock, &none, true), (false, false));
}

#[test]
fn entities_of_other_states_are_removed() {
    let lists = vec![
        vec![AppState::StartMenu],
        vec![AppState::GameRunning, AppState::GamePaused],
        vec![],
    ];
    assert_eq!(state_enter_despawn(AppState::GameRunning, &lists), vec![0, 2]);
    assert_eq!(state_enter_despawn(AppState::StartMenu, &lists), vec![1, 2]);
}
