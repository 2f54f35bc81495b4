use vstd::prelude::*;

use crate::story::{SelectionDirection, StoryMessageKind};
use crate::text::{chars_of, contains_chars, contains_seq, parse_usize, parse_usize_spec, str_eq};

verus! {

/// The states of the game.
#[derive(Debug, Clone, Copy, PartialEq, Eq, Structural, Hash)]
pub enum AppState {
    Loading,
    StartMenu,
    GameCreate,
    GameMessage,
    GameRunning,
    GamePaused,
    GameOver,
    FinishLevel,
    NextLevel,
    GameFinished,
}

impl Default for AppState {
    fn default() -> (s: Self)
        ensures
            s == AppState::Loading,
    {
        AppState::Loading
    }
}

/// `true` for the states in which a menu is shown.
pub open spec fn is_menu_state(s: AppState) -> bool {
    s == AppState::StartMenu || s == AppState::GameMessage || s == AppState::GamePaused || s
        == AppState::GameOver
}

impl AppState {
    /// Returns `true` for the states in which a menu is shown: the start
    /// menu, a story message, the pause and the game over screens.
    pub fn is_any_game_menu(current_state: &AppState) -> (b: bool)
        ensures
            b == is_menu_state(*current_state),
    {
        match current_state {
            AppState::StartMenu | AppState::GameMessage | AppState::GamePaused | AppState::GameOver => true,
            _ => false,
        }
    }
}

/// The state a story message event leads to: messages to display open the
/// story box.
pub fn game_messages(events: &Vec<StoryMessageKind>) -> (r: Option<AppState>)
    ensures
        r == if events@.contains(StoryMessageKind::Display) {
            Some(AppState::GameMessage)
        } else {
            None
        },
{
    let mut r: Option<AppState> = None;
    for i in 0..events.len()
        invariant
            r == if events@.take(i as int).contains(StoryMessageKind::Display) {
                Some(AppState::GameMessage)
            } else {
                None
            },
    {
        let ghost pre = events@.take(i as int);
        let ghost now = events@.take(i + 1);
        assert(now == pre.push(events@[i as int]));
        assert(now.contains(StoryMessageKind::Display) == (pre.contains(StoryMessageKind::Display)
            || events@[i as int] == StoryMessageKind::Display)) by {
            if pre.contains(StoryMessageKind::Display) {
                let k = choose|k: int| 0 <= k < pre.len() && pre[k] == StoryMessageKind::Display;
                assert(now[k] == StoryMessageKind::Display);
            }
            if now.contains(StoryMessageKind::Display) {
                let k = choose|k: int| 0 <= k < now.len() && now[k] == StoryMessageKind::Display;
                if k < pre.len() {
                    assert(pre[k] == StoryMessageKind::Display);
                }
            }
            if events@[i as int] == StoryMessageKind::Display {
                assert(now[i as int] == StoryMessageKind::Display);
            }
        }
        if events[i] == StoryMessageKind::Display {
            r = Some(AppState::GameMessage);
        }
    }
    assert(events@.take(events@.len() as int) == events@);
    r
}

/// The entities to remove on entering `state`: those that belong to a list
/// of states (`for_states`, one list an entity) that does not hold it, in
/// order.
pub fn state_enter_despawn(state: AppState, for_states: &Vec<Vec<AppState>>) -> (r: Vec<usize>)
    ensures
        forall|k: int| 0 <= k < r@.len() ==> #[trigger] r@[k] < for_states@.len() && !for_states@[r@[k] as int]@.contains(state),
        forall|k1: int, k2: int| 0 <= k1 < k2 < r@.len() ==> r@[k1] < r@[k2],
        forall|j: int| 0 <= j < for_states@.len() && !(#[trigger] for_states@[j]@).contains(state) ==> r@.contains(j as usize),
{
    let mut out: Vec<usize> = Vec::new();
    for j in 0..for_states.len()
        invariant
            forall|k: int| 0 <= k < out@.len() ==> #[trigger] out@[k] < j && !for_states@[out@[k] as int]@.contains(state),
            forall|k1: int, k2: int| 0 <= k1 < k2 < out@.len() ==> out@[k1] < out@[k2],
            forall|q: int| 0 <= q < j && !(#[trigger] for_states@[q]@).contains(state) ==> out@.contains(q as usize),
    {
        let ghost before = out@;
        let list = &for_states[j];
        let mut found = false;
        for k in 0..list.len()
            invariant
                found == list@.take(k as int).contains(state),
        {
            proof {
                let pre = list@.take(k as int);
                let now = list@.take(k + 1);
                assert(now == pre.push(list@[k as int]));
                if pre.contains(state) {
                    let w = choose|w: int| 0 <= w < pre.len() && pre[w] == state;
                    assert(now[w] == state);
                }
                if now.contains(state) && list@[k as int] != state {
                    let w = choose|w: int| 0 <= w < now.len() && now[w] == state;
                    assert(pre[w] == state);
                }
                if list@[k as int] == state {
                    assert(now[k as int] == state);
                }
            }
            if list[k] == state {
                found = true;
            }
        }
        assert(list@.take(list@.len() as int) == list@);
        if !found {
            out.push(j);
            assert(out@[out@.len() - 1] == j);
        }
        assert forall|q: int| 0 <= q < j + 1 && !(#[trigger] for_states@[q]@).contains(state) implies out@.contains(q as usize) by {
            if q < j {
                let k = choose|k: int| 0 <= k < before.len() && before[k] == q as usize;
                assert(out@[k] == q as usize);
            } else {
                assert(out@[out@.len() - 1] == j);
            }
        }
    }
    out
}

/// The number of the last level.
pub const LAST_LEVEL: u8 = 3;

/// The menu actions pressed during a frame.
#[derive(Debug, Clone, Copy, PartialEq, Eq, Structural, Default)]
pub struct MenuInput {
    pub accept: bool,
    pub pause_unpause: bool,
    pub exit_to_menu: bool,
    pub quit: bool,
    pub up: bool,
    pub down: bool,
    pub right: bool,
    pub left: bool,
}

/// What the menu input system does in a frame.
#[derive(Debug)]
pub struct MenuStep {
    /// The state to go to, if any.
    pub next_state: Option<AppState>,
    /// Whether the physics runs from now on, when that changes.
    pub physics_active: Option<bool>,
    /// The story message events to send, in order.
    pub story_messages: Vec<StoryMessageKind>,
    /// The selection moves to send, in order.
    pub selections: Vec<SelectionDirection>,
    /// Whether the player leaves any ladder.
    pub ladder_stop: bool,
    /// Whether the game quits.
    pub exit: bool,
    /// Whether a game starts.
    pub start_game: bool,
    /// Whether a new level starts.
    pub next_level: bool,
    /// The current level afterwards.
    pub current_level: u8,
    /// Whether the "no more story messages" events are consumed.
    pub clear_no_more_messages: bool,
}

/// What the menu input system does, as mathematical values.
pub struct MenuStepView {
    pub next_state: Option<AppState>,
    pub physics_active: Option<bool>,
    pub story_messages: Seq<StoryMessageKind>,
    pub selections: Seq<SelectionDirection>,
    pub ladder_stop: bool,
    pub exit: bool,
    pub start_game: bool,
    pub next_level: bool,
    pub current_level: int,
    pub clear_no_more_messages: bool,
}

/// The step as mathematical values.
pub open spec fn step_view(s: MenuStep) -> MenuStepView {
    MenuStepView {
        next_state: s.next_state,
        physics_active: s.physics_active,
        story_messages: s.story_messages@,
        selections: s.selections@,
        ladder_stop: s.ladder_stop,
        exit: s.exit,
        start_game: s.start_game,
        next_level: s.next_level,
        current_level: s.current_level as int,
        clear_no_more_messages: s.clear_no_more_messages,
    }
}

/// A step that changes nothing but the current level.
pub open spec fn quiet_step(level: int) -> MenuStepView {
    MenuStepView {
        next_state: None,
        physics_active: None,
        story_messages: Seq::empty(),
        selections: Seq::empty(),
        ladder_stop: false,
        exit: false,
        start_game: false,
        next_level: false,
        current_level: level,
        clear_no_more_messages: false,
    }
}

/// The story message events of a frame on a story message: hide when there
/// are no more messages, the next message on accept, hide on pause.
pub open spec fn message_events(i: MenuInput, no_more_messages: bool) -> Seq<StoryMessageKind> {
    (if no_more_messages {
        seq![StoryMessageKind::Hide]
    } else {
        Seq::empty()
    }) + (if i.accept {
        seq![StoryMessageKind::Next]
    } else {
        Seq::empty()
    }) + (if i.pause_unpause {
        seq![StoryMessageKind::Hide]
    } else {
        Seq::empty()
    })
}

/// The selection moves of a frame on a story message, in the order right,
/// left, up, down.
pub open spec fn selection_events(i: MenuInput) -> Seq<SelectionDirection> {
    (if i.right {
        seq![SelectionDirection::Right]
    } else {
        Seq::empty()
    }) + (if i.left {
        seq![SelectionDirection::Left]
    } else {
        Seq::empty()
    }) + (if i.up {
        seq![SelectionDirection::Up]
    } else {
        Seq::empty()
    }) + (if i.down {
        seq![SelectionDirection::Down]
    } else {
        Seq::empty()
    })
}

/// What the menu input system does in state `s`, given the actions pressed,
/// whether the story messages are over, the current level and the level a
/// game starts at.
///
/// Leaving to the start menu is possible from every state but the start
/// menu itself. Otherwise: the start menu sets the current level to the
/// start level and quits on request; creating a game starts it; a running
/// game pauses, and a paused one resumes; a story message is closed when the
/// messages are over or on pause, goes to the next message on accept and
/// passes the selection moves on; game over and the end of the game go back
/// to the start menu on accept; a finished level leads to the next level,
/// or to the end of the game after the last level; a new level starts
/// running.
pub open spec fn menu_step_spec(
    s: AppState,
    i: MenuInput,
    no_more_messages: bool,
    level: int,
    start_level: int,
) -> MenuStepView {
    if s != AppState::StartMenu && i.exit_to_menu {
        MenuStepView {
            next_state: Some(AppState::StartMenu),
            physics_active: Some(true),
            story_messages: seq![StoryMessageKind::Hide],
            ladder_stop: true,
            ..quiet_step(level)
        }
    } else {
        match s {
            AppState::StartMenu => MenuStepView { exit: i.quit, ..quiet_step(start_level) },
            AppState::GameCreate => MenuStepView {
                next_state: Some(AppState::GameRunning),
                start_game: true,
                ..quiet_step(level)
            },
            AppState::GameRunning => if i.pause_unpause {
                MenuStepView {
                    next_state: Some(AppState::GamePaused),
                    physics_active: Some(false),
                    ..quiet_step(level)
                }
            } else {
                quiet_step(level)
            },
            AppState::GamePaused => if i.pause_unpause {
                MenuStepView {
                    next_state: Some(AppState::GameRunning),
                    physics_active: Some(true),
                    ..quiet_step(level)
                }
            } else {
                quiet_step(level)
            },
            AppState::GameMessage => {
                let closes = no_more_messages || i.pause_unpause;
                MenuStepView {
                    next_state: if closes {
                        Some(AppState::GameRunning)
                    } else {
                        None
                    },
                    physics_active: if closes {
                        Some(true)
                    } else {
                        None
                    },
                    story_messages: message_events(i, no_more_messages),
                    selections: selection_events(i),
                    clear_no_more_messages: no_more_messages,
                    ..quiet_step(level)
                }
            },
            AppState::GameOver | AppState::GameFinished => if i.accept {
                MenuStepView { next_state: Some(AppState::StartMenu), ..quiet_step(level) }
            } else {
                quiet_step(level)
            },
            AppState::Loading => quiet_step(level),
            AppState::FinishLevel => if level == LAST_LEVEL {
                MenuStepView { next_state: Some(AppState::GameFinished), ..quiet_step(level) }
            } else {
                MenuStepView { next_state: Some(AppState::NextLevel), ..quiet_step(level + 1) }
            },
            AppState::NextLevel => MenuStepView {
                next_state: Some(AppState::GameRunning),
                next_level: true,
                ..quiet_step(level)
            },
        }
    }
}

fn quiet(level: u8) -> (r: MenuStep)
    ensures
        step_view(r) == quiet_step(level as int),
{
    MenuStep {
        next_state: None,
        physics_active: None,
        story_messages: Vec::new(),
        selections: Vec::new(),
        ladder_stop: false,
        exit: false,
        start_game: false,
        next_level: false,
        current_level: level,
        clear_no_more_messages: false,
    }
}

/// What the menu input system does in a frame: the state `state`, the
/// actions `input` pressed, whether "no more story messages" events are
/// pending, the current level and the level a game starts at.
pub fn menu_input_system(
    state: AppState,
    input: MenuInput,
    no_more_messages: bool,
    current_level: u8,
    start_level: u8,
) -> (r: MenuStep)
    requires
        state == AppState::FinishLevel && current_level != LAST_LEVEL ==> current_level < u8::MAX,
    ensures
        step_view(r) == menu_step_spec(
            state,
            input,
            no_more_messages,
            current_level as int,
            start_level as int,
        ),
{
    if state != AppState::StartMenu && input.exit_to_menu {
        let mut r = quiet(current_level);
        r.next_state = Some(AppState::StartMenu);
        r.physics_active = Some(true);
        r.story_messages.push(StoryMessageKind::Hide);
        r.ladder_stop = true;
        assert(r.story_messages@ =~= seq![StoryMessageKind::Hide]);
        return r;
    }
    match state {
        AppState::StartMenu => {
            let mut r = quiet(start_level);
            r.exit = input.quit;
            r
        },
        AppState::GameCreate => {
            let mut r = quiet(current_level);
            r.next_state = Some(AppState::GameRunning);
            r.start_game = true;
            r
        },
        AppState::GameRunning => {
            let mut r = quiet(current_level);
            if input.pause_unpause {
                r.next_state = Some(AppState::GamePaused);
                r.physics_active = Some(false);
            }
            r
        },
        AppState::GamePaused => {
            let mut r = quiet(current_level);
            if input.pause_unpause {
                r.next_state = Some(AppState::GameRunning);
                r.physics_active = Some(true);
            }
            r
        },
        AppState::GameMessage => {
            let mut r = quiet(current_level);
            if no_more_messages {
                r.next_state = Some(AppState::GameRunning);
                r.physics_active = Some(true);
                r.story_messages.push(StoryMessageKind::Hide);
                r.clear_no_more_messages = true;
            }
            if input.accept {
                r.story_messages.push(StoryMessageKind::Next);
            }
            if input.right {
                r.selections.push(SelectionDirection::Right);
            }
            if input.left {
                r.selections.push(SelectionDirection::Left);
            }
            if input.up {
                r.selections.push(SelectionDirection::Up);
            }
            if input.down {
                r.selections.push(SelectionDirection::Down);
            }
            if input.pause_unpause {
                r.next_state = Some(AppState::GameRunning);
                r.physics_active = Some(true);
                r.story_messages.push(StoryMessageKind::Hide);
            }
            assert(r.story_messages@ =~= message_events(input, no_more_messages));
            assert(r.selections@ =~= selection_events(input));
            r
        },
        AppState::GameOver | AppState::GameFinished => {
            let mut r = quiet(current_level);
            if input.accept {
                r.next_state = Some(AppState::StartMenu);
            }
            r
        },
        AppState::Loading => quiet(current_level),
        AppState::FinishLevel => {
            if current_level == LAST_LEVEL {
                let mut r = quiet(current_level);
                r.next_state = Some(AppState::GameFinished);
                r
            } else {
                let mut r = quiet(current_level + 1);
                r.next_state = Some(AppState::NextLevel);
                r
            }
        },
        AppState::NextLevel => {
            let mut r = quiet(current_level);
            r.next_state = Some(AppState::GameRunning);
            r.next_level = true;
            r
        },
    }
}

/// The languages of the game.
#[derive(Debug, Clone, Copy, PartialEq, Eq, Structural)]
pub enum Lang {
    English,
    French,
}

/// The language stored in the settings, by its language tag: `fr-FR` is
/// French; `en-US` and anything else is English.
pub fn lang_from_tag(tag: &str) -> (l: Lang)
    ensures
        l == if tag@ == "fr-FR"@ {
            Lang::French
        } else {
            Lang::English
        },
{
    if str_eq(tag, "fr-FR") {
        Lang::French
    } else {
        Lang::English
    }
}

/// The colors of the entries of the start menu.
#[derive(Debug, Clone, Copy, PartialEq, Eq, Structural)]
pub enum MenuColor {
    Selected,
    CurrentLang,
    OtherLang,
}

/// What choosing an entry of the start menu does.
#[derive(Debug, Clone, Copy, PartialEq, Eq, Structural)]
pub enum MenuChoice {
    /// Start a game.
    Start,
    /// Switch to this language (and store it in the settings).
    SetLang(Lang),
}

/// What the start menu does in a frame.
#[derive(Debug, Clone, Copy, PartialEq, Eq)]
pub struct MenuUpdate {
    /// The selected entry afterwards: 0 start, 1 French, 2 English.
    pub menu_sel: i8,
    /// What was chosen, if anything.
    pub choice: Option<MenuChoice>,
    /// The colors of the entries 0, 1 and 2.
    pub colors: (MenuColor, MenuColor, MenuColor),
}

/// The entry above `sel`, going round.
pub open spec fn sel_up(sel: int) -> int {
    (sel + 1) % 3
}

/// The entry below `sel`, going round.
pub open spec fn sel_down(sel: int) -> int {
    ((if sel == 0 {
        3
    } else {
        sel
    }) - 1) % 3
}

/// The colors of the entries when `sel` is selected and `lang` is the
/// language: the selected entry stands out, and the entry of the current
/// language is marked when it is not selected.
pub open spec fn menu_colors(sel: int, lang: Lang) -> (MenuColor, MenuColor, MenuColor) {
    let fr = lang == Lang::French;
    if sel == 0 {
        (MenuColor::Selected, if fr {
            MenuColor::CurrentLang
        } else {
            MenuColor::OtherLang
        }, if fr {
            MenuColor::OtherLang
        } else {
            MenuColor::CurrentLang
        })
    } else if sel == 1 {
        (MenuColor::OtherLang, MenuColor::Selected, if fr {
            MenuColor::OtherLang
        } else {
            MenuColor::CurrentLang
        })
    } else {
        (MenuColor::OtherLang, if fr {
            MenuColor::CurrentLang
        } else {
            MenuColor::OtherLang
        }, MenuColor::Selected)
    }
}

/// The start menu in a frame: up and down move the selection round the
/// three entries (up first, then down), accept chooses the selected entry,
/// and the colors show the selection and the language (the one chosen in
/// this frame, if any).
pub open spec fn menu_update_spec(sel: int, up: bool, down: bool, accept: bool, lang: Lang) -> (int, Option<MenuChoice>, (MenuColor, MenuColor, MenuColor)) {
    let s1 = if up {
        sel_up(sel)
    } else {
        sel
    };
    let s2 = if down {
        sel_down(s1)
    } else {
        s1
    };
    let choice = if !accept {
        None
    } else if s2 == 0 {
        Some(MenuChoice::Start)
    } else if s2 == 1 {
        Some(MenuChoice::SetLang(Lang::French))
    } else {
        Some(MenuChoice::SetLang(Lang::English))
    };
    let lang2 = match choice {
        Some(MenuChoice::SetLang(l)) => l,
        _ => lang,
    };
    (s2, choice, menu_colors(s2, lang2))
}

/// The start menu in a frame, from the selected entry `menu_sel` (0, 1 or
/// 2), the directions and accept pressed, and the current language.
pub fn update_menu(menu_sel: i8, up: bool, down: bool, accept: bool, lang: Lang) -> (r: MenuUpdate)
    requires
        0 <= menu_sel <= 2,
    ensures
        (r.menu_sel as int, r.choice, r.colors) == menu_update_spec(menu_sel as int, up, down, accept, lang),
        0 <= r.menu_sel <= 2,
{
    let mut sel = menu_sel;
    if up {
        sel = (sel + 1) % 3;
    }
    if down {
        if sel == 0 {
            sel = 3;
        }
        sel = (sel - 1) % 3;
    }
    let choice = if !accept {
        None
    } else if sel == 0 {
        Some(MenuChoice::Start)
    } else if sel == 1 {
        Some(MenuChoice::SetLang(Lang::French))
    } else {
        Some(MenuChoice::SetLang(Lang::English))
    };
    let lang2 = match choice {
        Some(MenuChoice::SetLang(l)) => l,
        _ => lang,
    };
    let fr = lang2 == Lang::French;
    let colors = if sel == 0 {
        (MenuColor::Selected, if fr {
            MenuColor::CurrentLang
        } else {
            MenuColor::OtherLang
        }, if fr {
            MenuColor::OtherLang
        } else {
            MenuColor::CurrentLang
        })
    } else if sel == 1 {
        (MenuColor::OtherLang, MenuColor::Selected, if fr {
            MenuColor::OtherLang
        } else {
            MenuColor::CurrentLang
        })
    } else {
        (MenuColor::OtherLang, if fr {
            MenuColor::CurrentLang
        } else {
            MenuColor::OtherLang
        }, MenuColor::Selected)
    };
    MenuUpdate { menu_sel: sel, choice, colors }
}

/// Moving the start menu selection up and then down (or down and then up)
/// comes back to the same entry.
pub proof fn lemma_menu_up_down_inverse(sel: int)
    requires
        0 <= sel <= 2,
    ensures
        sel_down(sel_up(sel)) == sel,
        sel_up(sel_down(sel)) == sel,
{
}

/// The pause action pauses a running game, stopping the physics, and
/// resumes a paused game, starting the physics again.
pub proof fn lemma_pause_resume(i: MenuInput, no_more: bool, level: int, start: int)
    requires
        i.pause_unpause,
        !i.exit_to_menu,
    ensures
        menu_step_spec(AppState::GameRunning, i, no_more, level, start).next_state == Some(
            AppState::GamePaused,
        ),
        menu_step_spec(AppState::GameRunning, i, no_more, level, start).physics_active == Some(
            false,
        ),
        menu_step_spec(AppState::GamePaused, i, no_more, level, start).next_state == Some(
            AppState::GameRunning,
        ),
        menu_step_spec(AppState::GamePaused, i, no_more, level, start).physics_active == Some(true),
{
}

/// The level after `k` levels are finished from level `level`, and whether
/// the game is finished by then.
pub open spec fn finish_levels(level: int, k: nat) -> (int, bool)
    decreases k,
{
    if k == 0 {
        (level, false)
    } else {
        let (l, done) = finish_levels(level, (k - 1) as nat);
        if done {
            (l, true)
        } else {
            let step = menu_step_spec(AppState::FinishLevel, MenuInput::default_spec(), false, l, 0);
            (step.current_level, step.next_state == Some(AppState::GameFinished))
        }
    }
}

impl MenuInput {
    /// No action pressed.
    pub open spec fn default_spec() -> MenuInput {
        MenuInput {
            accept: false,
            pause_unpause: false,
            exit_to_menu: false,
            quit: false,
            up: false,
            down: false,
            right: false,
            left: false,
        }
    }
}

/// A game that starts at a level goes through the following levels one by
/// one, and is finished exactly when the last level is.
pub proof fn lemma_levels_finish_game(level: int, k: nat)
    requires
        1 <= level <= LAST_LEVEL,
        k <= LAST_LEVEL - level + 1,
    ensures
        k <= LAST_LEVEL - level ==> finish_levels(level, k) == (level + k, false),
        k == LAST_LEVEL - level + 1 ==> finish_levels(level, k) == (LAST_LEVEL as int, true),
    decreases k,
{
    if k > 0 {
        lemma_levels_finish_game(level, (k - 1) as nat);
    }
}

/// The level a game starts at, from the setting `ROCKRUN_LEVEL` when it is
/// given: levels 1 to 3 are taken as they are, any other number gives 1.
pub open spec fn start_level_spec(setting: Option<Seq<char>>) -> int {
    match setting {
        Some(s) => {
            let v = parse_usize_spec(s)->0;
            if 1 <= v <= 3 {
                v as int
            } else {
                1
            }
        },
        None => 1,
    }
}

/// `true` when the level setting, if given, is a number that fits in a
/// `u8`.
pub open spec fn level_setting_ok(setting: Option<Seq<char>>) -> bool {
    match setting {
        Some(s) => parse_usize_spec(s) matches Some(v) && v <= u8::MAX,
        None => true,
    }
}

/// The level a game starts at, from the `ROCKRUN_LEVEL` setting if it is
/// given.
pub fn start_level(setting: Option<&str>) -> (l: u8)
    requires
        level_setting_ok(match setting {
            Some(s) => Some(s@),
            None => None,
        }),
    ensures
        l as int == start_level_spec(match setting {
            Some(s) => Some(s@),
            None => None,
        }),
{
    match setting {
        Some(s) => {
            let v = parse_usize(&chars_of(s)).unwrap();
            if 1 <= v && v <= 3 {
                v as u8
            } else {
                1
            }
        },
        None => 1,
    }
}

/// `true` when every name contains `exit`.
pub open spec fn all_exits(names: Seq<Seq<char>>) -> bool {
    forall|k: int| 0 <= k < names.len() ==> contains_seq(#[trigger] names[k], "exit"@)
}

/// What the exit check does in a frame, from whether the player stood at
/// the exit, the names of the sensors the player started and stopped
/// touching, and whether climb was pressed: whether the player stands at
/// the exit afterwards, and whether the level is finished.
///
/// Touching an exit marks the player at the exit and leaving it unmarks;
/// a sensor that is not an exit ends the check for the frame. Climbing at
/// the exit finishes the level.
pub open spec fn check_exit_spec(
    at_exit: bool,
    starts: Seq<Seq<char>>,
    stops: Seq<Seq<char>>,
    climb: bool,
) -> (bool, bool) {
    let a1 = if starts.len() > 0 && contains_seq(starts[0], "exit"@) {
        true
    } else {
        at_exit
    };
    if !all_exits(starts) {
        (a1, false)
    } else {
        let a2 = if stops.len() > 0 && contains_seq(stops[0], "exit"@) {
            false
        } else {
            a1
        };
        if !all_exits(stops) {
            (a2, false)
        } else if a2 && climb {
            (false, true)
        } else {
            (a2, false)
        }
    }
}

/// Runs the exit check of a frame; returns whether the player stands at the
/// exit afterwards and whether the level is finished.
pub fn check_exit(at_exit: bool, starts: &Vec<String>, stops: &Vec<String>, climb: bool) -> (r: (
    bool,
    bool,
))
    ensures
        r == check_exit_spec(at_exit, starts.deep_view(), stops.deep_view(), climb),
{
    let exit = chars_of("exit");
    let mut flag = at_exit;
    let n = starts.len();
    for k in 0..n
        invariant
            n == starts@.len(),
            exit@ == "exit"@,
            forall|q: int| 0 <= q < k ==> contains_seq(#[trigger] starts.deep_view()[q], "exit"@),
            flag == if k > 0 {
                true
            } else {
                at_exit
            },
    {
        assert(starts.deep_view()[k as int] == starts@[k as int]@);
        if !contains_chars(&chars_of(starts[k].as_str()), &exit) {
            return (flag, false);
        }
        flag = true;
    }
    let m = stops.len();
    let ghost a1 = flag;
    if n > 0 {
        assert(contains_seq(starts.deep_view()[0], "exit"@));
    }
    for k in 0..m
        invariant
            m == stops@.len(),
            exit@ == "exit"@,
            all_exits(starts.deep_view()),
            a1 == (if starts.deep_view().len() > 0 && contains_seq(starts.deep_view()[0], "exit"@) {
                true
            } else {
                at_exit
            }),
            forall|q: int| 0 <= q < k ==> contains_seq(#[trigger] stops.deep_view()[q], "exit"@),
            flag == if k > 0 {
                false
            } else {
                a1
            },
    {
        assert(stops.deep_view()[k as int] == stops@[k as int]@);
        if !contains_chars(&chars_of(stops[k].as_str()), &exit) {
            if k > 0 {
                assert(contains_seq(stops.deep_view()[0], "exit"@));
            }
            assert(!all_exits(stops.deep_view()));
            return (flag, false);
        }
        flag = false;
    }
    if m > 0 {
        assert(contains_seq(stops.deep_view()[0], "exit"@));
    }
    if flag && climb {
        (false, true)
    } else {
        (flag, false)
    }
}

/// The color of entry `k` (0, 1 or 2) of the start menu.
pub open spec fn color_at(c: (MenuColor, MenuColor, MenuColor), k: int) -> MenuColor {
    if k == 0 {
        c.0
    } else if k == 1 {
        c.1
    } else {
        c.2
    }
}

/// The entry of the start menu that chooses a language: 1 for French, 2
/// for English.
pub open spec fn lang_entry(l: Lang) -> int {
    if l == Lang::French {
        1
    } else {
        2
    }
}

/// What the start menu does in a frame:
/// - the selection stays among the three entries; up alone moves it to the
///   next entry round, down alone to the previous one, and both or neither
///   leave it where it was;
/// - without accept nothing is chosen; with accept the entry selected
///   afterwards is chosen: entry 0 starts the game, entry 1 switches to
///   French and entry 2 to English;
/// - the selected entry, and only it, is shown selected; the entry of the
///   language in force afterwards (the one just chosen, if any) is shown
///   as the current language unless it is selected, and the other entries
///   that are not selected as other choices.
pub proof fn lemma_start_menu_laws(sel: int, up: bool, down: bool, accept: bool, lang: Lang)
    requires
        0 <= sel <= 2,
    ensures
        ({
            let (s2, choice, colors) = menu_update_spec(sel, up, down, accept, lang);
            let lang2 = match choice {
                Some(MenuChoice::SetLang(l)) => l,
                _ => lang,
            };
            &&& 0 <= s2 <= 2
            &&& (up == down ==> s2 == sel)
            &&& (up && !down ==> s2 == (sel + 1) % 3)
            &&& (down && !up ==> s2 == (sel + 2) % 3)
            &&& (!accept ==> choice is None)
            &&& (accept && s2 == 0 ==> choice == Some(MenuChoice::Start))
            &&& (accept && s2 == 1 ==> choice == Some(MenuChoice::SetLang(Lang::French)))
            &&& (accept && s2 == 2 ==> choice == Some(MenuChoice::SetLang(Lang::English)))
            &&& (accept ==> lang2 == (if s2 == 1 { Lang::French } else if s2 == 2 { Lang::English } else { lang }))
            &&& forall|k: int| 0 <= k <= 2 ==> (#[trigger] color_at(colors, k) == MenuColor::Selected <==> k == s2)
            &&& forall|k: int| 0 <= k <= 2 && k != s2 ==> (#[trigger] color_at(colors, k) == (if k == lang_entry(lang2) {
                MenuColor::CurrentLang
            } else {
                MenuColor::OtherLang
            }))
        }),
{
}

/// What the menu input system does with the state of the game:
/// - from any state but the start menu, leaving to the menu goes to the
///   start menu, with the physics running, the story box hidden and the
///   ladder released;
/// - otherwise the start menu stays, sets the level to the start level and
///   quits on request; creating a game starts it; pause toggles between a
///   running and a paused game, stopping and restarting the physics; a
///   story message goes back to the running game when the messages are
///   over or on pause; accept on the game-over and game-finished screens
///   goes back to the start menu, and nothing else leaves them; a finished
///   level leads to the end of the game after the last level and to the
///   next level, one higher, before it; a new level starts running; and no
///   state but the start menu and a finished level changes the level.
pub proof fn lemma_menu_state_laws(s: AppState, i: MenuInput, no_more: bool, level: int, start: int)
    ensures
        ({
            let r = menu_step_spec(s, i, no_more, level, start);
            &&& (s != AppState::StartMenu && i.exit_to_menu ==> r.next_state == Some(AppState::StartMenu)
                && r.physics_active == Some(true) && r.ladder_stop && r.story_messages == seq![
                StoryMessageKind::Hide
            ])
            &&& (s == AppState::StartMenu ==> r.next_state is None && r.exit == i.quit && r.current_level
                == start)
            &&& (!i.exit_to_menu ==> {
                &&& (s == AppState::GameCreate ==> r.next_state == Some(AppState::GameRunning)
                    && r.start_game)
                &&& (s == AppState::GameRunning ==> r.next_state == (if i.pause_unpause {
                    Some(AppState::GamePaused)
                } else {
                    None
                }) && r.physics_active == (if i.pause_unpause {
                    Some(false)
                } else {
                    None
                }))
                &&& (s == AppState::GamePaused ==> r.next_state == (if i.pause_unpause {
                    Some(AppState::GameRunning)
                } else {
                    None
                }) && r.physics_active == (if i.pause_unpause {
                    Some(true)
                } else {
                    None
                }))
                &&& (s == AppState::GameMessage ==> r.next_state == (if no_more || i.pause_unpause {
                    Some(AppState::GameRunning)
                } else {
                    None
                }))
                &&& ((s == AppState::GameOver || s == AppState::GameFinished) ==> r.next_state == (
                if i.accept {
                    Some(AppState::StartMenu)
                } else {
                    None
                }))
                &&& (s == AppState::FinishLevel ==> (if level == LAST_LEVEL {
                    r.next_state == Some(AppState::GameFinished) && r.current_level == level
                } else {
                    r.next_state == Some(AppState::NextLevel) && r.current_level == level + 1
                }))
                &&& (s == AppState::NextLevel ==> r.next_state == Some(AppState::GameRunning)
                    && r.next_level)
                &&& (s != AppState::GameMessage ==> r.story_messages.len() == 0 && r.selections.len() == 0
                    && !r.clear_no_more_messages)
                &&& (s != AppState::StartMenu ==> !r.exit)
                &&& r.start_game == (s == AppState::GameCreate)
                &&& r.next_level == (s == AppState::NextLevel)
                &&& (s == AppState::Loading ==> r.next_state is None)
                &&& (s == AppState::GameMessage ==> r.physics_active == (if no_more || i.pause_unpause {
                    Some(true)
                } else {
                    None
                }))
                &&& (s != AppState::GameRunning && s != AppState::GamePaused && s != AppState::GameMessage
                    ==> r.physics_active is None)
                &&& !r.ladder_stop
                &&& (s != AppState::StartMenu && s != AppState::FinishLevel ==> r.current_level
                    == level)
            })
        }),
{
}

/// On a story message, a frame hides the story box exactly when the
/// messages are over or on pause, goes to the next message exactly on
/// accept, passes on exactly the selection moves pressed, and clears the
/// end of the messages exactly when it was reached.
pub proof fn lemma_story_message_frame_laws(i: MenuInput, no_more: bool, level: int, start: int)
    requires
        !i.exit_to_menu,
    ensures
        ({
            let r = menu_step_spec(AppState::GameMessage, i, no_more, level, start);
            &&& r.story_messages.contains(StoryMessageKind::Next) == i.accept
            &&& r.story_messages.contains(StoryMessageKind::Hide) == (no_more || i.pause_unpause)
            &&& r.selections.contains(SelectionDirection::Right) == i.right
            &&& r.selections.contains(SelectionDirection::Left) == i.left
            &&& r.selections.contains(SelectionDirection::Up) == i.up
            &&& r.selections.contains(SelectionDirection::Down) == i.down
            &&& r.clear_no_more_messages == no_more
        }),
{
    let s = AppState::GameMessage;
    let r = menu_step_spec(s, i, no_more, level, start);
    let m = r.story_messages;
    let a = if no_more { seq![StoryMessageKind::Hide] } else { Seq::<StoryMessageKind>::empty() };
    let b = if i.accept { seq![StoryMessageKind::Next] } else { Seq::<StoryMessageKind>::empty() };
    let c = if i.pause_unpause { seq![StoryMessageKind::Hide] } else { Seq::<StoryMessageKind>::empty() };
    assert(m == a + b + c);
    if i.accept {
        assert(m[a.len() as int] == StoryMessageKind::Next);
    }
    if no_more {
        assert(m[0] == StoryMessageKind::Hide);
    } else if i.pause_unpause {
        assert(m[(a.len() + b.len()) as int] == StoryMessageKind::Hide);
    }
    let sl = r.selections;
    let sa = if i.right { seq![SelectionDirection::Right] } else { Seq::<SelectionDirection>::empty() };
    let sb = if i.left { seq![SelectionDirection::Left] } else { Seq::<SelectionDirection>::empty() };
    let sc = if i.up { seq![SelectionDirection::Up] } else { Seq::<SelectionDirection>::empty() };
    let sd = if i.down { seq![SelectionDirection::Down] } else { Seq::<SelectionDirection>::empty() };
    assert(sl == sa + sb + sc + sd);
    if i.right {
        assert(sl[0] == SelectionDirection::Right);
    }
    if i.left {
        assert(sl[sa.len() as int] == SelectionDirection::Left);
    }
    if i.up {
        assert(sl[(sa.len() + sb.len()) as int] == SelectionDirection::Up);
    }
    if i.down {
        assert(sl[(sa.len() + sb.len() + sc.len()) as int] == SelectionDirection::Down);
    }
}

/// The exit check of a frame:
/// - the level is finished only on climb, and then the player no longer
///   counts as standing at the exit;
/// - with no sensor touched or left, climbing finishes the level exactly
///   when the player stood at the exit, from whatever earlier frame;
/// - touching exits in the frame counts as standing at the exit already:
///   the result is the one for a player who stood there and touched
///   nothing;
/// - having left an exit (with only exits touched and left), the player is
///   not at the exit and nothing is finished;
/// - touching a sensor that is not an exit finishes nothing.
pub proof fn lemma_exit_laws(at_exit: bool, starts: Seq<Seq<char>>, stops: Seq<Seq<char>>, climb: bool)
    ensures
        check_exit_spec(at_exit, starts, stops, climb).1 ==> climb && !check_exit_spec(
            at_exit,
            starts,
            stops,
            climb,
        ).0,
        check_exit_spec(at_exit, seq![], seq![], climb) == (at_exit && !climb, at_exit && climb),
        all_exits(starts) && starts.len() > 0 ==> check_exit_spec(at_exit, starts, stops, climb)
            == check_exit_spec(true, seq![], stops, climb),
        all_exits(starts) && all_exits(stops) && stops.len() > 0 ==> check_exit_spec(
            at_exit,
            starts,
            stops,
            climb,
        ) == (false, false),
        !all_exits(starts) ==> check_exit_spec(at_exit, starts, stops, climb) == (at_exit || (starts.len()
            > 0 && contains_seq(starts[0], "exit"@)), false),
        all_exits(starts) && !all_exits(stops) ==> check_exit_spec(at_exit, starts, stops, climb) == (
        !(stops.len() > 0 && contains_seq(stops[0], "exit"@)) && (at_exit || starts.len() > 0),
        false,
        ),
{
    assert(all_exits(seq![]));
}

} // verus!
