use vstd::prelude::*;

use crate::player::PlayerState;
use crate::screen_map::Transition;

verus! {

/// How the camera follows the player.
#[derive(Debug, Clone, Copy, PartialEq, Eq, Structural)]
pub enum CameraMode {
    /// Jumps to the fixed screen below.
    HardDown,
    /// Jumps to the fixed screen above.
    HardUp,
    /// Slides down to the fixed screen.
    SmoothDown,
    /// Slides up to the fixed screen above.
    SmoothUp,
    /// Follows the player.
    Follow,
}

/// How the camera follows the player, from the screen the player is on (if
/// any: whether it is fixed, and its transition) and the screen above it
/// (if any). No screen counts as a free screen with a smooth transition;
/// no screen above counts as a fixed one with a smooth transition.
pub open spec fn camera_mode_spec(screen: Option<(bool, Transition)>, above: Option<(bool, Transition)>) -> CameraMode {
    let (fixed, transition) = match screen {
        Some(s) => s,
        None => (false, Transition::Smooth),
    };
    let (above_fixed, above_transition) = match above {
        Some(a) => a,
        None => (true, Transition::Smooth),
    };
    if fixed && transition == Transition::Hard {
        CameraMode::HardDown
    } else if !fixed && above_fixed && above_transition == Transition::Hard {
        CameraMode::HardUp
    } else if fixed && transition == Transition::Smooth {
        CameraMode::SmoothDown
    } else if !fixed && above_fixed && above_transition == Transition::Smooth {
        CameraMode::SmoothUp
    } else {
        CameraMode::Follow
    }
}

/// How the camera follows the player.
pub fn camera_mode(screen: Option<(bool, Transition)>, above: Option<(bool, Transition)>) -> (m: CameraMode)
    ensures
        m == camera_mode_spec(screen, above),
{
    let (fixed, transition) = match screen {
        Some(s) => s,
        None => (false, Transition::Smooth),
    };
    let (above_fixed, above_transition) = match above {
        Some(a) => a,
        None => (true, Transition::Smooth),
    };
    match (fixed, transition, above_fixed, above_transition) {
        (true, Transition::Hard, _, _) => CameraMode::HardDown,
        (false, _, true, Transition::Hard) => CameraMode::HardUp,
        (true, Transition::Smooth, _, _) => CameraMode::SmoothDown,
        (false, _, true, Transition::Smooth) => CameraMode::SmoothUp,
        _ => CameraMode::Follow,
    }
}

/// How the camera follows the player, by the screens around it:
/// - on a fixed screen it goes down to it, jumping or sliding as the
///   screen's transition says;
/// - on a free screen (or none), below a fixed screen it goes up to it,
///   jumping or sliding as that screen's transition says, and below no
///   screen it slides up;
/// - on a free screen below a free screen it follows the player;
/// - it slides up only when the player is not on a fixed screen and the
///   screen above is fixed or missing.
pub proof fn lemma_camera_mode_laws(screen: Option<(bool, Transition)>, above: Option<(bool, Transition)>)
    ensures
        screen == Some((true, Transition::Hard)) ==> camera_mode_spec(screen, above) == CameraMode::HardDown,
        screen == Some((true, Transition::Smooth)) ==> camera_mode_spec(screen, above)
            == CameraMode::SmoothDown,
        (screen is None || screen matches Some((false, _))) ==> {
            &&& above == Some((true, Transition::Hard)) ==> camera_mode_spec(screen, above)
                == CameraMode::HardUp
            &&& above == Some((true, Transition::Smooth)) ==> camera_mode_spec(screen, above)
                == CameraMode::SmoothUp
            &&& above is None ==> camera_mode_spec(screen, above) == CameraMode::SmoothUp
            &&& above matches Some((false, _)) ==> camera_mode_spec(screen, above) == CameraMode::Follow
        },
        camera_mode_spec(screen, above) == CameraMode::SmoothUp ==> !(screen matches Some((true, _))) && (
        above is None || above matches Some((true, _))),
        camera_mode_spec(screen, above) == CameraMode::Follow ==> !(screen matches Some((true, _)))
            && above matches Some((false, _)),
{
}

/// Whether a shaking camera is pulled back to the center of its screen: it
/// is, while shaking, unless there are screens both above and below.
pub fn shake_sticks_to_center(shake: bool, above_exists: bool, below_exists: bool) -> (b: bool)
    ensures
        b == (shake && (!above_exists || !below_exists)),
{
    shake && (!above_exists || !below_exists)
}

/// What happens to the camera's vertical offset from the player in a
/// frame.
#[derive(Debug, Clone, Copy, PartialEq, Eq, Structural)]
pub enum OffsetChange {
    /// It stays as it is.
    Keep,
    /// It grows by the camera's step (half the player's speed).
    Raise,
    /// It shrinks by the camera's step.
    Lower,
    /// It becomes the distance from the player to the screen's center.
    ToCenter,
    /// It goes back to zero.
    Reset,
}

/// Where the camera aims, vertically, relative to the player.
#[derive(Debug, Clone, Copy, PartialEq, Eq, Structural)]
pub enum CameraAim {
    /// At the player.
    Player,
    /// At the player moved by the distance to the screen's center.
    ScreenCenter,
    /// At the player moved by the offset.
    Offset,
}

/// What the camera does in a frame, from the mode, whether the player is
/// below the center of its screen (`player_below_center`) or above it
/// (`player_above_center`), the player's state, whether the camera is below
/// the screen's center and whether the offset is positive. In the smooth
/// modes the offset moves only while the player neither falls nor jumps:
/// going down, it grows until the camera reaches the center and then
/// matches the distance to it; going up, it shrinks back to zero.
pub open spec fn camera_offset_spec(
    mode: CameraMode,
    player_below_center: bool,
    player_above_center: bool,
    state: PlayerState,
    camera_below_center: bool,
    offset_positive: bool,
) -> (OffsetChange, CameraAim) {
    let steady = !(state == PlayerState::Falling || state == PlayerState::Jumping);
    match mode {
        CameraMode::HardDown | CameraMode::HardUp => (OffsetChange::Keep, CameraAim::ScreenCenter),
        CameraMode::SmoothDown => (
            if player_below_center && steady {
                if camera_below_center {
                    OffsetChange::Raise
                } else {
                    OffsetChange::ToCenter
                }
            } else {
                OffsetChange::Keep
            },
            CameraAim::Offset,
        ),
        CameraMode::SmoothUp => (
            if player_above_center && steady {
                if offset_positive {
                    OffsetChange::Lower
                } else {
                    OffsetChange::Reset
                }
            } else {
                OffsetChange::Keep
            },
            CameraAim::Offset,
        ),
        CameraMode::Follow => (OffsetChange::Keep, CameraAim::Player),
    }
}

/// What the camera does with its offset and where it aims in a frame.
pub fn camera_offset(
    mode: CameraMode,
    player_below_center: bool,
    player_above_center: bool,
    state: PlayerState,
    camera_below_center: bool,
    offset_positive: bool,
) -> (r: (OffsetChange, CameraAim))
    ensures
        r == camera_offset_spec(
            mode,
            player_below_center,
            player_above_center,
            state,
            camera_below_center,
            offset_positive,
        ),
{
    let steady = !(state == PlayerState::Falling || state == PlayerState::Jumping);
    match mode {
        CameraMode::HardDown | CameraMode::HardUp => (OffsetChange::Keep, CameraAim::ScreenCenter),
        CameraMode::SmoothDown => {
            let change = if player_below_center && steady {
                if camera_below_center {
                    OffsetChange::Raise
                } else {
                    OffsetChange::ToCenter
                }
            } else {
                OffsetChange::Keep
            };
            (change, CameraAim::Offset)
        },
        CameraMode::SmoothUp => {
            let change = if player_above_center && steady {
                if offset_positive {
                    OffsetChange::Lower
                } else {
                    OffsetChange::Reset
                }
            } else {
                OffsetChange::Keep
            };
            (change, CameraAim::Offset)
        },
        CameraMode::Follow => (OffsetChange::Keep, CameraAim::Player),
    }
}

} // verus!
