use vstd::prelude::*;

use crate::screen_map::{is_screen_letter, lemma_small_map_fits, map_spec, valid_screen_map, ScreenMap};

verus! {

/// The width of the game's window and of a screen, in pixels.
pub const WINDOW_WIDTH: usize = 1280;
/// The height of the game's window and of a screen, in pixels.
pub const WINDOW_HEIGHT: usize = 720;

/// The screens of each level, one letter a screen, row by row from the top
/// (see `ScreenMap::new`).
pub open spec fn level_layout(id: int) -> Option<Seq<char>> {
    if id == 1 {
        Some("S"@)
    } else if id == 2 {
        Some("SHFXF\nXOFOO"@)
    } else {
        None
    }
}

/// The map of screens of the level `id`, or `None` for a level that does
/// not exist.
pub fn level_map(id: u8) -> (r: Option<ScreenMap>)
    ensures
        match level_layout(id as int) {
            Some(l) => r matches Some(m) && m@ == map_spec(l, WINDOW_WIDTH as int, WINDOW_HEIGHT as int),
            None => r is None,
        },
{
    if id == 1 {
        proof {
            reveal_strlit("S");
            assert(valid_screen_map("S"@));
            lemma_small_map_fits("S"@, 1280, 720);
        }
        Some(ScreenMap::new("S", WINDOW_WIDTH, WINDOW_HEIGHT))
    } else if id == 2 {
        proof {
            reveal_strlit("SHFXF\nXOFOO");
            let l = "SHFXF\nXOFOO"@;
            assert forall|k: int| 0 <= k < l.len() && l[k] != '\n' implies #[trigger] is_screen_letter(l[k]) by {
                assert(l[k] == 'S' || l[k] == 'H' || l[k] == 'F' || l[k] == 'X' || l[k] == 'O' || l[k] == '\n');
            }
            lemma_small_map_fits(l, 1280, 720);
        }
        Some(ScreenMap::new("SHFXF\nXOFOO", WINDOW_WIDTH, WINDOW_HEIGHT))
    } else {
        None
    }
}

/// The music of a level.
#[derive(Debug, Clone, Copy, PartialEq, Eq, Structural)]
pub enum Music {
    Level01,
    Level02,
    Level03,
}

/// The music that loops during the level `id`, if it has one.
pub fn music_for_level(id: u8) -> (m: Option<Music>)
    ensures
        m == if id == 1 {
            Some(Music::Level01)
        } else if id == 2 {
            Some(Music::Level02)
        } else if id == 3 {
            Some(Music::Level03)
        } else {
            None
        },
{
    if id == 1 {
        Some(Music::Level01)
    } else if id == 2 {
        Some(Music::Level02)
    } else if id == 3 {
        Some(Music::Level03)
    } else {
        None
    }
}

} // verus!
