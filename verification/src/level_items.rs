use vstd::prelude::*;

use crate::enigma::{
    check_enigma_spec, lemma_stories_distinct, story_100, EnigmaFollowUp, EnigmaView, Verdict,
};
use crate::text::{chars_of, string_of};
use crate::screen_map::{bevy_of_tiled, MapView, PixelPoint, ScreenMap};
use crate::story::UserSelectionView;
use crate::text::str_eq;

verus! {

/// Where the nuts of a level lie, in Tiled coordinates.
pub open spec fn nut_table(level: int) -> Seq<(int, int)> {
    if level == 1 {
        seq![
            (5600, 446),
            (5528, 302),
            (5258, 248),
            (5312, 452),
            (5760, 612),
            (6100, 612),
            (6300, 612),
            (6496, 612),
            (6625, 612),
            (5323, 300),
            (5427, 288),
        ]
    } else {
        Seq::empty()
    }
}

/// Where the extra lives of a level lie, in Tiled coordinates.
pub open spec fn extra_life_table(level: int) -> Seq<(int, int)> {
    if level == 1 {
        seq![(1056, 112)]
    } else if level == 2 {
        seq![(5416, 1518)]
    } else {
        Seq::empty()
    }
}

/// `true` when `r` holds the points of `table` turned into game coordinates
/// on the map `m`, in order.
pub open spec fn placed(r: Seq<PixelPoint>, table: Seq<(int, int)>, m: MapView) -> bool {
    &&& r.len() == table.len()
    &&& forall|i: int|
        0 <= i < r.len() ==> (#[trigger] r[i].x as int, r[i].y as int) == bevy_of_tiled(
            m,
            table[i].0,
            table[i].1,
        )
}

/// The points of a table, in game coordinates.
pub(crate) fn place(map: &ScreenMap, table: &Vec<(i64, i64)>) -> (r: Vec<PixelPoint>)
    requires
        forall|i: int|
            0 <= i < table@.len() ==> 0 <= #[trigger] table@[i].0 <= 100_000 && 0 <= table@[i].1
                <= 100_000,
    ensures
        placed(
            r@,
            Seq::new(table@.len(), |i: int| (table@[i].0 as int, table@[i].1 as int)),
            map@,
        ),
{
    let mut out: Vec<PixelPoint> = Vec::new();
    for i in 0..table.len()
        invariant
            forall|i: int|
                0 <= i < table@.len() ==> 0 <= #[trigger] table@[i].0 <= 100_000 && 0
                    <= table@[i].1 <= 100_000,
            out@.len() == i,
            forall|k: int|
                0 <= k < i ==> (#[trigger] out@[k].x as int, out@[k].y as int) == bevy_of_tiled(
                    map@,
                    table@[k].0 as int,
                    table@[k].1 as int,
                ),
    {
        let (x, y) = table[i];
        let p = map.tiled_to_bevy_coord(PixelPoint { x, y });
        out.push(p);
    }
    out
}

/// The table as a sequence of integer pairs.
pub open spec fn table_view(t: Seq<(i64, i64)>) -> Seq<(int, int)> {
    Seq::new(t.len(), |i: int| (t[i].0 as int, t[i].1 as int))
}

/// Where the nuts of `level` lie, in game coordinates on `map`.
pub fn nut_positions(level: u8, map: &ScreenMap) -> (r: Vec<PixelPoint>)
    ensures
        placed(r@, nut_table(level as int), map@),
{
    let table: Vec<(i64, i64)> = if level == 1 {
        vec![
            (5600, 446),
            (5528, 302),
            (5258, 248),
            (5312, 452),
            (5760, 612),
            (6100, 612),
            (6300, 612),
            (6496, 612),
            (6625, 612),
            (5323, 300),
            (5427, 288),
        ]
    } else {
        Vec::new()
    };
    assert(table_view(table@) =~= nut_table(level as int));
    place(map, &table)
}

/// Where the extra lives of `level` lie, in game coordinates on `map`.
pub fn extra_life_positions(level: u8, map: &ScreenMap) -> (r: Vec<PixelPoint>)
    ensures
        placed(r@, extra_life_table(level as int), map@),
{
    let table: Vec<(i64, i64)> = if level == 1 {
        vec![(1056, 112)]
    } else if level == 2 {
        vec![(5416, 1518)]
    } else {
        Vec::new()
    };
    assert(table_view(table@) =~= extra_life_table(level as int));
    place(map, &table)
}

/// The nuts collected in the current level.
#[derive(Debug)]
pub struct Nuts {
    collected: usize,
}

impl View for Nuts {
    type V = nat;

    closed spec fn view(&self) -> nat {
        self.collected as nat
    }
}

impl Nuts {
    /// No nut collected.
    pub fn new() -> (n: Self)
        ensures
            n@ == 0,
    {
        Nuts { collected: 0 }
    }

    /// The number of nuts collected.
    pub fn len(&self) -> (r: usize)
        ensures
            r == self@,
    {
        self.collected
    }

    /// One more nut collected.
    pub fn collect(&mut self)
        requires
            old(self)@ < usize::MAX,
        ensures
            final(self)@ == old(self)@ + 1,
    {
        self.collected = self.collected + 1;
    }

    /// The nuts are put back when the level's nuts are set up again.
    pub fn clear(&mut self)
        ensures
            final(self)@ == 0,
    {
        self.collected = 0;
    }
}

/// The enigma of story 100 asks for the nuts of the first level: it is
/// answered right exactly when all of them were collected.
pub proof fn lemma_all_nuts_solve_story_100(
    es: Seq<EnigmaView>,
    sel: Option<UserSelectionView>,
    nuts: nat,
    keys: int,
)
    ensures
        check_enigma_spec(story_100(), es, sel, nuts as int, keys) == Some((
            if nuts == nut_table(1).len() {
                Verdict::Correct
            } else {
                Verdict::Incorrect
            },
            EnigmaFollowUp::Nothing,
        )),
{
    lemma_stories_distinct();
}

/// What a position sensor of a level does when the player reaches it: where
/// what it sets off appears and where it goes (game coordinates), and
/// whether the sensor then stops reacting.
#[derive(Debug)]
pub struct SensorValues {
    pub start_pos: PixelPoint,
    pub end_pos: PixelPoint,
    pub disable_next_collision: bool,
}

/// A sensor's entry in the table: Tiled coordinates of the start and end
/// (`None` for a sensor that only marks a place), and whether it reacts
/// only once.
pub open spec fn sensor_table(level: int, name: Seq<char>) -> Option<(Option<((int, int), (int, int))>, bool)> {
    if level == 1 {
        if name == "exit01"@ {
            Some((None, false))
        } else if name == "pterodactyl_attack01"@ {
            Some((Some(((1596, 455), (0, 455))), true))
        } else {
            None
        }
    } else if level == 2 {
        if name == "bat01"@ {
            Some((Some(((3940, 850), (3060, 1460))), false))
        } else if name == "pterodactyl01"@ {
            Some((Some(((1400, 320), (-30, 320))), true))
        } else if name == "rock01"@ || name == "rock02"@ || name == "rock03"@ {
            Some((Some(((5300, 800), (5300, 600))), false))
        } else if name == "exit01"@ {
            Some((None, false))
        } else {
            None
        }
    } else {
        None
    }
}

/// `true` when `v` holds what the table says of the sensor, its points in
/// game coordinates on `m` (the origin for a sensor that only marks a
/// place).
pub open spec fn sensor_matches(v: SensorValues, entry: (Option<((int, int), (int, int))>, bool), m: MapView) -> bool {
    &&& v.disable_next_collision == entry.1
    &&& match entry.0 {
        Some((s, e)) => (v.start_pos.x as int, v.start_pos.y as int) == bevy_of_tiled(m, s.0, s.1) && (
        v.end_pos.x as int, v.end_pos.y as int) == bevy_of_tiled(m, e.0, e.1),
        None => v.start_pos == (PixelPoint { x: 0, y: 0 }) && v.end_pos == (PixelPoint { x: 0, y: 0 }),
    }
}

fn sensor(map: &ScreenMap, start: (i64, i64), end: (i64, i64), once: bool) -> (v: SensorValues)
    requires
        -100_000 <= start.0 <= 100_000 && -100_000 <= start.1 <= 100_000,
        -100_000 <= end.0 <= 100_000 && -100_000 <= end.1 <= 100_000,
    ensures
        sensor_matches(
            v,
            (Some(((start.0 as int, start.1 as int), (end.0 as int, end.1 as int))), once),
            map@,
        ),
{
    SensorValues {
        start_pos: map.tiled_to_bevy_coord(PixelPoint { x: start.0, y: start.1 }),
        end_pos: map.tiled_to_bevy_coord(PixelPoint { x: end.0, y: end.1 }),
        disable_next_collision: once,
    }
}

fn marker() -> (v: SensorValues)
    ensures
        v.start_pos == (PixelPoint { x: 0, y: 0 }),
        v.end_pos == (PixelPoint { x: 0, y: 0 }),
        !v.disable_next_collision,
{
    SensorValues {
        start_pos: PixelPoint { x: 0, y: 0 },
        end_pos: PixelPoint { x: 0, y: 0 },
        disable_next_collision: false,
    }
}

/// What the position sensor `name` of `level` does, on `map`; `None` for a
/// sensor that the level does not know.
pub fn sensor_values(level: u8, name: &str, map: &ScreenMap) -> (r: Option<SensorValues>)
    ensures
        match sensor_table(level as int, name@) {
            Some(entry) => r matches Some(v) && sensor_matches(v, entry, map@),
            None => r is None,
        },
{
    if level == 1 {
        if str_eq(name, "exit01") {
            Some(marker())
        } else if str_eq(name, "pterodactyl_attack01") {
            Some(sensor(map, (1596, 455), (0, 455), true))
        } else {
            None
        }
    } else if level == 2 {
        if str_eq(name, "bat01") {
            Some(sensor(map, (3940, 850), (3060, 1460), false))
        } else if str_eq(name, "pterodactyl01") {
            Some(sensor(map, (1400, 320), (-30, 320), true))
        } else if str_eq(name, "rock01") || str_eq(name, "rock02") || str_eq(name, "rock03") {
            Some(sensor(map, (5300, 800), (5300, 600), false))
        } else if str_eq(name, "exit01") {
            Some(marker())
        } else {
            None
        }
    } else {
        None
    }
}

/// What a right answer brings into the level: the name of the sensor or
/// item, and where it appears in Tiled coordinates.
pub open spec fn follow_up_table(f: EnigmaFollowUp) -> Option<(Seq<char>, (int, int))> {
    match f {
        EnigmaFollowUp::Nothing => None,
        EnigmaFollowUp::SpawnStory100 => Some(("story100"@, (7250, 608))),
        EnigmaFollowUp::SpawnStory101 => Some(("story101"@, (12496, 2064))),
        EnigmaFollowUp::SpawnKey => Some(("key01"@, (5984, 2064))),
    }
}

/// The story sensor or the key that a right answer brings, with its
/// position in game coordinates on `map`.
pub fn follow_up_item(f: EnigmaFollowUp, map: &ScreenMap) -> (r: Option<(String, PixelPoint)>)
    ensures
        match follow_up_table(f) {
            Some((name, (x, y))) => r matches Some((n, p)) && n@ == name && (p.x as int, p.y as int)
                == bevy_of_tiled(map@, x, y),
            None => r is None,
        },
{
    match f {
        EnigmaFollowUp::Nothing => None,
        EnigmaFollowUp::SpawnStory100 => Some(
            (string_of(&chars_of("story100")), map.tiled_to_bevy_coord(PixelPoint { x: 7250, y: 608 })),
        ),
        EnigmaFollowUp::SpawnStory101 => Some(
            (string_of(&chars_of("story101")), map.tiled_to_bevy_coord(PixelPoint { x: 12496, y: 2064 })),
        ),
        EnigmaFollowUp::SpawnKey => Some(
            (string_of(&chars_of("key01")), map.tiled_to_bevy_coord(PixelPoint { x: 5984, y: 2064 })),
        ),
    }
}

} // verus!
