use vstd::prelude::*;

use crate::screen_map::{bevy_of_tiled, PixelPoint, ScreenMap};
use crate::text::{chars_of, contains_chars, contains_seq};

verus! {

/// The number of sensor events, from the first, whose names all contain
/// `word`: the events are handled in order until one whose name does not.
pub open spec fn leading_with(names: Seq<Seq<char>>, word: Seq<char>) -> nat
    decreases names.len(),
{
    if names.len() == 0 {
        0
    } else if contains_seq(names[0], word) {
        1 + leading_with(names.drop_first(), word)
    } else {
        0
    }
}

/// The number of leading names that contain `word`.
fn count_leading(names: &Vec<String>, word: &str) -> (r: usize)
    ensures
        r == leading_with(names.deep_view(), word@),
{
    let w = chars_of(word);
    let n = names.len();
    let mut k: usize = 0;
    assert(names.deep_view().skip(0) == names.deep_view());
    while k < n
        invariant
            n == names@.len(),
            k <= n,
            w@ == word@,
            leading_with(names.deep_view(), word@) == k + leading_with(names.deep_view().skip(k as int), word@),
        decreases n - k,
    {
        let ghost rest = names.deep_view().skip(k as int);
        assert(rest[0] == names@[k as int]@);
        if !contains_chars(&chars_of(names[k].as_str()), &w) {
            return k;
        }
        assert(rest.drop_first() == names.deep_view().skip(k + 1));
        k = k + 1;
    }
    assert(names.deep_view().skip(n as int).len() == 0);
    k
}

/// The rolling rocks set off by the sensor events of a frame: one for each
/// event, from the first, whose sensor is a rock sensor (its name contains
/// "rock"); the first other event ends the handling.
pub fn rocks_to_spawn(sensor_names: &Vec<String>) -> (r: usize)
    ensures
        r == leading_with(sensor_names.deep_view(), "rock"@),
{
    count_leading(sensor_names, "rock")
}

/// What the volcano does on a sensor event.
#[derive(Debug, Clone, Copy, PartialEq, Eq, Structural)]
pub enum VolcanoReaction {
    /// Not a volcano sensor: the handling of the frame's events ends.
    Ignore,
    /// The first volcano sensor: the ground shakes and rumbles, and the
    /// handling of the frame's events ends.
    Rumble,
    /// Another volcano sensor: the volcano erupts, the ground shakes and
    /// fireballs come out at the sensor's position.
    Erupt,
}

/// The reaction of the volcano to the sensor `name`.
pub open spec fn volcano_reaction_spec(name: Seq<char>) -> VolcanoReaction {
    if !contains_seq(name, "volcano"@) {
        VolcanoReaction::Ignore
    } else if contains_seq(name, "volcano01_02"@) {
        VolcanoReaction::Rumble
    } else {
        VolcanoReaction::Erupt
    }
}

/// The reaction of the volcano to the sensor `name`.
pub fn volcano_reaction(name: &str) -> (r: VolcanoReaction)
    ensures
        r == volcano_reaction_spec(name@),
{
    let n = chars_of(name);
    if !contains_chars(&n, &chars_of("volcano")) {
        VolcanoReaction::Ignore
    } else if contains_chars(&n, &chars_of("volcano01_02")) {
        VolcanoReaction::Rumble
    } else {
        VolcanoReaction::Erupt
    }
}

/// What the volcano does with the sensor events of a frame.
#[derive(Debug, Clone, Copy, PartialEq, Eq, Structural)]
pub struct VolcanoFrame {
    /// How many times the ground shakes (with the eruption sound).
    pub shakes: usize,
    /// The last event that made the volcano erupt: fireballs come out at its
    /// position from now on.
    pub eruption: Option<usize>,
    /// The handling ended early: no fireball comes out in this frame.
    pub stopped: bool,
}

/// The volcano's handling of the events `names[from..]`.
pub open spec fn volcano_frame_spec(names: Seq<Seq<char>>, from: int) -> (nat, Option<int>, bool)
    decreases names.len() - from,
{
    if from >= names.len() || from < 0 {
        (0, None, false)
    } else {
        match volcano_reaction_spec(names[from]) {
            VolcanoReaction::Ignore => (0, None, true),
            VolcanoReaction::Rumble => (1, None, true),
            VolcanoReaction::Erupt => {
                let rest = volcano_frame_spec(names, from + 1);
                (rest.0 + 1, if rest.1 is Some {
                    rest.1
                } else {
                    Some(from)
                }, rest.2)
            },
        }
    }
}

/// The volcano's handling of the sensor events of a frame: each eruption
/// shakes the ground, the last one gives where fireballs come out; a
/// sensor that is not a volcano's, or the first volcano sensor (which only
/// shakes the ground), ends the handling.
pub fn volcano_frame(names: &Vec<String>) -> (r: VolcanoFrame)
    ensures
        (r.shakes as nat, match r.eruption {
            Some(k) => Some(k as int),
            None => None,
        }, r.stopped) == volcano_frame_spec(names.deep_view(), 0),
{
    let n = names.len();
    let mut shakes: usize = 0;
    let mut eruption: Option<usize> = None;
    let mut k: usize = 0;
    while k < n
        invariant
            n == names@.len(),
            k <= n,
            shakes == k,
            eruption is None ==> k == 0,
            eruption matches Some(e) ==> e + 1 == k,
            forall|q: int| 0 <= q < k ==> volcano_reaction_spec(#[trigger] names.deep_view()[q]) == VolcanoReaction::Erupt,
        decreases n - k,
    {
        assert(names.deep_view()[k as int] == names@[k as int]@);
        match volcano_reaction(names[k].as_str()) {
            VolcanoReaction::Ignore => {
                proof { lemma_volcano_prefix(names.deep_view(), k as int, (0, None, true)); }
                return VolcanoFrame { shakes, eruption, stopped: true };
            },
            VolcanoReaction::Rumble => {
                proof { lemma_volcano_prefix(names.deep_view(), k as int, (1, None, true)); }
                return VolcanoFrame { shakes: shakes + 1, eruption, stopped: true };
            },
            VolcanoReaction::Erupt => {
                shakes = shakes + 1;
                eruption = Some(k);
            },
        }
        k = k + 1;
    }
    proof { lemma_volcano_prefix(names.deep_view(), n as int, (0, None, false)); }
    VolcanoFrame { shakes, eruption, stopped: false }
}

/// After `k` eruptions, what follows decides the rest: the shakes add up
/// and the last eruption is the last one found.
proof fn lemma_volcano_prefix(names: Seq<Seq<char>>, k: int, tail: (nat, Option<int>, bool))
    requires
        0 <= k <= names.len(),
        forall|q: int| 0 <= q < k ==> volcano_reaction_spec(#[trigger] names[q]) == VolcanoReaction::Erupt,
        volcano_frame_spec(names, k) == tail,
    ensures
        volcano_frame_spec(names, 0) == (
            (tail.0 + k) as nat,
            if tail.1 is Some {
                tail.1
            } else if k > 0 {
                Some(k - 1)
            } else {
                None
            },
            tail.2,
        ),
    decreases k,
{
    if k > 0 {
        let r = volcano_frame_spec(names, k - 1);
        assert(volcano_reaction_spec(names[k - 1]) == VolcanoReaction::Erupt);
        lemma_volcano_prefix(
            names,
            k - 1,
            (tail.0 + 1, if tail.1 is Some {
                tail.1
            } else {
                Some(k - 1)
            }, tail.2),
        );
    }
}

/// What the small rock dropper does in a frame.
#[derive(Debug, Clone, Copy, PartialEq, Eq, Structural)]
pub struct SmallRockStep {
    /// The monkeys are warned that rocks are about to fall.
    pub warn: bool,
    /// Two small rocks fall, and a new delay is drawn.
    pub drop: bool,
    /// Whether the warning of the current delay was given.
    pub warned: bool,
}

/// The small rocks of the second level: the warning comes once in each
/// delay, when at most a second is left; when the delay is over the rocks
/// fall and the next delay starts. Other levels have none.
pub open spec fn small_rock_spec(level: int, warned: bool, last_second: bool, finished: bool) -> SmallRockStep {
    if level != 2 {
        SmallRockStep { warn: false, drop: false, warned }
    } else {
        let warn = last_second && !warned;
        let w1 = warned || warn;
        SmallRockStep { warn, drop: finished, warned: if finished { false } else { w1 } }
    }
}

/// A frame of the small rock dropper, from the level, whether the warning
/// of the current delay was given, whether at most a second of it is left
/// and whether it is over.
pub fn small_rock_step(level: u8, warned: bool, last_second: bool, finished: bool) -> (r: SmallRockStep)
    ensures
        r == small_rock_spec(level as int, warned, last_second, finished),
{
    if level != 2 {
        return SmallRockStep { warn: false, drop: false, warned };
    }
    let warn = last_second && !warned;
    let mut w = warned || warn;
    if finished {
        w = false;
    }
    SmallRockStep { warn, drop: finished, warned: w }
}

/// Where the small rocks fall from, in Tiled coordinates.
pub open spec fn small_rock_table() -> Seq<(int, int)> {
    seq![(1475, 750), (5600, 750)]
}

/// Where the small rocks fall from, in game coordinates on `map`.
pub fn small_rock_positions(map: &ScreenMap) -> (r: Vec<PixelPoint>)
    ensures
        r@.len() == 2,
        forall|i: int|
            0 <= i < 2 ==> (#[trigger] r@[i].x as int, r@[i].y as int) == bevy_of_tiled(
                map@,
                small_rock_table()[i].0,
                small_rock_table()[i].1,
            ),
{
    let a = map.tiled_to_bevy_coord(PixelPoint { x: 1475, y: 750 });
    let b = map.tiled_to_bevy_coord(PixelPoint { x: 5600, y: 750 });
    vec![a, b]
}

} // verus!
