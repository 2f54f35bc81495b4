use vstd::prelude::*;

use crate::enigma::EnigmaResult;
use crate::screen_map::{bevy_of_tiled, MapView, PixelPoint, ScreenMap};
use crate::text::{chars_of, contains_chars, contains_seq, str_eq, string_of};

verus! {

/// The number of frames a gate rises for once its enigma is solved.
pub const GATE_RISE_FRAMES: usize = 23;

/// The last gate of `gates` (named by the story of their enigma) that
/// belongs to `story`.
pub open spec fn last_gate(gates: Seq<Seq<char>>, story: Seq<char>) -> Option<int>
    decreases gates.len(),
{
    if gates.len() == 0 {
        None
    } else if gates.last() == story {
        Some(gates.len() - 1)
    } else {
        last_gate(gates.drop_last(), story)
    }
}

/// Which gate opens after the enigmas in `solved` were solved, in order,
/// when `current` was being opened: the last gate of the last solved enigma
/// that has one.
pub open spec fn gate_to_open(current: Option<int>, gates: Seq<Seq<char>>, solved: Seq<Seq<char>>) -> Option<int>
    decreases solved.len(),
{
    if solved.len() == 0 {
        current
    } else {
        match last_gate(gates, solved.last()) {
            Some(j) => Some(j),
            None => gate_to_open(current, gates, solved.drop_last()),
        }
    }
}

/// Which gate is being opened, and the frames it has risen for.
pub struct GateView {
    pub gate: Option<int>,
    pub iteration: int,
}

/// A frame of gate opening: which gate opens is chosen from the enigmas
/// solved; when the animation timer fires, that gate rises for one more
/// frame, or, once it has risen for `GATE_RISE_FRAMES` frames, the opening
/// is over. The second part is whichever gate rises in this frame.
pub open spec fn gate_step(
    s: GateView,
    gates: Seq<Seq<char>>,
    solved: Seq<Seq<char>>,
    timer_finished: bool,
) -> (GateView, Option<int>) {
    let g = gate_to_open(s.gate, gates, solved);
    match g {
        Some(j) => if !timer_finished {
            (GateView { gate: g, iteration: s.iteration }, None)
        } else if s.iteration < GATE_RISE_FRAMES {
            (GateView { gate: g, iteration: s.iteration + 1 }, Some(j))
        } else {
            (GateView { gate: None, iteration: 0 }, None)
        },
        None => (GateView { gate: None, iteration: s.iteration }, None),
    }
}

/// The opening of gates: which gate opens, and for how many frames it has
/// risen.
#[derive(Debug)]
pub struct GateOpener {
    gate: Option<usize>,
    iteration: usize,
}

impl View for GateOpener {
    type V = GateView;

    closed spec fn view(&self) -> GateView {
        GateView {
            gate: match self.gate {
                Some(j) => Some(j as int),
                None => None,
            },
            iteration: self.iteration as int,
        }
    }
}

/// The last gate of `gates` that belongs to `story`.
fn find_last_gate(gates: &Vec<String>, story: &str) -> (r: Option<usize>)
    ensures
        match r {
            Some(j) => last_gate(gates.deep_view(), story@) == Some(j as int),
            None => last_gate(gates.deep_view(), story@) is None,
        },
{
    let mut found: Option<usize> = None;
    let n = gates.len();
    for j in 0..n
        invariant
            n == gates@.len(),
            match found {
                Some(k) => last_gate(gates.deep_view().take(j as int), story@) == Some(k as int),
                None => last_gate(gates.deep_view().take(j as int), story@) is None,
            },
    {
        assert(gates.deep_view().take(j + 1).drop_last() == gates.deep_view().take(j as int));
        assert(gates.deep_view().take(j + 1).last() == gates@[j as int]@);
        if str_eq(gates[j].as_str(), story) {
            found = Some(j);
        }
    }
    assert(gates.deep_view().take(n as int) == gates.deep_view());
    found
}

impl GateOpener {
    /// No gate is opening.
    pub fn new() -> (g: Self)
        ensures
            g@ == (GateView { gate: None, iteration: 0 }),
    {
        GateOpener { gate: None, iteration: 0 }
    }

    /// A frame of gate opening, from the gates (each named by the story of
    /// its enigma), the enigmas solved in this frame, in order, and whether
    /// the animation timer fired. Returns whichever gate rises in this frame.
    pub fn step(&mut self, gates: &Vec<String>, solved: &Vec<String>, timer_finished: bool) -> (r: Option<
        usize,
    >)
        ensures
            (final(self)@, match r {
                Some(j) => Some(j as int),
                None => None,
            }) == gate_step(old(self)@, gates.deep_view(), solved.deep_view(), timer_finished),
    {
        let m = solved.len();
        for k in 0..m
            invariant
                m == solved@.len(),
                self.iteration == old(self).iteration,
                match self.gate {
                    Some(j) => Some(j as int),
                    None => None,
                } == gate_to_open(old(self)@.gate, gates.deep_view(), solved.deep_view().take(k as int)),
        {
            assert(solved.deep_view().take(k + 1).drop_last() == solved.deep_view().take(k as int));
            assert(solved.deep_view().take(k + 1).last() == solved@[k as int]@);
            if let Some(j) = find_last_gate(gates, solved[k].as_str()) {
                self.gate = Some(j);
            }
        }
        assert(solved.deep_view().take(m as int) == solved.deep_view());
        match self.gate {
            Some(j) => {
                if !timer_finished {
                    None
                } else if self.iteration < GATE_RISE_FRAMES {
                    self.iteration = self.iteration + 1;
                    Some(j)
                } else {
                    self.gate = None;
                    self.iteration = 0;
                    None
                }
            },
            None => None,
        }
    }
}

/// The state after `n` frames in which the timer fires and no enigma is
/// solved, and the number of those frames in which a gate rose.
pub open spec fn quiet_frames(s: GateView, gates: Seq<Seq<char>>, n: nat) -> (GateView, nat)
    decreases n,
{
    if n == 0 {
        (s, 0)
    } else {
        let prev = quiet_frames(s, gates, (n - 1) as nat);
        let next = gate_step(prev.0, gates, Seq::empty(), true);
        (next.0, prev.1 + if next.1 is Some {
            1nat
        } else {
            0nat
        })
    }
}

/// Once a gate starts opening, it rises in each of the next
/// `GATE_RISE_FRAMES` frames in which the timer fires, and the frame after
/// that ends the opening.
pub proof fn lemma_gate_rises_then_stops(gates: Seq<Seq<char>>, j: int)
    ensures
        forall|n: nat|
            n <= GATE_RISE_FRAMES ==> #[trigger] quiet_frames(
                GateView { gate: Some(j), iteration: 0 },
                gates,
                n,
            ) == (GateView { gate: Some(j), iteration: n as int }, n),
        quiet_frames(GateView { gate: Some(j), iteration: 0 }, gates, (GATE_RISE_FRAMES + 1) as nat) == (
        GateView { gate: None, iteration: 0 }, GATE_RISE_FRAMES as nat),
{
    let s = GateView { gate: Some(j), iteration: 0 };
    assert forall|n: nat| n <= GATE_RISE_FRAMES implies #[trigger] quiet_frames(s, gates, n) == (
    GateView { gate: Some(j), iteration: n as int }, n) by {
        lemma_gate_prefix(gates, j, n);
    }
    lemma_gate_prefix(gates, j, GATE_RISE_FRAMES as nat);
}

proof fn lemma_gate_prefix(gates: Seq<Seq<char>>, j: int, n: nat)
    requires
        n <= GATE_RISE_FRAMES,
    ensures
        quiet_frames(GateView { gate: Some(j), iteration: 0 }, gates, n) == (GateView {
            gate: Some(j),
            iteration: n as int,
        }, n),
    decreases n,
{
    if n > 0 {
        lemma_gate_prefix(gates, j, (n - 1) as nat);
    }
}

/// What a rock gate does when an answer comes.
#[derive(Debug, Clone, Copy, PartialEq, Eq, Structural)]
pub enum Answer {
    Correct,
    Incorrect,
}

/// The rock gates (each named by the story of its enigma, with the answer
/// that moves it) that a result moves.
pub open spec fn moves_rockgate(g: (Seq<char>, Answer), story: Seq<char>, answer: Answer) -> bool {
    g.0 == story && g.1 == answer
}

/// The story and the kind of answer of a result.
pub open spec fn result_parts(r: EnigmaResult) -> (Seq<char>, Answer) {
    match r {
        EnigmaResult::Correct(s) => (s@, Answer::Correct),
        EnigmaResult::Incorrect(s) => (s@, Answer::Incorrect),
    }
}

/// The rock gates as mathematical values.
pub open spec fn rockgates_view(v: Seq<(String, Answer)>) -> Seq<(Seq<char>, Answer)> {
    Seq::new(v.len(), |i: int| (v[i].0@, v[i].1))
}

/// `true` when `r` lists, in increasing order, exactly the indices below
/// `n` that satisfy `p`.
pub open spec fn exactly_indices(r: Seq<usize>, n: int, p: spec_fn(int) -> bool) -> bool {
    &&& forall|k: int| 0 <= k < r.len() ==> #[trigger] r[k] < n && p(r[k] as int)
    &&& forall|k1: int, k2: int| 0 <= k1 < k2 < r.len() ==> r[k1] < r[k2]
    &&& forall|j: int| 0 <= j < n && #[trigger] p(j) ==> r.contains(j as usize)
}

/// The rock gates that an answer moves: those of its story that move on an
/// answer of its kind, in order.
pub fn rockgates_to_move(result: &EnigmaResult, rockgates: &Vec<(String, Answer)>) -> (r: Vec<usize>)
    ensures
        exactly_indices(
            r@,
            rockgates@.len() as int,
            |j: int|
                moves_rockgate(
                    rockgates_view(rockgates@)[j],
                    result_parts(*result).0,
                    result_parts(*result).1,
                ),
        ),
{
    let (story, answer) = match result {
        EnigmaResult::Correct(s) => (s, Answer::Correct),
        EnigmaResult::Incorrect(s) => (s, Answer::Incorrect),
    };
    let ghost p = |j: int|
        moves_rockgate(rockgates_view(rockgates@)[j], result_parts(*result).0, result_parts(*result).1);
    let mut out: Vec<usize> = Vec::new();
    let n = rockgates.len();
    for j in 0..n
        invariant
            n == rockgates@.len(),
            story@ == result_parts(*result).0,
            answer == result_parts(*result).1,
            p == (|j: int|
                moves_rockgate(
                    rockgates_view(rockgates@)[j],
                    result_parts(*result).0,
                    result_parts(*result).1,
                )),
            forall|k: int| 0 <= k < out@.len() ==> #[trigger] out@[k] < j && p(out@[k] as int),
            forall|k1: int, k2: int| 0 <= k1 < k2 < out@.len() ==> out@[k1] < out@[k2],
            forall|q: int| 0 <= q < j && #[trigger] p(q) ==> out@.contains(q as usize),
    {
        let ghost before = out@;
        if str_eq(rockgates[j].0.as_str(), story.as_str()) && rockgates[j].1 == answer {
            out.push(j);
            assert(out@[out@.len() - 1] == j);
        }
        assert forall|q: int| 0 <= q < j + 1 && #[trigger] p(q) implies out@.contains(q as usize) by {
            if q < j {
                let k = choose|k: int| 0 <= k < before.len() && before[k] == q as usize;
                assert(out@[k] == q as usize);
            } else {
                assert(out@[out@.len() - 1] == j);
            }
        }
    }
    out
}

/// The story sensors that a right answer to the enigma of `story` removes:
/// those whose name the story's name contains, in order.
pub fn stories_to_clear(story: &str, names: &Vec<String>) -> (r: Vec<usize>)
    ensures
        exactly_indices(r@, names@.len() as int, |j: int| contains_seq(story@, names.deep_view()[j])),
{
    let ghost p = |j: int| contains_seq(story@, names.deep_view()[j]);
    let hay = chars_of(story);
    let mut out: Vec<usize> = Vec::new();
    let n = names.len();
    for j in 0..n
        invariant
            n == names@.len(),
            hay@ == story@,
            p == (|j: int| contains_seq(story@, names.deep_view()[j])),
            forall|k: int| 0 <= k < out@.len() ==> #[trigger] out@[k] < j && p(out@[k] as int),
            forall|k1: int, k2: int| 0 <= k1 < k2 < out@.len() ==> out@[k1] < out@[k2],
            forall|q: int| 0 <= q < j && #[trigger] p(q) ==> out@.contains(q as usize),
    {
        let ghost before = out@;
        assert(names.deep_view()[j as int] == names@[j as int]@);
        if contains_chars(&hay, &chars_of(names[j].as_str())) {
            out.push(j);
            assert(out@[out@.len() - 1] == j);
        }
        assert forall|q: int| 0 <= q < j + 1 && #[trigger] p(q) implies out@.contains(q as usize) by {
            if q < j {
                let k = choose|k: int| 0 <= k < before.len() && before[k] == q as usize;
                assert(out@[k] == q as usize);
            } else {
                assert(out@[out@.len() - 1] == j);
            }
        }
    }
    out
}

/// `true` when the result is a right answer to the enigma `story`.
pub open spec fn solved(r: EnigmaResult, story: Seq<char>) -> bool {
    r matches EnigmaResult::Correct(s) && s@ == story
}

/// Whether a result starts the platforms that wait at rest: a right answer
/// to the enigma of story 05.
pub fn starts_platforms(result: &EnigmaResult) -> (b: bool)
    ensures
        b == solved(*result, "story05-04"@),
{
    match result {
        EnigmaResult::Correct(s) => str_eq(s.as_str(), "story05-04"),
        EnigmaResult::Incorrect(_) => false,
    }
}

/// Whether a result sends the squirrel running to the right: a right answer
/// to the enigma of story 05 or of story 100.
pub fn squirrel_runs(result: &EnigmaResult) -> (b: bool)
    ensures
        b == (solved(*result, "story05-04"@) || solved(*result, "story100-03"@)),
{
    match result {
        EnigmaResult::Correct(s) => str_eq(s.as_str(), "story05-04") || str_eq(s.as_str(), "story100-03"),
        EnigmaResult::Incorrect(_) => false,
    }
}

/// A rock that blocks the way until an enigma is answered: where it lies
/// (game coordinates), its enigma's story, the push it gets (sideways, to
/// the right when positive) and the answer that pushes it.
#[derive(Debug)]
pub struct RockGate {
    pub pos: PixelPoint,
    pub associated_story: String,
    pub impulse_x: i64,
    pub move_on: Answer,
}

/// A gate that rises once its enigma is solved: where it stands, its
/// enigma's story, and whether it is drawn upside down.
#[derive(Debug)]
pub struct Gate {
    pub pos: PixelPoint,
    pub associated_story: String,
    pub flipped: bool,
}

/// What stands in the way of the player in a level, until enigmas are
/// answered: rock gates, gates, and the warriors that guard them.
#[derive(Debug)]
pub struct EnigmaMaterials {
    pub rockgates: Vec<RockGate>,
    pub gates: Vec<Gate>,
    pub warriors: Vec<PixelPoint>,
}

/// The push given to a rock gate, in the game's units.
pub const ROCKGATE_IMPULSE: i64 = 491_520;

/// The rock gates of a level, in Tiled coordinates: position, story, push
/// and the answer that pushes. Rocks are 64 pixels wide and rest on the
/// given height.
pub open spec fn rockgate_table(level: int) -> Seq<((int, int), Seq<char>, int, Answer)> {
    if level == 1 {
        seq![
            ((2800, 160 - 32), "story04-03"@, ROCKGATE_IMPULSE as int, Answer::Correct),
            ((7505, 208 - 32), "story06-03"@, -ROCKGATE_IMPULSE, Answer::Incorrect),
        ]
    } else {
        Seq::empty()
    }
}

/// The gates of a level, in Tiled coordinates: position, story, and
/// whether upside down.
pub open spec fn gate_table(level: int) -> Seq<((int, int), Seq<char>, bool)> {
    if level == 1 {
        seq![((8032, 548), "story06-03"@, false)]
    } else if level == 2 {
        seq![((12144, 2135), "story08-03"@, true)]
    } else if level == 3 {
        seq![((5488, 615), "story03-03"@, false)]
    } else {
        Seq::empty()
    }
}

/// The warriors of a level, in Tiled coordinates.
pub open spec fn warrior_table(level: int) -> Seq<(int, int)> {
    if level == 3 {
        seq![(5575, 608)]
    } else {
        Seq::empty()
    }
}

/// `true` when `p` is the Tiled point `t` in game coordinates on `m`.
pub open spec fn at_tiled(p: PixelPoint, m: MapView, t: (int, int)) -> bool {
    (p.x as int, p.y as int) == bevy_of_tiled(m, t.0, t.1)
}

/// `true` when the materials are those of the tables for `level`, placed
/// on `m`.
pub open spec fn materials_match(e: EnigmaMaterials, level: int, m: MapView) -> bool {
    &&& e.rockgates@.len() == rockgate_table(level).len()
    &&& forall|i: int|
        0 <= i < e.rockgates@.len() ==> {
            let (t, story, impulse, answer) = rockgate_table(level)[i];
            &&& at_tiled(#[trigger] e.rockgates@[i].pos, m, t)
            &&& e.rockgates@[i].associated_story@ == story
            &&& e.rockgates@[i].impulse_x == impulse
            &&& e.rockgates@[i].move_on == answer
        }
    &&& e.gates@.len() == gate_table(level).len()
    &&& forall|i: int|
        0 <= i < e.gates@.len() ==> {
            let (t, story, flipped) = gate_table(level)[i];
            &&& at_tiled(#[trigger] e.gates@[i].pos, m, t)
            &&& e.gates@[i].associated_story@ == story
            &&& e.gates@[i].flipped == flipped
        }
    &&& e.warriors@.len() == warrior_table(level).len()
    &&& forall|i: int| 0 <= i < e.warriors@.len() ==> at_tiled(#[trigger] e.warriors@[i], m, warrior_table(level)[i])
}

fn owned(s: &str) -> (r: String)
    ensures
        r@ == s@,
{
    string_of(&chars_of(s))
}

/// What stands in the way in `level`, placed on `map`.
pub fn enigma_materials(level: u8, map: &ScreenMap) -> (e: EnigmaMaterials)
    ensures
        materials_match(e, level as int, map@),
{
    let mut rockgates: Vec<RockGate> = Vec::new();
    let mut gates: Vec<Gate> = Vec::new();
    let mut warriors: Vec<PixelPoint> = Vec::new();
    if level == 1 {
        rockgates.push(RockGate {
            pos: map.tiled_to_bevy_coord(PixelPoint { x: 2800, y: 160 - 32 }),
            associated_story: owned("story04-03"),
            impulse_x: ROCKGATE_IMPULSE,
            move_on: Answer::Correct,
        });
        rockgates.push(RockGate {
            pos: map.tiled_to_bevy_coord(PixelPoint { x: 7505, y: 208 - 32 }),
            associated_story: owned("story06-03"),
            impulse_x: -ROCKGATE_IMPULSE,
            move_on: Answer::Incorrect,
        });
        gates.push(Gate {
            pos: map.tiled_to_bevy_coord(PixelPoint { x: 8032, y: 548 }),
            associated_story: owned("story06-03"),
            flipped: false,
        });
    } else if level == 2 {
        gates.push(Gate {
            pos: map.tiled_to_bevy_coord(PixelPoint { x: 12144, y: 2135 }),
            associated_story: owned("story08-03"),
            flipped: true,
        });
    } else if level == 3 {
        warriors.push(map.tiled_to_bevy_coord(PixelPoint { x: 5575, y: 608 }));
        gates.push(Gate {
            pos: map.tiled_to_bevy_coord(PixelPoint { x: 5488, y: 615 }),
            associated_story: owned("story03-03"),
            flipped: false,
        });
    }
    EnigmaMaterials { rockgates, gates, warriors }
}

} // verus!
