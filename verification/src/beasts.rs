use vstd::prelude::*;

use crate::level_items::{place, placed, table_view};
use crate::screen_map::{PixelPoint, ScreenMap};

verus! {

/// The way a beast faces.
#[derive(Debug, Clone, Copy, PartialEq, Eq, Structural)]
pub enum Heading {
    Left,
    Right,
}

impl Default for Heading {
    fn default() -> (h: Self)
        ensures
            h == Heading::Right,
    {
        Heading::Right
    }
}

/// The heading of a beast that moves by `dx_non_negative` (whether its
/// horizontal move is zero or to the right).
pub fn heading_of(dx_non_negative: bool) -> (h: Heading)
    ensures
        h == if dx_non_negative {
            Heading::Right
        } else {
            Heading::Left
        },
{
    if dx_non_negative {
        Heading::Right
    } else {
        Heading::Left
    }
}

// ---------------------------------------------------------------- triceratops

/// How the triceratops moves: it always runs, one way or the other.
#[derive(Debug, Clone, Copy, PartialEq, Eq, Structural)]
pub enum TriceratopsMovement {
    Run(Heading),
}

impl Default for TriceratopsMovement {
    fn default() -> (m: Self)
        ensures
            m == TriceratopsMovement::Run(Heading::Right),
    {
        TriceratopsMovement::Run(Heading::Right)
    }
}

/// The triceratops turns around when it runs into the ground's edge (a
/// collision came in this frame) and keeps running otherwise.
pub open spec fn triceratops_spec(current: TriceratopsMovement, collided: bool) -> TriceratopsMovement {
    if !collided {
        current
    } else if current == TriceratopsMovement::Run(Heading::Right) {
        TriceratopsMovement::Run(Heading::Left)
    } else {
        TriceratopsMovement::Run(Heading::Right)
    }
}

/// The movement of the triceratops after the collisions of a frame.
pub fn move_triceratops(current: TriceratopsMovement, collided: bool) -> (m: TriceratopsMovement)
    ensures
        m == triceratops_spec(current, collided),
{
    if !collided {
        current
    } else if current == TriceratopsMovement::Run(Heading::Right) {
        TriceratopsMovement::Run(Heading::Left)
    } else {
        TriceratopsMovement::Run(Heading::Right)
    }
}

/// Two collisions bring the triceratops back to the way it ran; one always
/// turns it around.
pub proof fn lemma_triceratops_turns_back(m: TriceratopsMovement)
    ensures
        triceratops_spec(triceratops_spec(m, true), true) == m,
        triceratops_spec(m, true) != m,
{
}

// ---------------------------------------------------------------- t-rex

/// How the t-rex moves.
#[derive(Debug, Clone, Copy, PartialEq, Eq, Structural)]
pub enum TrexMovement {
    Run(Heading),
    Idle,
}

impl Default for TrexMovement {
    fn default() -> (m: Self)
        ensures
            m == TrexMovement::Idle,
    {
        TrexMovement::Idle
    }
}

/// What the t-rex does in a frame.
#[derive(Debug, Clone, Copy, PartialEq, Eq, Structural)]
pub struct TrexStep {
    /// Its movement.
    pub movement: TrexMovement,
    /// The way it last ran towards the player.
    pub direction: Heading,
    /// It turned: its speed starts again from zero.
    pub reset_speed: bool,
    /// Its movement changed: the rush sound plays.
    pub rush_sound: bool,
}

/// What the t-rex does, from the way it last ran and its last movement,
/// whether the player is far away, whether the player is to its right, and
/// whether it was blocked: it stays idle while the player is far, and
/// otherwise runs towards the player, starting again from zero speed when
/// it turns; a blocked t-rex stops.
pub open spec fn trex_spec(
    direction: Heading,
    movement: TrexMovement,
    far: bool,
    player_right: bool,
    blocked: bool,
) -> TrexStep {
    let towards = if player_right {
        Heading::Right
    } else {
        Heading::Left
    };
    let m1 = if far {
        TrexMovement::Idle
    } else {
        TrexMovement::Run(towards)
    };
    let m2 = if m1 != TrexMovement::Idle && blocked {
        TrexMovement::Idle
    } else {
        m1
    };
    TrexStep {
        movement: m2,
        direction: if far {
            direction
        } else {
            towards
        },
        reset_speed: !far && direction != towards,
        rush_sound: m2 != movement,
    }
}

/// What the t-rex does in a frame.
pub fn move_trex(direction: Heading, movement: TrexMovement, far: bool, player_right: bool, blocked: bool) -> (r:
    TrexStep)
    ensures
        r == trex_spec(direction, movement, far, player_right, blocked),
{
    let mut step = TrexStep { movement: TrexMovement::Idle, direction, reset_speed: false, rush_sound: false };
    if !far {
        let towards = if player_right {
            Heading::Right
        } else {
            Heading::Left
        };
        if direction != towards {
            step.direction = towards;
            step.reset_speed = true;
        }
        step.movement = TrexMovement::Run(towards);
    }
    if step.movement != TrexMovement::Idle && blocked {
        step.movement = TrexMovement::Idle;
    }
    step.rush_sound = step.movement != movement;
    step
}

/// The t-rex bites with the frames after the fifteenth of its run.
pub fn trex_bites(frame: usize) -> (b: bool)
    ensures
        b == (frame > 15),
{
    frame > 15
}

/// The bite sound plays when the run reaches its sixteenth frame.
pub fn trex_bite_sound(frame: usize) -> (b: bool)
    ensures
        b == (frame == 16),
{
    frame == 16
}

// ---------------------------------------------------------------- pterodactyl

/// How a pterodactyl moves.
#[derive(Debug, Clone, Copy, PartialEq, Eq, Structural)]
pub enum PterodactylMovement {
    Fly(Heading),
    Throw,
}

impl Default for PterodactylMovement {
    fn default() -> (m: Self)
        ensures
            m == PterodactylMovement::Fly(Heading::Right),
    {
        PterodactylMovement::Fly(Heading::Right)
    }
}

/// What a pterodactyl does in a frame.
#[derive(Debug, Clone, Copy, PartialEq, Eq, Structural)]
pub enum PterodactylAction {
    /// It flies on.
    Fly(Heading),
    /// It drops a rock and flies on; the throw timer restarts.
    DropRock(Heading),
    /// It hovers, getting ready to throw (the throw timer runs).
    Hover,
}

/// What a pterodactyl does: above the player (and not on its way out after
/// an attack), it drops a rock when ready and hovers otherwise; elsewhere
/// it flies on.
pub open spec fn pterodactyl_spec(heading: Heading, above_player: bool, attack: bool, throw_ready: bool) -> PterodactylAction {
    if above_player && !attack {
        if throw_ready {
            PterodactylAction::DropRock(heading)
        } else {
            PterodactylAction::Hover
        }
    } else {
        PterodactylAction::Fly(heading)
    }
}

/// What a pterodactyl does in a frame.
pub fn move_pterodactyl(heading: Heading, above_player: bool, attack: bool, throw_ready: bool) -> (a:
    PterodactylAction)
    ensures
        a == pterodactyl_spec(heading, above_player, attack, throw_ready),
{
    if above_player && !attack {
        if throw_ready {
            PterodactylAction::DropRock(heading)
        } else {
            PterodactylAction::Hover
        }
    } else {
        PterodactylAction::Fly(heading)
    }
}

/// The movement shown for an action.
pub fn pterodactyl_movement(a: PterodactylAction) -> (m: PterodactylMovement)
    ensures
        m == match a {
            PterodactylAction::Fly(h) => PterodactylMovement::Fly(h),
            PterodactylAction::DropRock(h) => PterodactylMovement::Fly(h),
            PterodactylAction::Hover => PterodactylMovement::Throw,
        },
{
    match a {
        PterodactylAction::Fly(h) => PterodactylMovement::Fly(h),
        PterodactylAction::DropRock(h) => PterodactylMovement::Fly(h),
        PterodactylAction::Hover => PterodactylMovement::Throw,
    }
}

// ---------------------------------------------------------------- bat

/// How a bat moves.
#[derive(Debug, Clone, Copy, PartialEq, Eq, Structural)]
pub enum BatMovement {
    Fly(Heading),
    Crunch,
}

impl Default for BatMovement {
    fn default() -> (m: Self)
        ensures
            m == BatMovement::Fly(Heading::Right),
    {
        BatMovement::Fly(Heading::Right)
    }
}

/// A bat that has hit the player crunches; otherwise it flies the way it
/// moves.
pub fn move_bat(hit: bool, dx_non_negative: bool) -> (m: BatMovement)
    ensures
        m == if hit {
            BatMovement::Crunch
        } else {
            BatMovement::Fly(
                if dx_non_negative {
                    Heading::Right
                } else {
                    Heading::Left
                },
            )
        },
{
    if hit {
        BatMovement::Crunch
    } else {
        BatMovement::Fly(heading_of(dx_non_negative))
    }
}

// ---------------------------------------------------------------- monkey

/// How a monkey moves.
#[derive(Debug, Clone, Copy, PartialEq, Eq, Structural)]
pub enum MonkeyMovement {
    Look(Heading),
    Throw,
}

impl Default for MonkeyMovement {
    fn default() -> (m: Self)
        ensures
            m == MonkeyMovement::Look(Heading::Right),
    {
        MonkeyMovement::Look(Heading::Right)
    }
}

/// The frame shown while a monkey looks around, and the frame at which a
/// throw ends.
pub const MONKEY_LOOK_FRAME: usize = 9;

/// A monkey's movement and sprite frame after a frame of the game: the
/// animation runs (a looking monkey shows its look frame, a throwing one
/// goes one frame on, each time the timer fires); a rock about to be
/// released starts a throw from the first frame; a monkey that reaches the
/// look frame goes back to how it moved at first.
pub open spec fn monkey_spec(
    movement: MonkeyMovement,
    initial: MonkeyMovement,
    frame: int,
    timer_finished: bool,
    rock_released: bool,
) -> (MonkeyMovement, int) {
    let f1 = if !timer_finished {
        frame
    } else {
        match movement {
            MonkeyMovement::Look(_) => MONKEY_LOOK_FRAME as int,
            MonkeyMovement::Throw => frame + 1,
        }
    };
    let (m2, f2) = if rock_released {
        (MonkeyMovement::Throw, 0)
    } else {
        (movement, f1)
    };
    (if f2 == MONKEY_LOOK_FRAME {
        initial
    } else {
        m2
    }, f2)
}

/// A frame of a monkey.
pub fn move_monkey(
    movement: MonkeyMovement,
    initial: MonkeyMovement,
    frame: usize,
    timer_finished: bool,
    rock_released: bool,
) -> (r: (MonkeyMovement, usize))
    requires
        frame < usize::MAX,
    ensures
        (r.0, r.1 as int) == monkey_spec(movement, initial, frame as int, timer_finished, rock_released),
{
    let mut f = frame;
    if timer_finished {
        f = match movement {
            MonkeyMovement::Look(_) => MONKEY_LOOK_FRAME,
            MonkeyMovement::Throw => frame + 1,
        };
    }
    let mut m = movement;
    if rock_released {
        m = MonkeyMovement::Throw;
        f = 0;
    }
    if f == MONKEY_LOOK_FRAME {
        m = initial;
    }
    (m, f)
}

/// A monkey's movement and frame after `n` frames in which its timer fires
/// and no rock is released.
pub open spec fn monkey_frames(movement: MonkeyMovement, initial: MonkeyMovement, frame: int, n: nat) -> (
    MonkeyMovement,
    int,
)
    decreases n,
{
    if n == 0 {
        (movement, frame)
    } else {
        let prev = monkey_frames(movement, initial, frame, (n - 1) as nat);
        monkey_spec(prev.0, initial, prev.1, true, false)
    }
}

/// A throw started by a released rock goes through the throw frames, one
/// per firing of the timer, and after as many firings as the look frame's
/// number the monkey moves as it did at first.
pub proof fn lemma_monkey_throw_ends(initial: MonkeyMovement, n: nat)
    requires
        n < MONKEY_LOOK_FRAME,
    ensures
        monkey_frames(MonkeyMovement::Throw, initial, 0, n) == (MonkeyMovement::Throw, n as int),
        monkey_frames(MonkeyMovement::Throw, initial, 0, MONKEY_LOOK_FRAME as nat) == (
        initial, MONKEY_LOOK_FRAME as int),
    decreases n,
{
    if n > 0 {
        lemma_monkey_throw_ends(initial, (n - 1) as nat);
    }
    lemma_monkey_prefix(initial, (MONKEY_LOOK_FRAME - 1) as nat);
}

proof fn lemma_monkey_prefix(initial: MonkeyMovement, n: nat)
    requires
        n < MONKEY_LOOK_FRAME,
    ensures
        monkey_frames(MonkeyMovement::Throw, initial, 0, n) == (MonkeyMovement::Throw, n as int),
    decreases n,
{
    if n > 0 {
        lemma_monkey_prefix(initial, (n - 1) as nat);
    }
}

// ---------------------------------------------------------------- squirrel

/// How a squirrel moves.
#[derive(Debug, Clone, Copy, PartialEq, Eq, Structural)]
pub enum SquirelMovement {
    Run(Heading),
    Idle,
}

impl Default for SquirelMovement {
    fn default() -> (m: Self)
        ensures
            m == SquirelMovement::Run(Heading::Right),
    {
        SquirelMovement::Run(Heading::Right)
    }
}

/// What a squirrel does in a frame.
#[derive(Debug, Clone, Copy, PartialEq, Eq, Structural)]
pub struct SquirrelStep {
    pub movement: SquirelMovement,
    /// It has reached the end of its run and goes away.
    pub gone: bool,
    /// While running: `true` when it climbs (a spike is near), `false` when
    /// it goes down.
    pub climbs: Option<bool>,
}

/// What a squirrel does: it starts running right when told to (a right
/// answer to its enigma); while running right it goes away near the end of
/// its run, and climbs over the spikes it meets.
pub open spec fn squirrel_spec(movement: SquirelMovement, told_to_run: bool, near_end: bool, near_spike: bool) -> SquirrelStep {
    let m = if told_to_run {
        SquirelMovement::Run(Heading::Right)
    } else {
        movement
    };
    let running = m == SquirelMovement::Run(Heading::Right);
    SquirrelStep {
        movement: m,
        gone: running && near_end,
        climbs: if running {
            Some(near_spike)
        } else {
            None
        },
    }
}

/// A frame of a squirrel.
pub fn move_squirrel(movement: SquirelMovement, told_to_run: bool, near_end: bool, near_spike: bool) -> (r:
    SquirrelStep)
    ensures
        r == squirrel_spec(movement, told_to_run, near_end, near_spike),
{
    let m = if told_to_run {
        SquirelMovement::Run(Heading::Right)
    } else {
        movement
    };
    let running = m == SquirelMovement::Run(Heading::Right);
    SquirrelStep { movement: m, gone: running && near_end, climbs: if running { Some(near_spike) } else { None } }
}

// ---------------------------------------------------------------- placements

/// Where the squirrels of a level start and where they run to, in Tiled
/// coordinates (a squirrel is 24 pixels above its ground), and whether each
/// is seen from the start.
pub open spec fn squirrel_table(level: int) -> Seq<((int, int), (int, int), bool)> {
    if level == 1 {
        seq![((5189, 461 - 24), (7300, 600), true), ((7290, 70 - 24), (12714, 610), false)]
    } else {
        Seq::empty()
    }
}

/// A squirrel of a level: where it starts and where it runs to (game
/// coordinates), and whether it is seen from the start.
#[derive(Debug, Clone, Copy, PartialEq, Eq, Structural)]
pub struct SquirrelPlacement {
    pub pos: PixelPoint,
    pub end_pos: PixelPoint,
    pub visible: bool,
}

/// The squirrels of `level`, on `map`.
pub fn squirrel_placements(level: u8, map: &ScreenMap) -> (r: Vec<SquirrelPlacement>)
    ensures
        r@.len() == squirrel_table(level as int).len(),
        placed(Seq::new(r@.len(), |i: int| r@[i].pos), Seq::new(r@.len(), |i: int| squirrel_table(level as int)[i].0), map@),
        placed(Seq::new(r@.len(), |i: int| r@[i].end_pos), Seq::new(r@.len(), |i: int| squirrel_table(level as int)[i].1), map@),
        forall|i: int| 0 <= i < r@.len() ==> #[trigger] r@[i].visible == squirrel_table(level as int)[i].2,
{
    let (starts, ends, seen): (Vec<(i64, i64)>, Vec<(i64, i64)>, Vec<bool>) = if level == 1 {
        (vec![(5189, 461 - 24), (7290, 70 - 24)], vec![(7300, 600), (12714, 610)], vec![true, false])
    } else {
        (Vec::new(), Vec::new(), Vec::new())
    };
    let ghost t = squirrel_table(level as int);
    assert(table_view(starts@) =~= Seq::new(t.len(), |i: int| t[i].0));
    assert(table_view(ends@) =~= Seq::new(t.len(), |i: int| t[i].1));
    assert(seen@ =~= Seq::new(t.len(), |i: int| t[i].2));
    let p = place(map, &starts);
    let q = place(map, &ends);
    let mut out: Vec<SquirrelPlacement> = Vec::new();
    for i in 0..p.len()
        invariant
            p@.len() == t.len() && q@.len() == t.len() && seen@.len() == t.len(),
            t == squirrel_table(level as int),
            placed(p@, Seq::new(t.len(), |i: int| t[i].0), map@),
            placed(q@, Seq::new(t.len(), |i: int| t[i].1), map@),
            seen@ =~= Seq::new(t.len(), |i: int| t[i].2),
            out@.len() == i,
            forall|k: int| 0 <= k < i ==> #[trigger] out@[k] == (SquirrelPlacement { pos: p@[k], end_pos: q@[k], visible: seen@[k] }),
    {
        out.push(SquirrelPlacement { pos: p[i], end_pos: q[i], visible: seen[i] });
    }
    assert(Seq::new(out@.len(), |i: int| out@[i].pos) =~= p@);
    assert(Seq::new(out@.len(), |i: int| out@[i].end_pos) =~= q@);
    out
}

/// Where the monkeys of a level sit, in Tiled coordinates, and how each
/// looks at first.
pub open spec fn monkey_table(level: int) -> Seq<((int, int), MonkeyMovement)> {
    if level == 2 {
        seq![((1415, 705), MonkeyMovement::Look(Heading::Right)), ((5650, 705), MonkeyMovement::Look(Heading::Left))]
    } else {
        Seq::empty()
    }
}

/// The monkeys of `level` on `map`: where each sits and how it looks at
/// first.
pub fn monkey_placements(level: u8, map: &ScreenMap) -> (r: (Vec<PixelPoint>, Vec<MonkeyMovement>))
    ensures
        placed(r.0@, Seq::new(monkey_table(level as int).len(), |i: int| monkey_table(level as int)[i].0), map@),
        r.1@ == Seq::new(monkey_table(level as int).len(), |i: int| monkey_table(level as int)[i].1),
{
    let (pos, looks): (Vec<(i64, i64)>, Vec<MonkeyMovement>) = if level == 2 {
        (
            vec![(1415, 705), (5650, 705)],
            vec![MonkeyMovement::Look(Heading::Right), MonkeyMovement::Look(Heading::Left)],
        )
    } else {
        (Vec::new(), Vec::new())
    };
    let ghost t = monkey_table(level as int);
    assert(table_view(pos@) =~= Seq::new(t.len(), |i: int| t[i].0));
    assert(looks@ =~= Seq::new(t.len(), |i: int| t[i].1));
    (place(map, &pos), looks)
}

/// Where the t-rexes of a level start, in Tiled coordinates.
pub open spec fn trex_table(level: int) -> Seq<(int, int)> {
    if level == 2 {
        seq![(9200, 2030)]
    } else {
        Seq::empty()
    }
}

/// Where the t-rexes of `level` start, on `map`.
pub fn trex_positions(level: u8, map: &ScreenMap) -> (r: Vec<PixelPoint>)
    ensures
        placed(r@, trex_table(level as int), map@),
{
    let table: Vec<(i64, i64)> = if level == 2 {
        vec![(9200, 2030)]
    } else {
        Vec::new()
    };
    assert(table_view(table@) =~= trex_table(level as int));
    place(map, &table)
}

} // verus!
