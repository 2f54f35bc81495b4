use vstd::prelude::*;

use crate::player::PlayerState;

verus! {

/// `true` when the collision between `e1` and `e2` (in either order) is one
/// between the player and `candidate`. Entities are named by their ids.
pub open spec fn touches(candidate: u64, e1: u64, e2: u64, player: u64) -> bool {
    (candidate == e1 && player == e2) || (candidate == e2 && player == e1)
}

/// `true` when `k` is the first candidate that the collision puts in
/// contact with the player.
pub open spec fn first_partner(cands: Seq<u64>, e1: u64, e2: u64, player: u64, k: int) -> bool {
    &&& 0 <= k < cands.len()
    &&& touches(cands[k], e1, e2, player)
    &&& forall|q: int| 0 <= q < k ==> !#[trigger] touches(cands[q], e1, e2, player)
}

/// Which of `candidates` (sensors, ladders, stories, extra lives...) the
/// collision between `e1` and `e2` puts in contact with the player: the
/// first one, or `None` when the collision does not involve the player and
/// one of them.
pub fn collision_partner(candidates: &Vec<u64>, e1: u64, e2: u64, player: u64) -> (r: Option<usize>)
    ensures
        match r {
            Some(k) => first_partner(candidates@, e1, e2, player, k as int),
            None => forall|q: int|
                0 <= q < candidates@.len() ==> !#[trigger] touches(candidates@[q], e1, e2, player),
        },
{
    let n = candidates.len();
    for k in 0..n
        invariant
            n == candidates@.len(),
            forall|q: int| 0 <= q < k ==> !#[trigger] touches(candidates@[q], e1, e2, player),
    {
        let c = candidates[k];
        if (c == e1 && player == e2) || (c == e2 && player == e1) {
            return Some(k);
        }
    }
    None
}

/// What the player ran into.
#[derive(Debug, Clone, Copy, PartialEq, Eq, Structural)]
pub enum CollisionKind {
    Ground,
    Platform,
    Spike,
    /// A moving platform, by its index.
    MovingPlatform(usize),
    Bat,
    Pterodactyl,
    Triceratops,
    /// A rock or a rock gate; `fast` when it moves fast enough to hurt
    /// (faster than 175 pixels a second sideways or 20 vertically).
    Rock { fast: bool },
    /// Anything else.
    Other,
}

/// What the player's collisions of a frame lead to.
#[derive(Debug)]
pub struct CollisionOutcome {
    /// The state the player goes to, if it changes.
    pub next_state: Option<PlayerState>,
    /// The number of hits taken.
    pub hits: usize,
    /// The moving platforms that the player stands on, in order.
    pub platforms: Vec<usize>,
}

/// `true` when the collision makes the player stand: ground or a platform
/// while on the ground, a moving platform, or a rock while on the ground;
/// never during a jump.
pub open spec fn stands(c: CollisionKind, state: PlayerState, grounded: bool) -> bool {
    state != PlayerState::Jumping && match c {
        CollisionKind::Ground | CollisionKind::Platform => grounded,
        CollisionKind::MovingPlatform(_) => true,
        CollisionKind::Rock { .. } => grounded,
        _ => false,
    }
}

/// `true` when the collision hurts the player.
pub open spec fn hurts(c: CollisionKind) -> bool {
    match c {
        CollisionKind::Spike | CollisionKind::Bat | CollisionKind::Pterodactyl | CollisionKind::Triceratops => true,
        CollisionKind::Rock { fast } => fast,
        _ => false,
    }
}

/// The number of collisions that hurt.
pub open spec fn hit_count(cs: Seq<CollisionKind>) -> nat
    decreases cs.len(),
{
    if cs.len() == 0 {
        0
    } else {
        hit_count(cs.drop_last()) + if hurts(cs.last()) {
            1nat
        } else {
            0nat
        }
    }
}

/// The moving platforms the player stands on, in order.
pub open spec fn platform_contacts(cs: Seq<CollisionKind>, state: PlayerState) -> Seq<usize>
    decreases cs.len(),
{
    if cs.len() == 0 {
        Seq::empty()
    } else {
        platform_contacts(cs.drop_last(), state) + match cs.last() {
            CollisionKind::MovingPlatform(i) => if state != PlayerState::Jumping {
                seq![i]
            } else {
                Seq::empty()
            },
            _ => Seq::empty(),
        }
    }
}

/// The state the player goes to: nothing changes for a player already hit;
/// a player idling in the air that moves down by more than a pixel falls;
/// otherwise a player who stands on something idles.
pub open spec fn collision_state(
    cs: Seq<CollisionKind>,
    state: PlayerState,
    grounded: bool,
    moving_down: bool,
) -> Option<PlayerState> {
    if !grounded && state == PlayerState::Idling && moving_down {
        Some(PlayerState::Falling)
    } else if exists|k: int| 0 <= k < cs.len() && #[trigger] stands(cs[k], state, grounded) {
        Some(PlayerState::Idling)
    } else {
        None
    }
}

/// What the player's collisions of a frame lead to, from the player's
/// state, what it ran into, whether it stands on the ground, and whether it
/// moved down by more than a pixel. A player already hit ignores them.
pub fn player_collisions(
    state: PlayerState,
    collisions: &Vec<CollisionKind>,
    grounded: bool,
    moving_down: bool,
) -> (r: CollisionOutcome)
    requires
        collisions@.len() < usize::MAX,
    ensures
        state == PlayerState::Hit ==> r.next_state is None && r.hits == 0 && r.platforms@.len() == 0,
        state != PlayerState::Hit ==> {
            &&& r.next_state == collision_state(collisions@, state, grounded, moving_down)
            &&& r.hits == hit_count(collisions@)
            &&& r.platforms@ == platform_contacts(collisions@, state)
        },
{
    let mut out = CollisionOutcome { next_state: None, hits: 0, platforms: Vec::new() };
    if state == PlayerState::Hit {
        return out;
    }
    let n = collisions.len();
    for k in 0..n
        invariant
            n == collisions@.len(),
            n < usize::MAX,
            out.hits == hit_count(collisions@.take(k as int)),
            out.hits <= k,
            out.platforms@ == platform_contacts(collisions@.take(k as int), state),
            out.next_state is None || out.next_state == Some(PlayerState::Idling),
            (out.next_state == Some(PlayerState::Idling)) == exists|q: int|
                0 <= q < k && #[trigger] stands(collisions@[q], state, grounded),
    {
        let c = collisions[k];
        let ghost pre = collisions@.take(k as int);
        assert(collisions@.take(k + 1).drop_last() == pre);
        assert(collisions@.take(k + 1).last() == c);
        let stand = state != PlayerState::Jumping && match c {
            CollisionKind::Ground | CollisionKind::Platform => grounded,
            CollisionKind::MovingPlatform(_) => true,
            CollisionKind::Rock { .. } => grounded,
            _ => false,
        };
        if stand {
            out.next_state = Some(PlayerState::Idling);
        }
        let hurt = match c {
            CollisionKind::Spike | CollisionKind::Bat | CollisionKind::Pterodactyl
            | CollisionKind::Triceratops => true,
            CollisionKind::Rock { fast } => fast,
            _ => false,
        };
        if hurt {
            out.hits = out.hits + 1;
        }
        if let CollisionKind::MovingPlatform(i) = c {
            if state != PlayerState::Jumping {
                out.platforms.push(i);
            }
        }
        assert(out.platforms@ == platform_contacts(collisions@.take(k + 1), state));
        assert((out.next_state == Some(PlayerState::Idling)) == exists|q: int|
            0 <= q < k + 1 && #[trigger] stands(collisions@[q], state, grounded)) by {
            if stand {
                assert(stands(collisions@[k as int], state, grounded));
            }
        }
    }
    assert(collisions@.take(n as int) == collisions@);
    if !grounded && state == PlayerState::Idling && moving_down {
        out.next_state = Some(PlayerState::Falling);
    }
    out
}

} // verus!
