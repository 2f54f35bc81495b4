use vstd::prelude::*;

verus! {

/// A life won or lost.
#[derive(Debug, Clone, Copy, PartialEq, Eq, Structural)]
pub enum LifeEvent {
    Win,
    Lost,
}

/// The lives a game starts with.
pub const START_LIVES: usize = 3;

/// The lives after a life event, and whether the game is over: a life won
/// adds one, a life lost takes one away, and the game is over when the
/// last one is lost.
pub open spec fn life_spec(lives: int, event: LifeEvent) -> (int, bool) {
    match event {
        LifeEvent::Win => (lives + 1, false),
        LifeEvent::Lost => (lives - 1, lives - 1 == 0),
    }
}

/// Handles a life event with `lives` lives left; returns the lives left and
/// whether the game is over.
pub fn life_management(lives: usize, event: LifeEvent) -> (r: (usize, bool))
    requires
        event == LifeEvent::Lost ==> lives > 0,
        event == LifeEvent::Win ==> lives < usize::MAX,
    ensures
        (r.0 as int, r.1) == life_spec(lives as int, event),
{
    match event {
        LifeEvent::Win => (lives + 1, false),
        LifeEvent::Lost => {
            let left = lives - 1;
            (left, left == 0)
        },
    }
}

/// The lives after a sequence of life events.
pub open spec fn lives_after(lives: int, events: Seq<LifeEvent>) -> int
    decreases events.len(),
{
    if events.len() == 0 {
        lives
    } else {
        life_spec(lives_after(lives, events.drop_last()), events.last()).0
    }
}

/// A life won and then lost leaves the lives as they were, without ending
/// the game.
pub proof fn lemma_win_then_lose(lives: int)
    requires
        lives >= 0,
    ensures
        life_spec(life_spec(lives, LifeEvent::Win).0, LifeEvent::Lost) == (lives, lives == 0),
        !life_spec(lives, LifeEvent::Win).1,
{
}

/// `n` lives lost in a row.
pub open spec fn losses(n: nat) -> Seq<LifeEvent> {
    Seq::new(n, |_i: int| LifeEvent::Lost)
}

/// Each life lost takes one away: after `n` losses in a row, `lives - n`
/// are left.
pub proof fn lemma_losses(lives: int, n: nat)
    ensures
        lives_after(lives, losses(n)) == lives - n,
    decreases n,
{
    if n > 0 {
        assert(losses(n).drop_last() =~= losses((n - 1) as nat));
        lemma_losses(lives, (n - 1) as nat);
    }
}

/// From a new game with no life won, the game is over exactly on the loss
/// that takes the last of the starting lives: after `n` losses, one more
/// loss ends the game if and only if `n + 1` equals the starting lives.
pub proof fn lemma_losses_end_game(n: nat)
    requires
        n < START_LIVES,
    ensures
        life_spec(lives_after(START_LIVES as int, losses(n)), LifeEvent::Lost).1
            <==> n + 1 == START_LIVES,
{
    lemma_losses(START_LIVES as int, n);
}

/// How far right of the first life icon the icon of the `k`-th life (from
/// 0) is drawn, in pixels: twenty pixels from one icon to the next. The
/// offset must fit in a `u64`.
pub fn life_icon_offset(k: usize) -> (x: u64)
    requires
        20 * k <= u64::MAX,
    ensures
        x == 20 * k,
{
    20 * (k as u64)
}

/// The number of keys after collecting one.
pub fn collect_key(keys: u8) -> (r: u8)
    requires
        keys < u8::MAX,
    ensures
        r == keys + 1,
{
    keys + 1
}

} // verus!
