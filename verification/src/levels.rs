//! The state of the level and the spawner that feeds a wave into it.
use vstd::prelude::*;
use crate::easy::Wave;
use crate::enemies::{preset, EnemyBundle, PathSelection};
use crate::timer::{carried, fires, RepeatingTimer};

verus! {

/// How hard the game is.
#[derive(Copy, Clone, PartialEq, Eq, Debug, Structural)]
pub enum Difficulty {
    Easy,
    Normal,
    Hard,
}

/// The timer that paces the spawning of enemies.
#[derive(Debug)]
pub struct SpawnTimer(pub RepeatingTimer);

/// The level that is played, and what is left of its wave.
#[derive(Debug)]
pub struct GameState {
    pub number: usize,
    /// Whether the level still spawns enemies.
    pub active: bool,
    pub difficulty: Difficulty,
    pub wave: Wave,
}

/// The sign that a level has ended.
#[derive(Copy, Clone, PartialEq, Eq, Debug, Structural)]
pub struct LevelEnd;

impl GameState {
    /// Whether the spawner hands out an enemy when its timer finishes a cycle.
    pub open spec fn has_entry(self) -> bool {
        self.active && self.wave@.len() > 0
    }

    /// What the enemy of the last entry of the wave is spawned with.
    pub open spec fn next_up(self) -> EnemyBundle {
        preset(self.wave@.last().0, PathSelection(self.wave@.last().1 as usize))
    }
}

impl SpawnTimer {
    /// Whether the timer finishes a cycle in the next `dt` microseconds.
    pub open spec fn ready(self, dt: int) -> bool {
        fires(self.0.elapsed(), self.0.period(), (dt * 1000) as nat)
    }

    /// Whether `after` is this timer when `dt` microseconds have passed.
    pub open spec fn ticked(self, after: SpawnTimer, dt: int) -> bool {
        &&& after.0.period() == self.0.period()
        &&& after.0.elapsed() == carried(self.0.elapsed(), self.0.period(), (dt * 1000) as nat)
    }
}

/// Lets `dt` microseconds pass on the spawner.
///
/// A level that is not active is left alone, and so is its timer. On an
/// active one the timer runs, and where it finishes a cycle the last entry
/// of the wave is taken off and an enemy of its kind is handed out for its
/// path. Where the wave has no entry left, the level stops being active. At
/// most one enemy is handed out, however long `dt` is.
pub fn spawn_enemy(dt: u64, level: &mut GameState, timer: &mut SpawnTimer) -> (spawned: Option<
    EnemyBundle,
>)
    ensures
        final(level).number == old(level).number,
        final(level).difficulty == old(level).difficulty,
        old(level).active ==> old(timer).ticked(*final(timer), dt as int),
        !old(level).active ==> *final(timer) == *old(timer),
        spawned == if old(level).has_entry() && old(timer).ready(dt as int) {
            Some(old(level).next_up())
        } else {
            None
        },
        final(level).wave@ == if spawned is Some {
            old(level).wave@.drop_last()
        } else {
            old(level).wave@
        },
        final(level).active == (old(level).active && !(old(timer).ready(dt as int) && old(level).wave@.len() == 0)),
{
    if !level.active {
        return None;
    }
    if !timer.0.tick(dt) {
        return None;
    }
    match level.wave.0.pop() {
        None => {
            level.active = false;
            None
        },
        Some((enemy_type, path)) => Some(EnemyBundle::of(enemy_type, PathSelection(path as usize))),
    }
}

} // verus!
