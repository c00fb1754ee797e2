//! The whole simulation, and the order in which a tick runs its parts.
use vstd::prelude::*;
use crate::easy::{left_route, middle_route, paths, right_route, wave_entries, waves, Wave};
use crate::enemies::{move_enemies, moved_all, on_paths, Enemy, EnemyType};
use crate::levels::{spawn_enemy, Difficulty, GameState, SpawnTimer};
use crate::path::{dense, passes, Path};
use crate::timer::RepeatingTimer;
use crate::towers::{
    air_attack, first_index, holds, hurt, is_first, land_attack, move_bullets, resolved,
    spawn_tower, struck, volley, Banking, Bullet, Tower, Turret,
};
use crate::ui::Click;
use crate::utils::{Terrain, COLS, ROWS};

verus! {

/// Everything that the simulation keeps from tick to tick.
#[derive(Debug)]
pub struct Simulation {
    /// The paths that enemies are sent along.
    pub paths: Vec<Path>,
    pub terrain: Terrain,
    /// The enemies that are alive, in the order in which they were spawned.
    pub enemies: Vec<Enemy>,
    pub towers: Vec<Turret>,
    /// The projectiles in flight.
    pub bullets: Vec<Bullet>,
    pub level: GameState,
    pub spawn_timer: SpawnTimer,
    pub banking: Banking,
    /// Microseconds since startup.
    pub now: u64,
    /// The name that the next enemy is given.
    pub next_id: u64,
}

/// Whether the enemies are well kept: each walks a path that exists, and
/// their names grow along the list and stay below `next_id`, so that no two
/// share a name.
pub open spec fn orderly(enemies: Seq<Enemy>, next_id: u64, paths: nat) -> bool {
    &&& on_paths(enemies, paths)
    &&& forall|i: int| 0 <= i < enemies.len() ==> (#[trigger] enemies[i]).id < next_id
    &&& forall|i: int, j: int|
        0 <= i < j < enemies.len() ==> (#[trigger] enemies[i]).id < (#[trigger] enemies[j]).id
}

/// The time `dt` microseconds after `now`, as far as the clock counts.
pub open spec fn time_after(now: u64, dt: u64) -> u64 {
    if now + dt > u64::MAX {
        u64::MAX
    } else {
        (now + dt) as u64
    }
}

/// A strike leaves the enemies well kept.
pub proof fn lemma_struck_orderly(
    enemies: Seq<Enemy>,
    target: u64,
    damage: i32,
    next_id: u64,
    paths: nat,
)
    requires
        orderly(enemies, next_id, paths),
    ensures
        orderly(struck(enemies, target, damage), next_id, paths),
{
    if holds(enemies, target) {
        let i = first_index(enemies, target);
        assert(is_first(enemies, target, i));
        let wounded = hurt(enemies[i], damage);
        let after = struck(enemies, target, damage);
        if wounded.health.current <= 0 {
            assert forall|k: int| 0 <= k < after.len() implies #[trigger] after[k] == enemies[if k
                < i {
                k
            } else {
                k + 1
            }] by {}
            assert forall|a: int, b: int| 0 <= a < b < after.len() implies (#[trigger] after[a]).id
                < (#[trigger] after[b]).id by {
                let a0 = if a < i {
                    a
                } else {
                    a + 1
                };
                let b0 = if b < i {
                    b
                } else {
                    b + 1
                };
                assert(enemies[a0].id < enemies[b0].id);
            }
        } else {
            assert forall|a: int, b: int| 0 <= a < b < after.len() implies (#[trigger] after[a]).id
                < (#[trigger] after[b]).id by {
                assert(enemies[a].id < enemies[b].id);
            }
        }
    }
}

/// The enemies that are left when projectiles have struck are well kept.
pub proof fn lemma_resolved_orderly(
    bullets: Seq<Bullet>,
    enemies: Seq<Enemy>,
    now: u64,
    next_id: u64,
    paths: nat,
)
    requires
        orderly(enemies, next_id, paths),
    ensures
        orderly(resolved(bullets, enemies, now).1, next_id, paths),
    decreases bullets.len(),
{
    if bullets.len() > 0 {
        lemma_resolved_orderly(bullets.drop_last(), enemies, now, next_id, paths);
        let alive = resolved(bullets.drop_last(), enemies, now).1;
        lemma_struck_orderly(alive, bullets.last().target, bullets.last().damage, next_id, paths);
    }
}

/// Towers that have stood by while others attacked fire as they would have
/// fired before.
pub proof fn lemma_volley_of_bystanders(
    before: Seq<Turret>,
    after: Seq<Turret>,
    enemies: Seq<Enemy>,
    paths: Seq<Path>,
    air_capable: bool,
    now: u64,
    dt: int,
)
    requires
        before.len() == after.len(),
        forall|i: int|
            0 <= i < before.len() ==> (#[trigger] after[i]).domain == before[i].domain,
        forall|i: int|
            0 <= i < before.len() && before[i].domain.reaches_air() == air_capable
                ==> #[trigger] after[i] == before[i],
    ensures
        volley(after, enemies, paths, air_capable, now, dt) == volley(
            before,
            enemies,
            paths,
            air_capable,
            now,
            dt,
        ),
    decreases before.len(),
{
    if before.len() > 0 {
        let last = before.len() - 1;
        assert(after[last].domain == before[last].domain);
        assert forall|i: int| 0 <= i < last implies (#[trigger] after.drop_last()[i]).domain
            == before.drop_last()[i].domain by {
            assert(after[i].domain == before[i].domain);
        }
        assert forall|i: int|
            0 <= i < last && before.drop_last()[i].domain.reaches_air() == air_capable
            implies #[trigger] after.drop_last()[i] == before.drop_last()[i] by {
            assert(after[i] == before[i]);
        }
        lemma_volley_of_bystanders(
            before.drop_last(),
            after.drop_last(),
            enemies,
            paths,
            air_capable,
            now,
            dt,
        );
        if before[last].domain.reaches_air() == air_capable {
            assert(after[last] == before[last]);
        }
    }
}

impl Simulation {
    /// Whether the simulation is well kept: its enemies are, and every entry
    /// of the wave names a path that exists.
    pub open spec fn wf(self) -> bool {
        &&& orderly(self.enemies@, self.next_id, self.paths@.len())
        &&& forall|k: int|
            0 <= k < self.level.wave@.len() ==> (#[trigger] self.level.wave@[k]).1
                < self.paths@.len()
    }

    /// Tells whether the simulation is well kept.
    pub fn is_wf(&self) -> (ok: bool)
        ensures
            ok == self.wf(),
    {
        let mut i: usize = 0;
        while i < self.enemies.len()
            invariant
                i <= self.enemies@.len(),
                orderly(self.enemies@.take(i as int), self.next_id, self.paths@.len()),
            decreases self.enemies@.len() - i,
        {
            let enemy: Enemy = self.enemies[i];
            let ghost seen = self.enemies@.take(i as int);
            let ghost next = self.enemies@.take(i + 1);
            if enemy.path_selection.0 >= self.paths.len() || enemy.id >= self.next_id {
                assert(!orderly(self.enemies@, self.next_id, self.paths@.len())) by {
                    assert(self.enemies@[i as int] == enemy);
                }
                return false;
            }
            if i > 0 && self.enemies[i - 1].id >= enemy.id {
                assert(!orderly(self.enemies@, self.next_id, self.paths@.len())) by {
                    assert(self.enemies@[i - 1].id >= self.enemies@[i as int].id);
                }
                return false;
            }
            proof {
                assert forall|a: int| 0 <= a < i implies next[a] == seen[a] by {}
                assert forall|a: int, b: int| 0 <= a < b < next.len() implies (
                #[trigger] next[a]).id < (#[trigger] next[b]).id by {
                    if b < i {
                        assert(seen[a].id < seen[b].id);
                    } else if a < i - 1 {
                        assert(seen[a].id < seen[i - 1].id);
                    }
                }
            }
            i += 1;
        }
        assert(self.enemies@.take(i as int) =~= self.enemies@);
        let mut k: usize = 0;
        while k < self.level.wave.0.len()
            invariant
                k <= self.level.wave@.len(),
                forall|j: int|
                    0 <= j < k ==> (#[trigger] self.level.wave@[j]).1 < self.paths@.len(),
            decreases self.level.wave@.len() - k,
        {
            let entry: (EnemyType, u8) = self.level.wave.0[k];
            if entry.1 as usize >= self.paths.len() {
                assert(self.level.wave@[k as int].1 >= self.paths@.len());
                return false;
            }
            k += 1;
        }
        true
    }

    /// The time at the end of a tick of `dt` microseconds.
    pub open spec fn clock(self, dt: u64) -> u64 {
        time_after(self.now, dt)
    }

    /// The enemies after the first part of a tick, in which they move.
    pub open spec fn marched(self, dt: u64) -> Seq<Enemy> {
        moved_all(self.enemies@, self.paths@, dt as int)
    }

    /// The projectiles fired in the second part of a tick: the towers aim at
    /// the enemies where these have just moved to. Those of the ground towers
    /// come first.
    pub open spec fn fired(self, dt: u64) -> Seq<Bullet> {
        volley(self.towers@, self.marched(dt), self.paths@, false, self.clock(dt), dt as int)
            + volley(self.towers@, self.marched(dt), self.paths@, true, self.clock(dt), dt as int)
    }

    /// The projectiles and the enemies after the third part of a tick, in
    /// which the projectiles fly and strike, those just fired among them.
    pub open spec fn landed(self, dt: u64) -> (Seq<Bullet>, Seq<Enemy>) {
        resolved(self.bullets@ + self.fired(dt), self.marched(dt), self.clock(dt))
    }

    /// Whether an enemy joins in the fourth part of a tick: the spawner hands
    /// one out, and a name is left for it.
    pub open spec fn spawns(self, dt: u64) -> bool {
        &&& self.level.has_entry()
        &&& self.spawn_timer.ready(dt as int)
        &&& self.next_id < u64::MAX
    }

    /// The enemy that joins.
    pub open spec fn newcomer(self) -> Enemy {
        Enemy::fresh(self.next_id, self.level.next_up())
    }

    /// The easy level at its start, on terrain with the given heights: the
    /// paths are laid, the first wave waits for a spawner that runs every two
    /// seconds, and the player has a land tower chosen and money to spend.
    pub fn new(heights: [[i8; COLS]; ROWS]) -> (sim: Simulation)
        ensures
            sim.wf(),
            sim.terrain.heights == heights,
            forall|row: int, col: int|
                0 <= row < ROWS && 0 <= col < COLS ==> #[trigger] sim.terrain.occupied_at(row, col)
                    == (passes(sim.paths@[0]@, row, col) || passes(sim.paths@[1]@, row, col)
                    || passes(sim.paths@[2]@, row, col)),
            sim.paths@.len() == 3,
            sim.paths@[0]@ == dense(right_route()),
            sim.paths@[1]@ == dense(middle_route()),
            sim.paths@[2]@ == dense(left_route()),
            sim.enemies@.len() == 0,
            sim.towers@.len() == 0,
            sim.bullets@.len() == 0,
            sim.level.number == 0,
            sim.level.active,
            sim.level.difficulty == Difficulty::Easy,
            sim.level.wave@ == wave_entries(seq![EnemyType::Fast], 30),
            sim.spawn_timer.0.elapsed() == 0,
            sim.spawn_timer.0.period() == 2_000_000_000,
            sim.banking == (Banking { selection: Some(Tower::Land), balance: 1_000_000 }),
            sim.now == 0,
            sim.next_id == 0,
    {
        let mut terrain: Terrain = Terrain::new(heights);
        let paths: Vec<Path> = paths(&mut terrain);
        let mut waves: Vec<Wave> = waves();
        let wave: Wave = waves.remove(0);
        Simulation {
            paths,
            terrain,
            enemies: Vec::new(),
            towers: Vec::new(),
            bullets: Vec::new(),
            level: GameState { number: 0, active: true, difficulty: Difficulty::Easy, wave },
            spawn_timer: SpawnTimer(RepeatingTimer::new(2_000_000)),
            banking: Banking { selection: Some(Tower::Land), balance: 1_000_000 },
            now: 0,
            next_id: 0,
        }
    }

    /// Runs one tick of `dt` microseconds, in this order: the enemies move;
    /// the towers fire at the enemies where these now are; the projectiles
    /// fly and strike; the spawner may send a new enemy; the clicks of the
    /// player may buy a tower.
    pub fn tick(&mut self, dt: u64, clicks: &Vec<Click>)
        requires
            old(self).wf(),
        ensures
            final(self).wf(),
            final(self).paths == old(self).paths,
            final(self).terrain == old(self).terrain,
            final(self).now == old(self).clock(dt),
            final(self).bullets@ == old(self).landed(dt).0,
            final(self).enemies@ == if old(self).spawns(dt) {
                old(self).landed(dt).1.push(old(self).newcomer())
            } else {
                old(self).landed(dt).1
            },
            final(self).next_id == if old(self).spawns(dt) {
                old(self).next_id + 1
            } else {
                old(self).next_id as int
            },
            final(self).level.number == old(self).level.number,
            final(self).level.difficulty == old(self).level.difficulty,
            final(self).level.active == (old(self).level.active && !(old(self).spawn_timer.ready(
                dt as int,
            ) && old(self).level.wave@.len() == 0)),
            final(self).level.wave@ == if old(self).level.has_entry() && old(self).spawn_timer.ready(dt as int) {
                old(self).level.wave@.drop_last()
            } else {
                old(self).level.wave@
            },
            old(self).level.active ==> old(self).spawn_timer.ticked(
                final(self).spawn_timer,
                dt as int,
            ),
            !old(self).level.active ==> final(self).spawn_timer == old(self).spawn_timer,
            final(self).banking == old(self).banking.after_clicks(clicks@),
            final(self).towers@.len() == old(self).towers@.len() + old(self).banking.placements(
                clicks@,
            ).len(),
            forall|i: int|
                0 <= i < old(self).towers@.len() ==> old(self).towers@[i].ticked(
                    #[trigger] final(self).towers@[i],
                    dt as int,
                ),
            forall|k: int|
                0 <= k < old(self).banking.placements(clicks@).len() ==> (#[trigger] final(self).towers@[old(self).towers@.len() + k]).is_new(
                    old(self).banking.placements(clicks@)[k].0.built_as(),
                    old(self).banking.placements(clicks@)[k].1,
                ),
    {
        let now: u64 = if self.now > u64::MAX - dt {
            u64::MAX
        } else {
            self.now + dt
        };
        self.now = now;
        move_enemies(&mut self.enemies, &self.paths, dt);
        let ghost marched = self.enemies@;
        assert(orderly(marched, self.next_id, self.paths@.len()));
        land_attack(&mut self.towers, &self.enemies, &self.paths, &mut self.bullets, now, dt);
        let ghost stood = self.towers@;
        air_attack(&mut self.towers, &self.enemies, &self.paths, &mut self.bullets, now, dt);
        proof {
            lemma_volley_of_bystanders(
                old(self).towers@,
                stood,
                marched,
                self.paths@,
                true,
                now,
                dt as int,
            );
            assert(self.bullets@ =~= old(self).bullets@ + old(self).fired(dt));
            lemma_resolved_orderly(
                self.bullets@,
                marched,
                now,
                self.next_id,
                self.paths@.len() as nat,
            );
        }
        let ghost armed = self.towers@;
        move_bullets(&mut self.bullets, &mut self.enemies, now);
        match spawn_enemy(dt, &mut self.level, &mut self.spawn_timer) {
            Some(bundle) => {
                if self.next_id < u64::MAX {
                    assert(old(self).level.wave@.last().1 < self.paths@.len());
                    self.enemies.push(Enemy::spawn(self.next_id, bundle));
                    self.next_id = self.next_id + 1;
                }
            },
            None => {},
        }
        spawn_tower(clicks, &mut self.banking, &mut self.towers);
        proof {
            assert forall|i: int| 0 <= i < old(self).towers@.len() implies old(self).towers@[i].ticked(#[trigger] self.towers@[i], dt as int) by {
                assert(self.towers@[i] == armed[i]);
            }
        }
    }
}

} // verus!
