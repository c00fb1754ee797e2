//! Towers: what they cost, how they pick a target and fire at it, how their
//! projectiles fly and strike, and how they are bought.
use vstd::prelude::*;
use crate::enemies::{advance_progress, advanced, on_paths, Enemy, EnemyType, Health};
use crate::fixed::clamp;
use crate::path::{interpolate_points, Path};
use crate::timer::{carried, fires, RepeatingTimer};
use crate::ui::Click;
use crate::vector::Vec3;

verus! {

/// Time that a projectile takes from its tower to its target, in
/// microseconds.
pub const BULLET_TRAVEL_TIME: u64 = 500_000;

/// The kinds of tower that the shop sells.
#[derive(Copy, Clone, PartialEq, Eq, Debug, Structural)]
pub enum Tower {
    Land,
    All,
    Fire,
    Water,
    Air,
    Laser,
}

/// The enemies that a tower fires at.
#[derive(Copy, Clone, PartialEq, Eq, Debug, Structural)]
pub enum TargetDomain {
    /// Every enemy but the flying ones.
    Ground,
    /// The flying enemies only.
    Air,
    /// Every enemy.
    Both,
}

/// The timer that paces the shots of a tower.
#[derive(Debug)]
pub struct AttackSpeed(pub RepeatingTimer);

/// Hit points that a shot of a tower takes.
#[derive(Copy, Clone, PartialEq, Eq, Debug, Structural)]
pub struct Damage(pub i32);

/// How often a tower has been upgraded.
#[derive(Copy, Clone, PartialEq, Eq, Debug, Structural)]
pub struct Upgraded(pub i32);

/// What every tower is made of.
#[derive(Debug)]
pub struct TowerBundle {
    pub tower: Tower,
    pub attack_speed: AttackSpeed,
    pub damage: Damage,
    pub level: Upgraded,
}

/// A tower in the world.
#[derive(Debug)]
pub struct Turret {
    pub bundle: TowerBundle,
    /// Where the tower stands.
    pub translation: Vec3,
    /// How far the tower reaches, in thousandths of a world unit.
    pub range: i32,
    pub domain: TargetDomain,
}

/// A projectile on its way. It flies to the place where its target was
/// expected to be when it was fired, whatever has become of the target.
#[derive(Copy, Clone, PartialEq, Eq, Debug, Structural)]
pub struct Bullet {
    /// The name of the enemy that was aimed at.
    pub target: u64,
    pub start_location: Vec3,
    pub target_location: Vec3,
    /// Microseconds since startup at which the projectile was fired.
    pub spawned_at: u64,
    pub damage: i32,
    /// Where the projectile is.
    pub translation: Vec3,
}

/// The money of the player, and the tower that they have chosen to place.
#[derive(Copy, Clone, PartialEq, Eq, Debug, Structural)]
pub struct Banking {
    pub selection: Option<Tower>,
    pub balance: i32,
}

impl Tower {
    /// The price of a tower of this kind.
    pub open spec fn cost_spec(self) -> int {
        match self {
            Tower::Land => 30,
            Tower::All => 50,
            Tower::Fire => 56,
            Tower::Water => 50,
            Tower::Air => 70,
            Tower::Laser => 400,
        }
    }

    /// The kind of tower that is built for this kind: only the land tower has
    /// a build of its own, the others are built as the tower for all enemies.
    pub open spec fn built_as(self) -> Tower {
        match self {
            Tower::Land => Tower::Land,
            _ => Tower::All,
        }
    }

    /// The price of a tower of this kind.
    pub fn cost(&self) -> (price: i32)
        ensures
            price == self.cost_spec(),
    {
        match self {
            Tower::Land => 30,
            Tower::All => 50,
            Tower::Fire => 56,
            Tower::Water => 50,
            Tower::Air => 70,
            Tower::Laser => 400,
        }
    }

    /// Builds a tower of this kind at `location`.
    pub fn spawn(&self, location: Vec3) -> (turret: Turret)
        ensures
            turret.is_new(self.built_as(), location),
    {
        match self {
            Tower::Land => land_tower(location),
            Tower::All => all_tower(location),
            Tower::Fire => all_tower(location),
            Tower::Water => all_tower(location),
            Tower::Air => all_tower(location),
            Tower::Laser => all_tower(location),
        }
    }
}

impl TargetDomain {
    /// Whether towers of this domain fire at enemies of the given kind.
    pub open spec fn admits(self, kind: EnemyType) -> bool {
        match self {
            TargetDomain::Ground => kind != EnemyType::Air,
            TargetDomain::Air => kind == EnemyType::Air,
            TargetDomain::Both => true,
        }
    }

    /// Whether towers of this domain fire at flying enemies.
    pub open spec fn reaches_air(self) -> bool {
        self != TargetDomain::Ground
    }

    /// Tells whether towers of this domain fire at enemies of the given kind.
    pub fn accepts(&self, kind: EnemyType) -> (ok: bool)
        ensures
            ok == self.admits(kind),
    {
        match self {
            TargetDomain::Ground => kind != EnemyType::Air,
            TargetDomain::Air => kind == EnemyType::Air,
            TargetDomain::Both => true,
        }
    }
}

/// The cycle of the attack timer of a newly built tower, in microseconds.
pub open spec fn attack_period(kind: Tower) -> int {
    match kind {
        Tower::Land => 800_000,
        _ => 150_000,
    }
}

/// The domain of a newly built tower.
pub open spec fn attack_domain(kind: Tower) -> TargetDomain {
    match kind {
        Tower::Land => TargetDomain::Ground,
        _ => TargetDomain::Both,
    }
}

/// Where the enemy will be on `path` when the travel time of a projectile
/// has passed, if it keeps its speed: the point of the path at its progress
/// then.
pub open spec fn predicted(enemy: Enemy, path: Seq<Vec3>) -> Vec3 {
    interpolate_points(
        path,
        advanced(enemy.progress.0 as int, enemy.speed.0 as int, BULLET_TRAVEL_TIME as int),
    )
}

/// What a tower sees of the world: where it stands, how far it reaches, and
/// which enemies it fires at.
#[derive(Copy, Clone, PartialEq, Eq, Debug, Structural)]
pub struct Reach {
    pub origin: Vec3,
    /// In thousandths of a world unit.
    pub range: i32,
    pub domain: TargetDomain,
}

impl Reach {
    /// Whether the tower may fire at the enemy: the enemy is of a kind that
    /// the tower fires at, and nearer than the tower reaches.
    pub open spec fn candidate(self, enemy: Enemy) -> bool {
        self.domain.admits(enemy.kind) && self.origin.within(
            enemy.translation,
            self.range as int,
        )
    }

    /// The number by which the tower compares the distances of enemies: the
    /// distance in thousandths of a world unit, cut off to a whole number.
    pub open spec fn key(self, enemy: Enemy) -> nat {
        self.origin.distance_key(enemy.translation)
    }

    /// Whether the enemy at index `i` is the one that the tower fires at:
    /// none that it may fire at has a smaller key, and of those with the
    /// same key it comes first.
    pub open spec fn is_target(self, enemies: Seq<Enemy>, i: int) -> bool {
        &&& 0 <= i < enemies.len()
        &&& self.candidate(enemies[i])
        &&& forall|j: int|
            0 <= j < enemies.len() && self.candidate(#[trigger] enemies[j]) ==> self.key(
                enemies[i],
            ) <= self.key(enemies[j])
        &&& forall|j: int|
            0 <= j < i && self.candidate(#[trigger] enemies[j]) ==> self.key(enemies[i])
                < self.key(enemies[j])
    }

    /// The index of the enemy that the tower fires at, if there is one.
    pub open spec fn target(self, enemies: Seq<Enemy>) -> Option<int>
        decreases enemies.len(),
    {
        if enemies.len() == 0 {
            None
        } else {
            let last = enemies.len() - 1;
            let before = self.target(enemies.drop_last());
            if self.candidate(enemies[last]) && (before is None || self.key(enemies[last])
                < self.key(enemies[before->0])) {
                Some(last)
            } else {
                before
            }
        }
    }

    /// Picks the enemy to fire at: the nearest of those that the tower may
    /// fire at. Distances are compared in whole thousandths of a world unit,
    /// and of several enemies at the same distance the first in `enemies` is
    /// picked.
    pub fn select_target(&self, enemies: &Vec<Enemy>) -> (picked: Option<usize>)
        ensures
            picked is Some ==> self.is_target(enemies@, picked->0 as int),
            picked is None ==> forall|j: int|
                0 <= j < enemies@.len() ==> !self.candidate(#[trigger] enemies@[j]),
            picked is Some <==> self.target(enemies@) is Some,
            picked is Some ==> self.target(enemies@) == Some(picked->0 as int),
    {
        let mut best: Option<usize> = None;
        let mut least: u32 = 0;
        let mut i: usize = 0;
        assert(enemies@.take(0) =~= Seq::empty());
        while i < enemies.len()
            invariant
                i <= enemies@.len(),
                best is Some <==> self.target(enemies@.take(i as int)) is Some,
                best is Some ==> {
                    &&& self.target(enemies@.take(i as int)) == Some(best->0 as int)
                    &&& best->0 < i
                    &&& least == self.key(enemies@[best->0 as int])
                },
            decreases enemies@.len() - i,
        {
            let enemy: Enemy = enemies[i];
            proof {
                assert(enemies@.take(i + 1).drop_last() =~= enemies@.take(i as int));
                assert(enemies@.take(i + 1)[i as int] == enemy);
            }
            if self.domain.accepts(enemy.kind) {
                match self.origin.distance_within(enemy.translation, self.range) {
                    Some(key) => {
                        if best.is_none() || key < least {
                            best = Some(i);
                            least = key;
                        }
                    },
                    None => {},
                }
            }
            i += 1;
        }
        proof {
            assert(enemies@.take(i as int) =~= enemies@);
            lemma_target_is_nearest(*self, enemies@);
        }
        best
    }
}

/// The enemy that `target` names is the one that `is_target` describes, and
/// where it names none there is no enemy to fire at.
pub proof fn lemma_target_is_nearest(reach: Reach, enemies: Seq<Enemy>)
    ensures
        reach.target(enemies) matches Some(i) ==> reach.is_target(enemies, i),
        reach.target(enemies) is None ==> forall|j: int|
            0 <= j < enemies.len() ==> !reach.candidate(#[trigger] enemies[j]),
    decreases enemies.len(),
{
    if enemies.len() > 0 {
        let seen = enemies.drop_last();
        lemma_target_is_nearest(reach, seen);
        assert forall|j: int| 0 <= j < seen.len() implies seen[j] == enemies[j] by {}
        match reach.target(enemies) {
            Some(i) => {
                assert forall|j: int|
                    0 <= j < enemies.len() && reach.candidate(#[trigger] enemies[j])
                    implies reach.key(enemies[i]) <= reach.key(enemies[j]) by {
                    if j < seen.len() {
                        assert(seen[j] == enemies[j]);
                    }
                }
                assert forall|j: int| 0 <= j < i && reach.candidate(#[trigger] enemies[j])
                    implies reach.key(enemies[i]) < reach.key(enemies[j]) by {
                    assert(seen[j] == enemies[j]);
                }
            },
            None => {
                assert forall|j: int| 0 <= j < enemies.len() implies !reach.candidate(
                    #[trigger] enemies[j],
                ) by {
                    if j < seen.len() {
                        assert(seen[j] == enemies[j]);
                    }
                }
            },
        }
    }
}

/// Of the enemies in range no two can both be the target: which one is fired
/// at is settled by the keys and the order of the enemies alone.
pub proof fn lemma_target_unique(reach: Reach, enemies: Seq<Enemy>, i: int, j: int)
    requires
        reach.is_target(enemies, i),
        reach.is_target(enemies, j),
    ensures
        i == j,
{
    if i < j {
        assert(reach.candidate(enemies[i]));
    } else if j < i {
        assert(reach.candidate(enemies[j]));
    }
}

/// A projectile that is fired is meant for the target that the tower picked:
/// it bears the target's name, the damage of the tower and the time of the
/// shot, and is aimed at the place predicted on the target's own path.
pub proof fn lemma_shot_is_led(
    turret: Turret,
    enemies: Seq<Enemy>,
    paths: Seq<Path>,
    now: u64,
    dt: int,
)
    requires
        turret.shot(enemies, paths, now, dt) is Some,
    ensures
        turret.ready(dt),
        turret.reach().target(enemies) is Some,
        ({
            let bullet = turret.shot(enemies, paths, now, dt)->0;
            let i = turret.reach().target(enemies)->0;
            &&& turret.reach().is_target(enemies, i)
            &&& bullet.target == enemies[i].id
            &&& bullet.damage == turret.bundle.damage.0
            &&& bullet.spawned_at == now
            &&& bullet.target_location == predicted(
                enemies[i],
                paths[enemies[i].path_selection.0 as int]@,
            )
        }),
{
    lemma_target_is_nearest(turret.reach(), enemies);
}

impl Turret {
    /// What the tower sees of the world.
    pub open spec fn reach(self) -> Reach {
        Reach { origin: self.translation, range: self.range, domain: self.domain }
    }

    /// Whether the tower is one of the given kind that has just been built at
    /// `location`: its timer is at the start of its first cycle.
    pub open spec fn is_new(self, kind: Tower, location: Vec3) -> bool {
        &&& self.bundle.tower == kind
        &&& self.bundle.attack_speed.0.elapsed() == 0
        &&& self.bundle.attack_speed.0.period() == attack_period(kind) * 1000
        &&& self.bundle.damage == Damage(30)
        &&& self.bundle.level == Upgraded(0)
        &&& self.translation == location
        &&& self.range == 5000
        &&& self.domain == attack_domain(kind)
    }

    /// Whether `after` is this tower when `dt` microseconds have passed on
    /// its attack timer, and nothing else has changed.
    pub open spec fn ticked(self, after: Turret, dt: int) -> bool {
        &&& after.bundle.tower == self.bundle.tower
        &&& after.bundle.attack_speed.0.period() == self.bundle.attack_speed.0.period()
        &&& after.bundle.attack_speed.0.elapsed() == carried(
            self.bundle.attack_speed.0.elapsed(),
            self.bundle.attack_speed.0.period(),
            (dt * 1000) as nat,
        )
        &&& after.bundle.damage == self.bundle.damage
        &&& after.bundle.level == self.bundle.level
        &&& after.translation == self.translation
        &&& after.range == self.range
        &&& after.domain == self.domain
    }

    /// Whether the attack timer of the tower finishes a cycle in the next
    /// `dt` microseconds.
    pub open spec fn ready(self, dt: int) -> bool {
        fires(
            self.bundle.attack_speed.0.elapsed(),
            self.bundle.attack_speed.0.period(),
            (dt * 1000) as nat,
        )
    }

    /// The projectile that the tower fires at the enemy at the time `now`. It
    /// starts a unit and a half above the foot of the tower, and is aimed at
    /// the very place on the enemy's path where the enemy will be when the
    /// projectile's travel time has passed.
    pub open spec fn aimed(self, enemy: Enemy, path: Seq<Vec3>, now: u64) -> Bullet {
        Bullet {
            target: enemy.id,
            start_location: self.translation.plus_spec(Vec3 { x: 0, y: 1500, z: 0 }),
            target_location: predicted(enemy, path),
            spawned_at: now,
            damage: self.bundle.damage.0,
            translation: self.translation,
        }
    }

    /// The projectile that the tower fires in the next `dt` microseconds, if
    /// it fires one: its timer must finish a cycle, and there must be an
    /// enemy to fire at.
    pub open spec fn shot(self, enemies: Seq<Enemy>, paths: Seq<Path>, now: u64, dt: int) -> Option<
        Bullet,
    > {
        if !self.ready(dt) {
            None
        } else {
            match self.reach().target(enemies) {
                None => None,
                Some(i) => Some(
                    self.aimed(enemies[i], paths[enemies[i].path_selection.0 as int]@, now),
                ),
            }
        }
    }

    /// Lets `dt` microseconds pass on the attack timer and, where it
    /// finishes a cycle and an enemy can be fired at, fires one projectile.
    pub fn attack(&mut self, enemies: &Vec<Enemy>, paths: &Vec<Path>, now: u64, dt: u64) -> (fired:
        Option<Bullet>)
        requires
            on_paths(enemies@, paths@.len()),
        ensures
            old(self).ticked(*final(self), dt as int),
            fired == old(self).shot(enemies@, paths@, now, dt as int),
    {
        if !self.bundle.attack_speed.0.tick(dt) {
            return None;
        }
        let reach: Reach = Reach {
            origin: self.translation,
            range: self.range,
            domain: self.domain,
        };
        match reach.select_target(enemies) {
            None => None,
            Some(index) => {
                let enemy: Enemy = enemies[index];
                let expected: i64 = advance_progress(
                    enemy.progress.0,
                    enemy.speed.0,
                    BULLET_TRAVEL_TIME,
                );
                let place: Vec3 = paths[enemy.path_selection.0].interpolate(expected);
                Some(
                    Bullet {
                        target: enemy.id,
                        start_location: self.translation.plus(Vec3 { x: 0, y: 1500, z: 0 }),
                        target_location: place,
                        spawned_at: now,
                        damage: self.bundle.damage.0,
                        translation: self.translation,
                    },
                )
            },
        }
    }
}

/// A tower that fires at enemies on the ground, newly built at `location`.
pub fn land_tower(location: Vec3) -> (turret: Turret)
    ensures
        turret.is_new(Tower::Land, location),
{
    Turret {
        bundle: TowerBundle {
            tower: Tower::Land,
            attack_speed: AttackSpeed(RepeatingTimer::new(800_000)),
            damage: Damage(30),
            level: Upgraded(0),
        },
        translation: location,
        range: 5000,
        domain: TargetDomain::Ground,
    }
}

/// A tower that fires at every enemy, newly built at `location`.
pub fn all_tower(location: Vec3) -> (turret: Turret)
    ensures
        turret.is_new(Tower::All, location),
{
    Turret {
        bundle: TowerBundle {
            tower: Tower::All,
            attack_speed: AttackSpeed(RepeatingTimer::new(150_000)),
            damage: Damage(30),
            level: Upgraded(0),
        },
        translation: location,
        range: 5000,
        domain: TargetDomain::Both,
    }
}

/// The enemy at index `i` is the first that has the name `id`.
pub open spec fn is_first(enemies: Seq<Enemy>, id: u64, i: int) -> bool {
    &&& 0 <= i < enemies.len()
    &&& enemies[i].id == id
    &&& forall|j: int| 0 <= j < i ==> (#[trigger] enemies[j]).id != id
}

/// Whether an enemy with the name `id` exists.
pub open spec fn holds(enemies: Seq<Enemy>, id: u64) -> bool {
    exists|i: int| is_first(enemies, id, i)
}

/// The index of the first enemy that has the name `id`.
pub open spec fn first_index(enemies: Seq<Enemy>, id: u64) -> int {
    choose|i: int| is_first(enemies, id, i)
}

/// The enemy after a hit of `damage` points.
pub open spec fn hurt(enemy: Enemy, damage: i32) -> Enemy {
    Enemy {
        health: Health {
            max: enemy.health.max,
            current: clamp(
                enemy.health.current - damage,
                i32::MIN as int,
                i32::MAX as int,
            ) as i32,
        },
        ..enemy
    }
}

/// The enemies after a projectile with `damage` points has arrived at the
/// enemy named `target`. An enemy that has no health left is gone. Where no
/// enemy has that name any more, nothing happens.
pub open spec fn struck(enemies: Seq<Enemy>, target: u64, damage: i32) -> Seq<Enemy> {
    if !holds(enemies, target) {
        enemies
    } else {
        let i = first_index(enemies, target);
        let wounded = hurt(enemies[i], damage);
        if wounded.health.current <= 0 {
            enemies.remove(i)
        } else {
            enemies.update(i, wounded)
        }
    }
}

/// A projectile whose target is gone changes nothing.
pub proof fn lemma_missing_target_spared(enemies: Seq<Enemy>, target: u64, damage: i32)
    requires
        forall|i: int| 0 <= i < enemies.len() ==> (#[trigger] enemies[i]).id != target,
    ensures
        struck(enemies, target, damage) == enemies,
{
}

/// A projectile strikes its target and no other enemy: every enemy with
/// another name is still there, as it was.
pub proof fn lemma_strike_spares_others(enemies: Seq<Enemy>, target: u64, damage: i32, i: int)
    requires
        0 <= i < enemies.len(),
        enemies[i].id != target,
    ensures
        struck(enemies, target, damage).contains(enemies[i]),
{
    let after = struck(enemies, target, damage);
    if holds(enemies, target) {
        let hit = first_index(enemies, target);
        assert(is_first(enemies, target, hit));
        if hurt(enemies[hit], damage).health.current <= 0 {
            if i < hit {
                assert(after[i] == enemies[i]);
            } else {
                assert(after[i - 1] == enemies[i]);
            }
        } else {
            assert(after[i] == enemies[i]);
        }
    } else {
        assert(after[i] == enemies[i]);
    }
}

impl Bullet {
    /// Microseconds that the projectile has flown at the time `now`, up to
    /// its travel time.
    pub open spec fn flown(self, now: u64) -> int {
        clamp(now - self.spawned_at, 0, BULLET_TRAVEL_TIME as int)
    }

    /// Whether the projectile has reached the end of its flight.
    pub open spec fn arrived(self, now: u64) -> bool {
        now - self.spawned_at >= BULLET_TRAVEL_TIME
    }

    /// Where the projectile is at the time `now`: on the straight line from
    /// where it started to where it was aimed, as far as the part of its
    /// travel time that has passed.
    pub open spec fn position(self, now: u64) -> Vec3 {
        self.start_location.lerp_spec(
            self.target_location,
            self.flown(now),
            BULLET_TRAVEL_TIME as int,
        )
    }

    /// The projectile at its place at the time `now`.
    pub open spec fn flying(self, now: u64) -> Bullet {
        Bullet { translation: self.position(now), ..self }
    }
}

/// The projectiles still in flight, and the enemies still alive, when each of
/// `bullets` in turn has been moved to its place at the time `now` and those
/// that have arrived have struck.
pub open spec fn resolved(bullets: Seq<Bullet>, enemies: Seq<Enemy>, now: u64) -> (
    Seq<Bullet>,
    Seq<Enemy>,
)
    decreases bullets.len(),
{
    if bullets.len() == 0 {
        (Seq::empty(), enemies)
    } else {
        let (kept, alive) = resolved(bullets.drop_last(), enemies, now);
        let last = bullets.last();
        if last.arrived(now) {
            (kept, struck(alive, last.target, last.damage))
        } else {
            (kept.push(last.flying(now)), alive)
        }
    }
}

/// Lets a projectile with `damage` points strike the enemy named `target`,
/// if there still is one.
pub fn strike(enemies: &mut Vec<Enemy>, target: u64, damage: i32)
    ensures
        final(enemies)@ == struck(old(enemies)@, target, damage),
{
    let mut i: usize = 0;
    while i < enemies.len()
        invariant
            i <= enemies@.len(),
            enemies@ == old(enemies)@,
            forall|j: int| 0 <= j < i ==> (#[trigger] enemies@[j]).id != target,
        decreases enemies@.len() - i,
    {
        if enemies[i].id == target {
            assert(is_first(enemies@, target, i as int));
            assert forall|k: int| is_first(enemies@, target, k) implies k == i by {
                if k < i {
                    assert(enemies@[k].id != target);
                } else if i < k {
                    assert(enemies@[i as int].id == target);
                }
            }
            let mut enemy: Enemy = enemies[i];
            let left: i64 = enemy.health.current as i64 - damage as i64;
            enemy.health.current = if left < i32::MIN as i64 {
                i32::MIN
            } else if left > i32::MAX as i64 {
                i32::MAX
            } else {
                left as i32
            };
            assert(enemy == hurt(enemies@[i as int], damage));
            if enemy.health.current <= 0 {
                enemies.remove(i);
            } else {
                enemies.set(i, enemy);
            }
            return ;
        }
        i += 1;
    }
    assert(!holds(enemies@, target));
}

/// Moves every projectile to its place at the time `now`, in microseconds
/// since startup. A projectile that has arrived is taken away and strikes its
/// target, if the target still exists; a target that has no health left is
/// taken away too.
pub fn move_bullets(bullets: &mut Vec<Bullet>, enemies: &mut Vec<Enemy>, now: u64)
    ensures
        (final(bullets)@, final(enemies)@) == resolved(old(bullets)@, old(enemies)@, now),
{
    let mut kept: Vec<Bullet> = Vec::new();
    let mut i: usize = 0;
    assert(bullets@.take(0) =~= Seq::empty());
    while i < bullets.len()
        invariant
            i <= bullets@.len(),
            bullets@ == old(bullets)@,
            (kept@, enemies@) == resolved(bullets@.take(i as int), old(enemies)@, now),
        decreases bullets@.len() - i,
    {
        let bullet: Bullet = bullets[i];
        let flown: u64 = if now <= bullet.spawned_at {
            0
        } else if now - bullet.spawned_at >= BULLET_TRAVEL_TIME {
            BULLET_TRAVEL_TIME
        } else {
            now - bullet.spawned_at
        };
        let place: Vec3 = bullet.start_location.lerp(
            bullet.target_location,
            flown,
            BULLET_TRAVEL_TIME,
        );
        proof {
            assert(bullets@.take(i + 1).drop_last() =~= bullets@.take(i as int));
            assert(bullets@.take(i + 1).last() == bullet);
        }
        if flown >= BULLET_TRAVEL_TIME {
            strike(enemies, bullet.target, bullet.damage);
        } else {
            kept.push(
                Bullet {
                    target: bullet.target,
                    start_location: bullet.start_location,
                    target_location: bullet.target_location,
                    spawned_at: bullet.spawned_at,
                    damage: bullet.damage,
                    translation: place,
                },
            );
        }
        i += 1;
    }
    assert(bullets@.take(i as int) =~= bullets@);
    *bullets = kept;
}

/// The projectiles that the towers taking part fire in the next `dt`
/// microseconds, in the order of the towers. With `air_capable` the towers
/// that fire at flying enemies take part, without it the others.
pub open spec fn volley(
    towers: Seq<Turret>,
    enemies: Seq<Enemy>,
    paths: Seq<Path>,
    air_capable: bool,
    now: u64,
    dt: int,
) -> Seq<Bullet>
    decreases towers.len(),
{
    if towers.len() == 0 {
        Seq::empty()
    } else {
        let before = volley(towers.drop_last(), enemies, paths, air_capable, now, dt);
        let last = towers.last();
        if last.domain.reaches_air() == air_capable {
            match last.shot(enemies, paths, now, dt) {
                Some(bullet) => before.push(bullet),
                None => before,
            }
        } else {
            before
        }
    }
}

/// Lets `dt` microseconds pass for the towers that take part (see `volley`)
/// and adds to `bullets` what they fire at the time `now`. Each of them fires
/// at most once, however long `dt` is. The other towers are left as they are.
pub fn ranged_attack(
    towers: &mut Vec<Turret>,
    enemies: &Vec<Enemy>,
    paths: &Vec<Path>,
    bullets: &mut Vec<Bullet>,
    air_capable: bool,
    now: u64,
    dt: u64,
)
    requires
        on_paths(enemies@, paths@.len()),
    ensures
        final(towers)@.len() == old(towers)@.len(),
        forall|i: int|
            0 <= i < old(towers)@.len() ==> if old(towers)@[i].domain.reaches_air() == air_capable {
                old(towers)@[i].ticked(#[trigger] final(towers)@[i], dt as int)
            } else {
                final(towers)@[i] == old(towers)@[i]
            },
        final(bullets)@ == old(bullets)@ + volley(
            old(towers)@,
            enemies@,
            paths@,
            air_capable,
            now,
            dt as int,
        ),
{
    let mut i: usize = 0;
    assert(towers@.take(0) =~= Seq::empty());
    assert(bullets@ =~= old(bullets)@ + Seq::<Bullet>::empty());
    while i < towers.len()
        invariant
            i <= towers@.len(),
            towers@.len() == old(towers)@.len(),
            on_paths(enemies@, paths@.len()),
            forall|j: int|
                0 <= j < i ==> if old(towers)@[j].domain.reaches_air() == air_capable {
                    old(towers)@[j].ticked(#[trigger] towers@[j], dt as int)
                } else {
                    towers@[j] == old(towers)@[j]
                },
            forall|j: int| i <= j < towers@.len() ==> #[trigger] towers@[j] == old(towers)@[j],
            bullets@ == old(bullets)@ + volley(
                old(towers)@.take(i as int),
                enemies@,
                paths@,
                air_capable,
                now,
                dt as int,
            ),
        decreases towers@.len() - i,
    {
        proof {
            assert(old(towers)@.take(i + 1).drop_last() =~= old(towers)@.take(i as int));
            assert(old(towers)@.take(i + 1).last() == old(towers)@[i as int]);
        }
        let takes_part: bool = match towers[i].domain {
            TargetDomain::Ground => !air_capable,
            _ => air_capable,
        };
        if takes_part {
            let ghost laid = bullets@;
            match towers[i].attack(enemies, paths, now, dt) {
                Some(bullet) => {
                    bullets.push(bullet);
                    assert(bullets@ =~= old(bullets)@ + volley(
                        old(towers)@.take(i + 1),
                        enemies@,
                        paths@,
                        air_capable,
                        now,
                        dt as int,
                    ));
                },
                None => {},
            }
        }
        i += 1;
    }
    assert(old(towers)@.take(i as int) =~= old(towers)@);
}

/// Lets the towers that fire at ground enemies only attack.
pub fn land_attack(
    towers: &mut Vec<Turret>,
    enemies: &Vec<Enemy>,
    paths: &Vec<Path>,
    bullets: &mut Vec<Bullet>,
    now: u64,
    dt: u64,
)
    requires
        on_paths(enemies@, paths@.len()),
    ensures
        final(towers)@.len() == old(towers)@.len(),
        forall|i: int|
            0 <= i < old(towers)@.len() ==> if !old(towers)@[i].domain.reaches_air() {
                old(towers)@[i].ticked(#[trigger] final(towers)@[i], dt as int)
            } else {
                final(towers)@[i] == old(towers)@[i]
            },
        final(bullets)@ == old(bullets)@ + volley(
            old(towers)@,
            enemies@,
            paths@,
            false,
            now,
            dt as int,
        ),
{
    ranged_attack(towers, enemies, paths, bullets, false, now, dt)
}

/// Lets the towers that fire at flying enemies attack.
pub fn air_attack(
    towers: &mut Vec<Turret>,
    enemies: &Vec<Enemy>,
    paths: &Vec<Path>,
    bullets: &mut Vec<Bullet>,
    now: u64,
    dt: u64,
)
    requires
        on_paths(enemies@, paths@.len()),
    ensures
        final(towers)@.len() == old(towers)@.len(),
        forall|i: int|
            0 <= i < old(towers)@.len() ==> if old(towers)@[i].domain.reaches_air() {
                old(towers)@[i].ticked(#[trigger] final(towers)@[i], dt as int)
            } else {
                final(towers)@[i] == old(towers)@[i]
            },
        final(bullets)@ == old(bullets)@ + volley(
            old(towers)@,
            enemies@,
            paths@,
            true,
            now,
            dt as int,
        ),
{
    ranged_attack(towers, enemies, paths, bullets, true, now, dt)
}

impl Banking {
    /// Whether the click buys a tower: it fell on the world, on ground that
    /// is not below zero, a tower is chosen, and the balance covers its
    /// price.
    pub open spec fn buys(self, click: Click) -> bool {
        &&& click.world_spec() is Some
        &&& click.world_spec()->0.y >= 0
        &&& self.selection is Some
        &&& self.balance >= self.selection->0.cost_spec()
    }

    /// The bank after the click: a click that buys takes the price from the
    /// balance and leaves no tower chosen, any other changes nothing.
    pub open spec fn after_click(self, click: Click) -> Banking {
        if self.buys(click) {
            Banking {
                selection: None,
                balance: (self.balance - self.selection->0.cost_spec()) as i32,
            }
        } else {
            self
        }
    }

    /// The bank after the clicks, in turn.
    pub open spec fn after_clicks(self, clicks: Seq<Click>) -> Banking
        decreases clicks.len(),
    {
        if clicks.len() == 0 {
            self
        } else {
            self.after_clicks(clicks.drop_last()).after_click(clicks.last())
        }
    }

    /// The towers that the clicks buy, in turn: the kind that was chosen, and
    /// the place of the click.
    pub open spec fn placements(self, clicks: Seq<Click>) -> Seq<(Tower, Vec3)>
        decreases clicks.len(),
    {
        if clicks.len() == 0 {
            Seq::empty()
        } else {
            let before = self.placements(clicks.drop_last());
            let bank = self.after_clicks(clicks.drop_last());
            if bank.buys(clicks.last()) {
                before.push((bank.selection->0, clicks.last().world_spec()->0))
            } else {
                before
            }
        }
    }

    /// Buys the chosen tower at the place of the click, if the click can buy
    /// it. A click that cannot is passed over and changes nothing.
    pub fn attempt_purchase(&mut self, click: Click) -> (bought: Option<Turret>)
        ensures
            *final(self) == old(self).after_click(click),
            bought is Some <==> old(self).buys(click),
            bought is Some ==> bought->0.is_new(
                old(self).selection->0.built_as(),
                click.world_spec()->0,
            ),
    {
        let location: Vec3 = match click.world() {
            Some(location) => location,
            None => {
                return None;
            },
        };
        if location.y < 0 {
            return None;
        }
        let selection: Tower = match self.selection {
            Some(selection) => selection,
            None => {
                return None;
            },
        };
        let cost: i32 = selection.cost();
        if self.balance < cost {
            return None;
        }
        let turret: Turret = selection.spawn(location);
        self.selection = None;
        self.balance = self.balance - cost;
        Some(turret)
    }
}

/// Money is only ever spent: no click makes the balance grow.
pub proof fn lemma_balance_never_grows(banking: Banking, clicks: Seq<Click>)
    ensures
        banking.after_clicks(clicks).balance <= banking.balance,
    decreases clicks.len(),
{
    if clicks.len() > 0 {
        lemma_balance_never_grows(banking, clicks.drop_last());
    }
}

/// A chosen tower is bought once: whatever the clicks, they place at most
/// one tower, and none where no tower was chosen.
pub proof fn lemma_one_purchase_per_selection(banking: Banking, clicks: Seq<Click>)
    ensures
        banking.placements(clicks).len() <= 1,
        banking.selection is None ==> banking.placements(clicks).len() == 0,
        banking.placements(clicks).len() == 1 ==> banking.after_clicks(clicks).selection is None,
        banking.selection is None ==> banking.after_clicks(clicks).selection is None,
    decreases clicks.len(),
{
    if clicks.len() > 0 {
        lemma_one_purchase_per_selection(banking, clicks.drop_last());
    }
}

/// Places a tower for each click that buys one, and adds it to `towers`.
pub fn spawn_tower(clicks: &Vec<Click>, banking: &mut Banking, towers: &mut Vec<Turret>)
    ensures
        *final(banking) == old(banking).after_clicks(clicks@),
        final(towers)@.len() == old(towers)@.len() + old(banking).placements(clicks@).len(),
        forall|i: int| 0 <= i < old(towers)@.len() ==> #[trigger] final(towers)@[i] == old(towers)@[i],
        forall|k: int|
            0 <= k < old(banking).placements(clicks@).len() ==> (#[trigger] final(towers)@[old(towers)@.len() + k]).is_new(
                old(banking).placements(clicks@)[k].0.built_as(),
                old(banking).placements(clicks@)[k].1,
            ),
{
    let mut i: usize = 0;
    assert(clicks@.take(0) =~= Seq::empty());
    while i < clicks.len()
        invariant
            i <= clicks@.len(),
            *banking == old(banking).after_clicks(clicks@.take(i as int)),
            towers@.len() == old(towers)@.len() + old(banking).placements(
                clicks@.take(i as int),
            ).len(),
            forall|j: int| 0 <= j < old(towers)@.len() ==> #[trigger] towers@[j] == old(towers)@[j],
            forall|k: int|
                0 <= k < old(banking).placements(clicks@.take(i as int)).len() ==> (
                #[trigger] towers@[old(towers)@.len() + k]).is_new(
                    old(banking).placements(clicks@.take(i as int))[k].0.built_as(),
                    old(banking).placements(clicks@.take(i as int))[k].1,
                ),
        decreases clicks@.len() - i,
    {
        proof {
            assert(clicks@.take(i + 1).drop_last() =~= clicks@.take(i as int));
            assert(clicks@.take(i + 1).last() == clicks@[i as int]);
        }
        let ghost placed = old(banking).placements(clicks@.take(i as int));
        match banking.attempt_purchase(clicks[i]) {
            Some(turret) => {
                let ghost built = towers@;
                towers.push(turret);
                assert forall|k: int|
                    0 <= k < old(banking).placements(clicks@.take(i + 1)).len() implies (
                #[trigger] towers@[old(towers)@.len() + k]).is_new(
                    old(banking).placements(clicks@.take(i + 1))[k].0.built_as(),
                    old(banking).placements(clicks@.take(i + 1))[k].1,
                ) by {
                    if k < placed.len() {
                        assert(towers@[old(towers)@.len() + k] == built[old(towers)@.len() + k]);
                    }
                }
            },
            None => {},
        }
        i += 1;
    }
    assert(clicks@.take(i as int) =~= clicks@);
}

} // verus!
