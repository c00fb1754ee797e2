//! Enemies: what they are made of, and how they move along their paths.
use vstd::prelude::*;
use crate::fixed::{saturate, saturate_i128, saturating_sum};
use crate::path::{interpolate_points, Path};
use crate::vector::Vec3;

verus! {

/// The kinds of enemy that a wave can hold.
#[derive(Debug, Copy, Clone, PartialEq, Eq, Structural)]
pub enum EnemyType {
    Slow,
    Normal,
    Fast,
    Air,
    Split,
}

/// Hit points of an enemy.
#[derive(Debug, Copy, Clone, PartialEq, Eq, Structural)]
pub struct Health {
    pub max: i32,
    pub current: i32,
}

/// How far along its path an enemy is, in billionths of the path. The value
/// is not bound to the path: it is brought between the path's ends only when
/// a position is asked for.
#[derive(Debug, Copy, Clone, PartialEq, Eq, Structural)]
pub struct Progress(pub i64);

/// Progress that an enemy makes in a microsecond, in billionths of its path.
#[derive(Debug, Copy, Clone, PartialEq, Eq, Structural)]
pub struct Speed(pub i64);

/// Index of the path that an enemy walks, in the table of paths.
#[derive(Debug, Copy, Clone, PartialEq, Eq, Structural)]
pub struct PathSelection(pub usize);

/// What an enemy is spawned with.
#[derive(Debug, Copy, Clone, PartialEq, Eq, Structural)]
pub struct EnemyBundle {
    pub kind: EnemyType,
    pub health: Health,
    pub speed: Speed,
    pub progress: Progress,
    pub path_selection: PathSelection,
}

/// An enemy in the world.
#[derive(Debug, Copy, Clone, PartialEq, Eq, Structural)]
pub struct Enemy {
    /// The name under which projectiles remember the enemy.
    pub id: u64,
    pub kind: EnemyType,
    pub health: Health,
    pub speed: Speed,
    pub progress: Progress,
    pub path_selection: PathSelection,
    /// Where the enemy is.
    pub translation: Vec3,
    /// The point that the enemy faces.
    pub looking_at: Vec3,
}

/// Half the stretch of path over which the position of an enemy is averaged,
/// in billionths of the path.
pub const AVG_RANGE: i64 = 5_000_000;

/// Length of the walk cycle, in microseconds.
pub const WALK_CYCLE_MICROS: u64 = 1_000_000;

/// The progress of an enemy after `dt` microseconds at the given speed.
pub open spec fn advanced(progress: int, speed: int, dt: int) -> int {
    saturate(progress + speed * dt)
}

/// The speed that an enemy of a kind is spawned with.
pub open spec fn preset_speed(kind: EnemyType) -> int {
    match kind {
        EnemyType::Slow => 10,
        EnemyType::Normal => 20,
        EnemyType::Fast => 40,
        EnemyType::Air => 40,
        EnemyType::Split => 40,
    }
}

/// The health that an enemy of a kind is spawned with.
pub open spec fn preset_health(kind: EnemyType) -> int {
    match kind {
        EnemyType::Slow => 10,
        EnemyType::Normal => 10,
        EnemyType::Fast => 100,
        EnemyType::Air => 1000,
        EnemyType::Split => 1000,
    }
}

/// What an enemy of a kind is spawned with on a path: full health, the speed
/// of its kind, and no progress.
pub open spec fn preset(kind: EnemyType, path_selection: PathSelection) -> EnemyBundle {
    EnemyBundle {
        kind,
        health: Health { max: preset_health(kind) as i32, current: preset_health(kind) as i32 },
        speed: Speed(preset_speed(kind) as i64),
        progress: Progress(0),
        path_selection,
    }
}

/// The points of the walk cycle: the size of an enemy swells and shrinks
/// along them.
pub open spec fn walk_cycle() -> Seq<Vec3> {
    seq![
        Vec3 { x: 100_000, y: 100_000, z: 100_000 },
        Vec3 { x: 102_000, y: 98_000, z: 102_000 },
        Vec3 { x: 108_000, y: 92_000, z: 108_000 },
        Vec3 { x: 110_000, y: 90_000, z: 110_000 },
        Vec3 { x: 108_000, y: 92_000, z: 108_000 },
        Vec3 { x: 102_000, y: 98_000, z: 102_000 },
        Vec3 { x: 100_000, y: 100_000, z: 100_000 },
    ]
}

/// A point of the walk cycle brought down to the size of an enemy: five
/// thousandths of each coordinate.
pub open spec fn cycle_scale(v: Vec3) -> Vec3 {
    Vec3 { x: (v.x / 200) as i64, y: (v.y / 200) as i64, z: (v.z / 200) as i64 }
}

impl Health {
    /// Full health of `val` hit points.
    pub fn new(val: i32) -> (health: Health)
        requires
            val > 0,
        ensures
            health == (Health { max: val, current: val }),
    {
        Health { max: val, current: val }
    }
}

impl EnemyBundle {
    /// What an enemy of the given kind is spawned with on the given path.
    pub fn of(kind: EnemyType, path_selection: PathSelection) -> (bundle: EnemyBundle)
        ensures
            bundle == preset(kind, path_selection),
    {
        match kind {
            EnemyType::Slow => slow(path_selection),
            EnemyType::Normal => normal(path_selection),
            EnemyType::Fast => fast(path_selection),
            EnemyType::Air => air(path_selection),
            EnemyType::Split => split(path_selection),
        }
    }
}

impl Enemy {
    /// The enemy after `dt` microseconds on the given path: its progress has
    /// grown by speed times time, it stands halfway between the points of the
    /// path a little ahead of that progress and a little behind it, and it
    /// faces the point ahead.
    pub open spec fn moved(self, path: Seq<Vec3>, dt: int) -> Enemy {
        let progress = advanced(self.progress.0 as int, self.speed.0 as int, dt);
        let ahead = interpolate_points(path, saturate(progress + AVG_RANGE));
        let behind = interpolate_points(path, saturate(progress - AVG_RANGE));
        Enemy {
            progress: Progress(progress as i64),
            translation: ahead.midpoint_spec(behind),
            looking_at: ahead,
            ..self
        }
    }

    /// A new enemy under the name `id`, made of `bundle`. It waits above the
    /// origin until it is first moved.
    pub open spec fn fresh(id: u64, bundle: EnemyBundle) -> Enemy {
        Enemy {
            id,
            kind: bundle.kind,
            health: bundle.health,
            speed: bundle.speed,
            progress: bundle.progress,
            path_selection: bundle.path_selection,
            translation: Vec3 { x: 0, y: 1500, z: 0 },
            looking_at: Vec3 { x: 0, y: 1500, z: 0 },
        }
    }

    /// Makes a new enemy under the name `id` of `bundle`.
    pub fn spawn(id: u64, bundle: EnemyBundle) -> (enemy: Enemy)
        ensures
            enemy == Enemy::fresh(id, bundle),
    {
        Enemy {
            id,
            kind: bundle.kind,
            health: bundle.health,
            speed: bundle.speed,
            progress: bundle.progress,
            path_selection: bundle.path_selection,
            translation: Vec3 { x: 0, y: 1500, z: 0 },
            looking_at: Vec3 { x: 0, y: 1500, z: 0 },
        }
    }

    /// Moves the enemy along `path` for `dt` microseconds.
    pub fn advance(&mut self, path: &Path, dt: u64)
        ensures
            *final(self) == old(self).moved(path@, dt as int),
            old(self).speed.0 >= 0 ==> final(self).progress.0 >= old(self).progress.0,
    {
        let progress: i64 = advance_progress(self.progress.0, self.speed.0, dt);
        let ahead: Vec3 = path.interpolate(saturating_sum(progress, AVG_RANGE));
        let behind: Vec3 = path.interpolate(saturating_sum(progress, -AVG_RANGE));
        self.progress = Progress(progress);
        self.translation = ahead.midpoint(behind);
        self.looking_at = ahead;
    }
}

/// The enemies after `dt` microseconds, each moved along its own path.
pub open spec fn moved_all(enemies: Seq<Enemy>, paths: Seq<Path>, dt: int) -> Seq<Enemy> {
    Seq::new(
        enemies.len(),
        |i: int| enemies[i].moved(paths[enemies[i].path_selection.0 as int]@, dt),
    )
}

/// An enemy whose speed is not negative never loses progress.
pub proof fn lemma_progress_monotone(progress: i64, speed: i64, dt: u64)
    requires
        speed >= 0,
    ensures
        advanced(progress as int, speed as int, dt as int) >= progress,
{
    assert(speed * dt >= 0) by (nonlinear_arith)
        requires
            speed >= 0,
            dt >= 0,
    ;
}

/// The progress after `dt` microseconds at the given speed.
pub fn advance_progress(progress: i64, speed: i64, dt: u64) -> (next: i64)
    ensures
        next == advanced(progress as int, speed as int, dt as int),
        speed >= 0 ==> next >= progress,
{
    proof {
        assert(-0x8000_0000_0000_0000 * 0xffff_ffff_ffff_ffff <= speed * dt
            <= 0x7fff_ffff_ffff_ffff * 0xffff_ffff_ffff_ffff) by (nonlinear_arith)
            requires
                -0x8000_0000_0000_0000 <= speed <= 0x7fff_ffff_ffff_ffff,
                0 <= dt <= 0xffff_ffff_ffff_ffff,
        ;
        lemma_progress_monotone(progress, if speed >= 0 {
            speed
        } else {
            0
        }, dt);
    }
    saturate_i128(progress as i128 + (speed as i128) * (dt as i128))
}

/// Whether every enemy walks one of the first `paths` paths.
pub open spec fn on_paths(enemies: Seq<Enemy>, paths: nat) -> bool {
    forall|i: int| 0 <= i < enemies.len() ==> (#[trigger] enemies[i]).path_selection.0 < paths
}

/// Tells whether every enemy walks a path that exists.
pub fn paths_exist(enemies: &Vec<Enemy>, paths: &Vec<Path>) -> (ok: bool)
    ensures
        ok == on_paths(enemies@, paths@.len()),
{
    let mut i: usize = 0;
    while i < enemies.len()
        invariant
            i <= enemies@.len(),
            forall|j: int| 0 <= j < i ==> (#[trigger] enemies@[j]).path_selection.0 < paths@.len(),
        decreases enemies@.len() - i,
    {
        if enemies[i].path_selection.0 >= paths.len() {
            return false;
        }
        i += 1;
    }
    true
}

/// Moves every enemy along its path for `dt` microseconds. Each enemy must
/// walk a path that exists.
pub fn move_enemies(enemies: &mut Vec<Enemy>, paths: &Vec<Path>, dt: u64)
    requires
        on_paths(old(enemies)@, paths@.len()),
    ensures
        final(enemies)@ == moved_all(old(enemies)@, paths@, dt as int),
        forall|i: int|
            0 <= i < old(enemies)@.len() && old(enemies)@[i].speed.0 >= 0 ==> (
            #[trigger] final(enemies)@[i]).progress.0 >= old(enemies)@[i].progress.0,
{
    let mut i: usize = 0;
    while i < enemies.len()
        invariant
            i <= enemies@.len(),
            enemies@.len() == old(enemies)@.len(),
            forall|j: int|
                0 <= j < i ==> #[trigger] enemies@[j] == old(enemies)@[j].moved(
                    paths@[old(enemies)@[j].path_selection.0 as int]@,
                    dt as int,
                ),
            forall|j: int|
                0 <= j < i && old(enemies)@[j].speed.0 >= 0 ==> (#[trigger] enemies@[j]).progress.0
                    >= old(enemies)@[j].progress.0,
            forall|j: int| i <= j < enemies@.len() ==> #[trigger] enemies@[j] == old(enemies)@[j],
            forall|j: int|
                0 <= j < old(enemies)@.len() ==> (#[trigger] old(enemies)@[j]).path_selection.0
                    < paths@.len(),
        decreases enemies@.len() - i,
    {
        let mut enemy: Enemy = enemies[i];
        assert(enemy == old(enemies)@[i as int]);
        enemy.advance(&paths[enemy.path_selection.0], dt);
        enemies.set(i, enemy);
        i += 1;
    }
    assert(enemies@ =~= moved_all(old(enemies)@, paths@, dt as int));
}

/// The size of every enemy at `elapsed` microseconds since startup: the walk
/// cycle is run through once a second.
pub fn animate_enemies(elapsed: u64) -> (scale: Vec3)
    ensures
        scale == cycle_scale(
            interpolate_points(walk_cycle(), (elapsed % WALK_CYCLE_MICROS) * 1000),
        ),
{
    let mut points: Vec<Vec3> = Vec::new();
    points.push(Vec3 { x: 100_000, y: 100_000, z: 100_000 });
    points.push(Vec3 { x: 102_000, y: 98_000, z: 102_000 });
    points.push(Vec3 { x: 108_000, y: 92_000, z: 108_000 });
    points.push(Vec3 { x: 110_000, y: 90_000, z: 110_000 });
    points.push(Vec3 { x: 108_000, y: 92_000, z: 108_000 });
    points.push(Vec3 { x: 102_000, y: 98_000, z: 102_000 });
    points.push(Vec3 { x: 100_000, y: 100_000, z: 100_000 });
    assert(points@ =~= walk_cycle());
    let cycle: Path = Path(points);
    let t: i64 = ((elapsed % WALK_CYCLE_MICROS) * 1000) as i64;
    let at: Vec3 = cycle.interpolate(t);
    Vec3 { x: shrink(at.x), y: shrink(at.y), z: shrink(at.z) }
}

/// Five thousandths of a coordinate, rounded down.
fn shrink(coord: i64) -> (r: i64)
    ensures
        r == coord / 200,
{
    if coord >= 0 {
        coord / 200
    } else {
        let up: i128 = (-(coord as i128) + 199) / 200;
        (-up) as i64
    }
}

/// What a slow enemy is spawned with.
pub fn slow(path_selection: PathSelection) -> (bundle: EnemyBundle)
    ensures
        bundle == preset(EnemyType::Slow, path_selection),
{
    EnemyBundle {
        kind: EnemyType::Slow,
        speed: Speed(10),
        health: Health::new(10),
        progress: Progress(0),
        path_selection,
    }
}

/// What a normal enemy is spawned with.
pub fn normal(path_selection: PathSelection) -> (bundle: EnemyBundle)
    ensures
        bundle == preset(EnemyType::Normal, path_selection),
{
    EnemyBundle {
        kind: EnemyType::Normal,
        speed: Speed(20),
        health: Health::new(10),
        progress: Progress(0),
        path_selection,
    }
}

/// What a fast enemy is spawned with.
pub fn fast(path_selection: PathSelection) -> (bundle: EnemyBundle)
    ensures
        bundle == preset(EnemyType::Fast, path_selection),
{
    EnemyBundle {
        kind: EnemyType::Fast,
        speed: Speed(40),
        health: Health::new(100),
        progress: Progress(0),
        path_selection,
    }
}

/// What a flying enemy is spawned with.
pub fn air(path_selection: PathSelection) -> (bundle: EnemyBundle)
    ensures
        bundle == preset(EnemyType::Air, path_selection),
{
    EnemyBundle {
        kind: EnemyType::Air,
        speed: Speed(40),
        health: Health::new(1000),
        progress: Progress(0),
        path_selection,
    }
}

/// What a splitting enemy is spawned with.
pub fn split(path_selection: PathSelection) -> (bundle: EnemyBundle)
    ensures
        bundle == preset(EnemyType::Split, path_selection),
{
    EnemyBundle {
        kind: EnemyType::Split,
        speed: Speed(40),
        health: Health::new(1000),
        progress: Progress(0),
        path_selection,
    }
}

} // verus!
