use tower_defense::enemies::{
    advance_progress, air, animate_enemies, fast, move_enemies, normal, paths_exist, slow, split,
    Enemy,
    EnemyBundle, EnemyType, Health, PathSelection, Progress, Speed,
};
use tower_defense::path::Path;
use tower_defense::vector::Vec3;

fn line() -> Path {
    Path::new(&[
        Vec3::new(0, 0, 0),
        Vec3::new(1000, 0, 0),
        Vec3::new(2000, 0, 0),
        Vec3::new(3000, 0, 0),
        Vec3::new(4000, 0, 0),
    ])
}

fn corner() -> Path {
    Path::new(&[Vec3::new(0, 0, 0), Vec3::new(1000, 0, 0), Vec3::new(1000, 0, 1000)])
}

fn enemy_at(progress: i64, speed: i64, path: usize) -> Enemy {
    let mut enemy = Enemy::spawn(1, fast(PathSelection(path)));
    enemy.progress = Progress(progress);
    enemy.speed = Speed(speed);
    enemy
}

#[test]
fn health_starts_full() {
    assert_eq!(Health::new(10), Health { max: 10, current: 10 });
    assert_eq!(Health::new(i32::MAX), Health { max: i32::MAX, current: i32::MAX });
}

#[test]
fn presets_of_each_kind() {
    let on = PathSelection(2);
    assert_eq!(
        slow(on),
        EnemyBundle {
            kind: EnemyType::Slow,
            health: Health { max: 10, current: 10 },
            speed: Speed(10),
            progress: Progress(0),
            path_selection: on
        }
    );
    assert_eq!(
        normal(on),
        EnemyBundle {
            kind: EnemyType::Normal,
            health: Health { max: 10, current: 10 },
            speed: Speed(20),
            progress: Progress(0),
            path_selection: on
        }
    );
    assert_eq!(
        fast(on),
        EnemyBundle {
            kind: EnemyType::Fast,
            health: Health { max: 100, current: 100 },
            speed: Speed(40),
            progress: Progress(0),
            path_selection: on
        }
    );
    assert_eq!(
        air(on),
        EnemyBundle {
            kind: EnemyType::Air,
            health: Health { max: 1000, current: 1000 },
            speed: Speed(40),
            progress: Progress(0),
            path_selection: on
        }
    );
    assert_eq!(
        split(on),
        EnemyBundle {
            kind: EnemyType::Split,
            health: Health { max: 1000, current: 1000 },
            speed: Speed(40),
            progress: Progress(0),
            path_selection: on
        }
    );
}

#[test]
fn bundle_of_a_kind_is_its_preset() {
    let on = PathSelection(1);
    assert_eq!(EnemyBundle::of(EnemyType::Slow, on), slow(on));
    assert_eq!(EnemyBundle::of(EnemyType::Normal, on), normal(on));
    assert_eq!(EnemyBundle::of(EnemyType::Fast, on), fast(on));
    assert_eq!(EnemyBundle::of(EnemyType::Air, on), air(on));
    assert_eq!(EnemyBundle::of(EnemyType::Split, on), split(on));
}

#[test]
fn spawned_enemy_waits_above_the_origin() {
    let enemy = Enemy::spawn(42, air(PathSelection(1)));
    assert_eq!(enemy.id, 42);
    assert_eq!(enemy.kind, EnemyType::Air);
    assert_eq!(enemy.health, Health { max: 1000, current: 1000 });
    assert_eq!(enemy.speed, Speed(40));
    assert_eq!(enemy.progress, Progress(0));
    assert_eq!(enemy.path_selection, PathSelection(1));
    assert_eq!(enemy.translation, Vec3::new(0, 1500, 0));
    assert_eq!(enemy.looking_at, Vec3::new(0, 1500, 0));
}

#[test]
fn progress_grows_by_speed_times_time() {
    // a hundredth of the path in a second
    assert_eq!(advance_progress(0, 10, 1_000_000), 10_000_000);
    assert_eq!(advance_progress(500, 40, 16_667), 667_180);
    assert_eq!(advance_progress(7, 0, u64::MAX), 7);
    assert_eq!(advance_progress(7, 3, 0), 7);
    assert_eq!(advance_progress(100, -10, 5), 50);
}

#[test]
fn progress_is_not_bound_to_the_path() {
    assert_eq!(advance_progress(1_000_000_000, 40, 1_000_000), 1_040_000_000);
    assert_eq!(advance_progress(0, -40, 1_000_000), -40_000_000);
}

#[test]
fn progress_saturates() {
    assert_eq!(advance_progress(i64::MAX, 1, 1), i64::MAX);
    assert_eq!(advance_progress(i64::MAX, i64::MAX, u64::MAX), i64::MAX);
    assert_eq!(advance_progress(i64::MIN, i64::MIN, u64::MAX), i64::MIN);
    assert_eq!(advance_progress(i64::MIN, -1, 1), i64::MIN);
}

#[test]
fn progress_never_shrinks_at_a_speed_that_is_not_negative() {
    let mut progress = -1_000_000;
    for speed in [0, 1, 10, 40, i64::MAX] {
        for dt in [0, 1, 16_667, 1_000_000, u64::MAX] {
            let next = advance_progress(progress, speed, dt);
            assert!(next >= progress);
            progress = next;
        }
    }
}

#[test]
fn enemy_stands_between_the_points_ahead_and_behind() {
    let mut enemies = vec![enemy_at(490_000_000, 10, 0)];
    move_enemies(&mut enemies, &vec![line()], 1_000_000);
    assert_eq!(enemies[0].progress, Progress(500_000_000));
    // ahead at 0.505 of four units, behind at 0.495
    assert_eq!(enemies[0].looking_at, Vec3::new(2020, 0, 0));
    assert_eq!(enemies[0].translation, Vec3::new(2000, 0, 0));
}

#[test]
fn enemy_cuts_the_corner() {
    let mut enemies = vec![enemy_at(500_000_000, 0, 0)];
    move_enemies(&mut enemies, &vec![corner()], 1_000_000);
    // ahead at 0.505 of two units: (1, 0, 0.01); behind at 0.495: (0.99, 0, 0)
    assert_eq!(enemies[0].looking_at, Vec3::new(1000, 0, 10));
    assert_eq!(enemies[0].translation, Vec3::new(995, 0, 5));
}

#[test]
fn enemy_beyond_the_end_stays_at_the_end() {
    let mut enemies = vec![enemy_at(990_000_000, 40, 0)];
    move_enemies(&mut enemies, &vec![line()], 1_000_000);
    assert_eq!(enemies[0].progress, Progress(1_030_000_000));
    assert_eq!(enemies[0].translation, Vec3::new(4000, 0, 0));
    assert_eq!(enemies[0].looking_at, Vec3::new(4000, 0, 0));
}

#[test]
fn each_enemy_moves_on_its_own_path() {
    let mut enemies = vec![enemy_at(0, 40, 1), enemy_at(0, 40, 0), enemy_at(0, 20, 1)];
    enemies[1].id = 2;
    enemies[2].id = 3;
    let before = enemies.clone();
    move_enemies(&mut enemies, &vec![line(), corner()], 2_500_000);
    assert_eq!(enemies.len(), 3);
    assert_eq!(enemies[0].progress, Progress(100_000_000));
    assert_eq!(enemies[1].progress, Progress(100_000_000));
    assert_eq!(enemies[2].progress, Progress(50_000_000));
    // on the corner path: ahead at 0.105 of two units, behind at 0.095
    assert_eq!(enemies[0].translation, Vec3::new(200, 0, 0));
    assert_eq!(enemies[0].looking_at, Vec3::new(210, 0, 0));
    // on the line: ahead at 0.105 of four units, behind at 0.095
    assert_eq!(enemies[1].translation, Vec3::new(400, 0, 0));
    assert_eq!(enemies[1].looking_at, Vec3::new(420, 0, 0));
    assert_eq!(enemies[2].translation, Vec3::new(100, 0, 0));
    for (after, before) in enemies.iter().zip(before.iter()) {
        assert_eq!(after.id, before.id);
        assert_eq!(after.kind, before.kind);
        assert_eq!(after.health, before.health);
        assert_eq!(after.speed, before.speed);
        assert_eq!(after.path_selection, before.path_selection);
    }
}

#[test]
fn moving_no_enemies_does_nothing() {
    let mut enemies: Vec<Enemy> = vec![];
    move_enemies(&mut enemies, &vec![], 1_000_000);
    assert!(enemies.is_empty());
}

#[test]
fn walk_cycle_swells_and_shrinks_once_a_second() {
    assert_eq!(animate_enemies(0), Vec3::new(500, 500, 500));
    assert_eq!(animate_enemies(500_000), Vec3::new(550, 450, 550));
    assert_eq!(animate_enemies(1_000_000), Vec3::new(500, 500, 500));
    assert_eq!(animate_enemies(7_500_000), Vec3::new(550, 450, 550));
    // a twelfth of the cycle: half way from the first point to the second
    assert_eq!(animate_enemies(83_333), Vec3::new(504, 495, 504));
    // a sixth of the cycle: the second point
    assert_eq!(animate_enemies(166_667), Vec3::new(510, 490, 510));
}

#[test]
fn paths_exist_tells_whether_enemies_can_be_moved() {
    let paths = vec![line(), corner()];
    assert!(paths_exist(&vec![], &vec![]));
    assert!(paths_exist(&vec![enemy_at(0, 0, 0), enemy_at(0, 0, 1)], &paths));
    assert!(!paths_exist(&vec![enemy_at(0, 0, 0), enemy_at(0, 0, 2)], &paths));
    assert!(!paths_exist(&vec![enemy_at(0, 0, 0)], &vec![]));
}
