use tower_defense::easy::{paths, waves, Wave};
use tower_defense::enemies::EnemyType;
use tower_defense::utils::{to_map_space, Terrain, COLS, ROWS};
use tower_defense::vector::Vec3;

#[test]
fn wave_repeats_its_pattern_and_the_paths() {
    let wave = Wave::new(&[EnemyType::Fast, EnemyType::Slow], 5);
    assert_eq!(
        wave.0,
        vec![
            (EnemyType::Fast, 0),
            (EnemyType::Slow, 1),
            (EnemyType::Fast, 2),
            (EnemyType::Slow, 0),
            (EnemyType::Fast, 1)
        ]
    );
}

#[test]
fn wave_of_no_enemies() {
    assert_eq!(Wave::new(&[], 0).0, vec![]);
    assert_eq!(Wave::new(&[EnemyType::Air], 0).0, vec![]);
}

#[test]
fn waves_of_the_level() {
    let waves = waves();
    assert_eq!(waves.len(), 5);
    assert_eq!(waves[0].0.len(), 30);
    assert!(waves[0].0.iter().all(|entry| entry.0 == EnemyType::Fast));
    assert!(waves[1].0.iter().all(|entry| entry.0 == EnemyType::Normal));
    assert!(waves[2].0.iter().all(|entry| entry.0 == EnemyType::Air));
    assert_eq!(waves[3].0[0], (EnemyType::Fast, 0));
    assert_eq!(waves[3].0[1], (EnemyType::Slow, 1));
    assert_eq!(waves[3].0[29], (EnemyType::Slow, 2));
    assert_eq!(waves[4].0.len(), 10);
    assert_eq!(waves[4].0[9], (EnemyType::Split, 0));
    for wave in &waves {
        for (i, entry) in wave.0.iter().enumerate() {
            assert_eq!(entry.1 as usize, i % 3);
        }
    }
}

#[test]
fn paths_of_the_level() {
    let mut terrain = Terrain::new([[0; COLS]; ROWS]);
    let paths = paths(&mut terrain);
    assert_eq!(paths.len(), 3);
    for path in &paths {
        assert_eq!(path.0.len(), 58);
        assert_eq!(path.0[0], Vec3::new(-3000, 0, -21_000));
        assert_eq!(path.0[57], Vec3::new(3000, 0, 22_000));
        for pair in path.0.windows(2) {
            let step = (pair[1].x - pair[0].x).abs() + (pair[1].z - pair[0].z).abs();
            assert_eq!(step, 1000);
            assert_eq!(pair[1].y, 0);
        }
    }
    assert_eq!(paths[0].0[12], Vec3::new(1000, 0, -13_000));
    assert_eq!(paths[1].0[20], Vec3::new(-1000, 0, -7000));
    assert_eq!(paths[2].0[12], Vec3::new(-7000, 0, -13_000));
}

#[test]
fn paths_of_the_level_mark_their_cells() {
    let mut terrain = Terrain::new([[0; COLS]; ROWS]);
    let paths = paths(&mut terrain);
    let mut expected = [[false; COLS]; ROWS];
    for path in &paths {
        for point in &path.0 {
            let (row, col) = to_map_space(*point);
            expected[row][col] = true;
        }
    }
    assert_eq!(terrain.occupied, expected);
    assert!(terrain.is_occupied((6, 0)));
    assert!(!terrain.is_occupied((0, 0)));
    assert_eq!(terrain.heights, [[0; COLS]; ROWS]);
}
