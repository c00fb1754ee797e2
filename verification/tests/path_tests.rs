use tower_defense::path::Path;
use tower_defense::utils::{Terrain, COLS, ROWS};
use tower_defense::vector::Vec3;

fn flat() -> Terrain {
    Terrain::new([[0; COLS]; ROWS])
}

fn line() -> Path {
    Path::new(&[
        Vec3::new(0, 0, 0),
        Vec3::new(1000, 0, 0),
        Vec3::new(2000, 0, 0),
        Vec3::new(3000, 0, 0),
        Vec3::new(4000, 0, 0),
    ])
}

#[test]
fn from_keyframes_holds_every_step_after_the_first_keyframe() {
    let mut terrain = flat();
    let path = Path::from_keyframes([(0, 0, 0), (4, 0, 0)], &mut terrain);
    assert_eq!(
        path.0,
        vec![
            Vec3::new(1000, 0, 0),
            Vec3::new(2000, 0, 0),
            Vec3::new(3000, 0, 0),
            Vec3::new(4000, 0, 0)
        ]
    );
}

#[test]
fn half_way_along_a_built_path() {
    // the path built from (0,0,0) and (4,0,0) starts at x = 1, so that its
    // middle is at x = 2.5
    let mut terrain = flat();
    let path = Path::from_keyframes([(0, 0, 0), (4, 0, 0)], &mut terrain);
    assert_eq!(path.interpolate(500_000_000), Vec3::new(2500, 0, 0));
    assert_eq!(path.interpolate(0), Vec3::new(1000, 0, 0));
    assert_eq!(path.interpolate(1_000_000_000), Vec3::new(4000, 0, 0));
}

#[test]
fn half_way_along_five_points() {
    assert_eq!(line().interpolate(500_000_000), Vec3::new(2000, 0, 0));
}

#[test]
fn from_keyframes_walks_backwards_and_along_every_axis() {
    let mut terrain = flat();
    let path = Path::from_keyframes(
        [(2, 0, 0), (0, 0, 0), (0, 2, 0), (0, 0, 0), (0, 0, -2), (0, 0, 1)],
        &mut terrain,
    );
    assert_eq!(
        path.0,
        vec![
            Vec3::new(1000, 0, 0),
            Vec3::new(0, 0, 0),
            Vec3::new(0, 1000, 0),
            Vec3::new(0, 2000, 0),
            Vec3::new(0, 1000, 0),
            Vec3::new(0, 0, 0),
            Vec3::new(0, 0, -1000),
            Vec3::new(0, 0, -2000),
            Vec3::new(0, 0, -1000),
            Vec3::new(0, 0, 0),
            Vec3::new(0, 0, 1000)
        ]
    );
}

#[test]
fn from_keyframes_of_few_keyframes_is_empty() {
    let mut terrain = flat();
    assert_eq!(Path::from_keyframes([], &mut terrain).0, vec![]);
    assert_eq!(Path::from_keyframes([(5, 5, 5)], &mut terrain).0, vec![]);
    assert_eq!(Path::from_keyframes([(5, 5, 5), (5, 5, 5)], &mut terrain).0, vec![]);
}

#[test]
fn from_keyframes_marks_the_cells_of_its_points() {
    let mut terrain = flat();
    terrain.mark_occupied((0, 0));
    let path = Path::from_keyframes([(0, 0, 0), (4, 0, 0), (4, 0, 2)], &mut terrain);
    assert_eq!(path.0.len(), 6);
    // x = 1, 2, 3, 4 at z = 0 lie in rows 8, 9 (8.5), 9, 10 (9.5) of column 10;
    // z = 1, 2 at x = 4 lie in columns 10 and 11 (10.5) of row 10
    for row in 0..ROWS {
        for col in 0..COLS {
            let expected = (row, col) == (0, 0)
                || (col == 10 && (8..=10).contains(&row))
                || (row, col) == (10, 11);
            assert_eq!(terrain.is_occupied((row, col)), expected, "cell {row} {col}");
        }
    }
}

#[test]
fn from_keyframes_keeps_the_heights() {
    let mut heights = [[0i8; COLS]; ROWS];
    heights[8][10] = 7;
    let mut terrain = Terrain::new(heights);
    Path::from_keyframes([(0, 0, 0), (4, 0, 0)], &mut terrain);
    assert_eq!(terrain.heights, heights);
}

#[test]
fn axis_aligned_tells_what_from_keyframes_accepts() {
    assert!(Path::axis_aligned(&[]));
    assert!(Path::axis_aligned(&[(1, 2, 3)]));
    assert!(Path::axis_aligned(&[(0, 0, 0), (4, 0, 0), (4, 0, 9), (4, -3, 9), (4, -3, 9)]));
    assert!(!Path::axis_aligned(&[(0, 0, 0), (4, 0, 1)]));
    assert!(!Path::axis_aligned(&[(0, 0, 0), (4, 0, 0), (5, 1, 0)]));
    assert!(!Path::axis_aligned(&[(0, 0, 0), (1, 1, 1)]));
}

#[test]
fn interpolate_clamps_to_the_ends() {
    let path = line();
    assert_eq!(path.interpolate(-1), Vec3::new(0, 0, 0));
    assert_eq!(path.interpolate(i64::MIN), Vec3::new(0, 0, 0));
    assert_eq!(path.interpolate(0), Vec3::new(0, 0, 0));
    assert_eq!(path.interpolate(1_000_000_000), Vec3::new(4000, 0, 0));
    assert_eq!(path.interpolate(1_000_000_001), Vec3::new(4000, 0, 0));
    assert_eq!(path.interpolate(i64::MAX), Vec3::new(4000, 0, 0));
}

#[test]
fn interpolate_between_points() {
    let path = line();
    assert_eq!(path.interpolate(250_000_000), Vec3::new(1000, 0, 0));
    assert_eq!(path.interpolate(300_000_000), Vec3::new(1200, 0, 0));
    assert_eq!(path.interpolate(999_999_999), Vec3::new(3999, 0, 0));
    assert_eq!(path.interpolate(1), Vec3::new(0, 0, 0));
}

#[test]
fn interpolate_round_a_corner() {
    let path = Path::new(&[Vec3::new(0, 0, 0), Vec3::new(1000, 0, 0), Vec3::new(1000, 0, 1000)]);
    assert_eq!(path.interpolate(250_000_000), Vec3::new(500, 0, 0));
    assert_eq!(path.interpolate(500_000_000), Vec3::new(1000, 0, 0));
    assert_eq!(path.interpolate(750_000_000), Vec3::new(1000, 0, 500));
}

#[test]
fn interpolate_on_an_empty_path_is_the_origin() {
    let path = Path::new(&[]);
    assert_eq!(path.interpolate(0), Vec3::new(0, 0, 0));
    assert_eq!(path.interpolate(700_000_000), Vec3::new(0, 0, 0));
}

#[test]
fn single_point_path_is_constant() {
    let path = Path::new(&[Vec3::new(1000, 2000, 3000)]);
    assert_eq!(path.interpolate(-9), Vec3::new(1000, 2000, 3000));
    assert_eq!(path.interpolate(500_000_000), Vec3::new(1000, 2000, 3000));
    assert_eq!(path.interpolate(i64::MAX), Vec3::new(1000, 2000, 3000));
}

#[test]
fn new_keeps_the_points() {
    let points = [Vec3::new(1, 2, 3), Vec3::new(-4, -5, -6)];
    assert_eq!(Path::new(&points).0, points.to_vec());
}
