use tower_defense::utils::{
    round_to_grid, to_grid_with_height, to_map_space, visualise_height_map, with_height, Terrain,
    VisualMarker, COLS, ROWS,
};
use tower_defense::vector::Vec3;

fn flat() -> Terrain {
    Terrain::new([[0; COLS]; ROWS])
}

#[test]
fn to_map_space_of_the_origin() {
    assert_eq!(to_map_space(Vec3::new(0, 0, 0)), (8, 10));
}

#[test]
fn to_map_space_of_cell_centres() {
    assert_eq!(to_map_space(Vec3::new(-15_000, 0, -19_000)), (0, 0));
    assert_eq!(to_map_space(Vec3::new(15_000, 0, 19_000)), (15, 19));
    assert_eq!(to_map_space(Vec3::new(-3000, 0, -21_000)), (6, 0));
    assert_eq!(to_map_space(Vec3::new(1000, 7000, 1000)), (8, 10));
    assert_eq!(to_map_space(Vec3::new(999, 0, 999)), (8, 10));
    assert_eq!(to_map_space(Vec3::new(-1000, 0, -1000)), (7, 9));
}

#[test]
fn to_map_space_clamps_far_points_to_the_rim() {
    assert_eq!(to_map_space(Vec3::new(i64::MAX, 0, i64::MAX)), (15, 19));
    assert_eq!(to_map_space(Vec3::new(i64::MIN, 0, i64::MIN)), (0, 0));
    assert_eq!(to_map_space(Vec3::new(1_000_000, 0, -1_000_000)), (15, 0));
    assert_eq!(to_map_space(Vec3::new(-16_001, 0, 20_000)), (0, 19));
}

#[test]
fn round_to_grid_snaps_to_odd_units() {
    assert_eq!(round_to_grid(Vec3::new(2300, 77, 4900)), Vec3::new(3000, 77, 5000));
    assert_eq!(round_to_grid(Vec3::new(1999, 0, -1999)), Vec3::new(1000, 0, -1000));
    assert_eq!(round_to_grid(Vec3::new(0, 0, -2000)), Vec3::new(1000, 0, -3000));
    assert_eq!(round_to_grid(Vec3::new(2000, 0, -1)), Vec3::new(3000, 0, -1000));
}

#[test]
fn round_to_grid_rounds_halves_away_from_zero() {
    // 2 and -2 lie half way between the centres at 1 and 3, and at -1 and -3
    assert_eq!(round_to_grid(Vec3::new(2000, 0, -2000)), Vec3::new(3000, 0, -3000));
    assert_eq!(round_to_grid(Vec3::new(1999, 0, -1999)), Vec3::new(1000, 0, -1000));
    assert_eq!(round_to_grid(Vec3::new(2001, 0, -2001)), Vec3::new(3000, 0, -3000));
    assert_eq!(round_to_grid(Vec3::new(-1, 0, 1)), Vec3::new(-1000, 0, 1000));
}

#[test]
fn to_map_space_rounds_halves_away_from_zero() {
    // x = -16 is half a cell before the centre of the first row, x = 0 half
    // way between the centres of rows 7 and 8
    assert_eq!(to_map_space(Vec3::new(-16_000, 0, 0)).0, 0);
    assert_eq!(to_map_space(Vec3::new(-1, 0, 0)).0, 7);
    assert_eq!(to_map_space(Vec3::new(0, 0, 0)).0, 8);
    assert_eq!(to_map_space(Vec3::new(-14_000, 0, 0)).0, 1);
    assert_eq!(to_map_space(Vec3::new(-14_001, 0, 0)).0, 0);
}

#[test]
fn round_to_grid_stays_in_range() {
    assert_eq!(
        round_to_grid(Vec3::new(i64::MAX, 0, i64::MIN)),
        Vec3::new(9_223_372_036_854_775_000, 0, -9_223_372_036_854_775_000)
    );
}

#[test]
fn height_is_one_unit_less_a_tenth_of_the_raw_value() {
    let mut heights = [[0i8; COLS]; ROWS];
    heights[8][10] = 3;
    heights[0][0] = -5;
    heights[15][19] = 127;
    let terrain = Terrain::new(heights);
    assert_eq!(terrain.height_at((8, 10)), 700);
    assert_eq!(terrain.height_at((0, 0)), 1500);
    assert_eq!(terrain.height_at((15, 19)), -11_700);
    assert_eq!(terrain.height_at((1, 1)), 1000);
    assert_eq!(with_height(Vec3::new(0, 123, 0), &terrain), Vec3::new(0, 700, 0));
    assert_eq!(
        with_height(Vec3::new(-99_000, 0, -99_000), &terrain),
        Vec3::new(-99_000, 1500, -99_000)
    );
}

#[test]
fn to_grid_with_height_snaps_first() {
    let mut heights = [[0i8; COLS]; ROWS];
    heights[9][10] = 10;
    let terrain = Terrain::new(heights);
    // x = 1.9 lies in row 8, and is snapped to x = 3, the centre of row 9
    assert_eq!(to_map_space(Vec3::new(1900, 0, 0)), (8, 10));
    assert_eq!(to_grid_with_height(Vec3::new(2100, 5, 900), &terrain), Vec3::new(3000, 0, 1000));
}

#[test]
fn new_terrain_has_no_path() {
    let terrain = flat();
    for row in 0..ROWS {
        for col in 0..COLS {
            assert!(!terrain.is_occupied((row, col)));
        }
    }
}

#[test]
fn mark_occupied_marks_one_cell() {
    let mut terrain = flat();
    terrain.mark_occupied((3, 4));
    for row in 0..ROWS {
        for col in 0..COLS {
            assert_eq!(terrain.is_occupied((row, col)), (row, col) == (3, 4));
        }
    }
    terrain.mark_occupied((3, 4));
    assert!(terrain.is_occupied((3, 4)));
}

#[test]
fn height_map_markers_stand_on_cell_centres() {
    let markers = visualise_height_map(&[[0i8, 10, -1], [5, 0, 0]]);
    assert_eq!(markers.len(), 2);
    assert_eq!(markers[0].len(), 3);
    assert_eq!(
        markers[0][0],
        VisualMarker { translation: Vec3::new(-1000, 1000, -2000), scale: Vec3::new(50, 50, 50) }
    );
    assert_eq!(
        markers[0][1],
        VisualMarker { translation: Vec3::new(-1000, 1000, 0), scale: Vec3::new(1050, 1050, 1050) }
    );
    assert_eq!(
        markers[0][2],
        VisualMarker { translation: Vec3::new(-1000, 1000, 2000), scale: Vec3::new(-50, -50, -50) }
    );
    assert_eq!(
        markers[1][0],
        VisualMarker { translation: Vec3::new(1000, 1000, -2000), scale: Vec3::new(550, 550, 550) }
    );
}

#[test]
fn markers_of_the_level_lie_in_their_cells() {
    let markers = visualise_height_map(&[[0i8; COLS]; ROWS]);
    for row in 0..ROWS {
        for col in 0..COLS {
            assert_eq!(to_map_space(markers[row][col].translation), (row, col));
        }
    }
}
