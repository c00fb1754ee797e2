//! The grid of the level: cells of two world units, each with a terrain
//! height and a mark that a path runs through it.
use vstd::prelude::*;
use crate::fixed::{clamp, round_div, round_div_wide, saturate, saturate_i128};
use crate::vector::Vec3;

verus! {

/// Number of rows of the grid, counted along the x axis.
pub const ROWS: usize = 16;

/// Number of columns of the grid, counted along the z axis.
pub const COLS: usize = 20;

/// Width of a cell, in thousandths of a world unit.
pub const CELL: u32 = 2000;

/// Terrain heights as authored, and the cells that paths pass through.
#[derive(Clone, Copy, Debug, PartialEq, Eq)]
pub struct Terrain {
    pub heights: [[i8; COLS]; ROWS],
    pub occupied: [[bool; COLS]; ROWS],
}

/// The coordinate of the centre of the cell that `coord` lies in: the nearest
/// odd number of world units, halves away from zero.
pub open spec fn snap(coord: int) -> int {
    saturate(round_div(coord + 1000, 2000) * 2000 - 1000)
}

/// The index of the cell that `coord` lies in, on an axis whose last index is
/// `last`: coordinates outside the grid fall into the nearest cell of its rim.
pub open spec fn cell_index(coord: int, last: int) -> int {
    clamp(round_div(coord + last * 1000, 2000), 0, last)
}

/// The point `v` with its x and z coordinates moved to the centre of its cell.
pub open spec fn round_to_grid_spec(v: Vec3) -> Vec3 {
    Vec3 { x: snap(v.x as int) as i64, y: v.y, z: snap(v.z as int) as i64 }
}

/// Row and column of the cell that `v` lies in.
pub open spec fn to_map_space_spec(v: Vec3) -> (int, int) {
    (cell_index(v.x as int, ROWS - 1), cell_index(v.z as int, COLS - 1))
}

/// The height of the ground for an authored height value.
pub open spec fn drop_height(raw: i8) -> int {
    1000 - 100 * raw
}

impl Terrain {
    /// The authored value of a cell.
    pub open spec fn raw_at(self, row: int, col: int) -> i8 {
        self.heights[row][col]
    }

    /// Whether a path passes through a cell.
    pub open spec fn occupied_at(self, row: int, col: int) -> bool {
        self.occupied[row][col]
    }

    /// The point `v` set on the ground of its cell.
    pub open spec fn with_height_spec(self, v: Vec3) -> Vec3 {
        let (row, col) = to_map_space_spec(v);
        Vec3 { x: v.x, y: drop_height(self.raw_at(row, col)) as i64, z: v.z }
    }

    /// A terrain with the given heights and no path on it.
    pub fn new(heights: [[i8; COLS]; ROWS]) -> (terrain: Terrain)
        ensures
            terrain.heights == heights,
            forall|row: int, col: int|
                0 <= row < ROWS && 0 <= col < COLS ==> !#[trigger] terrain.occupied_at(row, col),
    {
        Terrain { heights, occupied: [[false; COLS]; ROWS] }
    }

    /// The height of the ground in a cell, in thousandths of a world unit.
    pub fn height_at(&self, cell: (usize, usize)) -> (height: i64)
        requires
            cell.0 < ROWS,
            cell.1 < COLS,
        ensures
            height == drop_height(self.raw_at(cell.0 as int, cell.1 as int)),
    {
        let raw: i8 = self.heights[cell.0][cell.1];
        1000 - 100 * (raw as i64)
    }

    /// Whether a path passes through a cell.
    pub fn is_occupied(&self, cell: (usize, usize)) -> (occupied: bool)
        requires
            cell.0 < ROWS,
            cell.1 < COLS,
        ensures
            occupied == self.occupied_at(cell.0 as int, cell.1 as int),
    {
        self.occupied[cell.0][cell.1]
    }

    /// Records that a path passes through a cell.
    pub fn mark_occupied(&mut self, cell: (usize, usize))
        requires
            cell.0 < ROWS,
            cell.1 < COLS,
        ensures
            final(self).heights == old(self).heights,
            forall|row: int, col: int|
                0 <= row < ROWS && 0 <= col < COLS ==> #[trigger] final(self).occupied_at(row, col)
                    == (old(self).occupied_at(row, col) || (row == cell.0 && col == cell.1)),
    {
        self.occupied[cell.0][cell.1] = true;
    }
}

/// Moves the x and z coordinates of `v` to the centre of the cell they lie in.
pub fn round_to_grid(v: Vec3) -> (snapped: Vec3)
    ensures
        snapped == round_to_grid_spec(v),
{
    Vec3 { x: snap_coord(v.x), y: v.y, z: snap_coord(v.z) }
}

/// Finds the cell of the grid that `v` lies in. A point outside the grid is
/// given the nearest cell of its rim.
pub fn to_map_space(v: Vec3) -> (cell: (usize, usize))
    ensures
        cell.0 < ROWS,
        cell.1 < COLS,
        (cell.0 as int, cell.1 as int) == to_map_space_spec(v),
{
    (axis_index(v.x, ROWS - 1), axis_index(v.z, COLS - 1))
}

/// Sets `v` on the ground of the cell it lies in.
pub fn with_height(v: Vec3, terrain: &Terrain) -> (grounded: Vec3)
    ensures
        grounded == terrain.with_height_spec(v),
{
    let cell = to_map_space(v);
    Vec3 { x: v.x, y: terrain.height_at(cell), z: v.z }
}

/// Moves `v` to the centre of its cell and sets it on the ground there.
pub fn to_grid_with_height(v: Vec3, terrain: &Terrain) -> (placed: Vec3)
    ensures
        placed == terrain.with_height_spec(round_to_grid_spec(v)),
{
    with_height(round_to_grid(v), terrain)
}

fn snap_coord(coord: i64) -> (r: i64)
    ensures
        r == snap(coord as int),
{
    let cells: i128 = round_div_wide(coord as i128 + 1000, CELL);
    saturate_i128(cells * 2000 - 1000)
}

fn axis_index(coord: i64, last: usize) -> (index: usize)
    requires
        last < 1000,
    ensures
        index <= last,
        index == cell_index(coord as int, last as int),
{
    let cells: i128 = round_div_wide(coord as i128 + (last as i128) * 1000, CELL);
    if cells < 0 {
        0
    } else if cells > last as i128 {
        last
    } else {
        cells as usize
    }
}

/// Every coordinate has a cell: the index lies in the grid, and beyond the
/// centres of the first and the last cell it is that of the first and the
/// last cell.
pub proof fn lemma_cell_index_clamps(coord: int, last: int)
    requires
        0 <= last,
    ensures
        0 <= cell_index(coord, last) <= last,
        coord <= -last * 1000 ==> cell_index(coord, last) == 0,
        coord >= last * 1000 ==> cell_index(coord, last) == last,
{
    let n = coord + last * 1000;
    if coord <= -last * 1000 {
        assert(round_div(n, 2000) <= 0);
    }
    if coord >= last * 1000 {
        assert(n >= 2 * last * 1000);
        assert(round_div(n, 2000) >= last) by (nonlinear_arith)
            requires
                n >= last * 2000,
                last >= 0,
                round_div(n, 2000) == (2 * n + 2000) / 4000,
        ;
    }
}

/// A marker that shows the height of a cell.
#[derive(Copy, Clone, PartialEq, Eq, Debug, Structural)]
pub struct VisualMarker {
    /// The centre of the cell, one world unit above zero.
    pub translation: Vec3,
    /// The size of the marker along each axis.
    pub scale: Vec3,
}

/// The coordinate of the centre of the cell at `index`, on an axis of
/// `count` cells.
pub open spec fn cell_centre(index: int, count: int) -> int {
    saturate(index * 2000 - (count - 1) * 1000)
}

/// The marker for the cell at `row` and `col` of a grid of `rows` by `cols`
/// cells, with the authored height `raw`: it grows with the height.
pub open spec fn marker_at(row: int, col: int, rows: int, cols: int, raw: i8) -> VisualMarker {
    let size = (raw * 100 + 50) as i64;
    VisualMarker {
        translation: Vec3 {
            x: cell_centre(row, rows) as i64,
            y: 1000,
            z: cell_centre(col, cols) as i64,
        },
        scale: Vec3 { x: size, y: size, z: size },
    }
}

/// The centre of each cell of the level's grid lies in that cell.
pub proof fn lemma_centre_in_cell(row: int, col: int)
    requires
        0 <= row < ROWS,
        0 <= col < COLS,
    ensures
        to_map_space_spec(
            Vec3 {
                x: cell_centre(row, ROWS as int) as i64,
                y: 1000,
                z: cell_centre(col, COLS as int) as i64,
            },
        ) == (row, col),
{
}

/// Lays out a marker for every cell of a height map, row by row.
pub fn visualise_height_map<const N: usize, const M: usize>(height_map: &[[i8; N]; M]) -> (markers:
    Vec<Vec<VisualMarker>>)
    ensures
        markers@.len() == M,
        forall|row: int| 0 <= row < M ==> (#[trigger] markers@[row])@.len() == N,
        forall|row: int, col: int|
            0 <= row < M && 0 <= col < N ==> #[trigger] markers@[row]@[col] == marker_at(
                row,
                col,
                M as int,
                N as int,
                height_map@[row]@[col],
            ),
{
    let mut markers: Vec<Vec<VisualMarker>> = Vec::new();
    let mut x: usize = 0;
    while x < M
        invariant
            x <= M,
            markers@.len() == x,
            forall|row: int| 0 <= row < x ==> (#[trigger] markers@[row])@.len() == N,
            forall|row: int, col: int|
                0 <= row < x && 0 <= col < N ==> #[trigger] markers@[row]@[col] == marker_at(
                    row,
                    col,
                    M as int,
                    N as int,
                    height_map@[row]@[col],
                ),
        decreases M - x,
    {
        let mut line: Vec<VisualMarker> = Vec::new();
        let mut y: usize = 0;
        while y < N
            invariant
                x < M,
                y <= N,
                line@.len() == y,
                forall|col: int|
                    0 <= col < y ==> #[trigger] line@[col] == marker_at(
                        x as int,
                        col,
                        M as int,
                        N as int,
                        height_map@[x as int]@[col],
                    ),
            decreases N - y,
        {
            let raw: i8 = height_map[x][y];
            let size: i64 = raw as i64 * 100 + 50;
            line.push(
                VisualMarker {
                    translation: Vec3 { x: centre(x, M), y: 1000, z: centre(y, N) },
                    scale: Vec3 { x: size, y: size, z: size },
                },
            );
            y += 1;
        }
        markers.push(line);
        x += 1;
    }
    markers
}

/// The coordinate of the centre of a cell.
fn centre(index: usize, count: usize) -> (coord: i64)
    requires
        count >= 1,
    ensures
        coord == cell_centre(index as int, count as int),
{
    saturate_i128(index as i128 * 2000 - (count as i128 - 1) * 1000)
}

} // verus!
