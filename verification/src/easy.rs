//! The easy level: its three paths and its five waves.
use vstd::prelude::*;
use crate::enemies::EnemyType;
use crate::path::{aligned_through, dense, lemma_aligned_through, passes, Keyframe, Path};
use crate::utils::{Terrain, COLS, ROWS};

verus! {

/// The enemies of a wave, each with the index of its path. The last entry is
/// spawned first.
#[derive(Debug, Clone)]
pub struct Wave(pub Vec<(EnemyType, u8)>);

impl View for Wave {
    type V = Seq<(EnemyType, u8)>;

    open spec fn view(&self) -> Seq<(EnemyType, u8)> {
        self.0@
    }
}

/// The entries of a wave of `count` enemies: their kinds run through
/// `pattern` again and again, their paths through the three paths of the
/// level.
pub open spec fn wave_entries(pattern: Seq<EnemyType>, count: nat) -> Seq<(EnemyType, u8)> {
    Seq::new(count, |i: int| (pattern[i % (pattern.len() as int)], (i % 3) as u8))
}

impl Wave {
    /// A wave of `enemy_count` enemies whose kinds repeat `enemy_pattern`. A
    /// wave that holds enemies needs a pattern that holds a kind.
    pub fn new(enemy_pattern: &[EnemyType], enemy_count: usize) -> (wave: Wave)
        requires
            enemy_pattern@.len() > 0 || enemy_count == 0,
        ensures
            wave@ == wave_entries(enemy_pattern@, enemy_count as nat),
    {
        let mut entries: Vec<(EnemyType, u8)> = Vec::new();
        let mut i: usize = 0;
        while i < enemy_count
            invariant
                i <= enemy_count,
                enemy_pattern@.len() > 0 || enemy_count == 0,
                entries@ == wave_entries(enemy_pattern@, i as nat),
            decreases enemy_count - i,
        {
            let kind: EnemyType = enemy_pattern[i % enemy_pattern.len()];
            let path: u8 = (i % 3) as u8;
            entries.push((kind, path));
            i += 1;
            assert(entries@ =~= wave_entries(enemy_pattern@, i as nat));
        }
        Wave(entries)
    }
}

/// The keyframes of the path on the right.
pub open spec fn right_route() -> Seq<Keyframe> {
    seq![
        (-3i32, 0i32, -22i32),
        (-3i32, 0i32, -13i32),
        (1i32, 0i32, -13i32),
        (1i32, 0i32, -7i32),
        (5i32, 0i32, -7i32),
        (5i32, 0i32, -3i32),
        (7i32, 0i32, -3i32),
        (7i32, 0i32, 15i32),
        (3i32, 0i32, 15i32),
        (3i32, 0i32, 22i32),
    ]
}

/// The keyframes of the path in the middle.
pub open spec fn middle_route() -> Seq<Keyframe> {
    seq![
        (-3i32, 0i32, -22i32),
        (-3i32, 0i32, -13i32),
        (1i32, 0i32, -13i32),
        (1i32, 0i32, -7i32),
        (-1i32, 0i32, -7i32),
        (-1i32, 0i32, 1i32),
        (1i32, 0i32, 1i32),
        (1i32, 0i32, 9i32),
        (-1i32, 0i32, 9i32),
        (-1i32, 0i32, 15i32),
        (3i32, 0i32, 15i32),
        (3i32, 0i32, 22i32),
    ]
}

/// The keyframes of the path on the left.
pub open spec fn left_route() -> Seq<Keyframe> {
    seq![
        (-3i32, 0i32, -22i32),
        (-3i32, 0i32, -13i32),
        (-7i32, 0i32, -13i32),
        (-7i32, 0i32, 5i32),
        (-5i32, 0i32, 5i32),
        (-5i32, 0i32, 9i32),
        (-1i32, 0i32, 9i32),
        (-1i32, 0i32, 15i32),
        (3i32, 0i32, 15i32),
        (3i32, 0i32, 22i32),
    ]
}

/// Builds the three paths of the level and marks their cells on the terrain.
pub fn paths(terrain: &mut Terrain) -> (paths: Vec<Path>)
    ensures
        paths@.len() == 3,
        paths@[0]@ == dense(right_route()),
        paths@[1]@ == dense(middle_route()),
        paths@[2]@ == dense(left_route()),
        final(terrain).heights == old(terrain).heights,
        forall|row: int, col: int|
            0 <= row < ROWS && 0 <= col < COLS ==> #[trigger] final(terrain).occupied_at(row, col)
                == (old(terrain).occupied_at(row, col) || passes(paths@[0]@, row, col) || passes(
                paths@[1]@,
                row,
                col,
            ) || passes(paths@[2]@, row, col)),
{
    let right: [Keyframe; 10] = [
        (-3, 0, -22),
        (-3, 0, -13),
        (1, 0, -13),
        (1, 0, -7),
        (5, 0, -7),
        (5, 0, -3),
        (7, 0, -3),
        (7, 0, 15),
        (3, 0, 15),
        (3, 0, 22),
    ];
    let middle: [Keyframe; 12] = [
        (-3, 0, -22),
        (-3, 0, -13),
        (1, 0, -13),
        (1, 0, -7),
        (-1, 0, -7),
        (-1, 0, 1),
        (1, 0, 1),
        (1, 0, 9),
        (-1, 0, 9),
        (-1, 0, 15),
        (3, 0, 15),
        (3, 0, 22),
    ];
    let left: [Keyframe; 10] = [
        (-3, 0, -22),
        (-3, 0, -13),
        (-7, 0, -13),
        (-7, 0, 5),
        (-5, 0, 5),
        (-5, 0, 9),
        (-1, 0, 9),
        (-1, 0, 15),
        (3, 0, 15),
        (3, 0, 22),
    ];
    proof {
        assert(right@ =~= right_route());
        assert(middle@ =~= middle_route());
        assert(left@ =~= left_route());
        assert(aligned_through(right_route(), 10)) by {
            reveal_with_fuel(aligned_through, 11);
        }
        assert(aligned_through(middle_route(), 12)) by {
            reveal_with_fuel(aligned_through, 13);
        }
        assert(aligned_through(left_route(), 10)) by {
            reveal_with_fuel(aligned_through, 11);
        }
        lemma_aligned_through(right_route(), 10);
        lemma_aligned_through(middle_route(), 12);
        lemma_aligned_through(left_route(), 10);
    }
    let mut paths: Vec<Path> = Vec::new();
    paths.push(Path::from_keyframes(right, terrain));
    paths.push(Path::from_keyframes(middle, terrain));
    paths.push(Path::from_keyframes(left, terrain));
    paths
}

/// Builds the five waves of the level.
pub fn waves() -> (waves: Vec<Wave>)
    ensures
        waves@.len() == 5,
        waves@[0]@ == wave_entries(seq![EnemyType::Fast], 30),
        waves@[1]@ == wave_entries(seq![EnemyType::Normal], 30),
        waves@[2]@ == wave_entries(seq![EnemyType::Air], 30),
        waves@[3]@ == wave_entries(seq![EnemyType::Fast, EnemyType::Slow], 30),
        waves@[4]@ == wave_entries(seq![EnemyType::Split], 10),
{
    let fast: [EnemyType; 1] = [EnemyType::Fast];
    let normal: [EnemyType; 1] = [EnemyType::Normal];
    let air: [EnemyType; 1] = [EnemyType::Air];
    let mixed: [EnemyType; 2] = [EnemyType::Fast, EnemyType::Slow];
    let split: [EnemyType; 1] = [EnemyType::Split];
    proof {
        assert(fast@ =~= seq![EnemyType::Fast]);
        assert(normal@ =~= seq![EnemyType::Normal]);
        assert(air@ =~= seq![EnemyType::Air]);
        assert(mixed@ =~= seq![EnemyType::Fast, EnemyType::Slow]);
        assert(split@ =~= seq![EnemyType::Split]);
    }
    let mut waves: Vec<Wave> = Vec::new();
    waves.push(Wave::new(fast.as_slice(), 30));
    waves.push(Wave::new(normal.as_slice(), 30));
    waves.push(Wave::new(air.as_slice(), 30));
    waves.push(Wave::new(mixed.as_slice(), 30));
    waves.push(Wave::new(split.as_slice(), 10));
    waves
}

} // verus!
