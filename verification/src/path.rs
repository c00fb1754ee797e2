//! Paths that enemies walk: a dense line of points built from sparse
//! keyframes, and the position on it at a given progress.
use vstd::prelude::*;
use crate::fixed::{clamp, lemma_lerp_bounds, PROGRESS_ONE};
use crate::utils::{to_map_space, to_map_space_spec, Terrain, COLS, ROWS};
use crate::vector::Vec3;

verus! {

/// A keyframe: a point of the world in whole world units.
pub type Keyframe = (i32, i32, i32);

/// The points of a path, in the order in which they are walked.
#[derive(Debug)]
pub struct Path(pub Vec<Vec3>);

/// Whether at most one coordinate differs between two keyframes.
pub open spec fn aligned(a: Keyframe, b: Keyframe) -> bool {
    ||| (a.1 == b.1 && a.2 == b.2)
    ||| (a.0 == b.0 && a.2 == b.2)
    ||| (a.0 == b.0 && a.1 == b.1)
}

/// Whether each keyframe is aligned with the next one.
pub open spec fn keyframes_aligned(keyframes: Seq<Keyframe>) -> bool {
    forall|i: int| 0 <= i < keyframes.len() - 1 ==> aligned(#[trigger] keyframes[i], keyframes[i + 1])
}

/// Whether each of the first `n` keyframes is aligned with the one before it.
pub open spec fn aligned_through(keyframes: Seq<Keyframe>, n: nat) -> bool
    decreases n,
{
    n <= 1 || (aligned(keyframes[n - 2], keyframes[n - 1]) && aligned_through(
        keyframes,
        (n - 1) as nat,
    ))
}

/// Keyframes that are aligned one after the other are aligned throughout.
pub proof fn lemma_aligned_through(keyframes: Seq<Keyframe>, n: nat)
    requires
        aligned_through(keyframes, n),
    ensures
        forall|i: int| 0 <= i < n - 1 ==> aligned(#[trigger] keyframes[i], keyframes[i + 1]),
        n == keyframes.len() ==> keyframes_aligned(keyframes),
    decreases n,
{
    if n > 1 {
        lemma_aligned_through(keyframes, (n - 1) as nat);
    }
}

/// The distance between two coordinates.
pub open spec fn span(from: int, to: int) -> int {
    if from <= to {
        to - from
    } else {
        from - to
    }
}

/// Number of unit steps from one keyframe to the next.
pub open spec fn steps(a: Keyframe, b: Keyframe) -> int {
    span(a.0 as int, b.0 as int) + span(a.1 as int, b.1 as int) + span(a.2 as int, b.2 as int)
}

/// The coordinate reached after `k` unit steps from `from` in the direction
/// of `to`.
pub open spec fn toward(from: int, to: int, k: int) -> int {
    if from < to {
        from + k
    } else if from > to {
        from - k
    } else {
        from
    }
}

/// The point reached after `k` unit steps from `a` in the direction of `b`,
/// in thousandths of a world unit.
pub open spec fn step_point(a: Keyframe, b: Keyframe, k: int) -> Vec3 {
    Vec3 {
        x: (toward(a.0 as int, b.0 as int, k) * 1000) as i64,
        y: (toward(a.1 as int, b.1 as int, k) * 1000) as i64,
        z: (toward(a.2 as int, b.2 as int, k) * 1000) as i64,
    }
}

/// The points of the segment from `a` to `b`: every unit step after `a`, up
/// to `b` itself.
pub open spec fn segment(a: Keyframe, b: Keyframe) -> Seq<Vec3> {
    Seq::new(steps(a, b) as nat, |k: int| step_point(a, b, k + 1))
}

/// The points of all segments between consecutive keyframes, in order.
pub open spec fn dense(keyframes: Seq<Keyframe>) -> Seq<Vec3>
    decreases keyframes.len(),
{
    if keyframes.len() < 2 {
        Seq::empty()
    } else {
        dense(keyframes.drop_last()) + segment(
            keyframes[keyframes.len() - 2],
            keyframes[keyframes.len() - 1],
        )
    }
}

/// The point of a keyframe, in thousandths of a world unit.
pub open spec fn keyframe_point(k: Keyframe) -> Vec3 {
    Vec3 { x: (k.0 * 1000) as i64, y: (k.1 * 1000) as i64, z: (k.2 * 1000) as i64 }
}

/// Whether two points are one world unit apart along one axis.
pub open spec fn one_step(p: Vec3, q: Vec3) -> bool {
    span(p.x as int, q.x as int) + span(p.y as int, q.y as int) + span(p.z as int, q.z as int)
        == 1000
}

/// Whether each of `points` is one step from the one before it.
pub open spec fn unit_spaced(points: Seq<Vec3>) -> bool {
    forall|i: int| 0 <= i < points.len() - 1 ==> one_step(#[trigger] points[i], points[i + 1])
}

/// A segment between aligned keyframes starts one step after the first
/// keyframe, goes on step by step, and ends on the second keyframe.
pub proof fn lemma_segment_unit_spaced(a: Keyframe, b: Keyframe)
    requires
        aligned(a, b),
    ensures
        unit_spaced(segment(a, b)),
        segment(a, b).len() > 0 ==> one_step(keyframe_point(a), segment(a, b).first()),
        segment(a, b).len() > 0 ==> segment(a, b).last() == keyframe_point(b),
        segment(a, b).len() == 0 ==> keyframe_point(a) == keyframe_point(b),
{
    let points = segment(a, b);
    assert forall|i: int| 0 <= i < points.len() - 1 implies one_step(
        #[trigger] points[i],
        points[i + 1],
    ) by {
        assert(points[i] == step_point(a, b, i + 1));
        assert(points[i + 1] == step_point(a, b, i + 2));
    }
    if points.len() > 0 {
        assert(points.first() == step_point(a, b, 1));
        assert(points.last() == step_point(a, b, steps(a, b)));
    }
}

/// A path through aligned keyframes goes step by step, each one world unit
/// long, and ends on the last keyframe.
pub proof fn lemma_dense_unit_spaced(keyframes: Seq<Keyframe>)
    requires
        keyframes_aligned(keyframes),
    ensures
        unit_spaced(dense(keyframes)),
        dense(keyframes).len() > 0 ==> dense(keyframes).last() == keyframe_point(keyframes.last()),
        dense(keyframes).len() == 0 && keyframes.len() > 0 ==> keyframe_point(keyframes.first())
            == keyframe_point(keyframes.last()),
    decreases keyframes.len(),
{
    if keyframes.len() >= 2 {
        let earlier = keyframes.drop_last();
        let a = keyframes[keyframes.len() - 2];
        let b = keyframes[keyframes.len() - 1];
        assert forall|i: int| 0 <= i < earlier.len() - 1 implies aligned(
            #[trigger] earlier[i],
            earlier[i + 1],
        ) by {
            assert(aligned(keyframes[i], keyframes[i + 1]));
        }
        assert(aligned(keyframes[keyframes.len() - 2], keyframes[keyframes.len() - 2 + 1]));
        lemma_dense_unit_spaced(earlier);
        lemma_segment_unit_spaced(a, b);
        let head = dense(earlier);
        let tail = segment(a, b);
        let whole = dense(keyframes);
        assert(whole == head + tail);
        assert(earlier.last() == a);
        assert forall|i: int| 0 <= i < whole.len() - 1 implies one_step(
            #[trigger] whole[i],
            whole[i + 1],
        ) by {
            if i + 1 < head.len() {
                assert(one_step(head[i], head[i + 1]));
            } else if i < head.len() {
                assert(whole[i] == head.last());
                assert(whole[i + 1] == tail.first());
            } else {
                assert(one_step(tail[i - head.len()], tail[i - head.len() + 1]));
            }
        }
        if whole.len() > 0 {
            if tail.len() > 0 {
                assert(whole.last() == tail.last());
            } else {
                assert(whole =~= head);
            }
        }
    }
}

/// Whether one of `points` lies in the cell at `row` and `col`.
pub open spec fn passes(points: Seq<Vec3>, row: int, col: int) -> bool {
    exists|i: int| 0 <= i < points.len() && #[trigger] to_map_space_spec(points[i]) == (row, col)
}

/// A line with one more point passes through the cells it passed through
/// before and through the cell of the new point.
pub proof fn lemma_passes_push(points: Seq<Vec3>, p: Vec3, row: int, col: int)
    ensures
        passes(points.push(p), row, col) == (passes(points, row, col) || to_map_space_spec(p) == (
            row,
            col,
        )),
{
    let longer = points.push(p);
    if passes(points, row, col) {
        let i = choose|i: int|
            0 <= i < points.len() && #[trigger] to_map_space_spec(points[i]) == (row, col);
        assert(to_map_space_spec(longer[i]) == (row, col));
    }
    if to_map_space_spec(p) == (row, col) {
        assert(to_map_space_spec(longer[points.len() as int]) == (row, col));
    }
    if passes(longer, row, col) {
        let i = choose|i: int|
            0 <= i < longer.len() && #[trigger] to_map_space_spec(longer[i]) == (row, col);
        if i < points.len() {
            assert(to_map_space_spec(points[i]) == (row, col));
        }
    }
}

/// The position at progress `t`, in billionths of the way, on the line
/// through `points`. A progress below zero counts as zero, one above
/// `PROGRESS_ONE` as `PROGRESS_ONE`; between two points the position is
/// interpolated. No points give the origin.
pub open spec fn interpolate_points(points: Seq<Vec3>, t: int) -> Vec3 {
    let len = points.len() as int;
    if len == 0 {
        Vec3::zero()
    } else if len == 1 {
        points[0]
    } else {
        let scaled = (len - 1) * clamp(t, 0, PROGRESS_ONE as int);
        let lo = scaled / (PROGRESS_ONE as int);
        let frac = scaled % (PROGRESS_ONE as int);
        let hi = if frac == 0 {
            lo
        } else {
            lo + 1
        };
        points[lo].lerp_spec(points[hi], frac, PROGRESS_ONE as int)
    }
}

/// Before the start of a line the position is that of the start, after its
/// end that of the end, and these are the first and the last point exactly.
pub proof fn lemma_interpolate_clamps(points: Seq<Vec3>, t: int)
    ensures
        t <= 0 ==> interpolate_points(points, t) == interpolate_points(points, 0),
        t >= PROGRESS_ONE ==> interpolate_points(points, t) == interpolate_points(
            points,
            PROGRESS_ONE as int,
        ),
        points.len() > 0 ==> interpolate_points(points, 0) == points.first(),
        points.len() > 0 ==> interpolate_points(points, PROGRESS_ONE as int) == points.last(),
{
    let len = points.len() as int;
    if len > 1 {
        let one = PROGRESS_ONE as int;
        assert(((len - 1) * one) / one == len - 1 && ((len - 1) * one) % one == 0)
            by (nonlinear_arith)
            requires
                one == 1_000_000_000,
        ;
        assert((len - 1) * 0 == 0);
        let first = points[0];
        let last = points[len - 1];
        lemma_lerp_bounds(first.x as int, first.x as int, 0, one);
        lemma_lerp_bounds(first.y as int, first.y as int, 0, one);
        lemma_lerp_bounds(first.z as int, first.z as int, 0, one);
        lemma_lerp_bounds(last.x as int, last.x as int, 0, one);
        lemma_lerp_bounds(last.y as int, last.y as int, 0, one);
        lemma_lerp_bounds(last.z as int, last.z as int, 0, one);
    }
}

/// Two lines laid end to end pass through the cells of both.
pub proof fn lemma_passes_concat(head: Seq<Vec3>, tail: Seq<Vec3>, row: int, col: int)
    ensures
        passes(head + tail, row, col) == (passes(head, row, col) || passes(tail, row, col)),
{
    let whole = head + tail;
    if passes(head, row, col) {
        let i = choose|i: int|
            0 <= i < head.len() && #[trigger] to_map_space_spec(head[i]) == (row, col);
        assert(to_map_space_spec(whole[i]) == (row, col));
    }
    if passes(tail, row, col) {
        let i = choose|i: int|
            0 <= i < tail.len() && #[trigger] to_map_space_spec(tail[i]) == (row, col);
        assert(to_map_space_spec(whole[head.len() + i]) == (row, col));
    }
    if passes(whole, row, col) {
        let i = choose|i: int|
            0 <= i < whole.len() && #[trigger] to_map_space_spec(whole[i]) == (row, col);
        if i < head.len() {
            assert(to_map_space_spec(head[i]) == (row, col));
        } else {
            assert(to_map_space_spec(tail[i - head.len()]) == (row, col));
        }
    }
}

impl View for Path {
    type V = Seq<Vec3>;

    open spec fn view(&self) -> Seq<Vec3> {
        self.0@
    }
}

impl Path {
    /// Tells whether `from_keyframes` accepts the keyframes.
    pub fn axis_aligned<const N: usize>(points: &[Keyframe; N]) -> (ok: bool)
        ensures
            ok == keyframes_aligned(points@),
    {
        let mut i: usize = 1;
        while i < N
            invariant
                1 <= i,
                forall|j: int| 0 <= j < i - 1 && j < N - 1 ==> aligned(#[trigger] points@[j], points@[j + 1]),
            decreases N - i,
        {
            let a: Keyframe = points[i - 1];
            let b: Keyframe = points[i];
            let ok: bool = (a.1 == b.1 && a.2 == b.2) || (a.0 == b.0 && a.2 == b.2) || (a.0 == b.0
                && a.1 == b.1);
            if !ok {
                assert(!aligned(points@[i - 1], points@[i - 1 + 1]));
                return false;
            }
            i += 1;
        }
        true
    }

    /// Builds the path through the keyframes and marks on the terrain every
    /// cell that one of its points lies in. Between two consecutive
    /// keyframes the path holds every unit step after the first keyframe, up
    /// to the second one.
    pub fn from_keyframes<const N: usize>(points: [Keyframe; N], terrain: &mut Terrain) -> (path:
        Path)
        requires
            keyframes_aligned(points@),
        ensures
            path@ == dense(points@),
            final(terrain).heights == old(terrain).heights,
            forall|row: int, col: int|
                0 <= row < ROWS && 0 <= col < COLS ==> #[trigger] final(terrain).occupied_at(
                    row,
                    col,
                ) == (old(terrain).occupied_at(row, col) || passes(path@, row, col)),
    {
        let mut out: Vec<Vec3> = Vec::new();
        if N < 2 {
            return Path(out);
        }
        let mut i: usize = 1;
        assert(points@.take(1).len() == 1);
        while i < N
            invariant
                2 <= N,
                1 <= i <= N,
                keyframes_aligned(points@),
                out@ == dense(points@.take(i as int)),
                terrain.heights == old(terrain).heights,
                forall|row: int, col: int|
                    0 <= row < ROWS && 0 <= col < COLS ==> #[trigger] terrain.occupied_at(row, col)
                        == (old(terrain).occupied_at(row, col) || passes(out@, row, col)),
            decreases N - i,
        {
            let a: Keyframe = points[i - 1];
            let b: Keyframe = points[i];
            assert(aligned(points@[i - 1], points@[i - 1 + 1]));
            let ghost before = out@;
            let ghost marked = *terrain;
            lay_segment(&mut out, terrain, a, b);
            i += 1;
            proof {
                let longer = points@.take(i as int);
                assert(longer.drop_last() =~= points@.take(i - 1));
                assert(longer[longer.len() - 2] == a);
                assert(longer[longer.len() - 1] == b);
                assert(out@ == dense(longer));
                assert forall|row: int, col: int|
                    0 <= row < ROWS && 0 <= col < COLS implies #[trigger] terrain.occupied_at(
                    row,
                    col,
                ) == (old(terrain).occupied_at(row, col) || passes(out@, row, col)) by {
                    lemma_passes_concat(before, segment(a, b), row, col);
                    assert(marked.occupied_at(row, col) == (old(terrain).occupied_at(row, col)
                        || passes(before, row, col)));
                }
            }
        }
        assert(points@.take(N as int) =~= points@);
        Path(out)
    }

    /// The path through the given points.
    pub fn new(points: &[Vec3]) -> (path: Path)
        ensures
            path@ == points@,
    {
        let mut out: Vec<Vec3> = Vec::new();
        let mut i: usize = 0;
        while i < points.len()
            invariant
                i <= points.len(),
                out@ == points@.take(i as int),
            decreases points.len() - i,
        {
            out.push(points[i]);
            i += 1;
            assert(out@ =~= points@.take(i as int));
        }
        assert(points@.take(points.len() as int) =~= points@);
        Path(out)
    }

    /// The position on the path at progress `t`, in billionths of the path.
    /// A progress outside the path gives the end of the path that it lies
    /// beyond, and an empty path gives the origin.
    pub fn interpolate(&self, t: i64) -> (position: Vec3)
        ensures
            position == interpolate_points(self@, t as int),
            t <= 0 && self@.len() > 0 ==> position == self@.first(),
            t >= PROGRESS_ONE && self@.len() > 0 ==> position == self@.last(),
    {
        proof {
            lemma_interpolate_clamps(self@, t as int);
        }
        let len: usize = self.0.len();
        if len == 0 {
            return Vec3 { x: 0, y: 0, z: 0 };
        }
        if len == 1 {
            return self.0[0];
        }
        let bounded: u128 = if t < 0 {
            0
        } else if t > PROGRESS_ONE {
            PROGRESS_ONE as u128
        } else {
            t as u128
        };
        let last: u128 = (len - 1) as u128;
        assert(last * bounded <= 0xffff_ffff_ffff_ffff * 1_000_000_000) by (nonlinear_arith)
            requires
                0 <= bounded <= 1_000_000_000,
                0 <= last <= 0xffff_ffff_ffff_ffff,
        ;
        let scaled: u128 = last * bounded;
        let lo: u128 = scaled / 1_000_000_000;
        let frac: u128 = scaled % 1_000_000_000;
        assert(lo <= last && (frac != 0 ==> lo < last)) by (nonlinear_arith)
            requires
                scaled == last * bounded,
                0 <= bounded <= 1_000_000_000,
                0 <= last,
                lo == scaled / 1_000_000_000,
                frac == scaled % 1_000_000_000,
        ;
        let hi: u128 = if frac == 0 {
            lo
        } else {
            lo + 1
        };
        let from: Vec3 = self.0[lo as usize];
        let to: Vec3 = self.0[hi as usize];
        from.lerp(to, frac as u64, 1_000_000_000)
    }
}

/// Appends the points of the segment from `a` to `b` to `out`, and marks the
/// cell of each on the terrain.
fn lay_segment(out: &mut Vec<Vec3>, terrain: &mut Terrain, a: Keyframe, b: Keyframe)
    requires
        aligned(a, b),
    ensures
        final(out)@ == old(out)@ + segment(a, b),
        final(terrain).heights == old(terrain).heights,
        forall|row: int, col: int|
            0 <= row < ROWS && 0 <= col < COLS ==> #[trigger] final(terrain).occupied_at(row, col)
                == (old(terrain).occupied_at(row, col) || passes(segment(a, b), row, col)),
{
    let count: u64 = gap(a.0, b.0) + gap(a.1, b.1) + gap(a.2, b.2);
    let mut k: u64 = 0;
    assert(out@ =~= old(out)@ + segment(a, b).take(0));
    while k < count
        invariant
            k <= count,
            count == steps(a, b),
            aligned(a, b),
            out@ == old(out)@ + segment(a, b).take(k as int),
            terrain.heights == old(terrain).heights,
            forall|row: int, col: int|
                0 <= row < ROWS && 0 <= col < COLS ==> #[trigger] terrain.occupied_at(row, col)
                    == (old(terrain).occupied_at(row, col) || passes(
                    segment(a, b).take(k as int),
                    row,
                    col,
                )),
        decreases count - k,
    {
        k += 1;
        let p: Vec3 = Vec3 { x: walk(a.0, b.0, k), y: walk(a.1, b.1, k), z: walk(a.2, b.2, k) };
        assert(p == segment(a, b)[k - 1]);
        let ghost marked = *terrain;
        out.push(p);
        terrain.mark_occupied(to_map_space(p));
        proof {
            let laid = segment(a, b).take(k - 1);
            assert(laid.push(p) =~= segment(a, b).take(k as int));
            assert(out@ =~= old(out)@ + segment(a, b).take(k as int));
            assert forall|row: int, col: int|
                0 <= row < ROWS && 0 <= col < COLS implies #[trigger] terrain.occupied_at(row, col)
                == (old(terrain).occupied_at(row, col) || passes(
                segment(a, b).take(k as int),
                row,
                col,
            )) by {
                lemma_passes_push(laid, p, row, col);
                assert(marked.occupied_at(row, col) == (old(terrain).occupied_at(row, col)
                    || passes(laid, row, col)));
            }
        }
    }
    assert(segment(a, b).take(count as int) =~= segment(a, b));
}

/// The distance between two coordinates of keyframes.
fn gap(from: i32, to: i32) -> (d: u64)
    ensures
        d == span(from as int, to as int),
        d <= 0xffff_ffff,
{
    if from <= to {
        (to as i64 - from as i64) as u64
    } else {
        (from as i64 - to as i64) as u64
    }
}

/// The coordinate `k` unit steps from `from` towards `to`, in thousandths.
fn walk(from: i32, to: i32, k: u64) -> (coord: i64)
    requires
        from != to ==> k <= span(from as int, to as int),
    ensures
        coord == toward(from as int, to as int, k as int) * 1000,
{
    if from < to {
        (from as i64 + k as i64) * 1000
    } else if from > to {
        (from as i64 - k as i64) * 1000
    } else {
        from as i64 * 1000
    }
}

} // verus!
