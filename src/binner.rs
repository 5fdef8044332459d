use vstd::prelude::*;
use crate::packing::{pack_line, packed_line, PackedLine};
use crate::segments::LineSegment;

verus! {

/// Side of the square grid of tiles.
pub const GRID: usize = 16;

/// Number of tiles, indexed in row-major order.
pub const TILES: usize = 256;

/// Capacity of the flattened line buffer, in records.
pub const MAX_LINES: usize = 65536;

/// Room kept free below `MAX_LINES`: binning stops once the number of
/// assignments exceeds `MAX_LINES - SAFETY_MARGIN`.
pub const SAFETY_MARGIN: usize = 256;

/// Sixteen times `SNORM_ONE`: the unit in which tile geometry is measured, so
/// that tile centers and sample coordinates are both whole numbers.
pub const SCALE: i128 = 524272;

/// Horizontal coordinate of the center of tile `t`, in units of `1 / SCALE`:
/// `(column - 7.5) / 8` in device coordinates.
pub open spec fn center_x(t: int) -> int {
    (2 * (t % 16) - 15) * 32767
}

/// Vertical coordinate of the center of tile `t`, in units of `1 / SCALE`.
pub open spec fn center_y(t: int) -> int {
    (2 * (t / 16) - 15) * 32767
}

/// Whether the point at displacement `u` from a segment's start lies closer
/// than one eighth (of device coordinates) to the segment of direction `v`:
/// `u` is projected on the line through the segment, the projection's
/// parameter is clamped to `[0, 1]`, and the rest of `u` is measured. With
/// `a = u.v` and `b = v.v`, the parameter is `a / b`; the comparison is made
/// with both sides multiplied by `b` so that it stays exact.
pub open spec fn near(ux: int, uy: int, vx: int, vy: int) -> bool {
    let a = ux * vx + uy * vy;
    let b = vx * vx + vy * vy;
    let uu = ux * ux + uy * uy;
    if b == 0 || a <= 0 {
        64 * uu < SCALE * SCALE
    } else if a >= b {
        64 * ((ux - vx) * (ux - vx) + (uy - vy) * (uy - vy)) < SCALE * SCALE
    } else {
        64 * (uu * b - a * a) < SCALE * SCALE * b
    }
}

/// Whether tile `t` takes segment `s` into its bucket.
pub open spec fn accepts(t: int, s: LineSegment) -> bool {
    near(
        center_x(t) - 16 * s.start.x,
        center_y(t) - 16 * s.start.y,
        16 * (s.end.x - s.start.x),
        16 * (s.end.y - s.start.y),
    )
}

/// Number of the tiles below `n` that take `s`.
pub open spec fn hits_below(s: LineSegment, n: int) -> nat
    decreases n,
{
    if n <= 0 {
        0
    } else {
        hits_below(s, n - 1) + if accepts(n - 1, s) {
            1nat
        } else {
            0nat
        }
    }
}

/// Number of tiles that take `s`.
pub open spec fn hit_count(s: LineSegment) -> nat {
    hits_below(s, TILES as int)
}

/// Number of tile assignments that the first `k` segments of `segs` make.
pub open spec fn assigned(segs: Seq<LineSegment>, k: int) -> int
    decreases k,
{
    if k <= 0 {
        0
    } else {
        assigned(segs, k - 1) + hit_count(segs[k - 1])
    }
}

/// How many segments binning takes from `segs`, starting at index `k` with
/// `total` assignments made so far: it stops once `total` exceeds
/// `MAX_LINES - SAFETY_MARGIN`, or before a segment whose assignments would
/// fill the buffer, so that every offset and count fits in 16 bits.
pub open spec fn taken_from(segs: Seq<LineSegment>, k: int, total: int) -> int
    decreases segs.len() - k,
{
    if k >= segs.len() || k < 0 {
        k
    } else if total > MAX_LINES - SAFETY_MARGIN {
        k
    } else if total + hit_count(segs[k]) >= MAX_LINES {
        k
    } else {
        taken_from(segs, k + 1, total + hit_count(segs[k]))
    }
}

/// How many segments of `segs` binning takes.
pub open spec fn taken(segs: Seq<LineSegment>) -> int {
    taken_from(segs, 0, 0)
}

/// The records that tile `t` holds after binning `segs`, in arrival order.
pub open spec fn bucket_of(segs: Seq<LineSegment>, t: int) -> Seq<PackedLine>
    decreases segs.len(),
{
    if segs.len() == 0 {
        Seq::empty()
    } else if accepts(t, segs.last()) {
        bucket_of(segs.drop_last(), t).push(packed_line(segs.last()))
    } else {
        bucket_of(segs.drop_last(), t)
    }
}

/// Sum of the lengths of the first `n` buckets.
pub open spec fn lens_below(b: Seq<Seq<PackedLine>>, n: int) -> int
    decreases n,
{
    if n <= 0 {
        0
    } else {
        lens_below(b, n - 1) + b[n - 1].len()
    }
}

/// The contents of a list of buckets.
pub open spec fn buckets_view(b: Seq<Vec<PackedLine>>) -> Seq<Seq<PackedLine>> {
    b.map_values(|v: Vec<PackedLine>| v@)
}

proof fn lemma_mul_le(a: int, b: int, x: int, y: int)
    requires
        -x <= a <= x,
        -y <= b <= y,
    ensures
        -(x * y) <= a * b <= x * y,
{
    assert(-(x * y) <= a * b <= x * y) by (nonlinear_arith)
        requires
            -x <= a <= x,
            -y <= b <= y,
    ;
}

proof fn lemma_mul_nonneg_le(a: int, b: int, x: int, y: int)
    requires
        0 <= a <= x,
        0 <= b <= y,
    ensures
        0 <= a * b <= x * y,
{
    assert(0 <= a * b <= x * y) by (nonlinear_arith)
        requires
            0 <= a <= x,
            0 <= b <= y,
    ;
}

/// Whether tile `t` takes segment `s`, computed exactly in 128-bit integers.
pub fn tile_accepts(t: usize, s: &LineSegment) -> (r: bool)
    requires
        t < TILES,
    ensures
        r == accepts(t as int, *s),
{
    let col = (t % GRID) as i128;
    let row = (t / GRID) as i128;
    let ux: i128 = (2 * col - 15) * 32767 - 16 * (s.start.x as i128);
    let uy: i128 = (2 * row - 15) * 32767 - 16 * (s.start.y as i128);
    let vx: i128 = 16 * ((s.end.x as i128) - (s.start.x as i128));
    let vy: i128 = 16 * ((s.end.y as i128) - (s.start.y as i128));
    let bound: i128 = 0x200000;
    proof {
        lemma_mul_le(ux as int, vx as int, bound as int, bound as int);
        lemma_mul_le(uy as int, vy as int, bound as int, bound as int);
        lemma_mul_le(vx as int, vx as int, bound as int, bound as int);
        lemma_mul_le(vy as int, vy as int, bound as int, bound as int);
        lemma_mul_le(ux as int, ux as int, bound as int, bound as int);
        lemma_mul_le(uy as int, uy as int, bound as int, bound as int);
        lemma_mul_le((ux - vx) as int, (ux - vx) as int, 2 * bound as int, 2 * bound as int);
        lemma_mul_le((uy - vy) as int, (uy - vy) as int, 2 * bound as int, 2 * bound as int);
    }
    let a: i128 = ux * vx + uy * vy;
    let b: i128 = vx * vx + vy * vy;
    let uu: i128 = ux * ux + uy * uy;
    if b == 0 || a <= 0 {
        64 * uu < SCALE * SCALE
    } else if a >= b {
        let dx: i128 = ux - vx;
        let dy: i128 = uy - vy;
        64 * (dx * dx + dy * dy) < SCALE * SCALE
    } else {
        let big: i128 = 0x80000000000;
        proof {
            assert(ux * ux >= 0 && uy * uy >= 0) by (nonlinear_arith);
            lemma_mul_nonneg_le(uu as int, b as int, big as int, big as int);
            lemma_mul_le(a as int, a as int, big as int, big as int);
            lemma_mul_nonneg_le((SCALE * SCALE) as int, b as int, 0x4000000000, big as int);
        }
        64 * (uu * b - a * a) < SCALE * SCALE * b
    }
}

/// The tiles that take `s`, one flag per tile, and their number.
pub fn tile_hits(s: &LineSegment) -> (r: (Vec<bool>, usize))
    ensures
        r.0@.len() == TILES,
        forall|t: int| 0 <= t < TILES ==> r.0@[t] == accepts(t, *s),
        r.1 == hit_count(*s),
        r.1 <= TILES,
{
    let mut mask: Vec<bool> = Vec::new();
    let mut n: usize = 0;
    let mut t: usize = 0;
    while t < TILES
        invariant
            t <= TILES,
            mask@.len() == t,
            forall|j: int| 0 <= j < t ==> mask@[j] == accepts(j, *s),
            n == hits_below(*s, t as int),
            n <= t,
        decreases TILES - t,
    {
        let a = tile_accepts(t, s);
        mask.push(a);
        if a {
            n = n + 1;
        }
        t = t + 1;
    }
    (mask, n)
}

proof fn lemma_lens_push(b: Seq<Seq<PackedLine>>, t: int, x: PackedLine, n: int)
    requires
        0 <= t < b.len(),
        n <= b.len(),
    ensures
        lens_below(b.update(t, b[t].push(x)), n) == lens_below(b, n) + if t < n {
            1int
        } else {
            0int
        },
    decreases n,
{
    if n > 0 {
        lemma_lens_push(b, t, x, n - 1);
    }
}

pub(crate) proof fn lemma_lens_empty(b: Seq<Seq<PackedLine>>, n: int)
    requires
        n <= b.len(),
        forall|t: int| 0 <= t < b.len() ==> b[t].len() == 0,
    ensures
        lens_below(b, n) == 0,
    decreases n,
{
    if n > 0 {
        lemma_lens_empty(b, n - 1);
    }
}

proof fn lemma_bucket_step(segs: Seq<LineSegment>, k: int, t: int)
    requires
        0 <= k < segs.len(),
    ensures
        bucket_of(segs.take(k + 1), t) == if accepts(t, segs[k]) {
            bucket_of(segs.take(k), t).push(packed_line(segs[k]))
        } else {
            bucket_of(segs.take(k), t)
        },
{
    assert(segs.take(k + 1).drop_last() =~= segs.take(k));
    assert(segs.take(k + 1).last() == segs[k]);
}

/// Assigns the segments of `segs`, in order, to the buckets of the tiles
/// that take them, and stops early under the budget (see `taken_from`).
/// Returns how many segments were taken and how many records were placed.
pub fn bin_segments(segs: &Vec<LineSegment>, buckets: &mut Vec<Vec<PackedLine>>) -> (r: (
    usize,
    usize,
))
    requires
        old(buckets)@.len() == TILES,
        forall|t: int| 0 <= t < TILES ==> old(buckets)@[t]@.len() == 0,
    ensures
        r.0 == taken(segs@),
        r.0 <= segs@.len(),
        final(buckets)@.len() == TILES,
        forall|t: int|
            0 <= t < TILES ==> final(buckets)@[t]@ == bucket_of(segs@.take(r.0 as int), t),
        r.1 == lens_below(buckets_view(final(buckets)@), TILES as int),
        r.1 == assigned(segs@, r.0 as int),
        r.1 < MAX_LINES,
{
    let mut total: usize = 0;
    let mut k: usize = 0;
    proof {
        lemma_lens_empty(buckets_view(buckets@), TILES as int);
        assert forall|t: int| 0 <= t < TILES implies buckets@[t]@ == bucket_of(
            segs@.take(0),
            t,
        ) by {
            assert(buckets@[t]@ =~= Seq::<PackedLine>::empty());
        }
    }
    while k < segs.len()
        invariant
            k <= segs@.len(),
            buckets@.len() == TILES,
            forall|t: int| 0 <= t < TILES ==> buckets@[t]@ == bucket_of(segs@.take(k as int), t),
            total == lens_below(buckets_view(buckets@), TILES as int),
            total == assigned(segs@, k as int),
            total < MAX_LINES,
            taken(segs@) == taken_from(segs@, k as int, total as int),
        ensures
            buckets@.len() == TILES,
            forall|t: int| 0 <= t < TILES ==> buckets@[t]@ == bucket_of(segs@.take(k as int), t),
            total == lens_below(buckets_view(buckets@), TILES as int),
            total == assigned(segs@, k as int),
            total < MAX_LINES,
            k <= segs@.len(),
            taken(segs@) == k,
        decreases segs@.len() - k,
    {
        if total > MAX_LINES - SAFETY_MARGIN {
            assert(taken_from(segs@, k as int, total as int) == k);
            break;
        }
        let (mask, h) = tile_hits(&segs[k]);
        if total + h >= MAX_LINES {
            assert(taken_from(segs@, k as int, total as int) == k);
            break;
        }
        let line = pack_line(&segs[k]);
        let mut t: usize = 0;
        while t < TILES
            invariant
                k < segs@.len(),
                t <= TILES,
                buckets@.len() == TILES,
                mask@.len() == TILES,
                line == packed_line(segs@[k as int]),
                forall|j: int| 0 <= j < TILES ==> mask@[j] == accepts(j, segs@[k as int]),
                forall|j: int|
                    0 <= j < t ==> buckets@[j]@ == bucket_of(segs@.take(k + 1), j),
                forall|j: int|
                    t <= j < TILES ==> buckets@[j]@ == bucket_of(segs@.take(k as int), j),
                lens_below(buckets_view(buckets@), TILES as int) == total + hits_below(
                    segs@[k as int],
                    t as int,
                ),
            decreases TILES - t,
        {
            proof {
                lemma_bucket_step(segs@, k as int, t as int);
            }
            if mask[t] {
                let ghost b0 = buckets_view(buckets@);
                buckets[t].push(line);
                proof {
                    lemma_lens_push(b0, t as int, line, TILES as int);
                    assert(buckets_view(buckets@) =~= b0.update(t as int, b0[t as int].push(line)));
                }
            }
            t = t + 1;
        }
        total = total + h;
        k = k + 1;
    }
    (k, total)
}

proof fn lemma_taken_from(segs: Seq<LineSegment>, k: int, total: int)
    requires
        0 <= k <= segs.len(),
        total == assigned(segs, k),
        total < MAX_LINES,
    ensures
        k <= taken_from(segs, k, total) <= segs.len(),
        assigned(segs, taken_from(segs, k, total)) < MAX_LINES,
        taken_from(segs, k, total) < segs.len() ==> assigned(segs, taken_from(segs, k, total))
            > MAX_LINES - SAFETY_MARGIN || assigned(segs, taken_from(segs, k, total)) + hit_count(
            segs[taken_from(segs, k, total)],
        ) >= MAX_LINES,
        forall|j: int|
            k <= j < taken_from(segs, k, total) ==> assigned(segs, j) <= MAX_LINES - SAFETY_MARGIN,
    decreases segs.len() - k,
{
    if k < segs.len() && total <= MAX_LINES - SAFETY_MARGIN && total + hit_count(segs[k])
        < MAX_LINES {
        lemma_taken_from(segs, k + 1, total + hit_count(segs[k]));
    }
}

/// The budget: binning takes a prefix of the segments, places fewer than
/// `MAX_LINES` records, takes each segment only while the assignments made
/// before it are at most `MAX_LINES - SAFETY_MARGIN`, and leaves the rest
/// only once that bound is passed or the next segment would fill the buffer.
pub proof fn lemma_budget(segs: Seq<LineSegment>)
    ensures
        0 <= taken(segs) <= segs.len(),
        assigned(segs, taken(segs)) < MAX_LINES,
        forall|j: int| 0 <= j < taken(segs) ==> assigned(segs, j) <= MAX_LINES - SAFETY_MARGIN,
        taken(segs) < segs.len() ==> assigned(segs, taken(segs)) > MAX_LINES - SAFETY_MARGIN
            || assigned(segs, taken(segs)) + hit_count(segs[taken(segs)]) >= MAX_LINES,
{
    lemma_taken_from(segs, 0, 0);
}

} // verus!
