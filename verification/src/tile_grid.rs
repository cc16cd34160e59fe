//! Tile coordinates, and counting and listing the tiles of per-zoom tile
//! ranges.
//!
//! The ranges themselves come from geographic bounds, which takes floating
//! point; here they are given as column and row ranges per zoom level.

use vstd::prelude::*;

verus! {

/// One tile: zoom level, column, row.
#[derive(Debug, Clone, Copy, PartialEq, Eq, Hash, Structural)]
pub struct TileCoord {
    pub z: u8,
    pub x: u32,
    pub y: u32,
}

/// The columns `x_min..=x_max` and rows `y_min..=y_max` of one zoom level.
#[derive(Debug, Clone, Copy, PartialEq, Eq, Structural)]
pub struct ZoomRange {
    pub zoom: u8,
    pub x_min: u32,
    pub x_max: u32,
    pub y_min: u32,
    pub y_max: u32,
}

/// The tile count of one zoom level.
#[derive(Debug, Clone, Copy, PartialEq, Eq)]
pub struct ZoomCount {
    pub zoom: u8,
    pub count: u64,
    pub x_range: (u32, u32),
    pub y_range: (u32, u32),
}

/// Tile counts per zoom level and in all.
#[derive(Debug, Clone)]
pub struct TileCount {
    pub per_zoom: Vec<ZoomCount>,
    pub total: u64,
}

// ─── counting ───────────────────────────────────────────────────────────────

/// `hi.saturating_sub(lo) + 1`: the number of values from `lo` to `hi`, and 1
/// for an inverted range.
pub open spec fn span(lo: u32, hi: u32) -> nat {
    if hi >= lo {
        (hi - lo + 1) as nat
    } else {
        1
    }
}

/// The count reported for a zoom level: columns times rows.
pub open spec fn zoom_count(r: ZoomRange) -> nat {
    span(r.x_min, r.x_max) * span(r.y_min, r.y_max)
}

/// The counts of the first `n` ranges added up.
pub open spec fn total_count(rs: Seq<ZoomRange>, n: int) -> nat
    decreases n,
{
    if n <= 0 || n > rs.len() {
        0
    } else {
        total_count(rs, n - 1) + zoom_count(rs[n - 1])
    }
}

/// Counts the tiles of each zoom level's range and in all.
pub fn count_from_ranges(ranges: &Vec<ZoomRange>) -> (r: TileCount)
    requires
        total_count(ranges@, ranges@.len() as int) <= u64::MAX,
    ensures
        r.per_zoom@.len() == ranges@.len(),
        forall|i: int| 0 <= i < ranges@.len() ==> {
            let c = #[trigger] r.per_zoom@[i];
            let g = ranges@[i];
            c.zoom == g.zoom && c.count == zoom_count(g) && c.x_range == (g.x_min, g.x_max) && c.y_range == (
            g.y_min, g.y_max)
        },
        r.total == total_count(ranges@, ranges@.len() as int),
{
    let mut per_zoom: Vec<ZoomCount> = Vec::new();
    let mut total: u64 = 0;
    let mut i: usize = 0;
    while i < ranges.len()
        invariant
            i <= ranges.len(),
            total_count(ranges@, ranges@.len() as int) <= u64::MAX,
            per_zoom@.len() == i,
            forall|k: int| 0 <= k < i ==> {
                let c = #[trigger] per_zoom@[k];
                let g = ranges@[k];
                c.zoom == g.zoom && c.count == zoom_count(g) && c.x_range == (g.x_min, g.x_max) && c.y_range
                    == (g.y_min, g.y_max)
            },
            total == total_count(ranges@, i as int),
        decreases ranges.len() - i,
    {
        let g = ranges[i];
        proof {
            lemma_total_count_mono(ranges@, i + 1, ranges@.len() as int);
        }
        let cols: u64 = (g.x_max.saturating_sub(g.x_min) as u64) + 1;
        let rows: u64 = (g.y_max.saturating_sub(g.y_min) as u64) + 1;
        assert(cols == span(g.x_min, g.x_max));
        assert(rows == span(g.y_min, g.y_max));
        assert(cols * rows <= u64::MAX);
        let count = cols * rows;
        per_zoom.push(ZoomCount { zoom: g.zoom, count, x_range: (g.x_min, g.x_max), y_range: (g.y_min, g.y_max) });
        total = total + count;
        i += 1;
    }
    TileCount { per_zoom, total }
}

pub proof fn lemma_total_count_mono(rs: Seq<ZoomRange>, a: int, b: int)
    requires
        0 <= a <= b <= rs.len(),
    ensures
        total_count(rs, a) <= total_count(rs, b),
        a >= 1 ==> total_count(rs, a - 1) + zoom_count(rs[a - 1]) <= total_count(rs, b),
    decreases b - a,
{
    if a < b {
        lemma_total_count_mono(rs, a, b - 1);
    }
}

// ─── listing ────────────────────────────────────────────────────────────────

/// The tiles of row `y` from column `x` to `x_hi`, west to east.
pub open spec fn row_from(z: u8, x: int, x_hi: int, y: int) -> Seq<TileCoord>
    decreases x_hi + 1 - x,
{
    if x > x_hi {
        Seq::empty()
    } else {
        seq![TileCoord { z: z, x: x as u32, y: y as u32 }] + row_from(z, x + 1, x_hi, y)
    }
}

/// The tiles of rows `y` to `y_hi` (north to south), each from `x_lo` to `x_hi`.
pub open spec fn rows_from(z: u8, x_lo: int, x_hi: int, y: int, y_hi: int) -> Seq<TileCoord>
    decreases y_hi + 1 - y,
{
    if y > y_hi {
        Seq::empty()
    } else {
        row_from(z, x_lo, x_hi, y) + rows_from(z, x_lo, x_hi, y + 1, y_hi)
    }
}

/// The tiles of one zoom level's range, row by row.
pub open spec fn zoom_tiles(r: ZoomRange) -> Seq<TileCoord> {
    rows_from(r.zoom, r.x_min as int, r.x_max as int, r.y_min as int, r.y_max as int)
}

/// The tiles of the ranges from index `i` on, zoom level by zoom level.
pub open spec fn ranges_from(rs: Seq<ZoomRange>, i: int) -> Seq<TileCoord>
    decreases rs.len() - i,
{
    if i < 0 || i >= rs.len() {
        Seq::empty()
    } else {
        zoom_tiles(rs[i]) + ranges_from(rs, i + 1)
    }
}

/// All tiles of the ranges, in listing order.
pub open spec fn all_tiles(rs: Seq<ZoomRange>) -> Seq<TileCoord> {
    ranges_from(rs, 0)
}

/// Lists the tiles of the ranges in order (by zoom level, then row, then
/// column), stopping once `limit` tiles are listed.
pub fn enumerate_from_ranges(ranges: &Vec<ZoomRange>, limit: u64) -> (r: Vec<TileCoord>)
    ensures
        all_tiles(ranges@).len() <= limit ==> r@ == all_tiles(ranges@),
        all_tiles(ranges@).len() > limit ==> r@ == all_tiles(ranges@).take(limit as int),
{
    let ghost all = all_tiles(ranges@);
    let mut out: Vec<TileCoord> = Vec::new();
    let mut i: usize = 0;
    assert(out@ + ranges_from(ranges@, 0) =~= all);
    while i < ranges.len()
        invariant
            i <= ranges.len(),
            all == all_tiles(ranges@),
            out@.len() <= limit,
            out@ + ranges_from(ranges@, i as int) == all,
        decreases ranges.len() - i,
    {
        let g = ranges[i];
        let ghost rest = ranges_from(ranges@, i + 1);
        assert(ranges_from(ranges@, i as int) == zoom_tiles(g) + rest);
        let mut y: u64 = g.y_min as u64;
        assert(out@ + rows_from(g.zoom, g.x_min as int, g.x_max as int, y as int, g.y_max as int) + rest =~= all);
        while y <= g.y_max as u64
            invariant
                g == ranges@[i as int],
                all == all_tiles(ranges@),
                rest == ranges_from(ranges@, i + 1),
                out@.len() <= limit,
                g.y_min <= y,
                out@ + rows_from(g.zoom, g.x_min as int, g.x_max as int, y as int, g.y_max as int) + rest == all,
            decreases g.y_max as u64 + 1 - y,
        {
            let ghost later_rows = rows_from(g.zoom, g.x_min as int, g.x_max as int, y + 1, g.y_max as int);
            assert(rows_from(g.zoom, g.x_min as int, g.x_max as int, y as int, g.y_max as int)
                == row_from(g.zoom, g.x_min as int, g.x_max as int, y as int) + later_rows);
            let mut x: u64 = g.x_min as u64;
            assert(out@ + row_from(g.zoom, x as int, g.x_max as int, y as int) + later_rows + rest =~= all);
            while x <= g.x_max as u64
                invariant
                    g == ranges@[i as int],
                    all == all_tiles(ranges@),
                    g.y_min <= y <= g.y_max,
                    g.x_min <= x,
                    out@.len() <= limit,
                    out@ + row_from(g.zoom, x as int, g.x_max as int, y as int) + later_rows + rest == all,
                decreases g.x_max as u64 + 1 - x,
            {
                if out.len() as u64 >= limit {
                    proof {
                        let tail = row_from(g.zoom, x as int, g.x_max as int, y as int) + later_rows + rest;
                        assert(all =~= out@ + tail);
                        assert(all.take(limit as int) =~= out@);
                    }
                    return out;
                }
                let t = TileCoord { z: g.zoom, x: x as u32, y: y as u32 };
                let ghost before = out@;
                out.push(t);
                proof {
                    let next = row_from(g.zoom, x + 1, g.x_max as int, y as int);
                    assert(row_from(g.zoom, x as int, g.x_max as int, y as int) == seq![t] + next);
                    assert(out@ + next + later_rows + rest =~= before + (seq![t] + next) + later_rows + rest);
                }
                x += 1;
            }
            assert(row_from(g.zoom, x as int, g.x_max as int, y as int) =~= Seq::<TileCoord>::empty());
            assert(out@ + later_rows + rest =~= all);
            y += 1;
        }
        assert(rows_from(g.zoom, g.x_min as int, g.x_max as int, y as int, g.y_max as int) =~= Seq::<TileCoord>::empty());
        assert(out@ + ranges_from(ranges@, i + 1) =~= all);
        i += 1;
    }
    assert(ranges_from(ranges@, ranges@.len() as int) =~= Seq::<TileCoord>::empty());
    assert(out@ =~= all);
    out
}

// ─── counting agrees with listing ───────────────────────────────────────────

pub proof fn lemma_row_len(z: u8, x: int, x_hi: int, y: int)
    ensures
        row_from(z, x, x_hi, y).len() == if x > x_hi {
            0
        } else {
            x_hi - x + 1
        },
    decreases x_hi + 1 - x,
{
    if x <= x_hi {
        lemma_row_len(z, x + 1, x_hi, y);
    }
}

pub proof fn lemma_rows_len(z: u8, x_lo: int, x_hi: int, y: int, y_hi: int)
    requires
        x_lo <= x_hi,
    ensures
        rows_from(z, x_lo, x_hi, y, y_hi).len() == if y > y_hi {
            0
        } else {
            (y_hi - y + 1) * (x_hi - x_lo + 1)
        },
    decreases y_hi + 1 - y,
{
    if y <= y_hi {
        lemma_row_len(z, x_lo, x_hi, y);
        lemma_rows_len(z, x_lo, x_hi, y + 1, y_hi);
        let c = x_hi - x_lo + 1;
        let k = y_hi - y;
        if k == 0 {
            assert(rows_from(z, x_lo, x_hi, y + 1, y_hi).len() == 0);
            assert((k + 1) * c == c) by (nonlinear_arith)
                requires
                    k == 0,
            ;
        } else {
            assert((k + 1) * c == c + k * c) by (nonlinear_arith);
        }
    }
}

/// For a zoom range that is not inverted, the count reported for it is the
/// number of tiles listed for it.
pub proof fn lemma_count_matches_listing(r: ZoomRange)
    requires
        r.x_min <= r.x_max,
        r.y_min <= r.y_max,
    ensures
        zoom_tiles(r).len() == zoom_count(r),
{
    lemma_rows_len(r.zoom, r.x_min as int, r.x_max as int, r.y_min as int, r.y_max as int);
    assert(((r.y_max - r.y_min + 1) * (r.x_max - r.x_min + 1)) == ((r.x_max - r.x_min + 1) * (r.y_max - r.y_min + 1)))
        by (nonlinear_arith);
}

/// Every listed tile lies in its zoom level's range.
pub proof fn lemma_listed_tiles_in_range(r: ZoomRange, k: int)
    requires
        0 <= k < zoom_tiles(r).len(),
    ensures
        zoom_tiles(r)[k].z == r.zoom,
        r.x_min <= zoom_tiles(r)[k].x <= r.x_max,
        r.y_min <= zoom_tiles(r)[k].y <= r.y_max,
{
    lemma_rows_in_range(r.zoom, r.x_min as int, r.x_max as int, r.y_min as int, r.y_max as int, k);
}

pub proof fn lemma_row_in_range(z: u8, x: int, x_hi: int, y: int, k: int)
    requires
        0 <= k < row_from(z, x, x_hi, y).len(),
    ensures
        row_from(z, x, x_hi, y)[k] == (TileCoord { z: z, x: (x + k) as u32, y: y as u32 }),
        x + k <= x_hi,
    decreases x_hi + 1 - x,
{
    if x <= x_hi {
        if k > 0 {
            lemma_row_in_range(z, x + 1, x_hi, y, k - 1);
        }
    }
}

pub proof fn lemma_rows_in_range(z: u8, x_lo: int, x_hi: int, y: int, y_hi: int, k: int)
    requires
        0 <= x_lo,
        0 <= y,
        x_hi <= u32::MAX,
        y_hi <= u32::MAX,
        0 <= k < rows_from(z, x_lo, x_hi, y, y_hi).len(),
    ensures
        rows_from(z, x_lo, x_hi, y, y_hi)[k].z == z,
        x_lo <= rows_from(z, x_lo, x_hi, y, y_hi)[k].x <= x_hi,
        y <= rows_from(z, x_lo, x_hi, y, y_hi)[k].y <= y_hi,
    decreases y_hi + 1 - y,
{
    if y <= y_hi {
        let row = row_from(z, x_lo, x_hi, y);
        if k < row.len() {
            lemma_row_in_range(z, x_lo, x_hi, y, k);
        } else {
            lemma_rows_in_range(z, x_lo, x_hi, y + 1, y_hi, k - row.len());
        }
    }
}

/// The zoom level shown on the download-progress map: the first level,
/// from the task's lowest, whose range has at most 2000 tiles; the last level
/// when none has; the lowest when there is no level.
pub open spec fn progress_zoom_from(min_zoom: u8, rs: Seq<ZoomRange>, i: int) -> u8
    decreases rs.len() - i,
{
    if i >= rs.len() {
        if rs.len() == 0 { min_zoom } else { rs.last().zoom }
    } else if zoom_count(rs[i]) <= 2000 {
        rs[i].zoom
    } else {
        progress_zoom_from(min_zoom, rs, i + 1)
    }
}

/// Picks the zoom level of the download-progress map from the ranges of the
/// task's levels, lowest first.
pub fn progress_zoom(min_zoom: u8, ranges: &Vec<ZoomRange>) -> (r: u8)
    requires
        forall|i: int| 0 <= i < ranges@.len() && (forall|j: int| 0 <= j < i ==> zoom_count(#[trigger] ranges@[j]) > 2000)
            ==> zoom_count(#[trigger] ranges@[i]) <= u64::MAX,
    ensures
        r == progress_zoom_from(min_zoom, ranges@, 0),
{
    let mut chosen = min_zoom;
    let mut i: usize = 0;
    while i < ranges.len()
        invariant
            i <= ranges@.len(),
            forall|j: int| 0 <= j < i ==> zoom_count(#[trigger] ranges@[j]) > 2000,
            forall|k: int| 0 <= k < ranges@.len() && (forall|j: int| 0 <= j < k ==> zoom_count(#[trigger] ranges@[j]) > 2000)
                ==> zoom_count(#[trigger] ranges@[k]) <= u64::MAX,
            progress_zoom_from(min_zoom, ranges@, 0) == progress_zoom_from(min_zoom, ranges@, i as int),
            i > 0 ==> chosen == ranges@[i - 1].zoom,
            i == 0 ==> chosen == min_zoom,
        decreases ranges@.len() - i,
    {
        let r = ranges[i];
        let w: u64 = if r.x_max >= r.x_min { (r.x_max - r.x_min) as u64 + 1 } else { 1 };
        let h: u64 = if r.y_max >= r.y_min { (r.y_max - r.y_min) as u64 + 1 } else { 1 };
        assert(zoom_count(r) <= u64::MAX);
        assert(w * h == zoom_count(r));
        let count = w * h;
        chosen = r.zoom;
        if count <= 2000 {
            return chosen;
        }
        i += 1;
    }
    chosen
}

} // verus!
