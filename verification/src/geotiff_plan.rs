//! How a GeoTIFF export lays the stored tiles of one zoom level out as an
//! image: the output window is written in strips of up to 256 rows, each
//! output row comes from one row of tiles, and along a row each tile column
//! gives the part of its 256 pixels that falls inside the window; and which
//! kind of coordinate system an EPSG code asks the image to be written in.

use vstd::prelude::*;

verus! {

/// Side of a tile in pixels.
pub const TILE_SIZE: u32 = 256;

/// Rows in the strip that starts at output row `done` of an image `out_h`
/// rows high.
pub fn strip_rows(out_h: u32, done: u32) -> (r: u32)
    requires
        done < out_h,
    ensures
        r == (if out_h - done < 256 { out_h - done } else { 256 }),
        0 < r <= 256,
{
    let left = out_h - done;
    if left < TILE_SIZE {
        left
    } else {
        TILE_SIZE
    }
}

/// Which row of tiles (counted from the window's first) and which pixel row
/// in it output row `row` comes from, for a window starting at pixel row
/// `out_y0` of the tile grid.
pub fn row_source(out_y0: u32, row: u32) -> (r: (u32, u32))
    requires
        out_y0 + row <= u32::MAX,
    ensures
        r.0 == (out_y0 + row) / 256,
        r.1 == (out_y0 + row) % 256,
{
    let g = out_y0 + row;
    (g / TILE_SIZE, g % TILE_SIZE)
}

/// The part of one tile column copied into every output row.
#[derive(Debug, Clone, Copy, PartialEq, Eq, Structural)]
pub struct ColumnSpan {
    /// Tile column, counted from the grid's first.
    pub tile_col: u32,
    /// First pixel taken from the tile.
    pub src_x: u32,
    /// First output pixel written.
    pub dst_x: u32,
    pub width: u32,
}

pub open spec fn max2(a: int, b: int) -> int {
    if a > b { a } else { b }
}

pub open spec fn min2(a: int, b: int) -> int {
    if a < b { a } else { b }
}

/// Where tile column `c` meets the window `[out_x0, out_x0 + out_w)`.
pub open spec fn span_left(c: int, out_x0: int) -> int {
    max2(c * 256, out_x0)
}

pub open spec fn span_right(c: int, out_x0: int, out_w: int) -> int {
    min2(c * 256 + 256, out_x0 + out_w)
}

/// The spans of tile columns `0..n` that meet the window, left to right.
pub open spec fn spans_upto(n: int, out_x0: int, out_w: int) -> Seq<ColumnSpan>
    decreases n,
{
    if n <= 0 {
        Seq::empty()
    } else {
        let prev = spans_upto(n - 1, out_x0, out_w);
        let c = n - 1;
        let l = span_left(c, out_x0);
        let r = span_right(c, out_x0, out_w);
        if l < r {
            prev.push(ColumnSpan { tile_col: c as u32, src_x: (l - c * 256) as u32, dst_x: (l - out_x0) as u32, width: (r - l) as u32 })
        } else {
            prev
        }
    }
}

/// The spans of an output row over `cols` tile columns.
pub fn column_spans(cols: u32, out_x0: u32, out_w: u32) -> (r: Vec<ColumnSpan>)
    requires
        cols * 256 <= u32::MAX,
        out_x0 + out_w <= u32::MAX,
    ensures
        r@ == spans_upto(cols as int, out_x0 as int, out_w as int),
{
    let mut r: Vec<ColumnSpan> = Vec::new();
    let mut c: u32 = 0;
    while c < cols
        invariant
            c <= cols,
            cols * 256 <= u32::MAX,
            out_x0 + out_w <= u32::MAX,
            r@ == spans_upto(c as int, out_x0 as int, out_w as int),
        decreases cols - c,
    {
        assert(c * 256 + 256 <= cols * 256) by (nonlinear_arith)
            requires c < cols;
        let start = c * TILE_SIZE;
        let end = start + TILE_SIZE;
        let left = if start > out_x0 { start } else { out_x0 };
        let right = if end < out_x0 + out_w { end } else { out_x0 + out_w };
        if left < right {
            r.push(ColumnSpan { tile_col: c, src_x: left - start, dst_x: left - out_x0, width: right - left });
        }
        c += 1;
    }
    r
}

/// Output column `d` is written by one of the spans.
pub open spec fn covered(spans: Seq<ColumnSpan>, d: int) -> bool {
    exists|k: int| 0 <= k < spans.len() && #[trigger] spans[k].dst_x <= d < spans[k].dst_x + spans[k].width
}

proof fn lemma_spans_cover(n: int, out_x0: int, out_w: int, d: int)
    requires
        0 <= n,
        0 <= out_x0,
        0 < out_w,
        0 <= d < out_w,
        out_x0 + d < n * 256,
        n * 256 <= u32::MAX,
        out_x0 + out_w <= u32::MAX,
    ensures
        exists|k: int| 0 <= k < spans_upto(n, out_x0, out_w).len()
            && #[trigger] spans_upto(n, out_x0, out_w)[k].dst_x <= d < spans_upto(n, out_x0, out_w)[k].dst_x + spans_upto(n, out_x0, out_w)[k].width,
    decreases n,
{
    let c = n - 1;
    let prev = spans_upto(n - 1, out_x0, out_w);
    if out_x0 + d >= c * 256 {
        let l = span_left(c, out_x0);
        let r = span_right(c, out_x0, out_w);
        assert(l <= out_x0 + d < r);
        assert(0 <= c * 256 <= u32::MAX) by (nonlinear_arith)
            requires 0 <= c < n, n * 256 <= u32::MAX;
        let k = prev.len() as int;
        assert(spans_upto(n, out_x0, out_w)[k].dst_x == l - out_x0);
    } else {
        lemma_spans_cover(n - 1, out_x0, out_w, d);
        let k = choose|k: int| 0 <= k < prev.len() && #[trigger] prev[k].dst_x <= d < prev[k].dst_x + prev[k].width;
        assert(spans_upto(n, out_x0, out_w)[k] == prev[k]);
    }
}

proof fn lemma_spans_facts(n: int, out_x0: int, out_w: int)
    requires
        0 <= n,
        0 <= out_x0,
        0 <= out_w,
        n * 256 <= u32::MAX,
        out_x0 + out_w <= u32::MAX,
    ensures
        forall|k: int| 0 <= k < spans_upto(n, out_x0, out_w).len() ==> {
            let s = #[trigger] spans_upto(n, out_x0, out_w)[k];
            &&& s.tile_col < n
            &&& s.width > 0
            &&& s.src_x + s.width <= 256
            &&& s.dst_x + s.width <= out_w
            &&& out_x0 + s.dst_x == s.tile_col * 256 + s.src_x
        },
        forall|a: int, b: int| 0 <= a < b < spans_upto(n, out_x0, out_w).len() ==>
            (#[trigger] spans_upto(n, out_x0, out_w)[a]).dst_x + spans_upto(n, out_x0, out_w)[a].width
                <= (#[trigger] spans_upto(n, out_x0, out_w)[b]).dst_x,
    decreases n,
{
    if n > 0 {
        lemma_spans_facts(n - 1, out_x0, out_w);
        let c = n - 1;
        let prev = spans_upto(n - 1, out_x0, out_w);
        let cur = spans_upto(n, out_x0, out_w);
        assert forall|k: int| 0 <= k < prev.len() implies #[trigger] prev[k].dst_x + prev[k].width <= span_left(c, out_x0) - out_x0 by {
            assert(prev[k].tile_col < c);
            assert(prev[k].tile_col * 256 + 256 <= c * 256) by (nonlinear_arith)
                requires prev[k].tile_col < c;
        }
        assert forall|k: int| 0 <= k < cur.len() implies {
            let s = #[trigger] cur[k];
            &&& s.tile_col < n
            &&& s.width > 0
            &&& s.src_x + s.width <= 256
            &&& s.dst_x + s.width <= out_w
            &&& out_x0 + s.dst_x == s.tile_col * 256 + s.src_x
        } by {
            if k < prev.len() {
                assert(cur[k] == prev[k]);
            } else {
                assert(0 <= c * 256 <= u32::MAX) by (nonlinear_arith)
                    requires 0 <= c < n, n * 256 <= u32::MAX;
            }
        }
        assert forall|a: int, b: int| 0 <= a < b < cur.len() implies
            (#[trigger] cur[a]).dst_x + cur[a].width <= (#[trigger] cur[b]).dst_x by {
            if b < prev.len() {
                assert(cur[a] == prev[a] && cur[b] == prev[b]);
            } else {
                assert(cur[a] == prev[a]);
                assert(0 <= c * 256 <= u32::MAX) by (nonlinear_arith)
                    requires 0 <= c < n, n * 256 <= u32::MAX;
            }
        }
    }
}

/// Along an output row the spans copy every pixel of the window exactly
/// once when the window lies inside the tile grid: they are disjoint, in
/// order, each inside its tile and inside the window, each output pixel
/// taken from the pixel at the same place of the grid, and together they
/// cover the window.
pub proof fn lemma_spans_tile_the_row(cols: u32, out_x0: u32, out_w: u32)
    requires
        cols * 256 <= u32::MAX,
        out_x0 + out_w <= cols * 256,
    ensures
        forall|k: int| 0 <= k < spans_upto(cols as int, out_x0 as int, out_w as int).len() ==> {
            let s = #[trigger] spans_upto(cols as int, out_x0 as int, out_w as int)[k];
            &&& s.tile_col < cols
            &&& s.width > 0
            &&& s.src_x + s.width <= 256
            &&& s.dst_x + s.width <= out_w
            &&& out_x0 + s.dst_x == s.tile_col * 256 + s.src_x
        },
        forall|a: int, b: int| 0 <= a < b < spans_upto(cols as int, out_x0 as int, out_w as int).len() ==>
            (#[trigger] spans_upto(cols as int, out_x0 as int, out_w as int)[a]).dst_x
                + spans_upto(cols as int, out_x0 as int, out_w as int)[a].width
                <= (#[trigger] spans_upto(cols as int, out_x0 as int, out_w as int)[b]).dst_x,
        forall|d: int| 0 <= d < out_w ==> #[trigger] covered(spans_upto(cols as int, out_x0 as int, out_w as int), d),
{
    lemma_spans_facts(cols as int, out_x0 as int, out_w as int);
    assert forall|d: int| 0 <= d < out_w implies #[trigger] covered(spans_upto(cols as int, out_x0 as int, out_w as int), d) by {
        lemma_spans_cover(cols as int, out_x0 as int, out_w as int, d);
    }
}

// ─── target coordinate system ───────────────────────────────────────────────

/// The coordinate system a GeoTIFF is written in.
#[derive(Debug, Clone, Copy, PartialEq, Eq, Structural)]
pub enum TargetCrs {
    /// Longitude and latitude (EPSG:4326 and other geographic codes).
    Geographic { epsg: u32 },
    /// EPSG:3857.
    WebMercator,
    /// WGS84 UTM, zones 1 to 60 of either hemisphere.
    Utm { zone: u8, north: bool, epsg: u32 },
}

/// The system an EPSG code names: 3857 is Web Mercator, 32601–32660 and
/// 32701–32760 are the northern and southern UTM zones 1–60, and every other
/// code is written on the geographic grid.
pub open spec fn target_crs_of(epsg: u32) -> TargetCrs {
    if epsg == 3857 {
        TargetCrs::WebMercator
    } else if 32601 <= epsg <= 32660 {
        TargetCrs::Utm { zone: (epsg - 32600) as u8, north: true, epsg }
    } else if 32701 <= epsg <= 32760 {
        TargetCrs::Utm { zone: (epsg - 32700) as u8, north: false, epsg }
    } else {
        TargetCrs::Geographic { epsg }
    }
}

impl TargetCrs {
    /// The system of EPSG code `epsg`.
    pub fn from_epsg(epsg: u32) -> (r: TargetCrs)
        ensures
            r == target_crs_of(epsg),
    {
        if epsg == 3857 {
            TargetCrs::WebMercator
        } else if 32601 <= epsg && epsg <= 32660 {
            TargetCrs::Utm { zone: (epsg - 32600) as u8, north: true, epsg }
        } else if 32701 <= epsg && epsg <= 32760 {
            TargetCrs::Utm { zone: (epsg - 32700) as u8, north: false, epsg }
        } else {
            TargetCrs::Geographic { epsg }
        }
    }

    /// The pixel grid the source tiles are read on: `merc` for Web
    /// Mercator, `geo` for the others.
    pub fn pixel_crs(&self) -> (r: &'static str)
        ensures
            r@ == (if *self is WebMercator { "merc"@ } else { "geo"@ }),
    {
        match self {
            TargetCrs::WebMercator => "merc",
            TargetCrs::Geographic { .. } => "geo",
            TargetCrs::Utm { .. } => "geo",
        }
    }
}

} // verus!
