//! The integer part of re-aligning GCJ-02 tiles to WGS-84 after a download:
//! from a target tile's pixel shift (computed by the caller in floating
//! point), which stored tiles cover it and which part of each goes where on
//! the new tile; the set of tiles a batch reads; and the order in which
//! targets are rewritten.

use vstd::prelude::*;
use crate::stable_sort::{sort_by_keys, stable_order};

verus! {

/// A target tile's shift split into whole tiles and the pixel remainder
/// (Euclidean division by 256).
#[derive(Debug, Clone, Copy, PartialEq, Eq, Structural)]
pub struct TileShift {
    pub tile_off_x: i32,
    pub tile_off_y: i32,
    pub sub_x: i32,
    pub sub_y: i32,
}

fn div_rem_256(d: i32) -> (r: (i32, i32))
    ensures
        r.0 == d / 256,
        r.1 == d % 256,
{
    if d >= 0 {
        let q = d / 256;
        let m = d % 256;
        proof {
            vstd::arithmetic::div_mod::lemma_fundamental_div_mod_converse(d as int, 256, q as int, m as int);
        }
        (q, m)
    } else {
        let n: i64 = -(d as i64);
        let q0: i64 = (n + 255) / 256;
        let q: i64 = -q0;
        let m: i64 = d as i64 + q0 * 256;
        assert(0 <= m < 256) by (nonlinear_arith)
            requires
                n == -(d as int),
                n >= 1,
                q0 == (n + 255) / 256,
                m == d + q0 * 256,
        ;
        assert(d == q * 256 + m);
        proof {
            vstd::arithmetic::div_mod::lemma_fundamental_div_mod_converse(d as int, 256, q as int, m as int);
        }
        (q as i32, m as i32)
    }
}

/// Splits a pixel shift `(dx, dy)` into whole tiles and the remainder.
pub fn tile_shift(dx: i32, dy: i32) -> (r: TileShift)
    ensures
        r.tile_off_x == dx / 256,
        r.sub_x == dx % 256,
        r.tile_off_y == dy / 256,
        r.sub_y == dy % 256,
{
    let (ox, sx) = div_rem_256(dx);
    let (oy, sy) = div_rem_256(dy);
    TileShift { tile_off_x: ox, tile_off_y: oy, sub_x: sx, sub_y: sy }
}

/// The part of a source tile copied onto the new tile: `w` by `h` pixels
/// from `(src_x0, src_y0)` to `(dst_x0, dst_y0)`.
#[derive(Debug, Clone, Copy, PartialEq, Eq, Structural)]
pub struct Blit {
    pub dst_x0: u32,
    pub dst_y0: u32,
    pub src_x0: u32,
    pub src_y0: u32,
    pub w: u32,
    pub h: u32,
}

pub open spec fn max0(a: int) -> int {
    if a > 0 { a } else { 0 }
}

pub open spec fn min2(a: int, b: int) -> int {
    if a < b { a } else { b }
}

/// Along one axis, for the `k`th source (0 or 1) and remainder `sub`:
/// where the source's corner lands (`k·256 − sub`), and from it the start on
/// the new tile, the start in the source and the length copied.
pub open spec fn axis_dst(k: int, sub: int) -> int {
    max0(k * 256 - sub)
}

pub open spec fn axis_src(k: int, sub: int) -> int {
    max0(-(k * 256 - sub))
}

pub open spec fn axis_len(k: int, sub: int) -> int {
    max0(min2(256 - axis_src(k, sub), 256 - (k * 256 - sub)))
}

fn axis(k: i32, sub: i32) -> (r: (u32, u32, u32))
    requires
        0 <= k <= 1,
        0 <= sub < 256,
    ensures
        r.0 == axis_dst(k as int, sub as int),
        r.1 == axis_src(k as int, sub as int),
        r.2 == axis_len(k as int, sub as int),
{
    let c = k * 256 - sub;
    let dst = if c > 0 { c } else { 0 };
    let src = if -c > 0 { -c } else { 0 };
    let a = 256 - src;
    let b = 256 - c;
    let m = if a < b { a } else { b };
    let len = if m > 0 { m } else { 0 };
    (dst as u32, src as u32, len as u32)
}

/// Where the source `(i, j)` (each 0 or 1) goes on the new tile.
pub fn blit(i: i32, j: i32, shift: &TileShift) -> (r: Blit)
    requires
        0 <= i <= 1,
        0 <= j <= 1,
        0 <= shift.sub_x < 256,
        0 <= shift.sub_y < 256,
    ensures
        r.dst_x0 == axis_dst(i as int, shift.sub_x as int),
        r.src_x0 == axis_src(i as int, shift.sub_x as int),
        r.w == axis_len(i as int, shift.sub_x as int),
        r.dst_y0 == axis_dst(j as int, shift.sub_y as int),
        r.src_y0 == axis_src(j as int, shift.sub_y as int),
        r.h == axis_len(j as int, shift.sub_y as int),
{
    let (dx0, sx0, w) = axis(i, shift.sub_x);
    let (dy0, sy0, h) = axis(j, shift.sub_y);
    Blit { dst_x0: dx0, dst_y0: dy0, src_x0: sx0, src_y0: sy0, w, h }
}

/// One stored tile that covers a target, and where its part goes.
#[derive(Debug, Clone, Copy, PartialEq, Eq, Structural)]
pub struct SourcePiece {
    pub sx: i64,
    pub sy: i64,
    pub blit: Blit,
}

/// The blit of source `(i, j)` as the spec functions give it.
pub open spec fn blit_of(i: int, j: int, s: TileShift) -> Blit {
    Blit {
        dst_x0: axis_dst(i, s.sub_x as int) as u32,
        dst_y0: axis_dst(j, s.sub_y as int) as u32,
        src_x0: axis_src(i, s.sub_x as int) as u32,
        src_y0: axis_src(j, s.sub_y as int) as u32,
        w: axis_len(i, s.sub_x as int) as u32,
        h: axis_len(j, s.sub_y as int) as u32,
    }
}

/// Source `(i, j)` of target `(x, y)` when its column and row are not
/// negative.
pub open spec fn piece_of(x: u32, y: u32, s: TileShift, i: int, j: int) -> Seq<SourcePiece> {
    let sx = x + s.tile_off_x + i;
    let sy = y + s.tile_off_y + j;
    if sx >= 0 && sy >= 0 {
        seq![SourcePiece { sx: sx as i64, sy: sy as i64, blit: blit_of(i, j, s) }]
    } else {
        Seq::empty()
    }
}

/// The stored tiles that cover target `(x, y)`: the tile its shift lands in
/// and its neighbours to the east, south and south-east, in that order,
/// leaving out any with a negative column or row.
pub open spec fn pieces_of(x: u32, y: u32, s: TileShift) -> Seq<SourcePiece> {
    piece_of(x, y, s, 0, 0) + piece_of(x, y, s, 1, 0) + piece_of(x, y, s, 0, 1) + piece_of(x, y, s, 1, 1)
}

/// The sources of one target tile and where each goes.
pub fn source_pieces(x: u32, y: u32, shift: &TileShift) -> (r: Vec<SourcePiece>)
    requires
        0 <= shift.sub_x < 256,
        0 <= shift.sub_y < 256,
    ensures
        r@ == pieces_of(x, y, *shift),
{
    let mut r: Vec<SourcePiece> = Vec::new();
    let ghost s = *shift;
    let mut j: i32 = 0;
    while j < 2
        invariant
            0 <= j <= 2,
            s == *shift,
            0 <= shift.sub_x < 256,
            0 <= shift.sub_y < 256,
            r@ == (if j == 0 {
                Seq::empty()
            } else if j == 1 {
                piece_of(x, y, s, 0, 0) + piece_of(x, y, s, 1, 0)
            } else {
                pieces_of(x, y, s)
            }),
        decreases 2 - j,
    {
        let ghost before = r@;
        let mut i: i32 = 0;
        while i < 2
            invariant
                0 <= i <= 2,
                0 <= j < 2,
                s == *shift,
                0 <= shift.sub_x < 256,
                0 <= shift.sub_y < 256,
                r@ == (if i == 0 {
                    before
                } else if i == 1 {
                    before + piece_of(x, y, s, 0, j as int)
                } else {
                    before + piece_of(x, y, s, 0, j as int) + piece_of(x, y, s, 1, j as int)
                }),
            decreases 2 - i,
        {
            let sx: i64 = x as i64 + shift.tile_off_x as i64 + i as i64;
            let sy: i64 = y as i64 + shift.tile_off_y as i64 + j as i64;
            let ghost prev = r@;
            if sx >= 0 && sy >= 0 {
                let b = blit(i, j, shift);
                r.push(SourcePiece { sx, sy, blit: b });
                assert(piece_of(x, y, s, i as int, j as int) =~= seq![SourcePiece { sx, sy, blit: b }]);
            } else {
                assert(piece_of(x, y, s, i as int, j as int) =~= Seq::<SourcePiece>::empty());
            }
            assert(r@ =~= prev + piece_of(x, y, s, i as int, j as int));
            i += 1;
            if i == 2 {
                assert(r@ =~= before + piece_of(x, y, s, 0, j as int) + piece_of(x, y, s, 1, j as int));
            }
        }
        j += 1;
        if j == 1 {
            assert(r@ =~= piece_of(x, y, s, 0, 0) + piece_of(x, y, s, 1, 0));
        } else {
            assert(r@ =~= pieces_of(x, y, s));
        }
    }
    r
}

/// Every pixel of the new tile comes from exactly one of the four sources:
/// pixel `(px, py)` is copied from source `(i, j)` at `(px + sub_x − 256·i,
/// py + sub_y − 256·j)`, which lies inside that source. (Sources left out for
/// a negative column or row leave their part empty.)
pub proof fn lemma_blits_cover_tile(s: TileShift, px: int, py: int)
    requires
        0 <= s.sub_x < 256,
        0 <= s.sub_y < 256,
        0 <= px < 256,
        0 <= py < 256,
    ensures
        exists|i: int, j: int| 0 <= i <= 1 && 0 <= j <= 1 && #[trigger] covers(blit_of(i, j, s), px, py),
        forall|i: int, j: int| 0 <= i <= 1 && 0 <= j <= 1 && #[trigger] covers(blit_of(i, j, s), px, py) ==> {
            &&& px < 256 - s.sub_x <==> i == 0
            &&& py < 256 - s.sub_y <==> j == 0
            &&& 0 <= px + s.sub_x - 256 * i < 256
            &&& 0 <= py + s.sub_y - 256 * j < 256
            &&& blit_of(i, j, s).src_x0 + (px - blit_of(i, j, s).dst_x0) == px + s.sub_x - 256 * i
            &&& blit_of(i, j, s).src_y0 + (py - blit_of(i, j, s).dst_y0) == py + s.sub_y - 256 * j
        },
{
    let i: int = if px < 256 - s.sub_x { 0 } else { 1 };
    let j: int = if py < 256 - s.sub_y { 0 } else { 1 };
    assert(covers(blit_of(i, j, s), px, py));
}

/// Pixel `(px, py)` of the new tile lies in a blit's target rectangle.
pub open spec fn covers(b: Blit, px: int, py: int) -> bool {
    b.dst_x0 <= px < b.dst_x0 + b.w && b.dst_y0 <= py < b.dst_y0 + b.h
}

// ─── tiles a batch reads ────────────────────────────────────────────────────

/// The order of `(zoom, column, row)` keys: lexicographic.
pub open spec fn key_lt(a: (u8, i64, i64), b: (u8, i64, i64)) -> bool {
    a.0 < b.0 || (a.0 == b.0 && (a.1 < b.1 || (a.1 == b.1 && a.2 < b.2)))
}

pub open spec fn strictly_sorted_keys(v: Seq<(u8, i64, i64)>) -> bool {
    forall|a: int, b: int| 0 <= a < b < v.len() ==> key_lt(#[trigger] v[a], #[trigger] v[b])
}

/// The keys of the pieces of one target at zoom `z`.
pub open spec fn keys_of_pieces(z: u8, ps: Seq<SourcePiece>) -> Set<(u8, i64, i64)> {
    ps.map_values(|p: SourcePiece| (z, p.sx, p.sy)).to_set()
}

/// Every stored tile that the targets of a batch read.
pub open spec fn batch_sources(t: Seq<(u8, u32, u32, TileShift)>) -> Set<(u8, i64, i64)>
    decreases t.len(),
{
    if t.len() == 0 {
        Set::empty()
    } else {
        batch_sources(t.drop_last()).union(
            keys_of_pieces(t.last().0, pieces_of(t.last().1, t.last().2, t.last().3)),
        )
    }
}

fn key_less(a: (u8, i64, i64), b: (u8, i64, i64)) -> (r: bool)
    ensures
        r == key_lt(a, b),
{
    a.0 < b.0 || (a.0 == b.0 && (a.1 < b.1 || (a.1 == b.1 && a.2 < b.2)))
}

fn insert_key(v: &mut Vec<(u8, i64, i64)>, k: (u8, i64, i64))
    requires
        strictly_sorted_keys(old(v)@),
    ensures
        strictly_sorted_keys(final(v)@),
        final(v)@.to_set() == old(v)@.to_set().insert(k),
{
    let ghost v0 = v@;
    let mut p: usize = 0;
    while p < v.len() && key_less(v[p], k)
        invariant
            v@ == v0,
            p <= v.len(),
            forall|q: int| 0 <= q < p ==> key_lt(#[trigger] v@[q], k),
        decreases v.len() - p,
    {
        p += 1;
    }
    if p < v.len() && v[p].0 == k.0 && v[p].1 == k.1 && v[p].2 == k.2 {
        assert(v0.to_set().insert(k) =~= v0.to_set()) by {
            assert(v0.to_set().contains(k)) by {
                assert(v0[p as int] == k);
            }
        }
        return;
    }
    v.insert(p, k);
    proof {
        let v1 = v@;
        assert(v1 =~= v0.insert(p as int, k));
        assert forall|a: int, b: int| 0 <= a < b < v1.len() implies key_lt(#[trigger] v1[a], #[trigger] v1[b]) by {
            if b < p {
                assert(v1[a] == v0[a] && v1[b] == v0[b]);
            } else if b == p {
                assert(v1[a] == v0[a]);
            } else if a < p {
                assert(v1[a] == v0[a] && v1[b] == v0[b - 1]);
                assert(key_lt(v0[a], k));
                assert(!key_lt(v0[p as int], k) && v0[p as int] != k);
                if b - 1 > p {
                    assert(key_lt(v0[p as int], v0[b - 1]));
                }
            } else if a == p {
                assert(v1[b] == v0[b - 1]);
                assert(!key_lt(v0[p as int], k) && v0[p as int] != k);
                if b - 1 > p {
                    assert(key_lt(v0[p as int], v0[b - 1]));
                }
            } else {
                assert(v1[a] == v0[a - 1] && v1[b] == v0[b - 1]);
            }
        }
        assert forall|e: (u8, i64, i64)| v1.to_set().contains(e) <==> v0.to_set().insert(k).contains(e) by {
            if v1.to_set().contains(e) {
                let q = choose|q: int| 0 <= q < v1.len() && v1[q] == e;
                if q < p {
                    assert(v0[q] == e);
                } else if q > p {
                    assert(v0[q - 1] == e);
                }
            }
            if v0.to_set().contains(e) {
                let q = choose|q: int| 0 <= q < v0.len() && v0[q] == e;
                if q < p {
                    assert(v1[q] == e);
                } else {
                    assert(v1[q + 1] == e);
                }
            }
            if e == k {
                assert(v1[p as int] == k);
            }
        }
        assert(v1.to_set() =~= v0.to_set().insert(k));
    }
}

/// The stored tiles a batch of targets reads, each once, in key order.
pub fn batch_source_keys(targets: &Vec<(u8, u32, u32, TileShift)>) -> (r: Vec<(u8, i64, i64)>)
    requires
        forall|a: int| 0 <= a < targets@.len() ==> 0 <= (#[trigger] targets@[a]).3.sub_x < 256
            && 0 <= targets@[a].3.sub_y < 256,
    ensures
        strictly_sorted_keys(r@),
        r@.to_set() == batch_sources(targets@),
{
    let mut r: Vec<(u8, i64, i64)> = Vec::new();
    let mut a: usize = 0;
    assert(r@.to_set() =~= batch_sources(targets@.subrange(0, 0)));
    while a < targets.len()
        invariant
            a <= targets@.len(),
            forall|c: int| 0 <= c < targets@.len() ==> 0 <= (#[trigger] targets@[c]).3.sub_x < 256
                && 0 <= targets@[c].3.sub_y < 256,
            strictly_sorted_keys(r@),
            r@.to_set() == batch_sources(targets@.subrange(0, a as int)),
        decreases targets@.len() - a,
    {
        let (z, x, y, shift) = targets[a];
        let ps = source_pieces(x, y, &shift);
        let ghost before = r@.to_set();
        let ghost kp = ps@.map_values(|p: SourcePiece| (z, p.sx, p.sy));
        let mut b: usize = 0;
        assert(before.union(kp.subrange(0, 0).to_set()) =~= before);
        while b < ps.len()
            invariant
                b <= ps@.len(),
                kp == ps@.map_values(|p: SourcePiece| (z, p.sx, p.sy)),
                strictly_sorted_keys(r@),
                r@.to_set() == before.union(kp.subrange(0, b as int).to_set()),
            decreases ps@.len() - b,
        {
            let k = (z, ps[b].sx, ps[b].sy);
            let ghost prev = kp.subrange(0, b as int);
            insert_key(&mut r, k);
            proof {
                assert(kp.subrange(0, b + 1) =~= prev.push(k));
                prev.lemma_push_to_set_commute(k);
                assert(before.union(prev.to_set()).insert(k) =~= before.union(prev.push(k).to_set()));
            }
            b += 1;
        }
        proof {
            assert(kp.subrange(0, ps@.len() as int) =~= kp);
            assert(targets@.subrange(0, a + 1).drop_last() =~= targets@.subrange(0, a as int));
            assert(targets@.subrange(0, a + 1).last() == targets@[a as int]);
        }
        a += 1;
    }
    assert(targets@.subrange(0, targets@.len() as int) =~= targets@);
    r
}

// ─── processing order ───────────────────────────────────────────────────────

/// The rewriting order of target tiles: by column ascending, then row
/// descending.
pub open spec fn composite_key(x: u32, y: u32) -> u64 {
    (x * 0x1_0000_0000 + (0xFFFF_FFFF - y)) as u64
}

fn composite_key_of(x: u32, y: u32) -> (r: u64)
    ensures
        r == composite_key(x, y),
{
    (x as u64) * 0x1_0000_0000 + (0xFFFF_FFFFu64 - y as u64)
}

pub open spec fn target_keys(t: Seq<(u8, u32, u32)>) -> Seq<u64> {
    t.map_values(|c: (u8, u32, u32)| composite_key(c.1, c.2))
}

/// Puts the target tiles into rewriting order (tiles of equal column and
/// row keep their order).
pub fn composite_order(targets: Vec<(u8, u32, u32)>) -> (r: Vec<(u8, u32, u32)>)
    ensures
        exists|o: Seq<int>| #[trigger] stable_order(target_keys(targets@), o, false)
            && r@.len() == targets@.len()
            && forall|k: int| 0 <= k < o.len() ==> r@[k] == targets@[#[trigger] o[k]],
{
    let mut keys: Vec<u64> = Vec::new();
    let mut i: usize = 0;
    while i < targets.len()
        invariant
            i <= targets.len(),
            keys@ == target_keys(targets@).subrange(0, i as int),
        decreases targets.len() - i,
    {
        let (_, x, y) = targets[i];
        keys.push(composite_key_of(x, y));
        i += 1;
        assert(keys@ =~= target_keys(targets@).subrange(0, i as int));
    }
    assert(keys@ =~= target_keys(targets@));
    let ghost t0 = targets@;
    let mut items = targets;
    let o = sort_by_keys(&mut items, &mut keys, false);
    assert(stable_order(target_keys(t0), o@, false));
    items
}

/// Inside China the shift is east and north (`dx ≥ 0`, `dy ≤ 0`); then every
/// source that gives pixels to a target comes no earlier than the target in
/// the rewriting order, so no tile is read after it was rewritten.
pub proof fn lemma_sources_not_yet_rewritten(x: u32, y: u32, dx: i32, dy: i32, k: int)
    requires
        dx >= 0,
        dy <= 0,
        0 <= k < pieces_of(x, y, TileShift { tile_off_x: (dx / 256) as i32, tile_off_y: (dy / 256) as i32, sub_x: (dx % 256) as i32, sub_y: (dy % 256) as i32 }).len(),
        ({
            let p = pieces_of(x, y, TileShift { tile_off_x: (dx / 256) as i32, tile_off_y: (dy / 256) as i32, sub_x: (dx % 256) as i32, sub_y: (dy % 256) as i32 })[k];
            p.blit.w > 0 && p.blit.h > 0 && p.sx <= u32::MAX && p.sy <= u32::MAX
        }),
    ensures
        ({
            let p = pieces_of(x, y, TileShift { tile_off_x: (dx / 256) as i32, tile_off_y: (dy / 256) as i32, sub_x: (dx % 256) as i32, sub_y: (dy % 256) as i32 })[k];
            composite_key(p.sx as u32, p.sy as u32) >= composite_key(x, y)
        }),
{
    let s = TileShift { tile_off_x: (dx / 256) as i32, tile_off_y: (dy / 256) as i32, sub_x: (dx % 256) as i32, sub_y: (dy % 256) as i32 };
    let p = pieces_of(x, y, s)[k];
    assert(dx / 256 >= 0);
    assert(dy / 256 <= 0) by (nonlinear_arith)
        requires dy <= 0;
    assert(dy / 256 == 0 ==> dy % 256 == 0) by (nonlinear_arith)
        requires dy <= 0;
    assert(dy / 256 >= -(0x8000_0000int)) by (nonlinear_arith)
        requires dy >= -(0x8000_0000int);
    assert(dx / 256 <= 0x7FFF_FFFF) by (nonlinear_arith)
        requires 0 <= dx <= 0x7FFF_FFFF;
    assert(0 <= dx % 256 < 256);
    assert(0 <= dy % 256 < 256);
    assert(p.sx >= x && p.sy <= y) by {
        let a = piece_of(x, y, s, 0, 0);
        let b = piece_of(x, y, s, 1, 0);
        let c = piece_of(x, y, s, 0, 1);
        let d = piece_of(x, y, s, 1, 1);
        assert(pieces_of(x, y, s) == a + b + c + d);
        if k < a.len() {
            assert(p == a[k]);
        } else if k < a.len() + b.len() {
            assert(p == b[k - a.len()]);
        } else if k < a.len() + b.len() + c.len() {
            assert(p == c[k - a.len() - b.len()]);
            assert(p.blit.h == axis_len(1, s.sub_y as int));
        } else {
            assert(p == d[k - a.len() - b.len() - c.len()]);
            assert(p.blit.h == axis_len(1, s.sub_y as int));
        }
    }
}

} // verus!
