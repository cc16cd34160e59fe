//! Download pacing: an adaptive throttle that slows down after consecutive
//! failures and speeds up again after successes, a spatial ordering of tile
//! batches (zoom level, then Z-order curve), and rotating request headers.

use vstd::prelude::*;
use crate::tile_grid::TileCoord;

verus! {

// ─── adaptive throttle ──────────────────────────────────────────────────────

/// The extra delay for a run of consecutive failures: none for up to 2,
/// 50 ms from 3, 200 ms from 6, 1000 ms from 10.
pub open spec fn failure_delay(failures: nat) -> u64 {
    if failures <= 2 {
        0
    } else if failures <= 5 {
        50
    } else if failures <= 9 {
        200
    } else {
        1000
    }
}

/// The extra delay after a success: a quarter (rounded down) plus one
/// millisecond less, not below zero.
pub open spec fn eased_delay(cur: u64) -> u64 {
    if cur <= cur / 4 + 1 {
        0
    } else {
        (cur - (cur / 4 + 1)) as u64
    }
}

/// Throttle state: consecutive failures and the extra delay they call for.
pub struct AdaptiveThrottle {
    consecutive_failures: u32,
    extra_delay_ms: u64,
}

impl AdaptiveThrottle {
    pub closed spec fn failures(&self) -> u32 {
        self.consecutive_failures
    }

    pub closed spec fn delay(&self) -> u64 {
        self.extra_delay_ms
    }

    /// A throttle with no failures and no extra delay.
    pub fn new() -> (r: Self)
        ensures
            r.failures() == 0,
            r.delay() == 0,
    {
        AdaptiveThrottle { consecutive_failures: 0, extra_delay_ms: 0 }
    }

    /// Records a successful download: the failure run ends, and the extra
    /// delay eases by a quarter, so a run of successes brings the speed back
    /// to normal.
    pub fn report_success(&mut self)
        ensures
            final(self).failures() == 0,
            final(self).delay() == eased_delay(old(self).delay()),
    {
        self.consecutive_failures = 0;
        let cur = self.extra_delay_ms;
        self.extra_delay_ms = cur.saturating_sub(cur / 4 + 1);
    }

    /// Records a failed download: the failure run grows by one and the extra
    /// delay becomes the one for the run's length.
    pub fn report_failure(&mut self)
        requires
            old(self).failures() < u32::MAX,
        ensures
            final(self).failures() == old(self).failures() + 1,
            final(self).delay() == failure_delay(final(self).failures() as nat),
    {
        let failures = self.consecutive_failures + 1;
        self.consecutive_failures = failures;
        let delay: u64 = if failures <= 2 {
            0
        } else if failures <= 5 {
            50
        } else if failures <= 9 {
            200
        } else {
            1000
        };
        self.extra_delay_ms = delay;
    }

    /// The extra delay to add between tiles now.
    pub fn extra_delay_ms(&self) -> (r: u64)
        ensures
            r == self.delay(),
    {
        self.extra_delay_ms
    }
}

/// The extra delay never exceeds one second: a run of failures sets one of
/// the four steps, and a success only lowers it.
pub proof fn lemma_delay_bounded(failures: nat, cur: u64)
    requires
        cur <= 1000,
    ensures
        failure_delay(failures) <= 1000,
        eased_delay(cur) <= cur,
        cur > 0 ==> eased_delay(cur) < cur,
{
}

/// Longer failure runs never call for a shorter delay.
pub proof fn lemma_failure_delay_monotonic(a: nat, b: nat)
    requires
        a <= b,
    ensures
        failure_delay(a) <= failure_delay(b),
{
}

// ─── spatial order ──────────────────────────────────────────────────────────

/// `v` with bit `i` (for `i < 32`) moved to bit `2 i`.
pub open spec fn spread_bits(v: u64) -> u64 {
    (v & 0x1) | ((v & 0x2) << 1u64) | ((v & 0x4) << 2u64) | ((v & 0x8) << 3u64)
        | ((v & 0x10) << 4u64) | ((v & 0x20) << 5u64) | ((v & 0x40) << 6u64) | ((v & 0x80) << 7u64)
        | ((v & 0x100) << 8u64) | ((v & 0x200) << 9u64) | ((v & 0x400) << 10u64) | ((v & 0x800) << 11u64)
        | ((v & 0x1000) << 12u64) | ((v & 0x2000) << 13u64) | ((v & 0x4000) << 14u64) | ((v & 0x8000) << 15u64)
        | ((v & 0x10000) << 16u64) | ((v & 0x20000) << 17u64) | ((v & 0x40000) << 18u64) | ((v & 0x80000) << 19u64)
        | ((v & 0x100000) << 20u64) | ((v & 0x200000) << 21u64) | ((v & 0x400000) << 22u64) | ((v & 0x800000) << 23u64)
        | ((v & 0x1000000) << 24u64) | ((v & 0x2000000) << 25u64) | ((v & 0x4000000) << 26u64) | ((v & 0x8000000) << 27u64)
        | ((v & 0x10000000) << 28u64) | ((v & 0x20000000) << 29u64) | ((v & 0x40000000) << 30u64) | ((v & 0x80000000) << 31u64)
}

/// The Z-order (Morton) code of `(x, y)`: the bits of `x` at the even
/// positions, those of `y` at the odd positions.
pub open spec fn morton(x: u32, y: u32) -> u64 {
    spread_bits(x as u64) | (spread_bits(y as u64) << 1u64)
}

fn spread(v: u32) -> (r: u64)
    ensures
        r == spread_bits(v as u64),
{
    let w0 = v as u64;
    let w1 = (w0 | (w0 << 16u64)) & 0x0000_FFFF_0000_FFFFu64;
    let w2 = (w1 | (w1 << 8u64)) & 0x00FF_00FF_00FF_00FFu64;
    let w3 = (w2 | (w2 << 4u64)) & 0x0F0F_0F0F_0F0F_0F0Fu64;
    let w4 = (w3 | (w3 << 2u64)) & 0x3333_3333_3333_3333u64;
    let w5 = (w4 | (w4 << 1u64)) & 0x5555_5555_5555_5555u64;
    assert(w5 == spread_bits(w0)) by (bit_vector)
        requires
            w0 < 0x1_0000_0000u64,
            w1 == (w0 | (w0 << 16u64)) & 0x0000_FFFF_0000_FFFFu64,
            w2 == (w1 | (w1 << 8u64)) & 0x00FF_00FF_00FF_00FFu64,
            w3 == (w2 | (w2 << 4u64)) & 0x0F0F_0F0F_0F0F_0F0Fu64,
            w4 == (w3 | (w3 << 2u64)) & 0x3333_3333_3333_3333u64,
            w5 == (w4 | (w4 << 1u64)) & 0x5555_5555_5555_5555u64,
    ;
    w5
}

/// The Z-order (Morton) code of tile column `x` and row `y`.
pub fn morton_code(x: u32, y: u32) -> (r: u64)
    ensures
        r == morton(x, y),
{
    spread(x) | (spread(y) << 1u64)
}

/// Batch order: by zoom level, then by Morton code.
pub open spec fn tile_le(a: TileCoord, b: TileCoord) -> bool {
    a.z < b.z || (a.z == b.z && morton(a.x, a.y) <= morton(b.x, b.y))
}

/// Tiles in batch order.
pub open spec fn spatially_sorted(s: Seq<TileCoord>) -> bool {
    forall|i: int, j: int| 0 <= i < j < s.len() ==> tile_le(#[trigger] s[i], #[trigger] s[j])
}

fn tile_lt_exec(a: &TileCoord, b: &TileCoord) -> (r: bool)
    ensures
        r == !tile_le(*b, *a),
{
    if a.z != b.z {
        a.z < b.z
    } else {
        morton_code(a.x, a.y) < morton_code(b.x, b.y)
    }
}

/// Reorders a batch of tiles by zoom level and, within a level, along the
/// Z-order curve, so that tiles fetched one after another lie close together.
pub fn sort_spatial_locality(tiles: &mut Vec<TileCoord>)
    ensures
        final(tiles)@.to_multiset() == old(tiles)@.to_multiset(),
        spatially_sorted(final(tiles)@),
{
    broadcast use vstd::seq_lib::group_to_multiset_ensures;
    let n = tiles.len();
    let mut out: Vec<TileCoord> = Vec::new();
    let mut i: usize = 0;
    assert(tiles@.subrange(0, 0) =~= Seq::<TileCoord>::empty());
    while i < n
        invariant
            n == tiles.len(),
            i <= n,
            out@.to_multiset() == tiles@.subrange(0, i as int).to_multiset(),
            spatially_sorted(out@),
        decreases n - i,
    {
        let t = tiles[i];
        let mut p: usize = 0;
        while p < out.len() && !tile_lt_exec(&t, &out[p])
            invariant
                p <= out.len(),
                forall|k: int| 0 <= k < p ==> tile_le(#[trigger] out@[k], t),
            decreases out.len() - p,
        {
            p += 1;
        }
        let ghost before = out@;
        out.insert(p, t);
        proof {
            assert(out@ =~= before.insert(p as int, t));
            vstd::seq_lib::to_multiset_insert(before, p as int, t);
            assert(tiles@.subrange(0, i + 1) =~= tiles@.subrange(0, i as int).push(t));
            vstd::seq_lib::to_multiset_build(tiles@.subrange(0, i as int), t);
            assert forall|a: int, b: int| 0 <= a < b < out@.len() implies tile_le(#[trigger] out@[a], #[trigger] out@[b]) by {
                if p < before.len() {
                    assert(tile_le(t, before[p as int]));
                }
                if a < p && b == p {
                } else if a == p && b > p {
                    assert(tile_le(before[p as int], before[b - 1]) || p as int == b - 1);
                } else if a < p && b > p {
                    assert(tile_le(before[a], before[b - 1]));
                } else if b < p {
                    assert(tile_le(before[a], before[b]));
                } else if a > p {
                    assert(tile_le(before[a - 1], before[b - 1]));
                }
            }
        }
        i += 1;
    }
    assert(tiles@.subrange(0, n as int) =~= tiles@);
    *tiles = out;
}

// ─── request headers ────────────────────────────────────────────────────────

pub const USER_AGENT_COUNT: usize = 7;

pub const ACCEPT_LANGUAGE_COUNT: usize = 6;

pub open spec fn user_agent_text(i: int) -> Seq<char> {
    if i == 0 {
        "Mozilla/5.0 (Windows NT 10.0; Win64; x64) AppleWebKit/537.36 (KHTML, like Gecko) Chrome/124.0.0.0 Safari/537.36"@
    } else if i == 1 {
        "Mozilla/5.0 (Windows NT 10.0; Win64; x64) AppleWebKit/537.36 (KHTML, like Gecko) Chrome/123.0.0.0 Safari/537.36"@
    } else if i == 2 {
        "Mozilla/5.0 (Macintosh; Intel Mac OS X 10_15_7) AppleWebKit/537.36 (KHTML, like Gecko) Chrome/124.0.0.0 Safari/537.36"@
    } else if i == 3 {
        "Mozilla/5.0 (Windows NT 10.0; Win64; x64; rv:125.0) Gecko/20100101 Firefox/125.0"@
    } else if i == 4 {
        "Mozilla/5.0 (Macintosh; Intel Mac OS X 14_4) AppleWebKit/605.1.15 (KHTML, like Gecko) Version/17.4 Safari/605.1.15"@
    } else if i == 5 {
        "Mozilla/5.0 (X11; Linux x86_64) AppleWebKit/537.36 (KHTML, like Gecko) Chrome/124.0.0.0 Safari/537.36"@
    } else if i == 6 {
        "Mozilla/5.0 (Windows NT 10.0; Win64; x64) AppleWebKit/537.36 (KHTML, like Gecko) Chrome/124.0.0.0 Safari/537.36 Edg/124.0.0.0"@
    } else {
        Seq::empty()
    }
}

pub fn user_agent_at(i: usize) -> (r: &'static str)
    requires
        i < 7,
    ensures
        r@ == user_agent_text(i as int),
{
    if i == 0 {
        "Mozilla/5.0 (Windows NT 10.0; Win64; x64) AppleWebKit/537.36 (KHTML, like Gecko) Chrome/124.0.0.0 Safari/537.36"
    } else if i == 1 {
        "Mozilla/5.0 (Windows NT 10.0; Win64; x64) AppleWebKit/537.36 (KHTML, like Gecko) Chrome/123.0.0.0 Safari/537.36"
    } else if i == 2 {
        "Mozilla/5.0 (Macintosh; Intel Mac OS X 10_15_7) AppleWebKit/537.36 (KHTML, like Gecko) Chrome/124.0.0.0 Safari/537.36"
    } else if i == 3 {
        "Mozilla/5.0 (Windows NT 10.0; Win64; x64; rv:125.0) Gecko/20100101 Firefox/125.0"
    } else if i == 4 {
        "Mozilla/5.0 (Macintosh; Intel Mac OS X 14_4) AppleWebKit/605.1.15 (KHTML, like Gecko) Version/17.4 Safari/605.1.15"
    } else if i == 5 {
        "Mozilla/5.0 (X11; Linux x86_64) AppleWebKit/537.36 (KHTML, like Gecko) Chrome/124.0.0.0 Safari/537.36"
    } else {
        "Mozilla/5.0 (Windows NT 10.0; Win64; x64) AppleWebKit/537.36 (KHTML, like Gecko) Chrome/124.0.0.0 Safari/537.36 Edg/124.0.0.0"
    }
}

pub open spec fn accept_language_text(i: int) -> Seq<char> {
    if i == 0 {
        "zh-CN,zh;q=0.9,en;q=0.8"@
    } else if i == 1 {
        "zh-CN,zh;q=0.9,en-US;q=0.8,en;q=0.7"@
    } else if i == 2 {
        "zh-TW,zh;q=0.9,en-US;q=0.8,en;q=0.7"@
    } else if i == 3 {
        "zh-CN,zh;q=0.8,zh-TW;q=0.7,zh-HK;q=0.5,en-US;q=0.3,en;q=0.2"@
    } else if i == 4 {
        "en-US,en;q=0.9,zh-CN;q=0.8,zh;q=0.7"@
    } else if i == 5 {
        "en-GB,en;q=0.9,zh-CN;q=0.8"@
    } else {
        Seq::empty()
    }
}

pub fn accept_language_at(i: usize) -> (r: &'static str)
    requires
        i < 6,
    ensures
        r@ == accept_language_text(i as int),
{
    if i == 0 {
        "zh-CN,zh;q=0.9,en;q=0.8"
    } else if i == 1 {
        "zh-CN,zh;q=0.9,en-US;q=0.8,en;q=0.7"
    } else if i == 2 {
        "zh-TW,zh;q=0.9,en-US;q=0.8,en;q=0.7"
    } else if i == 3 {
        "zh-CN,zh;q=0.8,zh-TW;q=0.7,zh-HK;q=0.5,en-US;q=0.3,en;q=0.2"
    } else if i == 4 {
        "en-US,en;q=0.9,zh-CN;q=0.8,zh;q=0.7"
    } else {
        "en-GB,en;q=0.9,zh-CN;q=0.8"
    }
}


/// A uniformly drawn index below `n`, from `rand::thread_rng().gen_range(0..n)`;
/// which one comes out is chance.
#[verifier::external_body]
fn random_index(n: usize) -> (r: usize)
    requires
        n > 0,
    ensures
        r < n,
{
    rand::Rng::gen_range(&mut rand::thread_rng(), 0..n)
}

/// One of the desktop browser `User-Agent` strings, drawn at random.
pub fn random_user_agent() -> (r: &'static str)
    ensures
        exists|i: int| 0 <= i < USER_AGENT_COUNT && r@ == user_agent_text(i),
{
    let i = random_index(USER_AGENT_COUNT);
    user_agent_at(i)
}

/// One of the `Accept-Language` values, drawn at random.
pub fn random_accept_language() -> (r: &'static str)
    ensures
        exists|i: int| 0 <= i < ACCEPT_LANGUAGE_COUNT && r@ == accept_language_text(i),
{
    let i = random_index(ACCEPT_LANGUAGE_COUNT);
    accept_language_at(i)
}

} // verus!
