//! The queue of the clipping that runs beside a download: tiles stored by
//! the download loop arrive in messages, those on the boundary of the task's
//! area are queued, and they are clipped in batches of 256, the rest when
//! the download ends.

use vstd::prelude::*;
use crate::tile_grid::TileCoord;

verus! {

/// Tiles clipped together.
pub const CLIP_BATCH: usize = 256;

/// The tiles of a message that lie on the boundary (flagged `true`), in
/// the order they came.
pub open spec fn boundary_tiles(tiles: Seq<(TileCoord, bool)>) -> Seq<TileCoord>
    decreases tiles.len(),
{
    if tiles.len() == 0 {
        Seq::empty()
    } else {
        let prev = boundary_tiles(tiles.drop_last());
        if tiles.last().1 {
            prev.push(tiles.last().0)
        } else {
            prev
        }
    }
}

proof fn lemma_boundary_len(tiles: Seq<(TileCoord, bool)>)
    ensures
        boundary_tiles(tiles).len() <= tiles.len(),
    decreases tiles.len(),
{
    if tiles.len() > 0 {
        lemma_boundary_len(tiles.drop_last());
    }
}

/// The boundary tiles waiting to be clipped, and how many were queued in all.
#[derive(Debug, Clone)]
pub struct ClipQueue {
    pub pending: Vec<TileCoord>,
    pub total_boundary: u64,
}

/// Every tile waiting after a message: those already waiting, then the
/// message's boundary tiles.
pub open spec fn queued(pending: Seq<TileCoord>, tiles: Seq<(TileCoord, bool)>) -> Seq<TileCoord> {
    pending + boundary_tiles(tiles)
}

impl ClipQueue {
    /// An empty queue.
    pub fn new() -> (r: ClipQueue)
        ensures
            r.pending@.len() == 0,
            r.total_boundary == 0,
    {
        ClipQueue { pending: Vec::new(), total_boundary: 0 }
    }

    /// Takes in a message of stored tiles, each flagged when it lies on the
    /// boundary; returns the full batches now ready, in order, and keeps the
    /// rest waiting.
    pub fn receive(&mut self, tiles: &Vec<(TileCoord, bool)>) -> (batches: Vec<Vec<TileCoord>>)
        requires
            old(self).total_boundary + tiles@.len() <= u64::MAX,
        ensures
            batches@.len() == queued(old(self).pending@, tiles@).len() / 256,
            forall|b: int| 0 <= b < batches@.len() ==> (#[trigger] batches@[b])@
                == queued(old(self).pending@, tiles@).subrange(256 * b, 256 * b + 256),
            final(self).pending@ == queued(old(self).pending@, tiles@).subrange(
                256 * (queued(old(self).pending@, tiles@).len() / 256) as int,
                queued(old(self).pending@, tiles@).len() as int,
            ),
            final(self).total_boundary == old(self).total_boundary + boundary_tiles(tiles@).len(),
    {
        let ghost p0 = self.pending@;
        let t0 = self.total_boundary;
        proof {
            lemma_boundary_len(tiles@);
        }
        let mut all: Vec<TileCoord> = Vec::new();
        let mut i: usize = 0;
        while i < self.pending.len()
            invariant
                self.pending@ == p0,
                i <= p0.len(),
                all@ == p0.subrange(0, i as int),
            decreases p0.len() - i,
        {
            all.push(self.pending[i]);
            i += 1;
            assert(all@ =~= p0.subrange(0, i as int));
        }
        assert(all@ =~= p0 + boundary_tiles(tiles@.subrange(0, 0)));
        let mut added: u64 = 0;
        let mut j: usize = 0;
        while j < tiles.len()
            invariant
                j <= tiles@.len(),
                all@ == p0 + boundary_tiles(tiles@.subrange(0, j as int)),
                added as nat == boundary_tiles(tiles@.subrange(0, j as int)).len(),
                added <= j,
            decreases tiles@.len() - j,
        {
            assert(tiles@.subrange(0, j + 1).drop_last() =~= tiles@.subrange(0, j as int));
            let (c, on_boundary) = tiles[j];
            if on_boundary {
                all.push(c);
                added = added + 1;
            }
            j += 1;
            assert(all@ =~= p0 + boundary_tiles(tiles@.subrange(0, j as int)));
        }
        assert(tiles@.subrange(0, tiles@.len() as int) =~= tiles@);
        let ghost q = queued(p0, tiles@);
        assert(all@ == q);
        let total = all.len();
        let k = total / CLIP_BATCH;
        assert(256 * k <= q.len());
        let mut batches: Vec<Vec<TileCoord>> = Vec::new();
        let mut b: usize = 0;
        while b < k
            invariant
                all@ == q,
                total == q.len(),
                k == q.len() / 256,
                256 * k <= q.len(),
                b <= k,
                batches@.len() == b,
                forall|c: int| 0 <= c < b ==> (#[trigger] batches@[c])@ == q.subrange(256 * c, 256 * c + 256),
            decreases k - b,
        {
            assert(b * 256 + 256 <= 256 * k);
            let start = b * 256;
            let mut batch: Vec<TileCoord> = Vec::new();
            let mut m: usize = 0;
            while m < 256
                invariant
                    all@ == q,
                    b < k,
                    k == q.len() / 256,
                    256 * k <= q.len(),
                    start == 256 * b,
                    m <= 256,
                    batch@ == q.subrange(start as int, start + m),
                decreases 256 - m,
            {
                assert(start + m < 256 * k <= q.len());
                batch.push(all[start + m]);
                m += 1;
                assert(batch@ =~= q.subrange(start as int, start + m));
            }
            batches.push(batch);
            b += 1;
        }
        let mut rest: Vec<TileCoord> = Vec::new();
        let mut r: usize = k * 256;
        let ghost from = 256 * k;
        while r < all.len()
            invariant
                all@ == q,
                from == 256 * (q.len() / 256),
                from <= r <= q.len(),
                rest@ == q.subrange(from as int, r as int),
            decreases all.len() - r,
        {
            rest.push(all[r]);
            r += 1;
            assert(rest@ =~= q.subrange(from as int, r as int));
        }
        self.pending = rest;
        self.total_boundary = t0 + added;
        batches
    }

    /// The tiles still waiting when the download ends, clipped as a last,
    /// smaller batch.
    pub fn finish(self) -> (r: Vec<TileCoord>)
        ensures
            r@ == self.pending@,
    {
        self.pending
    }
}

/// The batches one after the other.
pub open spec fn flatten_batches(bs: Seq<Seq<TileCoord>>) -> Seq<TileCoord>
    decreases bs.len(),
{
    if bs.len() == 0 {
        Seq::empty()
    } else {
        flatten_batches(bs.drop_last()) + bs.last()
    }
}

proof fn lemma_flatten_prefix(q: Seq<TileCoord>, bs: Seq<Seq<TileCoord>>, n: int)
    requires
        0 <= n <= bs.len(),
        256 * bs.len() <= q.len(),
        forall|b: int| 0 <= b < bs.len() ==> #[trigger] bs[b] == q.subrange(256 * b, 256 * b + 256),
    ensures
        flatten_batches(bs.subrange(0, n)) == q.subrange(0, 256 * n),
    decreases n,
{
    if n > 0 {
        lemma_flatten_prefix(q, bs, n - 1);
        assert(bs.subrange(0, n).drop_last() =~= bs.subrange(0, n - 1));
        assert(bs.subrange(0, n).last() == bs[n - 1]);
        assert(q.subrange(0, 256 * (n - 1)) + q.subrange(256 * (n - 1), 256 * (n - 1) + 256) =~= q.subrange(0, 256 * n));
    } else {
        assert(bs.subrange(0, 0) =~= Seq::<Seq<TileCoord>>::empty());
        assert(q.subrange(0, 0) =~= Seq::<TileCoord>::empty());
    }
}

/// No boundary tile is lost or clipped twice: the batches a message
/// releases, one after the other and followed by what stays waiting, are
/// exactly the tiles that were waiting followed by the message's boundary
/// tiles, in order.
pub proof fn lemma_receive_conserves(q: Seq<TileCoord>, bs: Seq<Seq<TileCoord>>, rest: Seq<TileCoord>)
    requires
        bs.len() == q.len() / 256,
        forall|b: int| 0 <= b < bs.len() ==> #[trigger] bs[b] == q.subrange(256 * b, 256 * b + 256),
        rest == q.subrange(256 * (q.len() / 256) as int, q.len() as int),
    ensures
        flatten_batches(bs) + rest == q,
{
    lemma_flatten_prefix(q, bs, bs.len() as int);
    assert(bs.subrange(0, bs.len() as int) =~= bs);
    assert(q.subrange(0, 256 * bs.len() as int) + rest =~= q);
}

} // verus!
