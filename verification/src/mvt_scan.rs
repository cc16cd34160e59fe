//! Minimal reader of Mapbox Vector Tiles: only the layer names.
//!
//! A tile is a protobuf message whose field 3 (length-delimited) holds the
//! layers; a layer's field 1 (length-delimited) is its name. Wire types: 0
//! varint, 1 64-bit, 2 length-delimited, 5 32-bit.

use vstd::prelude::*;
use crate::compress::{gzip_decode, gzip_decoded, gzip_encode, gzip_encoded};
use crate::text::{sorted_insert, string_of, string_views, strictly_sorted, utf8_chars};
use vstd::utf8::{decode_utf8, valid_utf8};

verus! {

// ─── varints ────────────────────────────────────────────────────────────────

/// Reading a base-128 varint from `pos` with `acc` already holding the bits
/// of the groups read at shifts below `shift`: each byte adds its low seven
/// bits at `shift`; a byte without the high bit ends the number; a
/// continuation past shift 63 or the end of the buffer is an error.
/// Gives the value and the position after the last byte.
pub open spec fn varint_step(buf: Seq<u8>, pos: int, shift: u32, acc: u64) -> Option<(u64, int)>
    decreases 64 - shift,
{
    if pos < 0 || pos >= buf.len() || shift >= 64 {
        None
    } else {
        let b = buf[pos];
        let acc2 = acc | (((b & 0x7f) as u64) << shift);
        if b & 0x80 == 0 {
            Some((acc2, pos + 1))
        } else if shift + 7 > 63 {
            None
        } else {
            varint_step(buf, pos + 1, (shift + 7) as u32, acc2)
        }
    }
}

/// The varint at `pos`.
pub open spec fn varint_at(buf: Seq<u8>, pos: int) -> Option<(u64, int)> {
    varint_step(buf, pos, 0, 0)
}

pub proof fn lemma_varint_step_advances(buf: Seq<u8>, pos: int, shift: u32, acc: u64)
    ensures
        varint_step(buf, pos, shift, acc) matches Some((_, p)) ==> pos < p <= buf.len(),
    decreases 64 - shift,
{
    if pos >= 0 && pos < buf.len() && shift < 64 {
        let b = buf[pos];
        if b & 0x80 != 0 && shift + 7 <= 63 {
            lemma_varint_step_advances(buf, pos + 1, (shift + 7) as u32, acc | (((b & 0x7f) as u64) << shift));
        }
    }
}

/// Position after skipping a field value of wire type `wire` at `pos`.
pub open spec fn skip_field_at(buf: Seq<u8>, pos: int, wire: u8) -> Option<int> {
    if wire == 0 {
        match varint_at(buf, pos) {
            Some((_, p)) => Some(p),
            None => None,
        }
    } else if wire == 1 {
        if buf.len() - pos >= 8 { Some(pos + 8) } else { None }
    } else if wire == 2 {
        match varint_at(buf, pos) {
            Some((n, p)) => if buf.len() - p >= (n as usize) { Some(p + (n as usize)) } else { None },
            None => None,
        }
    } else if wire == 5 {
        if buf.len() - pos >= 4 { Some(pos + 4) } else { None }
    } else {
        None
    }
}

pub proof fn lemma_skip_field_advances(buf: Seq<u8>, pos: int, wire: u8)
    requires
        0 <= pos <= buf.len(),
    ensures
        skip_field_at(buf, pos, wire) matches Some(p) ==> pos <= p <= buf.len(),
{
    lemma_varint_step_advances(buf, pos, 0, 0);
}

/// Field tag of a key (`(key >> 3) as u32`).
pub open spec fn key_tag(key: u64) -> u32 {
    (key >> 3) as u32
}

/// Wire type of a key (`(key & 7) as u8`).
pub open spec fn key_wire(key: u64) -> u8 {
    (key & 7) as u8
}

/// The name of a layer message, scanning its fields from `pos`: the first
/// field 1 of wire type 2, when its bytes are UTF-8.
pub open spec fn layer_name_from(buf: Seq<u8>, pos: int) -> Option<Seq<char>>
    decreases buf.len() - pos,
{
    if pos < 0 || pos >= buf.len() {
        None
    } else {
        match varint_at(buf, pos) {
            None => None,
            Some((key, p1)) => {
                if key_tag(key) == 1 && key_wire(key) == 2 {
                    match varint_at(buf, p1) {
                        None => None,
                        Some((n, p2)) => {
                            let l = n as usize;
                            if buf.len() - p2 < l {
                                None
                            } else {
                                let s = buf.subrange(p2, p2 + l);
                                if valid_utf8(s) {
                                    Some(decode_utf8(s))
                                } else {
                                    None
                                }
                            }
                        },
                    }
                } else {
                    match skip_field_at(buf, p1, key_wire(key)) {
                        None => None,
                        Some(p3) => {
                            proof {
                                lemma_varint_step_advances(buf, pos, 0, 0);
                                lemma_skip_field_advances(buf, p1, key_wire(key));
                            }
                            layer_name_from(buf, p3)
                        },
                    }
                }
            },
        }
    }
}

/// The layer names of a tile, scanning its fields from `pos`, in the order
/// they appear; scanning stops at the first malformed field.
pub open spec fn layer_names_from(buf: Seq<u8>, pos: int) -> Seq<Seq<char>>
    decreases buf.len() - pos,
{
    if pos < 0 || pos >= buf.len() {
        Seq::empty()
    } else {
        match varint_at(buf, pos) {
            None => Seq::empty(),
            Some((key, p1)) => {
                proof {
                    lemma_varint_step_advances(buf, pos, 0, 0);
                }
                if key_tag(key) == 3 && key_wire(key) == 2 {
                    match varint_at(buf, p1) {
                        None => Seq::empty(),
                        Some((n, p2)) => {
                            proof {
                                lemma_varint_step_advances(buf, p1, 0, 0);
                            }
                            let l = n as usize;
                            if buf.len() - p2 < l {
                                Seq::empty()
                            } else {
                                let rest = layer_names_from(buf, p2 + l);
                                match layer_name_from(buf.subrange(p2, p2 + l), 0) {
                                    Some(nm) => seq![nm] + rest,
                                    None => rest,
                                }
                            }
                        },
                    }
                } else {
                    match skip_field_at(buf, p1, key_wire(key)) {
                        None => Seq::empty(),
                        Some(p3) => {
                            proof {
                                lemma_skip_field_advances(buf, p1, key_wire(key));
                            }
                            layer_names_from(buf, p3)
                        },
                    }
                }
            },
        }
    }
}

// ─── cursor ─────────────────────────────────────────────────────────────────

/// A read position in a byte buffer.
pub struct Cursor<'a> {
    pub buf: &'a [u8],
    pub pos: usize,
}

impl<'a> Cursor<'a> {
    pub fn new(buf: &'a [u8]) -> (r: Self)
        ensures
            r.buf@ == buf@,
            r.pos == 0,
    {
        Cursor { buf, pos: 0 }
    }

    /// Bytes left after the position (0 when the position is past the end).
    pub fn remaining(&self) -> (r: usize)
        ensures
            r as int == if self.pos <= self.buf@.len() { self.buf@.len() - self.pos } else { 0 },
    {
        if self.pos <= self.buf.len() {
            self.buf.len() - self.pos
        } else {
            0
        }
    }

    pub fn read_byte(&mut self) -> (r: Option<u8>)
        ensures
            final(self).buf == old(self).buf,
            old(self).pos >= old(self).buf@.len() ==> r is None && final(self).pos == old(self).pos,
            old(self).pos < old(self).buf@.len() ==> r == Some(old(self).buf@[old(self).pos as int])
                && final(self).pos == old(self).pos + 1,
    {
        if self.pos >= self.buf.len() {
            return None;
        }
        let b = self.buf[self.pos];
        self.pos += 1;
        Some(b)
    }

    /// Reads a base-128 varint.
    pub fn read_varint(&mut self) -> (r: Option<u64>)
        requires
            old(self).pos <= old(self).buf@.len(),
        ensures
            final(self).buf == old(self).buf,
            final(self).pos <= final(self).buf@.len(),
            r matches Some(v) ==> varint_at(old(self).buf@, old(self).pos as int) == Some((v, final(self).pos as int)),
            r is None ==> varint_at(old(self).buf@, old(self).pos as int) is None,
    {
        let ghost start = self.pos;
        let mut result: u64 = 0;
        let mut shift: u32 = 0;
        loop
            invariant
                self.buf == old(self).buf,
                start == old(self).pos,
                shift < 64,
                self.pos >= start,
                self.pos <= self.buf@.len(),
                varint_at(self.buf@, start as int) == varint_step(self.buf@, self.pos as int, shift, result),
            decreases 64 - shift,
        {
            let b = match self.read_byte() {
                Some(b) => b,
                None => return None,
            };
            result = result | (((b & 0x7F) as u64) << shift);
            if b & 0x80 == 0 {
                return Some(result);
            }
            if shift + 7 > 63 {
                return None;
            }
            shift = shift + 7;
        }
    }

    pub fn skip(&mut self, n: usize) -> (r: Option<()>)
        requires
            old(self).pos <= old(self).buf@.len(),
        ensures
            final(self).buf == old(self).buf,
            old(self).buf@.len() - old(self).pos >= n ==> r is Some && final(self).pos == old(self).pos + n,
            old(self).buf@.len() - old(self).pos < n ==> r is None && final(self).pos == old(self).pos,
    {
        if self.buf.len() - self.pos < n {
            return None;
        }
        self.pos += n;
        Some(())
    }

    pub fn read_slice(&mut self, n: usize) -> (r: Option<&'a [u8]>)
        requires
            old(self).pos <= old(self).buf@.len(),
        ensures
            final(self).buf == old(self).buf,
            old(self).buf@.len() - old(self).pos >= n ==> (r matches Some(s)
                && s@ == old(self).buf@.subrange(old(self).pos as int, old(self).pos + n)
                && final(self).pos == old(self).pos + n),
            old(self).buf@.len() - old(self).pos < n ==> r is None,
    {
        if self.buf.len() - self.pos < n {
            return None;
        }
        let s = vstd::slice::slice_subrange(self.buf, self.pos, self.pos + n);
        self.pos += n;
        Some(s)
    }

    /// Skips a field value of wire type `wire`.
    pub fn skip_field(&mut self, wire: u8) -> (r: Option<()>)
        requires
            old(self).pos <= old(self).buf@.len(),
        ensures
            final(self).buf == old(self).buf,
            r is Some <==> skip_field_at(old(self).buf@, old(self).pos as int, wire) is Some,
            r is Some ==> skip_field_at(old(self).buf@, old(self).pos as int, wire) == Some(final(self).pos as int),
            final(self).pos <= final(self).buf@.len(),
    {
        proof {
            lemma_varint_step_advances(self.buf@, self.pos as int, 0, 0);
        }
        if wire == 0 {
            match self.read_varint() {
                Some(_) => Some(()),
                None => None,
            }
        } else if wire == 1 {
            self.skip(8)
        } else if wire == 2 {
            let len = match self.read_varint() {
                Some(n) => n as usize,
                None => return None,
            };
            self.skip(len)
        } else if wire == 5 {
            self.skip(4)
        } else {
            None
        }
    }
}

// ─── layer names ────────────────────────────────────────────────────────────

/// The name of one layer message: its first field 1 of wire type 2, when
/// that is UTF-8.
pub fn extract_layer_name(layer_buf: &[u8]) -> (r: Option<String>)
    ensures
        r matches Some(s) ==> layer_name_from(layer_buf@, 0) == Some(s@),
        r is None ==> layer_name_from(layer_buf@, 0) is None,
{
    let mut cur = Cursor::new(layer_buf);
    while cur.remaining() > 0
        invariant
            cur.buf@ == layer_buf@,
            cur.pos <= cur.buf@.len(),
            layer_name_from(layer_buf@, 0) == layer_name_from(layer_buf@, cur.pos as int),
        decreases cur.buf@.len() - cur.pos,
    {
        let ghost pos = cur.pos;
        proof {
            lemma_varint_step_advances(cur.buf@, pos as int, 0, 0);
        }
        let key = match cur.read_varint() {
            Some(k) => k,
            None => return None,
        };
        let tag = (key >> 3) as u32;
        let wire = (key & 0x7) as u8;
        if tag == 1 && wire == 2 {
            let ghost p1 = cur.pos;
            proof {
                lemma_varint_step_advances(cur.buf@, p1 as int, 0, 0);
            }
            let len = match cur.read_varint() {
                Some(n) => n as usize,
                None => return None,
            };
            let slice = match cur.read_slice(len) {
                Some(s) => s,
                None => return None,
            };
            return match utf8_chars(slice) {
                Some(v) => Some(string_of(&v)),
                None => None,
            };
        }
        let ghost p1 = cur.pos;
        match cur.skip_field(wire) {
            Some(_) => {},
            None => return None,
        }
        proof {
            lemma_skip_field_advances(cur.buf@, p1 as int, wire);
        }
    }
    None
}

/// The set of layer names in one vector tile, sorted by code point and
/// without repeats (the order of a `BTreeSet<String>`). Scanning stops at the
/// first malformed field; what was found before stays.
pub fn extract_layer_names(tile_bytes: &[u8]) -> (r: Vec<String>)
    ensures
        strictly_sorted(string_views(r@)),
        string_views(r@).to_set() == layer_names_from(tile_bytes@, 0).to_set(),
{
    let mut names: Vec<String> = Vec::new();
    let mut cur = Cursor::new(tile_bytes);
    let ghost all = layer_names_from(tile_bytes@, 0);
    assert(string_views(names@) =~= Seq::<Seq<char>>::empty());
    assert(string_views(names@).to_set() + all.to_set() =~= all.to_set());
    while cur.remaining() > 0
        invariant
            cur.buf@ == tile_bytes@,
            cur.pos <= cur.buf@.len(),
            all == layer_names_from(tile_bytes@, 0),
            strictly_sorted(string_views(names@)),
            string_views(names@).to_set() + layer_names_from(tile_bytes@, cur.pos as int).to_set() == all.to_set(),
        decreases cur.buf@.len() - cur.pos,
    {
        let ghost pos = cur.pos;
        let ghost before = string_views(names@).to_set();
        proof {
            lemma_varint_step_advances(cur.buf@, pos as int, 0, 0);
        }
        let key = match cur.read_varint() {
            Some(k) => k,
            None => {
                proof {
                    assert(layer_names_from(tile_bytes@, pos as int) =~= Seq::<Seq<char>>::empty());
                    assert(before + Seq::<Seq<char>>::empty().to_set() =~= before);
                }
                return names;
            },
        };
        let tag = (key >> 3) as u32;
        let wire = (key & 0x7) as u8;
        if tag == 3 && wire == 2 {
            let ghost p1 = cur.pos;
            proof {
                lemma_varint_step_advances(cur.buf@, p1 as int, 0, 0);
            }
            let layer_len = match cur.read_varint() {
                Some(n) => n as usize,
                None => {
                    proof {
                        assert(before + Seq::<Seq<char>>::empty().to_set() =~= before);
                    }
                    return names;
                },
            };
            let ghost p2 = cur.pos;
            let layer_buf = match cur.read_slice(layer_len) {
                Some(s) => s,
                None => {
                    proof {
                        assert(before + Seq::<Seq<char>>::empty().to_set() =~= before);
                    }
                    return names;
                },
            };
            let ghost rest = layer_names_from(tile_bytes@, cur.pos as int);
            match extract_layer_name(layer_buf) {
                Some(name) => {
                    let ghost nm = name@;
                    sorted_insert(&mut names, name);
                    proof {
                        assert((seq![nm] + rest).to_set() =~= rest.to_set().insert(nm)) by {
                            assert forall|e: Seq<char>| (seq![nm] + rest).to_set().contains(e) <==> rest.to_set().insert(nm).contains(e) by {
                                if (seq![nm] + rest).to_set().contains(e) {
                                    let k = choose|k: int| 0 <= k < (seq![nm] + rest).len() && (seq![nm] + rest)[k] == e;
                                    if k > 0 {
                                        assert(rest[k - 1] == e);
                                    }
                                }
                                if rest.to_set().contains(e) {
                                    let k = choose|k: int| 0 <= k < rest.len() && rest[k] == e;
                                    assert((seq![nm] + rest)[k + 1] == e);
                                }
                                if e == nm {
                                    assert((seq![nm] + rest)[0] == e);
                                }
                            }
                        }
                        assert(string_views(names@).to_set() + rest.to_set() =~= before + (seq![nm] + rest).to_set());
                    }
                },
                None => {},
            }
        } else {
            let ghost p1 = cur.pos;
            match cur.skip_field(wire) {
                Some(_) => {},
                None => {
                    proof {
                        assert(before + Seq::<Seq<char>>::empty().to_set() =~= before);
                    }
                    return names;
                },
            }
            proof {
                lemma_skip_field_advances(cur.buf@, p1 as int, wire);
            }
        }
    }
    proof {
        if cur.pos >= cur.buf@.len() {
            assert(layer_names_from(tile_bytes@, cur.pos as int) =~= Seq::<Seq<char>>::empty());
            assert(string_views(names@).to_set() + Seq::<Seq<char>>::empty().to_set() =~= string_views(names@).to_set());
        }
    }
    names
}

// ─── gzip framing ───────────────────────────────────────────────────────────

/// Starts with the gzip magic bytes `1f 8b`.
pub open spec fn gzipped(data: Seq<u8>) -> bool {
    data.len() >= 2 && data[0] == 0x1f && data[1] == 0x8b
}

/// Whether the bytes already are a gzip stream.
pub fn is_gzipped(data: &[u8]) -> (r: bool)
    ensures
        r == gzipped(data@),
{
    data.len() >= 2 && data[0] == 0x1F && data[1] == 0x8B
}

/// What `maybe_gunzip` gives: the inflated bytes of a gzip stream that
/// inflates, the input otherwise.
pub open spec fn gunzipped(data: Seq<u8>) -> Seq<u8> {
    if gzipped(data) {
        match gzip_decoded(data) {
            Some(v) => v,
            None => data,
        }
    } else {
        data
    }
}

/// Inflates gzip data so that it can be scanned; other data, and gzip data
/// that fails to inflate, is returned as it is.
pub fn maybe_gunzip(data: &[u8]) -> (r: Vec<u8>)
    ensures
        r@ == gunzipped(data@),
{
    if !is_gzipped(data) {
        return crate::bytes::slice_bytes(data, 0, data.len());
    }
    match gzip_decode(data) {
        Some(v) => v,
        None => crate::bytes::slice_bytes(data, 0, data.len()),
    }
}

/// What `gzip_wrap` gives: gzip data as it is, other data gzip-compressed
/// (or as it is when compressing fails).
pub open spec fn gzip_wrapped(data: Seq<u8>) -> Seq<u8> {
    if gzipped(data) {
        data
    } else {
        match gzip_encoded(data) {
            Some(v) => v,
            None => data,
        }
    }
}

/// Wraps raw vector-tile bytes in gzip, as MBTiles / PMTiles expect; data
/// that already is gzip is not compressed twice.
pub fn gzip_wrap(data: &[u8]) -> (r: Vec<u8>)
    ensures
        r@ == gzip_wrapped(data@),
        gzipped(data@) ==> r@ == data@,
        r@ == data@ || gzipped(r@),
        !gzipped(data@) ==> gunzipped(r@) == data@,
        gzip_wrapped(r@) == r@,
{
    if is_gzipped(data) {
        return crate::bytes::slice_bytes(data, 0, data.len());
    }
    match gzip_encode(data) {
        Some(v) => v,
        None => crate::bytes::slice_bytes(data, 0, data.len()),
    }
}

} // verus!
