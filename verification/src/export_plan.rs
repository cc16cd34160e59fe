//! Decisions of the exporters (MBTiles, PMTiles, z/x/y directory) and of the
//! MBTiles import: how the tiles of a format are written, whether they are
//! clipped on the way out, the row numbering of MBTiles, the name of an
//! exported file, which tiles are re-encoded, the vector layers named in the
//! metadata, and how an imported row becomes a tile.

use vstd::prelude::*;
use crate::download_plan::{is_vector_format, vector_format};
use crate::rules::opt_view;
use crate::text::{
    ascii_lower, ascii_lower_char, chars_of, lower_text, str_eq, str_eq_chars, string_of,
    to_lowercase_chars,
};
use crate::types::CrsType;
use crate::task_status::TaskStatus;
use crate::tile_grid::TileCoord;
use crate::mvt_scan::{extract_layer_names, gunzipped, layer_names_from, maybe_gunzip};
use crate::text::{lemma_lex_irrefl, sorted_insert, strictly_sorted, string_views};
use crate::stable_sort::{sort_by_keys, sorts_before, stable_order};
use crate::text::{kv_get, kv_map, pair_views, parse_unsigned, parse_unsigned_chars};

verus! {

/// `str::to_ascii_lowercase`.
pub open spec fn ascii_lower_seq(s: Seq<char>) -> Seq<char> {
    s.map_values(|c: char| ascii_lower(c))
}

fn to_ascii_lowercase_string(s: &str) -> (r: String)
    ensures
        r@ == ascii_lower_seq(s@),
{
    let cs = chars_of(s);
    let mut out: Vec<char> = Vec::new();
    let mut i: usize = 0;
    while i < cs.len()
        invariant
            cs@ == s@,
            i <= cs.len(),
            out@ == ascii_lower_seq(s@).subrange(0, i as int),
        decreases cs.len() - i,
    {
        out.push(ascii_lower_char(cs[i]));
        i += 1;
        assert(out@ =~= ascii_lower_seq(s@).subrange(0, i as int));
    }
    assert(ascii_lower_seq(s@).subrange(0, cs.len() as int) =~= ascii_lower_seq(s@));
    string_of(&out)
}

/// The `tiles.clipped` mark of a tile store says that its tiles were
/// clipped when they were downloaded.
pub open spec fn clipped_mark_set(mark: Option<Seq<char>>) -> bool {
    mark == Some("1"@)
}

fn is_clipped(mark: Option<&str>) -> (r: bool)
    ensures
        r == clipped_mark_set(opt_view(mark)),
{
    match mark {
        Some(v) => str_eq(v, "1"),
        None => false,
    }
}

/// The zoom level written as the centre of an export.
pub fn center_zoom(min_zoom: u8, max_zoom: u8) -> (r: u8)
    requires
        min_zoom + max_zoom <= u8::MAX,
    ensures
        r == (min_zoom + max_zoom) / 2,
{
    (min_zoom + max_zoom) / 2
}

// ─── MBTiles ────────────────────────────────────────────────────────────────

/// How a task's tiles go into an MBTiles file.
#[derive(Debug, Clone)]
pub struct MbtilesPlan {
    /// Vector tiles: stored gzip-wrapped, neither clipped nor re-encoded.
    pub is_vector: bool,
    /// The `format` metadata entry.
    pub metadata_format: String,
    /// The `type` metadata entry.
    pub layer_type: &'static str,
    /// Raster tiles are clipped to the task's area on the way out.
    pub need_clip: bool,
}

/// The MBTiles plan for tiles of `format`, when clipping was asked for or
/// not and with the store's `tiles.clipped` mark.
pub fn mbtiles_plan(format: &str, clip_to_bounds: bool, clipped_mark: Option<&str>) -> (r: MbtilesPlan)
    ensures
        r.is_vector == vector_format(format@),
        r.metadata_format@ == (if r.is_vector { "pbf"@ } else { ascii_lower_seq(format@) }),
        r.layer_type@ == (if r.is_vector { "overlay"@ } else { "baselayer"@ }),
        r.need_clip == (clip_to_bounds && !clipped_mark_set(opt_view(clipped_mark))),
{
    let is_vector = is_vector_format(format);
    let metadata_format = if is_vector {
        String::from_str("pbf")
    } else {
        to_ascii_lowercase_string(format)
    };
    let layer_type = if is_vector { "overlay" } else { "baselayer" };
    MbtilesPlan { is_vector, metadata_format, layer_type, need_clip: clip_to_bounds && !is_clipped(clipped_mark) }
}

/// The MBTiles row of the tile in row `y` (counted from the north) of zoom
/// `z`: rows count from the south, `2^z - 1 - y`.
pub fn mbtiles_row(z: i64, y: i64) -> (r: i64)
    requires
        0 <= z <= 62,
        i64::MIN <= vstd::arithmetic::power2::pow2(z as nat) - 1 - y <= i64::MAX,
    ensures
        r == vstd::arithmetic::power2::pow2(z as nat) - 1 - y,
{
    let zz = z as u64;
    proof {
        vstd::arithmetic::power2::lemma_pow2_strictly_increases(zz as nat, 63);
        vstd::arithmetic::power2::lemma_pow2_pos(zz as nat);
        vstd::bits::lemma_u64_pow2_no_overflow(zz as nat);
        vstd::bits::lemma_u64_shl_is_mul(1, zz);
        vstd::arithmetic::power2::lemma2_to64_rest();
    }
    let n: u64 = 1u64 << zz;
    assert(n == vstd::arithmetic::power2::pow2(z as nat));
    assert(1 <= n < 0x8000_0000_0000_0000u64);
    let m: i64 = n as i64;
    assert(m == n);
    m - 1 - y
}

// ─── PMTiles ────────────────────────────────────────────────────────────────

/// Tile type recorded in a PMTiles header.
#[derive(Debug, Clone, Copy, PartialEq, Eq, Structural)]
pub enum PmTileType {
    Png,
    Jpeg,
    Webp,
    Mvt,
    Unknown,
}

/// The tile type of a lower-cased format.
pub open spec fn pm_tile_type(format_lc: Seq<char>) -> PmTileType {
    if format_lc == "png"@ {
        PmTileType::Png
    } else if format_lc == "jpg"@ || format_lc == "jpeg"@ {
        PmTileType::Jpeg
    } else if format_lc == "webp"@ {
        PmTileType::Webp
    } else if format_lc == "pbf"@ || format_lc == "mvt"@ {
        PmTileType::Mvt
    } else {
        PmTileType::Unknown
    }
}

/// How a task's tiles go into a PMTiles file.
#[derive(Debug, Clone, Copy, PartialEq, Eq, Structural)]
pub struct PmtilesPlan {
    pub tile_type: PmTileType,
    /// Vector tiles: written raw and gzip-compressed by the writer.
    pub is_vector: bool,
    /// Raster tiles are clipped to the task's area on the way out.
    pub need_clip: bool,
}

/// Why an export is refused.
#[derive(Debug, Clone, Copy, PartialEq, Eq, Structural)]
pub enum ExportRefusal {
    /// PMTiles holds Web Mercator tiles only.
    NotWebMercator,
}

/// The PMTiles plan, refused for any grid but Web Mercator.
pub fn pmtiles_plan(crs: CrsType, format: &str, clip_to_bounds: bool, clipped_mark: Option<&str>) -> (r: Result<PmtilesPlan, ExportRefusal>)
    ensures
        r is Err <==> crs != CrsType::WebMercator,
        r matches Ok(p) ==> p.tile_type == pm_tile_type(ascii_lower_seq(format@))
            && p.is_vector == vector_format(format@)
            && p.need_clip == (clip_to_bounds && !clipped_mark_set(opt_view(clipped_mark)) && !p.is_vector),
{
    match crs {
        CrsType::WebMercator => {},
        _ => {
            return Err(ExportRefusal::NotWebMercator);
        },
    }
    let lc = chars_of(to_ascii_lowercase_string(format).as_str());
    let is_vector = is_vector_format(format);
    let tile_type = if str_eq_chars("png", &lc) {
        PmTileType::Png
    } else if str_eq_chars("jpg", &lc) || str_eq_chars("jpeg", &lc) {
        PmTileType::Jpeg
    } else if str_eq_chars("webp", &lc) {
        PmTileType::Webp
    } else if str_eq_chars("pbf", &lc) || str_eq_chars("mvt", &lc) {
        PmTileType::Mvt
    } else {
        PmTileType::Unknown
    };
    Ok(PmtilesPlan { tile_type, is_vector, need_clip: clip_to_bounds && !is_clipped(clipped_mark) && !is_vector })
}

/// The id a PMTiles file gives a tile, `pmtiles::TileId::from` its
/// `pmtiles::TileCoord`: the tile's place on its zoom level's Hilbert curve,
/// after all tiles of lower levels.
pub uninterp spec fn pmtiles_tile_id(z: u8, x: u32, y: u32) -> u64;

/// Coordinates that the PMTiles format takes: zoom at most 31, column and
/// row inside the zoom level's grid.
pub open spec fn pmtiles_coord_valid(z: u8, x: u32, y: u32) -> bool {
    z <= 31 && x < vstd::arithmetic::power2::pow2(z as nat) && y < vstd::arithmetic::power2::pow2(z as nat)
}

/// Tiles on the zoom levels below `z`: `4^0 + 4^1 + … + 4^(z-1)`.
pub open spec fn pyramid_base(z: nat) -> nat
    decreases z,
{
    if z == 0 {
        0
    } else {
        pyramid_base((z - 1) as nat) + vstd::arithmetic::power2::pow2(2 * (z - 1) as nat)
    }
}

/// `id` is one of the ids of zoom level `z`: past the tiles of the lower
/// levels and before those of the higher ones.
pub open spec fn id_on_level(z: u8, id: u64) -> bool {
    pyramid_base(z as nat) <= id < pyramid_base(z as nat + 1)
}

/// `pmtiles::TileCoord::new(z, x, y)`, then for accepted coordinates
/// `pmtiles::TileId::from` that coordinate. The contract claims the test
/// that `TileCoord::new` makes (zoom at most 31, column and row below
/// `2^z`), names the id, and places it on its level: `TileId::from` adds
/// to the count of lower-level tiles (`PYRAMID_SIZE_BY_ZOOM`) the tile's
/// Hilbert index `fast_hilbert::xy2h`, which that crate documents to lie
/// below `4^z` for coordinates below `2^z`. How the Hilbert index is
/// computed is not stated.
#[verifier::external_body]
fn pmtiles_tile_id_of(z: u8, x: u32, y: u32) -> (r: Option<u64>)
    ensures
        r is Some <==> pmtiles_coord_valid(z, x, y),
        r matches Some(id) ==> id == pmtiles_tile_id(z, x, y) && id_on_level(z, id),
{
    match pmtiles::TileCoord::new(z, x, y) {
        Ok(c) => Some(pmtiles::TileId::from(c).value()),
        Err(_) => None,
    }
}

/// The tiles of zoom level `z` read from a tile store as (column, row), in
/// the order they were read: each cut to 32 bits, those the format refuses
/// left out, each with its tile id.
pub open spec fn pm_entries(z: u8, rows: Seq<(i64, i64)>) -> Seq<(u32, u32, u64)>
    decreases rows.len(),
{
    if rows.len() == 0 {
        Seq::empty()
    } else {
        let prev = pm_entries(z, rows.drop_last());
        let x = rows.last().0 as u32;
        let y = rows.last().1 as u32;
        if pmtiles_coord_valid(z, x, y) {
            prev.push((x, y, pmtiles_tile_id(z, x, y)))
        } else {
            prev
        }
    }
}

pub open spec fn entry_keys(e: Seq<(u32, u32, u64)>) -> Seq<u64> {
    e.map_values(|t: (u32, u32, u64)| t.2)
}

/// The tiles of one zoom level in the order a PMTiles writer takes them:
/// by ascending tile id, which lets it merge repeated tiles and runs.
pub fn pmtiles_zoom_entries(z: u8, rows: &Vec<(i64, i64)>) -> (r: Vec<(u32, u32, u64)>)
    ensures
        exists|o: Seq<int>| #[trigger] stable_order(entry_keys(pm_entries(z, rows@)), o, false)
            && r@.len() == pm_entries(z, rows@).len()
            && forall|k: int| 0 <= k < o.len() ==> r@[k] == pm_entries(z, rows@)[#[trigger] o[k]],
        forall|a: int, b: int| 0 <= a < b < r@.len() ==> #[trigger] r@[a].2 <= #[trigger] r@[b].2,
        forall|k: int| 0 <= k < r@.len() ==> id_on_level(z, #[trigger] r@[k].2),
{
    let mut entries: Vec<(u32, u32, u64)> = Vec::new();
    let mut keys: Vec<u64> = Vec::new();
    let mut i: usize = 0;
    while i < rows.len()
        invariant
            i <= rows.len(),
            entries@ == pm_entries(z, rows@.subrange(0, i as int)),
            keys@ == entry_keys(entries@),
            forall|k: int| 0 <= k < entries@.len() ==> id_on_level(z, #[trigger] entries@[k].2),
        decreases rows.len() - i,
    {
        let ghost pre = rows@.subrange(0, i as int);
        assert(rows@.subrange(0, i + 1).drop_last() =~= pre);
        let (cx, cy) = rows[i];
        let x = cx as u32;
        let y = cy as u32;
        match pmtiles_tile_id_of(z, x, y) {
            Some(id) => {
                entries.push((x, y, id));
                keys.push(id);
                assert(keys@ =~= entry_keys(entries@));
            },
            None => {},
        }
        i += 1;
    }
    assert(rows@.subrange(0, rows@.len() as int) =~= rows@);
    let ghost e0 = entries@;
    let o = sort_by_keys(&mut entries, &mut keys, false);
    assert(stable_order(entry_keys(e0), o@, false));
    assert forall|a: int, b: int| 0 <= a < b < entries@.len() implies #[trigger] entries@[a].2 <= #[trigger] entries@[b].2 by {
        assert(sorts_before(entry_keys(e0), o@[a], o@[b], false));
    }
    assert forall|k: int| 0 <= k < entries@.len() implies id_on_level(z, #[trigger] entries@[k].2) by {
        assert(0 <= o@[k] < e0.len());
        assert(entries@[k] == e0[o@[k]]);
    }
    entries
}

/// Tiles on the levels below `z1` are no more than those below `z2` when
/// `z1 <= z2`.
proof fn lemma_pyramid_base_mono(z1: nat, z2: nat)
    requires
        z1 <= z2,
    ensures
        pyramid_base(z1) <= pyramid_base(z2),
    decreases z2 - z1,
{
    if z1 < z2 {
        lemma_pyramid_base_mono(z1, (z2 - 1) as nat);
    }
}

/// Every id of a lower zoom level comes before every id of a higher one, so
/// writing the levels in ascending order, each sorted by id, hands a PMTiles
/// writer its tiles in ascending id order.
pub proof fn lemma_lower_levels_first(z1: u8, id1: u64, z2: u8, id2: u64)
    requires
        z1 < z2,
        id_on_level(z1, id1),
        id_on_level(z2, id2),
    ensures
        id1 < id2,
{
    lemma_pyramid_base_mono(z1 as nat + 1, z2 as nat);
}

// ─── z/x/y directory ────────────────────────────────────────────────────────

/// How a task's tiles go into a z/x/y directory tree.
#[derive(Debug, Clone, Copy)]
pub struct DirectoryPlan {
    /// File extension of the tiles.
    pub ext: &'static str,
    pub need_clip: bool,
}

/// The file extension for a format (compared lower-cased): `jpg` for JPEG,
/// `webp`, and `png` for everything else.
pub open spec fn directory_ext(format: Seq<char>) -> Seq<char> {
    let l = lower_text(format);
    if l == "jpg"@ || l == "jpeg"@ {
        "jpg"@
    } else if l == "webp"@ {
        "webp"@
    } else {
        "png"@
    }
}

/// The plan of a directory export.
pub fn directory_plan(format: &str, clip_to_bounds: bool, clipped_mark: Option<&str>) -> (r: DirectoryPlan)
    ensures
        r.ext@ == directory_ext(format@),
        r.need_clip == (clip_to_bounds && !clipped_mark_set(opt_view(clipped_mark))),
{
    let l = to_lowercase_chars(&chars_of(format));
    let ext = if str_eq_chars("jpg", &l) || str_eq_chars("jpeg", &l) {
        "jpg"
    } else if str_eq_chars("webp", &l) {
        "webp"
    } else {
        "png"
    };
    DirectoryPlan { ext, need_clip: clip_to_bounds && !is_clipped(clipped_mark) }
}

/// Starts with the PNG signature `89 50 4E 47`.
pub open spec fn png_signature(data: Seq<u8>) -> bool {
    data.len() >= 4 && data[0] == 0x89 && data[1] == 0x50 && data[2] == 0x4E && data[3] == 0x47
}

/// Starts with the JPEG marker `FF D8`.
pub open spec fn jpeg_signature(data: Seq<u8>) -> bool {
    data.len() >= 2 && data[0] == 0xFF && data[1] == 0xD8
}

fn has_png_signature(data: &[u8]) -> (r: bool)
    ensures
        r == png_signature(data@),
{
    data.len() >= 4 && data[0] == 0x89 && data[1] == 0x50 && data[2] == 0x4E && data[3] == 0x47
}

/// The extension of one exported tile file: a clipped tile that came out
/// as PNG is written as `.png`, every other tile under the plan's extension.
pub fn tile_file_ext(plan: &DirectoryPlan, data: &[u8]) -> (r: &'static str)
    ensures
        r@ == (if plan.need_clip && png_signature(data@) { "png"@ } else { plan.ext@ }),
{
    if plan.need_clip && has_png_signature(data) {
        "png"
    } else {
        plan.ext
    }
}

// ─── re-encoding ────────────────────────────────────────────────────────────

/// Compression effort of a re-encoded PNG.
#[derive(Debug, Clone, Copy, PartialEq, Eq, Structural)]
pub enum PngCompression {
    Fast,
    Default,
    Best,
}

/// What is done to a tile's bytes before they are written.
#[derive(Debug, Clone, Copy, PartialEq, Eq, Structural)]
pub enum Reencode {
    /// Re-encode as JPEG with this quality (1 to 100).
    Jpeg(u8),
    /// Re-encode as PNG with this effort.
    Png(PngCompression),
    /// Write the bytes as they are.
    Keep,
}

/// The re-encoding of a tile: a JPEG tile takes the JPEG quality when one is
/// set (brought into 1..=100); a PNG tile takes the PNG level when one is set
/// (brought into 0..=9; up to 3 fast, up to 6 default, else best); any other
/// tile, or one whose setting is absent, is kept.
pub open spec fn reencode_of(data: Seq<u8>, jpeg_quality: Option<u8>, png_level: Option<u8>) -> Reencode {
    if jpeg_signature(data) {
        match jpeg_quality {
            Some(q) => Reencode::Jpeg(if q < 1 { 1 } else if q > 100 { 100 } else { q }),
            None => Reencode::Keep,
        }
    } else if png_signature(data) {
        match png_level {
            Some(l) => Reencode::Png(if l <= 3 {
                PngCompression::Fast
            } else if l <= 6 {
                PngCompression::Default
            } else {
                PngCompression::Best
            }),
            None => Reencode::Keep,
        }
    } else {
        Reencode::Keep
    }
}

/// Chooses how a tile is re-encoded before it is written; an encoder that
/// fails leaves the tile as it was.
pub fn reencode_plan(data: &[u8], jpeg_quality: Option<u8>, png_level: Option<u8>) -> (r: Reencode)
    ensures
        r == reencode_of(data@, jpeg_quality, png_level),
{
    if data.len() >= 2 && data[0] == 0xFF && data[1] == 0xD8 {
        match jpeg_quality {
            Some(q) => Reencode::Jpeg(if q < 1 { 1 } else if q > 100 { 100 } else { q }),
            None => Reencode::Keep,
        }
    } else if has_png_signature(data) {
        match png_level {
            Some(l) => {
                let level = if l > 9 { 9 } else { l };
                Reencode::Png(if level <= 3 {
                    PngCompression::Fast
                } else if level <= 6 {
                    PngCompression::Default
                } else {
                    PngCompression::Best
                })
            },
            None => Reencode::Keep,
        }
    } else {
        Reencode::Keep
    }
}

// ─── vector layers ──────────────────────────────────────────────────────────

pub open spec fn byte_views(s: Seq<Vec<u8>>) -> Seq<Seq<u8>> {
    s.map_values(|v: Vec<u8>| v@)
}

/// The layer names of one sample tile, gzip-wrapped or raw.
pub open spec fn sample_names(tile: Seq<u8>) -> Set<Seq<char>> {
    layer_names_from(gunzipped(tile), 0).to_set()
}

/// The layer names of the first `k` sample tiles.
pub open spec fn names_upto(samples: Seq<Seq<u8>>, k: int) -> Set<Seq<char>>
    decreases k,
{
    if k <= 0 {
        Set::empty()
    } else {
        names_upto(samples, k - 1).union(sample_names(samples[k - 1]))
    }
}

/// How many sample tiles are scanned, from the `k`th on: scanning stops
/// after the first tile that brings the number of known names above 64.
pub open spec fn samples_scanned_from(samples: Seq<Seq<u8>>, k: int) -> int
    decreases samples.len() - k,
{
    if k >= samples.len() {
        samples.len() as int
    } else if names_upto(samples, k + 1).len() > 64 {
        k + 1
    } else {
        samples_scanned_from(samples, k + 1)
    }
}

proof fn lemma_sorted_no_duplicates(v: Seq<Seq<char>>)
    requires
        strictly_sorted(v),
    ensures
        v.no_duplicates(),
        v.to_set().len() == v.len(),
{
    assert forall|i: int, j: int| 0 <= i < v.len() && 0 <= j < v.len() && i != j implies v[i] != v[j] by {
        lemma_lex_irrefl(v[i]);
        if i < j {
            assert(crate::text::lex_lt(v[i], v[j]));
        } else {
            assert(crate::text::lex_lt(v[j], v[i]));
        }
    }
    v.unique_seq_to_set();
}

/// The names of the vector layers found in sample tiles (gzip-wrapped or
/// raw), sorted by code point and without repeats; sampling stops after the
/// first tile that brings the number of names above 64.
pub fn sample_layer_names(samples: &Vec<Vec<u8>>) -> (r: Vec<String>)
    ensures
        strictly_sorted(string_views(r@)),
        string_views(r@).to_set() == names_upto(byte_views(samples@), samples_scanned_from(byte_views(samples@), 0)),
{
    let ghost sv = byte_views(samples@);
    let mut names: Vec<String> = Vec::new();
    let mut i: usize = 0;
    assert(string_views(names@).to_set() =~= names_upto(sv, 0));
    while i < samples.len()
        invariant
            sv == byte_views(samples@),
            i <= samples.len(),
            strictly_sorted(string_views(names@)),
            string_views(names@).to_set() == names_upto(sv, i as int),
            samples_scanned_from(sv, 0) == samples_scanned_from(sv, i as int),
        decreases samples.len() - i,
    {
        let decoded = maybe_gunzip(samples[i].as_slice());
        let found = extract_layer_names(decoded.as_slice());
        assert(decoded@ == gunzipped(sv[i as int]));
        let ghost before = string_views(names@).to_set();
        let mut j: usize = 0;
        assert(string_views(found@).subrange(0, 0).to_set() =~= Set::<Seq<char>>::empty());
        assert(before.union(Set::<Seq<char>>::empty()) =~= before);
        while j < found.len()
            invariant
                j <= found.len(),
                strictly_sorted(string_views(names@)),
                string_views(names@).to_set() == before.union(string_views(found@).subrange(0, j as int).to_set()),
            decreases found.len() - j,
        {
            let ghost prev = string_views(found@).subrange(0, j as int);
            sorted_insert(&mut names, found[j].clone());
            proof {
                assert(string_views(found@).subrange(0, j + 1) =~= prev.push(found@[j as int]@));
                prev.lemma_push_to_set_commute(found@[j as int]@);
                assert(before.union(prev.to_set()).insert(found@[j as int]@) =~= before.union(prev.push(found@[j as int]@).to_set()));
            }
            j += 1;
        }
        proof {
            assert(string_views(found@).subrange(0, found@.len() as int) =~= string_views(found@));
            assert(names_upto(sv, i + 1) == names_upto(sv, i as int).union(sample_names(sv[i as int])));
            lemma_sorted_no_duplicates(string_views(names@));
        }
        i += 1;
        if names.len() > 64 {
            assert(names_upto(sv, i as int).len() > 64);
            return names;
        }
    }
    names
}

/// One entry of the `vector_layers` metadata.
#[derive(Debug, Clone)]
pub struct VectorLayer {
    pub id: String,
    pub description: String,
    pub min_zoom: u8,
    pub max_zoom: u8,
}

/// The description of the entry written when no layer name was found.
pub open spec fn placeholder_description() -> Seq<char> {
    "Vector layer (auto-generated placeholder; original style spec unavailable)"@
}

/// The `vector_layers` metadata: one entry per name, with an empty
/// description, or a single `default` entry when there is no name.
pub fn vector_layers(names: &Vec<String>, min_zoom: u8, max_zoom: u8) -> (r: Vec<VectorLayer>)
    ensures
        names@.len() == 0 ==> r@.len() == 1 && r@[0].id@ == "default"@
            && r@[0].description@ == placeholder_description()
            && r@[0].min_zoom == min_zoom && r@[0].max_zoom == max_zoom,
        names@.len() > 0 ==> r@.len() == names@.len() && forall|i: int| 0 <= i < r@.len() ==>
            (#[trigger] r@[i]).id@ == names@[i]@ && r@[i].description@ == Seq::<char>::empty()
                && r@[i].min_zoom == min_zoom && r@[i].max_zoom == max_zoom,
{
    let mut r: Vec<VectorLayer> = Vec::new();
    if names.len() == 0 {
        r.push(VectorLayer {
            id: String::from_str("default"),
            description: String::from_str("Vector layer (auto-generated placeholder; original style spec unavailable)"),
            min_zoom,
            max_zoom,
        });
        return r;
    }
    let mut i: usize = 0;
    while i < names.len()
        invariant
            i <= names.len(),
            r@.len() == i,
            forall|k: int| 0 <= k < i ==> (#[trigger] r@[k]).id@ == names@[k]@ && r@[k].description@ == Seq::<char>::empty()
                && r@[k].min_zoom == min_zoom && r@[k].max_zoom == max_zoom,
        decreases names.len() - i,
    {
        r.push(VectorLayer { id: names[i].clone(), description: String::new(), min_zoom, max_zoom });
        i += 1;
    }
    r
}

// ─── MBTiles import ─────────────────────────────────────────────────────────

/// Why a row of an MBTiles file is not imported.
#[derive(Debug, Clone, Copy, PartialEq, Eq, Structural)]
pub enum ImportRowError {
    /// `zoom_level` is not a `u8`.
    ZoomOutOfRange,
    /// `tile_column` is negative.
    ColumnOutOfRange,
    /// `tile_row` is negative.
    RowOutOfRange,
}

/// The tile of an MBTiles row `(zoom_level, tile_column, tile_row)`: the
/// zoom must fit a `u8` and column and row a `u32` (checked in that order);
/// the row, counted from the south, is turned into one counted from the
/// north, `2^z - 1 - row` in wrapping `u32` arithmetic.
pub open spec fn import_row_of(z: i32, x: i32, tms_y: i32) -> Result<TileCoord, ImportRowError> {
    if !(0 <= z <= 255) {
        Err(ImportRowError::ZoomOutOfRange)
    } else if x < 0 {
        Err(ImportRowError::ColumnOutOfRange)
    } else if tms_y < 0 {
        Err(ImportRowError::RowOutOfRange)
    } else {
        let top = vstd::arithmetic::power2::pow2(z as nat) - 1;
        let y = if tms_y <= top { top - tms_y } else { top - tms_y + 0x1_0000_0000 };
        Ok(TileCoord { z: z as u8, x: x as u32, y: y as u32 })
    }
}

/// Converts one row of an imported MBTiles file.
pub fn import_row(z: i32, x: i32, tms_y: i32) -> (r: Result<TileCoord, ImportRowError>)
    requires
        !(32 <= z <= 255),
    ensures
        r == import_row_of(z, x, tms_y),
{
    if z < 0 || z > 255 {
        return Err(ImportRowError::ZoomOutOfRange);
    }
    if x < 0 {
        return Err(ImportRowError::ColumnOutOfRange);
    }
    if tms_y < 0 {
        return Err(ImportRowError::RowOutOfRange);
    }
    let zz = z as u32;
    proof {
        vstd::bits::lemma_u32_pow2_no_overflow(zz as nat);
        vstd::bits::lemma_u32_shl_is_mul(1, zz);
        vstd::arithmetic::power2::lemma_pow2_pos(zz as nat);
    }
    let n: u32 = 1u32 << zz;
    assert(n == vstd::arithmetic::power2::pow2(z as nat));
    let y = n.wrapping_sub(1).wrapping_sub(tms_y as u32);
    Ok(TileCoord { z: z as u8, x: x as u32, y })
}

/// The state an import ends in: completed, or completed with errors when
/// some tile could not be saved.
pub fn import_final_status(failed: i64) -> (r: TaskStatus)
    ensures
        r == (if failed == 0 { TaskStatus::Completed } else { TaskStatus::CompletedWithErrors }),
{
    if failed == 0 {
        TaskStatus::Completed
    } else {
        TaskStatus::CompletedWithErrors
    }
}

/// An import reports its progress after every hundredth row handled.
pub fn import_progress_due(saved: i64, failed: i64) -> (r: bool)
    requires
        i64::MIN <= saved + failed <= i64::MAX,
    ensures
        r == ((saved + failed) % 100 == 0),
{
    (saved + failed) % 100 == 0
}

/// What an imported MBTiles file's metadata gives its task, apart from the
/// bounds.
#[derive(Debug, Clone)]
pub struct MbtilesMeta {
    pub min_zoom: u8,
    pub max_zoom: u8,
    pub format: String,
    pub name: String,
}

/// The value under `key` of metadata read as a map (a later entry replaces
/// an earlier one).
pub open spec fn meta_value(meta: Seq<(String, String)>, key: Seq<char>) -> Option<Seq<char>> {
    if kv_map(pair_views(meta)).contains_key(key) {
        Some(kv_map(pair_views(meta))[key])
    } else {
        None
    }
}

/// A zoom entry: its value where it reads as a `u8`, else the default.
pub open spec fn zoom_entry(v: Option<Seq<char>>, default: u8) -> u8 {
    match v {
        Some(t) => match parse_unsigned(t, 255) {
            Some(n) => n as u8,
            None => default,
        },
        None => default,
    }
}

fn zoom_entry_of(v: &Option<String>, default: u8) -> (r: u8)
    ensures
        r == zoom_entry(
            match v {
                Some(t) => Some(t@),
                None => None,
            },
            default,
        ),
{
    match v {
        Some(t) => match parse_unsigned_chars(&chars_of(t.as_str()), 255) {
            Some(n) => n as u8,
            None => default,
        },
        None => default,
    }
}

/// Zoom range (`minzoom`, default 0; `maxzoom`, default 18), format
/// (`format`, default `png`) and task name (the one given, else `name`, else
/// `Imported MBTiles`) of an imported MBTiles file.
pub fn mbtiles_meta(meta: &Vec<(String, String)>, task_name: Option<String>) -> (r: MbtilesMeta)
    ensures
        r.min_zoom == zoom_entry(meta_value(meta@, "minzoom"@), 0),
        r.max_zoom == zoom_entry(meta_value(meta@, "maxzoom"@), 18),
        r.format@ == (match meta_value(meta@, "format"@) {
            Some(f) => f,
            None => "png"@,
        }),
        r.name@ == (match task_name {
            Some(n) => n@,
            None => match meta_value(meta@, "name"@) {
                Some(n) => n,
                None => "Imported MBTiles"@,
            },
        }),
{
    let min_zoom = zoom_entry_of(&kv_get(meta, "minzoom"), 0);
    let max_zoom = zoom_entry_of(&kv_get(meta, "maxzoom"), 18);
    let format = match kv_get(meta, "format") {
        Some(f) => f,
        None => String::from_str("png"),
    };
    let name = match task_name {
        Some(n) => n,
        None => match kv_get(meta, "name") {
            Some(n) => n,
            None => String::from_str("Imported MBTiles"),
        },
    };
    MbtilesMeta { min_zoom, max_zoom, format, name }
}

/// The kind of a task file offered for import.
#[derive(Debug, Clone, Copy, PartialEq, Eq, Structural)]
pub enum TaskFileKind {
    /// A tile store (SQLite, starts `SQLi`), registered where it lies.
    TileStore,
    /// An older ZIP archive (`PK\x03\x04`) holding `task.json` and `tiles.db`.
    ZipArchive,
    /// Neither.
    Unsupported,
}

/// The kind of a task file from its first four bytes.
pub fn task_file_kind(header: [u8; 4]) -> (r: TaskFileKind)
    ensures
        r == (if header@ == seq![0x53u8, 0x51u8, 0x4Cu8, 0x69u8] {
            TaskFileKind::TileStore
        } else if header@ == seq![0x50u8, 0x4Bu8, 0x03u8, 0x04u8] {
            TaskFileKind::ZipArchive
        } else {
            TaskFileKind::Unsupported
        }),
{
    let ghost h = header@;
    if header[0] == 0x53 && header[1] == 0x51 && header[2] == 0x4C && header[3] == 0x69 {
        assert(h =~= seq![0x53u8, 0x51u8, 0x4Cu8, 0x69u8]);
        TaskFileKind::TileStore
    } else if header[0] == 0x50 && header[1] == 0x4B && header[2] == 0x03 && header[3] == 0x04 {
        assert(h =~= seq![0x50u8, 0x4Bu8, 0x03u8, 0x04u8]);
        TaskFileKind::ZipArchive
    } else {
        TaskFileKind::Unsupported
    }
}

/// A tile exported to MBTiles and imported back is the same tile: the row
/// `2^z - 1 - y` that an export writes for row `y` is read back as `y`.
pub proof fn lemma_mbtiles_row_round_trip(z: u8, x: u32, y: u32)
    requires
        z <= 31,
        x <= i32::MAX,
        y < vstd::arithmetic::power2::pow2(z as nat),
    ensures
        import_row_of(z as i32, x as i32, (vstd::arithmetic::power2::pow2(z as nat) - 1 - y) as i32)
            == Ok::<TileCoord, ImportRowError>(TileCoord { z, x, y }),
{
    vstd::arithmetic::power2::lemma2_to64();
    if z < 31 {
        vstd::arithmetic::power2::lemma_pow2_strictly_increases(z as nat, 31);
    }
    let top = vstd::arithmetic::power2::pow2(z as nat) - 1;
    let t = top - y;
    assert(0 <= t <= i32::MAX);
    assert((t as i32) as int == t);
    assert(top - (t as i32) == y);
}

} // verus!
