//! Checks and estimates made before a task starts: the concurrency settings,
//! the limit on tasks running at once, the disk space a task will take, and
//! whether two tasks' tiles can be shared; which finished task already
//! holds a source; how far a task's geometry may change; and what is shown
//! and done about a task's failed tiles.

use vstd::prelude::*;
use crate::text::{chars_of, contains_chars, contains_sub, parse_unsigned, parse_unsigned_chars, str_eq};
use crate::types::{CoordType, CrsType, TileSource, TileSourceView};
use crate::urls::{extract_host, host_of};
use crate::lra::{json_field, json_field_at, JsonField, JsonFieldView};

verus! {

/// Download concurrency when none is configured: the documented default
/// of the `download.concurrency` setting.
pub const DEFAULT_CONCURRENCY: usize = 32;

/// The highest download concurrency.
pub const MAX_CONCURRENCY: usize = 64;

/// Bytes reckoned per tile (30 KiB).
pub const BYTES_PER_TILE_ESTIMATE: u64 = 30720;

/// The concurrency a `download.concurrency` setting gives: a positive
/// number, at most 64; the default 32 when unset, zero or unreadable.
pub open spec fn concurrency_of(v: Option<Seq<char>>) -> nat {
    match v {
        Some(t) => match parse_unsigned(t, usize::MAX as nat) {
            Some(n) => if n == 0 {
                32
            } else if n > 64 {
                64
            } else {
                n
            },
            None => 32,
        },
        None => 32,
    }
}

/// Reads the download concurrency from its setting.
pub fn concurrency_setting(v: Option<&str>) -> (r: usize)
    ensures
        r == concurrency_of(
            match v {
                Some(t) => Some(t@),
                None => None,
            },
        ),
{
    match v {
        Some(t) => match parse_unsigned_chars(&chars_of(t), usize::MAX as u64) {
            Some(n) => if n == 0 {
                DEFAULT_CONCURRENCY
            } else if n > 64 {
                MAX_CONCURRENCY
            } else {
                n as usize
            },
            None => DEFAULT_CONCURRENCY,
        },
        None => DEFAULT_CONCURRENCY,
    }
}

/// The concurrency of a download started by a remote client: the
/// `download.concurrency` setting when it is a positive number (no upper
/// bound here), the default 32 otherwise.
pub open spec fn remote_concurrency_of(v: Option<Seq<char>>) -> nat {
    match v {
        Some(t) => match parse_unsigned(t, usize::MAX as nat) {
            Some(n) => if n > 0 { n } else { 32 },
            None => 32,
        },
        None => 32,
    }
}

/// Reads the concurrency of a remotely submitted download from its setting.
pub fn remote_concurrency_setting(v: Option<&str>) -> (r: usize)
    ensures
        r == remote_concurrency_of(
            match v {
                Some(t) => Some(t@),
                None => None,
            },
        ),
{
    match v {
        Some(t) => match parse_unsigned_chars(&chars_of(t), usize::MAX as u64) {
            Some(n) => if n > 0 { n as usize } else { 32 },
            None => 32,
        },
        None => 32,
    }
}

/// The concurrency of a download restarted by the application itself
/// (after a crash or an outage): the `download.concurrency` setting when it
/// is a positive number, the default 32 otherwise.
pub open spec fn restart_concurrency_of(v: Option<Seq<char>>) -> nat {
    match v {
        Some(t) => match parse_unsigned(t, usize::MAX as nat) {
            Some(n) => if n > 0 { n } else { 32 },
            None => 32,
        },
        None => 32,
    }
}

/// Reads the concurrency of a restarted download from its setting.
pub fn restart_concurrency_setting(v: Option<&str>) -> (r: usize)
    ensures
        r == restart_concurrency_of(
            match v {
                Some(t) => Some(t@),
                None => None,
            },
        ),
{
    match v {
        Some(t) => match parse_unsigned_chars(&chars_of(t), usize::MAX as u64) {
            Some(n) => if n > 0 { n as usize } else { 32 },
            None => 32,
        },
        None => 32,
    }
}

/// Reads the limit on tasks running at once from `tasks.max_concurrent`
/// (0, also when unset or unreadable: no limit).
pub fn max_concurrent_setting(v: Option<&str>) -> (r: usize)
    ensures
        r == match v {
            Some(t) => match parse_unsigned(t@, usize::MAX as nat) {
                Some(n) => n,
                None => 0,
            },
            None => 0,
        },
{
    match v {
        Some(t) => match parse_unsigned_chars(&chars_of(t), usize::MAX as u64) {
            Some(n) => n as usize,
            None => 0,
        },
        None => 0,
    }
}

/// The limit on running tasks is reached.
#[derive(Debug, Clone, Copy, PartialEq, Eq, Structural)]
pub struct LimitReached {
    pub running: usize,
    pub max: usize,
}

/// Whether one more task may start with `running` tasks running under a
/// limit of `max` (0: no limit).
pub fn check_concurrent_limit(max: usize, running: usize) -> (r: Result<(), LimitReached>)
    ensures
        (max == 0 || running < max) <==> r is Ok,
        r matches Err(e) ==> e.running == running && e.max == max,
{
    if max == 0 || running < max {
        Ok(())
    } else {
        Err(LimitReached { running, max })
    }
}

// ─── disk space ─────────────────────────────────────────────────────────────

/// The disk space check of a task.
#[derive(Debug, Clone, Copy, PartialEq, Eq, Structural)]
pub struct DiskSpaceInfo {
    /// Tiles still to download.
    pub pending_tiles: u64,
    /// Bytes they are reckoned to take.
    pub estimated_bytes: u64,
    /// Free bytes on the disk of the tile store.
    pub available_bytes: u64,
    pub sufficient: bool,
}

/// The size estimate of a planned task.
#[derive(Debug, Clone, Copy, PartialEq, Eq, Structural)]
pub struct EstimateInfo {
    pub tile_count: u64,
    pub estimated_bytes: u64,
}

/// The tiles a started task has still to download (never below zero).
pub fn pending_tiles(total: i64, downloaded: i64, failed: i64) -> (r: u64)
    requires
        i64::MIN <= total - downloaded - failed <= i64::MAX,
        i64::MIN <= total - downloaded <= i64::MAX,
    ensures
        r == (if total - downloaded - failed > 0 {
            total - downloaded - failed
        } else {
            0
        }),
{
    let p = total - downloaded - failed;
    if p > 0 {
        p as u64
    } else {
        0
    }
}

/// The disk space check for `pending` tiles with `available` free bytes.
pub fn disk_space_info(pending: u64, available: u64) -> (r: DiskSpaceInfo)
    requires
        pending * BYTES_PER_TILE_ESTIMATE <= u64::MAX,
    ensures
        r.pending_tiles == pending,
        r.estimated_bytes == pending * BYTES_PER_TILE_ESTIMATE,
        r.available_bytes == available,
        r.sufficient == (available >= pending * BYTES_PER_TILE_ESTIMATE),
{
    let estimated = pending * BYTES_PER_TILE_ESTIMATE;
    DiskSpaceInfo { pending_tiles: pending, estimated_bytes: estimated, available_bytes: available, sufficient: available >= estimated }
}

/// The size estimate of a task of `tile_count` tiles.
pub fn estimate_info(tile_count: u64) -> (r: EstimateInfo)
    requires
        tile_count * BYTES_PER_TILE_ESTIMATE <= u64::MAX,
    ensures
        r.tile_count == tile_count,
        r.estimated_bytes == tile_count * BYTES_PER_TILE_ESTIMATE,
{
    EstimateInfo { tile_count, estimated_bytes: tile_count * BYTES_PER_TILE_ESTIMATE }
}

/// The grid a stored grid name suggests: longitude/latitude when it
/// mentions `84` or `4326`, else Web Mercator.
pub fn crs_from_name(name: &str) -> (r: CrsType)
    ensures
        r == (if contains_sub(name@, "84"@) || contains_sub(name@, "4326"@) {
            CrsType::Wgs84
        } else {
            CrsType::WebMercator
        }),
{
    let n = chars_of(name);
    if contains_chars(&n, &chars_of("84")) || contains_chars(&n, &chars_of("4326")) {
        CrsType::Wgs84
    } else {
        CrsType::WebMercator
    }
}

// ─── sharing tiles between tasks ────────────────────────────────────────────

/// Why two tasks' tiles cannot be shared.
#[derive(Debug, Clone, Copy, PartialEq, Eq, Structural)]
pub enum SourceMismatch {
    Crs,
    CoordType,
    Format,
    Host,
}

/// What comparing two sources gives: the first of grid, coordinate scheme,
/// format and template host that differs.
pub open spec fn source_mismatch(target: TileSourceView, source: TileSourceView) -> Option<SourceMismatch> {
    if target.crs != source.crs {
        Some(SourceMismatch::Crs)
    } else if target.coord_type != source.coord_type {
        Some(SourceMismatch::CoordType)
    } else if target.format != source.format {
        Some(SourceMismatch::Format)
    } else if host_of(target.url_template) != host_of(source.url_template) {
        Some(SourceMismatch::Host)
    } else {
        None
    }
}

/// Whether tiles downloaded for `source` can serve `target`.
pub fn validate_same_source(target: &TileSource, source: &TileSource) -> (r: Result<(), SourceMismatch>)
    ensures
        match source_mismatch(target@, source@) {
            Some(m) => r == Err::<(), SourceMismatch>(m),
            None => r is Ok,
        },
{
    if target.crs != source.crs {
        return Err(SourceMismatch::Crs);
    }
    if target.coord_type != source.coord_type {
        return Err(SourceMismatch::CoordType);
    }
    if !str_eq(target.format.as_str(), source.format.as_str()) {
        return Err(SourceMismatch::Format);
    }
    let th = extract_host(target.url_template.as_str());
    let sh = extract_host(source.url_template.as_str());
    let same = match (&th, &sh) {
        (Some(a), Some(b)) => str_eq(a.as_str(), b.as_str()),
        (None, None) => true,
        _ => false,
    };
    if !same {
        return Err(SourceMismatch::Host);
    }
    Ok(())
}

/// Sharing is symmetric: two sources either both accept each other or
/// both refuse, for the same first difference.
pub proof fn lemma_same_source_symmetric(a: TileSourceView, b: TileSourceView)
    ensures
        source_mismatch(a, b) == source_mismatch(b, a),
        source_mismatch(a, a) is None,
{
}

// ─── finished tasks that hold a source ──────────────────────────────────────

/// A text field of a stored source configuration, or `default` where the
/// field is missing or holds no string.
pub open spec fn field_or(f: JsonFieldView, default: Seq<char>) -> Seq<char> {
    match f {
        JsonFieldView::Str(s) => s,
        _ => default,
    }
}

/// Whether a stored source configuration (JSON) names the source given by
/// its URL template, coordinate type and kind: the template must be there
/// and equal; a missing coordinate type counts as `WGS84` and a missing kind
/// as empty. A configuration that is not JSON names no source.
pub open spec fn config_names_source(config: Seq<char>, url_template: Seq<char>, coord_type: Seq<char>, kind: Seq<char>) -> bool {
    &&& json_field_at(config, "/url_template"@) == JsonFieldView::Str(url_template)
    &&& field_or(json_field_at(config, "/coord_type"@), "WGS84"@) == coord_type
    &&& field_or(json_field_at(config, "/kind"@), ""@) == kind
}

/// Whether the stored configuration `config` names the source
/// (`url_template`, `coord_type`, `kind`).
pub fn source_config_matches(config: &str, url_template: &str, coord_type: &str, kind: &str) -> (r: bool)
    ensures
        r == config_names_source(config@, url_template@, coord_type@, kind@),
{
    let same_url = match json_field(config, "/url_template") {
        JsonField::Str(u) => str_eq(u.as_str(), url_template),
        _ => false,
    };
    let same_coord = match json_field(config, "/coord_type") {
        JsonField::Str(c) => str_eq(c.as_str(), coord_type),
        _ => str_eq("WGS84", coord_type),
    };
    let same_kind = match json_field(config, "/kind") {
        JsonField::Str(k) => str_eq(k.as_str(), kind),
        _ => str_eq("", kind),
    };
    same_url && same_coord && same_kind
}

/// The first of the finished tasks' configurations (newest first) that
/// names the source, if any does.
pub fn first_matching_source(configs: &Vec<String>, url_template: &str, coord_type: &str, kind: &str) -> (r: Option<usize>)
    ensures
        match r {
            Some(i) => i < configs@.len()
                && config_names_source(configs@[i as int]@, url_template@, coord_type@, kind@)
                && forall|j: int| 0 <= j < i ==> !config_names_source(#[trigger] configs@[j]@, url_template@, coord_type@, kind@),
            None => forall|j: int| 0 <= j < configs@.len() ==> !config_names_source(#[trigger] configs@[j]@, url_template@, coord_type@, kind@),
        },
{
    let mut i: usize = 0;
    while i < configs.len()
        invariant
            i <= configs@.len(),
            forall|j: int| 0 <= j < i ==> !config_names_source(#[trigger] configs@[j]@, url_template@, coord_type@, kind@),
        decreases configs@.len() - i,
    {
        if source_config_matches(configs[i].as_str(), url_template, coord_type, kind) {
            return Some(i);
        }
        i += 1;
    }
    None
}

// ─── widening a task ────────────────────────────────────────────────────────

/// A geometry update that would narrow the task's zoom range.
#[derive(Debug, Clone, Copy, PartialEq, Eq, Structural)]
pub enum ZoomNarrowed {
    /// The lowest zoom would rise above the task's.
    MinRaised { current: u8, requested: u8 },
    /// The highest zoom would fall below the task's.
    MaxLowered { current: u8, requested: u8 },
}

/// A task's geometry may only grow: its new zoom range must hold the old
/// one. The lowest zoom is checked first.
pub fn check_zoom_widening(cur_min: u8, cur_max: u8, new_min: u8, new_max: u8) -> (r: Result<(), ZoomNarrowed>)
    ensures
        new_min > cur_min ==> r == Err::<(), ZoomNarrowed>(ZoomNarrowed::MinRaised { current: cur_min, requested: new_min }),
        new_min <= cur_min && new_max < cur_max ==> r == Err::<(), ZoomNarrowed>(
            ZoomNarrowed::MaxLowered { current: cur_max, requested: new_max },
        ),
        r is Ok <==> (new_min <= cur_min && cur_max <= new_max),
{
    if new_min > cur_min {
        return Err(ZoomNarrowed::MinRaised { current: cur_min, requested: new_min });
    }
    if new_max < cur_max {
        return Err(ZoomNarrowed::MaxLowered { current: cur_max, requested: new_max });
    }
    Ok(())
}

// ─── failed tiles ───────────────────────────────────────────────────────────

/// Number of failed tiles at one zoom level.
#[derive(Debug, Clone, Copy, PartialEq, Eq, Structural)]
pub struct FailedZoomStat {
    pub zoom: i32,
    pub count: i64,
}

/// Column and row of one failed tile.
#[derive(Debug, Clone, Copy, PartialEq, Eq, Structural)]
pub struct FailedTileCoord {
    pub x: u32,
    pub y: u32,
}

/// The per-zoom failure counts read from a tile store, one entry per row.
pub fn failed_zoom_stats(rows: &Vec<(i32, i64)>) -> (r: Vec<FailedZoomStat>)
    ensures
        r@.len() == rows@.len(),
        forall|i: int| 0 <= i < r@.len() ==> #[trigger] r@[i] == (FailedZoomStat { zoom: rows@[i].0, count: rows@[i].1 }),
{
    let mut r: Vec<FailedZoomStat> = Vec::new();
    let mut i: usize = 0;
    while i < rows.len()
        invariant
            i <= rows.len(),
            r@.len() == i,
            forall|k: int| 0 <= k < i ==> #[trigger] r@[k] == (FailedZoomStat { zoom: rows@[k].0, count: rows@[k].1 }),
        decreases rows.len() - i,
    {
        let (zoom, count) = rows[i];
        r.push(FailedZoomStat { zoom, count });
        i += 1;
    }
    r
}

/// The failed tiles of one zoom level read from a tile store, one entry per row.
pub fn failed_tile_coords(rows: &Vec<(u32, u32)>) -> (r: Vec<FailedTileCoord>)
    ensures
        r@.len() == rows@.len(),
        forall|i: int| 0 <= i < r@.len() ==> #[trigger] r@[i] == (FailedTileCoord { x: rows@[i].0, y: rows@[i].1 }),
{
    let mut r: Vec<FailedTileCoord> = Vec::new();
    let mut i: usize = 0;
    while i < rows.len()
        invariant
            i <= rows.len(),
            r@.len() == i,
            forall|k: int| 0 <= k < i ==> #[trigger] r@[k] == (FailedTileCoord { x: rows@[k].0, y: rows@[k].1 }),
        decreases rows.len() - i,
    {
        let (x, y) = rows[i];
        r.push(FailedTileCoord { x, y });
        i += 1;
    }
    r
}

/// What follows once failed tiles were reset to pending.
#[derive(Debug, Clone, Copy, PartialEq, Eq, Structural)]
pub enum AfterReset {
    /// Nothing was reset: nothing to do.
    Nothing,
    /// Resume the task's download, which the engine still holds.
    Resume,
    /// Start the task's download anew (within the limit on running tasks).
    Start,
}

/// After resetting `reset` failed tiles: nothing when there were none, else
/// resume the download when the engine holds it, or start it.
pub fn after_reset(reset: i64, engine_active: bool) -> (r: AfterReset)
    ensures
        r == (if reset <= 0 {
            AfterReset::Nothing
        } else if engine_active {
            AfterReset::Resume
        } else {
            AfterReset::Start
        }),
{
    if reset <= 0 {
        AfterReset::Nothing
    } else if engine_active {
        AfterReset::Resume
    } else {
        AfterReset::Start
    }
}

} // verus!
