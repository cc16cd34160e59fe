//! A task file: an exported task's tile store carries the task's own
//! description under `tgr.*` metadata keys, and importing the file reads the
//! task back from them.
//!
//! The bounds are written and read as the texts of their numbers; turning
//! them into numbers is the caller's part.

use vstd::prelude::*;
use crate::text::{decimal, kv_get, kv_map, pair_views, parse_signed, parse_unsigned, push_decimal, str_eq, string_of};
use crate::text::{chars_of, lemma_decimal_value, lemma_kv_map_last_hit, parse_i64_chars, parse_unsigned_chars, unsigned_body};

verus! {

/// A task as its file describes it.
#[derive(Debug, Clone, PartialEq, Eq)]
pub struct TaskMeta {
    pub name: String,
    pub source_config: String,
    pub bounds_west: String,
    pub bounds_east: String,
    pub bounds_south: String,
    pub bounds_north: String,
    pub min_zoom: u8,
    pub max_zoom: u8,
    pub clip_to_bounds: bool,
    pub polygon_wgs84: Option<String>,
    pub total_tiles: i64,
    pub downloaded_tiles: i64,
    pub failed_tiles: i64,
}

pub struct TaskMetaView {
    pub name: Seq<char>,
    pub source_config: Seq<char>,
    pub bounds_west: Seq<char>,
    pub bounds_east: Seq<char>,
    pub bounds_south: Seq<char>,
    pub bounds_north: Seq<char>,
    pub min_zoom: u8,
    pub max_zoom: u8,
    pub clip_to_bounds: bool,
    pub polygon_wgs84: Option<Seq<char>>,
    pub total_tiles: i64,
    pub downloaded_tiles: i64,
    pub failed_tiles: i64,
}

impl View for TaskMeta {
    type V = TaskMetaView;

    open spec fn view(&self) -> TaskMetaView {
        TaskMetaView {
            name: self.name@,
            source_config: self.source_config@,
            bounds_west: self.bounds_west@,
            bounds_east: self.bounds_east@,
            bounds_south: self.bounds_south@,
            bounds_north: self.bounds_north@,
            min_zoom: self.min_zoom,
            max_zoom: self.max_zoom,
            clip_to_bounds: self.clip_to_bounds,
            polygon_wgs84: match self.polygon_wgs84 {
                Some(p) => Some(p@),
                None => None,
            },
            total_tiles: self.total_tiles,
            downloaded_tiles: self.downloaded_tiles,
            failed_tiles: self.failed_tiles,
        }
    }
}

/// A metadata field an import needs.
#[derive(Debug, Clone, Copy, PartialEq, Eq, Structural)]
pub enum MetaField {
    Name,
    SourceConfig,
    BoundsWest,
    BoundsEast,
    BoundsSouth,
    BoundsNorth,
    MinZoom,
    MaxZoom,
}

/// Why a task file's metadata cannot be read.
#[derive(Debug, Clone, Copy, PartialEq, Eq, Structural)]
pub enum MetaError {
    /// The field is not there.
    Missing(MetaField),
    /// The zoom level is not a number from 0 to 255.
    BadZoom(MetaField),
}

/// The metadata key of each field.
pub open spec fn field_key(f: MetaField) -> Seq<char> {
    match f {
        MetaField::Name => "tgr.name"@,
        MetaField::SourceConfig => "tgr.source_config"@,
        MetaField::BoundsWest => "tgr.bounds_west"@,
        MetaField::BoundsEast => "tgr.bounds_east"@,
        MetaField::BoundsSouth => "tgr.bounds_south"@,
        MetaField::BoundsNorth => "tgr.bounds_north"@,
        MetaField::MinZoom => "tgr.min_zoom"@,
        MetaField::MaxZoom => "tgr.max_zoom"@,
    }
}

impl MetaField {
    /// The metadata key that holds the field.
    pub fn key(&self) -> (r: &'static str)
        ensures
            r@ == field_key(*self),
    {
        match self {
            MetaField::Name => "tgr.name",
            MetaField::SourceConfig => "tgr.source_config",
            MetaField::BoundsWest => "tgr.bounds_west",
            MetaField::BoundsEast => "tgr.bounds_east",
            MetaField::BoundsSouth => "tgr.bounds_south",
            MetaField::BoundsNorth => "tgr.bounds_north",
            MetaField::MinZoom => "tgr.min_zoom",
            MetaField::MaxZoom => "tgr.max_zoom",
        }
    }
}

/// How `i64::to_string` writes `i`.
pub open spec fn signed_decimal(i: int) -> Seq<char> {
    if i < 0 {
        seq!['-'] + decimal((-i) as nat)
    } else {
        decimal(i as nat)
    }
}

/// The pairs an export writes, in order.
pub open spec fn meta_pairs(m: TaskMetaView) -> Seq<(Seq<char>, Seq<char>)> {
    seq![
        ("tgr.version"@, "2"@),
        ("tgr.name"@, m.name),
        ("tgr.source_config"@, m.source_config),
        ("tgr.bounds_west"@, m.bounds_west),
        ("tgr.bounds_east"@, m.bounds_east),
        ("tgr.bounds_south"@, m.bounds_south),
        ("tgr.bounds_north"@, m.bounds_north),
        ("tgr.min_zoom"@, decimal(m.min_zoom as nat)),
        ("tgr.max_zoom"@, decimal(m.max_zoom as nat)),
        ("tgr.clip_to_bounds"@, if m.clip_to_bounds { "1"@ } else { "0"@ }),
        ("tgr.polygon_wgs84"@, match m.polygon_wgs84 {
            Some(p) => p,
            None => Seq::empty(),
        }),
        ("tgr.total_tiles"@, signed_decimal(m.total_tiles as int)),
        ("tgr.downloaded_tiles"@, signed_decimal(m.downloaded_tiles as int)),
        ("tgr.failed_tiles"@, signed_decimal(m.failed_tiles as int)),
    ]
}

/// The value under `key`, if there is one.
pub open spec fn meta_text(kv: Map<Seq<char>, Seq<char>>, key: Seq<char>) -> Option<Seq<char>> {
    if kv.contains_key(key) {
        Some(kv[key])
    } else {
        None
    }
}

/// A tile counter: its number when it reads as an `i64`, else 0.
pub open spec fn counter_of(t: Option<Seq<char>>) -> i64 {
    match t {
        Some(s) => match parse_signed(s, i64::MIN as int, i64::MAX as int) {
            Some(v) => v as i64,
            None => 0,
        },
        None => 0,
    }
}

/// A zoom level: its number when it reads as a `u8`.
pub open spec fn zoom_of(t: Seq<char>) -> Option<u8> {
    match parse_unsigned(t, 255) {
        Some(v) => Some(v as u8),
        None => None,
    }
}

/// The first field, in the order an import reads them, that is missing.
pub open spec fn first_missing(kv: Map<Seq<char>, Seq<char>>) -> Option<MetaField> {
    if !kv.contains_key(field_key(MetaField::Name)) {
        Some(MetaField::Name)
    } else if !kv.contains_key(field_key(MetaField::SourceConfig)) {
        Some(MetaField::SourceConfig)
    } else if !kv.contains_key(field_key(MetaField::BoundsWest)) {
        Some(MetaField::BoundsWest)
    } else if !kv.contains_key(field_key(MetaField::BoundsEast)) {
        Some(MetaField::BoundsEast)
    } else if !kv.contains_key(field_key(MetaField::BoundsSouth)) {
        Some(MetaField::BoundsSouth)
    } else if !kv.contains_key(field_key(MetaField::BoundsNorth)) {
        Some(MetaField::BoundsNorth)
    } else {
        None
    }
}

/// What an import reads from a task file's metadata `kv`: the name, source
/// configuration and bounds must be there, then the two zoom levels must be
/// there and read as numbers from 0 to 255 (the lowest first); the clip flag
/// is set by `1`, an empty polygon counts as none, and a tile counter that is
/// missing or not a number counts as 0.
pub open spec fn read_meta(kv: Map<Seq<char>, Seq<char>>) -> Result<TaskMetaView, MetaError> {
    match first_missing(kv) {
        Some(f) => Err(MetaError::Missing(f)),
        None => {
            let min_t = meta_text(kv, field_key(MetaField::MinZoom));
            let max_t = meta_text(kv, field_key(MetaField::MaxZoom));
            if min_t is None {
                Err(MetaError::Missing(MetaField::MinZoom))
            } else if zoom_of(min_t->0) is None {
                Err(MetaError::BadZoom(MetaField::MinZoom))
            } else if max_t is None {
                Err(MetaError::Missing(MetaField::MaxZoom))
            } else if zoom_of(max_t->0) is None {
                Err(MetaError::BadZoom(MetaField::MaxZoom))
            } else {
                Ok(
                    TaskMetaView {
                        name: kv[field_key(MetaField::Name)],
                        source_config: kv[field_key(MetaField::SourceConfig)],
                        bounds_west: kv[field_key(MetaField::BoundsWest)],
                        bounds_east: kv[field_key(MetaField::BoundsEast)],
                        bounds_south: kv[field_key(MetaField::BoundsSouth)],
                        bounds_north: kv[field_key(MetaField::BoundsNorth)],
                        min_zoom: zoom_of(min_t->0)->0,
                        max_zoom: zoom_of(max_t->0)->0,
                        clip_to_bounds: meta_text(kv, "tgr.clip_to_bounds"@) == Some("1"@),
                        polygon_wgs84: match meta_text(kv, "tgr.polygon_wgs84"@) {
                            Some(p) => if p.len() > 0 {
                                Some(p)
                            } else {
                                None
                            },
                            None => None,
                        },
                        total_tiles: counter_of(meta_text(kv, "tgr.total_tiles"@)),
                        downloaded_tiles: counter_of(meta_text(kv, "tgr.downloaded_tiles"@)),
                        failed_tiles: counter_of(meta_text(kv, "tgr.failed_tiles"@)),
                    },
                )
            }
        },
    }
}

/// The text `n.to_string()` gives.
fn decimal_text(n: u64) -> (r: String)
    ensures
        r@ == decimal(n as nat),
{
    let mut v: Vec<char> = Vec::new();
    push_decimal(&mut v, n);
    assert(v@ =~= decimal(n as nat));
    string_of(&v)
}

/// The text `i.to_string()` gives.
fn signed_text(i: i64) -> (r: String)
    ensures
        r@ == signed_decimal(i as int),
{
    let mut v: Vec<char> = Vec::new();
    if i < 0 {
        v.push('-');
        let a: u64 = if i == i64::MIN {
            9223372036854775808u64
        } else {
            (-i) as u64
        };
        push_decimal(&mut v, a);
        assert(v@ =~= seq!['-'] + decimal((-i) as nat));
    } else {
        push_decimal(&mut v, i as u64);
        assert(v@ =~= decimal(i as nat));
    }
    string_of(&v)
}

fn pair(k: &str, v: String) -> (r: (String, String))
    ensures
        r.0@ == k@,
        r.1@ == v@,
{
    (String::from_str(k), v)
}

/// The metadata pairs an export writes into the copied tile store.
pub fn task_meta_pairs(m: &TaskMeta) -> (r: Vec<(String, String)>)
    ensures
        pair_views(r@) == meta_pairs(m@),
{
    let mut r: Vec<(String, String)> = Vec::new();
    r.push(pair("tgr.version", String::from_str("2")));
    r.push(pair("tgr.name", m.name.clone()));
    r.push(pair("tgr.source_config", m.source_config.clone()));
    r.push(pair("tgr.bounds_west", m.bounds_west.clone()));
    r.push(pair("tgr.bounds_east", m.bounds_east.clone()));
    r.push(pair("tgr.bounds_south", m.bounds_south.clone()));
    r.push(pair("tgr.bounds_north", m.bounds_north.clone()));
    r.push(pair("tgr.min_zoom", decimal_text(m.min_zoom as u64)));
    r.push(pair("tgr.max_zoom", decimal_text(m.max_zoom as u64)));
    r.push(pair("tgr.clip_to_bounds", String::from_str(if m.clip_to_bounds { "1" } else { "0" })));
    let poly = match &m.polygon_wgs84 {
        Some(p) => p.clone(),
        None => String::new(),
    };
    r.push(pair("tgr.polygon_wgs84", poly));
    r.push(pair("tgr.total_tiles", signed_text(m.total_tiles)));
    r.push(pair("tgr.downloaded_tiles", signed_text(m.downloaded_tiles)));
    r.push(pair("tgr.failed_tiles", signed_text(m.failed_tiles)));
    assert(pair_views(r@) =~= meta_pairs(m@));
    r
}

/// A tile counter from its metadata text.
fn read_counter(t: Option<String>) -> (r: i64)
    ensures
        r == counter_of(match t {
            Some(s) => Some(s@),
            None => None,
        }),
{
    match t {
        Some(s) => match parse_i64_chars(&chars_of(s.as_str())) {
            Some(v) => v,
            None => 0,
        },
        None => 0,
    }
}

/// A required field's text.
fn required(meta: &Vec<(String, String)>, f: MetaField) -> (r: Result<String, MetaError>)
    ensures
        match r {
            Ok(s) => kv_map(pair_views(meta@)).contains_key(field_key(f)) && kv_map(pair_views(meta@))[field_key(f)] == s@,
            Err(e) => !kv_map(pair_views(meta@)).contains_key(field_key(f)) && e == MetaError::Missing(f),
        },
{
    match kv_get(meta, f.key()) {
        Some(s) => Ok(s),
        None => Err(MetaError::Missing(f)),
    }
}

/// A zoom level's field.
fn read_zoom(meta: &Vec<(String, String)>, f: MetaField) -> (r: Result<u8, MetaError>)
    ensures
        match r {
            Ok(z) => meta_text(kv_map(pair_views(meta@)), field_key(f)) matches Some(t) && zoom_of(t) == Some(z),
            Err(e) => match meta_text(kv_map(pair_views(meta@)), field_key(f)) {
                None => e == MetaError::Missing(f),
                Some(t) => zoom_of(t) is None && e == MetaError::BadZoom(f),
            },
        },
{
    let s = required(meta, f)?;
    match parse_unsigned_chars(&chars_of(s.as_str()), 255) {
        Some(v) => Ok(v as u8),
        None => Err(MetaError::BadZoom(f)),
    }
}

/// Reads a task back from the metadata of a task file (its key/value
/// pairs, a later pair replacing an earlier one with the same key).
pub fn read_task_meta(meta: &Vec<(String, String)>) -> (r: Result<TaskMeta, MetaError>)
    ensures
        match read_meta(kv_map(pair_views(meta@))) {
            Ok(v) => r matches Ok(m) && m@ == v,
            Err(e) => r == Err::<TaskMeta, MetaError>(e),
        },
{
    let ghost kv = kv_map(pair_views(meta@));
    let name = required(meta, MetaField::Name)?;
    let source_config = required(meta, MetaField::SourceConfig)?;
    let bounds_west = required(meta, MetaField::BoundsWest)?;
    let bounds_east = required(meta, MetaField::BoundsEast)?;
    let bounds_south = required(meta, MetaField::BoundsSouth)?;
    let bounds_north = required(meta, MetaField::BoundsNorth)?;
    assert(first_missing(kv) is None);
    let min_zoom = read_zoom(meta, MetaField::MinZoom)?;
    let max_zoom = read_zoom(meta, MetaField::MaxZoom)?;
    let clip_to_bounds = match kv_get(meta, "tgr.clip_to_bounds") {
        Some(v) => str_eq(v.as_str(), "1"),
        None => false,
    };
    let polygon_wgs84 = match kv_get(meta, "tgr.polygon_wgs84") {
        Some(p) => if !p.as_str().is_empty() {
            Some(p)
        } else {
            None
        },
        None => None,
    };
    let total_tiles = read_counter(kv_get(meta, "tgr.total_tiles"));
    let downloaded_tiles = read_counter(kv_get(meta, "tgr.downloaded_tiles"));
    let failed_tiles = read_counter(kv_get(meta, "tgr.failed_tiles"));
    let m = TaskMeta {
        name,
        source_config,
        bounds_west,
        bounds_east,
        bounds_south,
        bounds_north,
        min_zoom,
        max_zoom,
        clip_to_bounds,
        polygon_wgs84,
        total_tiles,
        downloaded_tiles,
        failed_tiles,
    };
    Ok(m)
}

/// A zoom level written as text reads back as itself.
proof fn lemma_zoom_text(z: u8)
    ensures
        zoom_of(decimal(z as nat)) == Some(z),
{
    lemma_decimal_value(z as nat);
    let d = decimal(z as nat);
    assert(crate::text::is_digit(d[0]));
    assert(unsigned_body(d) == d);
}

/// A tile counter written as text reads back as itself.
proof fn lemma_counter_text(i: i64)
    ensures
        counter_of(Some(signed_decimal(i as int))) == i,
{
    if i < 0 {
        let d = decimal((-i) as nat);
        lemma_decimal_value((-i) as nat);
        let s = seq!['-'] + d;
        assert(s[0] == '-');
        assert(s.drop_first() =~= d);
        assert(signed_decimal(i as int) == s);
    } else {
        let d = decimal(i as nat);
        lemma_decimal_value(i as nat);
        assert(crate::text::is_digit(d[0]));
        assert(unsigned_body(d) == d);
    }
}

/// The keys an export writes from the second on are all different.
#[verifier::spinoff_prover]
proof fn lemma_later_keys_differ(m: TaskMetaView)
    ensures
        forall|i: int, k: int| 1 <= i < k < 14 ==> #[trigger] meta_pairs(m)[k].0 != #[trigger] meta_pairs(m)[i].0,
{
    let ps = meta_pairs(m);
    reveal_strlit("tgr.name");
    reveal_strlit("tgr.source_config");
    reveal_strlit("tgr.bounds_west");
    reveal_strlit("tgr.bounds_east");
    reveal_strlit("tgr.bounds_south");
    reveal_strlit("tgr.bounds_north");
    reveal_strlit("tgr.min_zoom");
    reveal_strlit("tgr.max_zoom");
    reveal_strlit("tgr.clip_to_bounds");
    reveal_strlit("tgr.polygon_wgs84");
    reveal_strlit("tgr.total_tiles");
    reveal_strlit("tgr.downloaded_tiles");
    reveal_strlit("tgr.failed_tiles");
    // keys of different lengths differ; those of one length differ at some place
    assert(ps[1].0.len() == 8);
    assert(ps[2].0.len() == 17);
    assert(ps[3].0.len() == 15);
    assert(ps[4].0.len() == 15);
    assert(ps[5].0.len() == 16);
    assert(ps[6].0.len() == 16);
    assert(ps[7].0.len() == 12);
    assert(ps[8].0.len() == 12);
    assert(ps[9].0.len() == 18);
    assert(ps[10].0.len() == 17);
    assert(ps[11].0.len() == 15);
    assert(ps[12].0.len() == 20);
    assert(ps[13].0.len() == 16);
    assert(ps[2].0[4] != ps[10].0[4]);
    assert(ps[3].0[11] != ps[4].0[11]);
    assert(ps[3].0[4] != ps[11].0[4]);
    assert(ps[4].0[4] != ps[11].0[4]);
    assert(ps[5].0[11] != ps[6].0[11]);
    assert(ps[5].0[4] != ps[13].0[4]);
    assert(ps[6].0[4] != ps[13].0[4]);
    assert(ps[7].0[5] != ps[8].0[5]);
    assert forall|i: int, k: int| 1 <= i < k < 14 implies #[trigger] ps[k].0 != #[trigger] ps[i].0 by {
        if ps[k].0 == ps[i].0 {
            assert(ps[k].0.len() == ps[i].0.len());
        }
    }
}

/// The task with an empty polygon taken as none.
pub open spec fn without_empty_polygon(m: TaskMetaView) -> TaskMetaView {
    TaskMetaView {
        polygon_wgs84: match m.polygon_wgs84 {
            Some(p) => if p.len() > 0 {
                Some(p)
            } else {
                None
            },
            None => None,
        },
        ..m
    }
}

/// Importing a task file gives back the task that was exported into it:
/// every field reads back as written, except that an empty polygon is read
/// as none.
pub proof fn lemma_meta_round_trip(m: TaskMetaView)
    ensures
        read_meta(kv_map(meta_pairs(m))) == Ok::<TaskMetaView, MetaError>(without_empty_polygon(m)),
{
    let ps = meta_pairs(m);
    reveal_strlit("1");
    reveal_strlit("0");
    assert(ps.len() == 14);
    lemma_later_keys_differ(m);
    let kv = kv_map(ps);
    assert forall|i: int| 1 <= i < 14 implies kv.contains_key(#[trigger] ps[i].0) && kv[ps[i].0] == ps[i].1 by {
        lemma_kv_map_last_hit(ps, i);
    }
    assert(ps[1].0 == field_key(MetaField::Name));
    assert(ps[2].0 == field_key(MetaField::SourceConfig));
    assert(ps[3].0 == field_key(MetaField::BoundsWest));
    assert(ps[4].0 == field_key(MetaField::BoundsEast));
    assert(ps[5].0 == field_key(MetaField::BoundsSouth));
    assert(ps[6].0 == field_key(MetaField::BoundsNorth));
    assert(ps[7].0 == field_key(MetaField::MinZoom));
    assert(ps[8].0 == field_key(MetaField::MaxZoom));
    assert(kv.contains_key(ps[1].0));
    assert(kv.contains_key(ps[2].0));
    assert(kv.contains_key(ps[3].0));
    assert(kv.contains_key(ps[4].0));
    assert(kv.contains_key(ps[5].0));
    assert(kv.contains_key(ps[6].0));
    assert(first_missing(kv) is None);
    assert(kv.contains_key(ps[7].0) && kv[ps[7].0] == decimal(m.min_zoom as nat));
    assert(kv.contains_key(ps[8].0) && kv[ps[8].0] == decimal(m.max_zoom as nat));
    lemma_zoom_text(m.min_zoom);
    lemma_zoom_text(m.max_zoom);
    assert(kv.contains_key(ps[9].0) && kv[ps[9].0] == ps[9].1);
    assert(kv.contains_key(ps[10].0) && kv[ps[10].0] == ps[10].1);
    assert(kv.contains_key(ps[11].0) && kv[ps[11].0] == ps[11].1);
    assert(kv.contains_key(ps[12].0) && kv[ps[12].0] == ps[12].1);
    assert(kv.contains_key(ps[13].0) && kv[ps[13].0] == ps[13].1);
    lemma_counter_text(m.total_tiles);
    lemma_counter_text(m.downloaded_tiles);
    lemma_counter_text(m.failed_tiles);
    assert("0"@ != "1"@) by {
        assert("0"@[0] != "1"@[0]);
    }
}

} // verus!
