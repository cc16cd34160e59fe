//! `.lrc` (layer resource configuration) files: GB18030- or UTF-8-encoded
//! XML that gives a tile service's URL template, grid, range, zoom levels and
//! HTTP headers.
//!
//! ```xml
//! <DataDefine>
//!   <NetPath>{$serverpart}%d/%d/%d.png</NetPath>
//!   <GeoGridType>WebMercatorWGS84</GeoGridType>
//!   <UrlParamOrder>X,Y,Z</UrlParamOrder>
//!   <ServerParts>0 1 2 3 4 5 6 7</ServerParts>
//!   <Range West="-180" East="180" South="-90" North="90"
//!           LevelBegin="1" LevelEnd="18"/>
//!   <HttpHeaders><Header Name="Referer" Value="..." /></HttpHeaders>
//! </DataDefine>
//! ```
//!
//! The document is read as a list of XML events (`xml::xml_events`); what
//! each event does to the source under construction is `lrc_step`.

use vstd::prelude::*;
use crate::text::{
    chars_of, contains_chars, contains_sub, has_prefix, kv_get, kv_map, lower_text, pair_views,
    parse_unsigned, parse_unsigned_chars, push_all, split_chars, split_on, split_whitespace_chars,
    starts_with_chars, str_eq, str_eq_chars, string_of, string_views, strings_of, to_lowercase_chars,
    to_uppercase_chars, trim, trim_chars, upper_text, utf8_chars, views, words,
};
use crate::types::{
    default_source_view, normalized_url, BoundsSpec, BoundsView, CoordType, CrsType, RangeText,
    RangeView, SourceKind, TileSource, TileSourceView,
};
use crate::xml::{event_views, xml_event_list, xml_events, XmlEvent, XmlEventView};
use crate::lua::{parse_url_script, script_is_supported, script_supported, script_url};

verus! {

/// Why an `.lrc` file could not be read.
#[derive(Debug, Clone, Copy, PartialEq, Eq, Structural)]
pub enum LrcError {
    /// The bytes are neither GB18030 nor UTF-8 text.
    Encoding,
    /// The XML reader reported an error.
    Xml,
    /// The template has to come from a `<UrlScript>` that the script
    /// evaluator cannot cut: a character position taken as a byte offset
    /// falls inside a character or past the end of a line, or a `function`
    /// line's `)` comes before its `(` (where slicing the text panics).
    UnsupportedScript,
}

// ─── field values ───────────────────────────────────────────────────────────

/// The grid a `GeoGridType` names.
pub open spec fn geo_grid_type(s: Seq<char>) -> CrsType {
    let t = trim(s);
    if t == "WebMercatorWGS84"@ || t == "WebMercator"@ || t == "2"@ {
        CrsType::WebMercator
    } else if t == "TianDiTuLatLon"@ || t == "WGS84"@ || t == "4326"@ || t == "1"@ {
        CrsType::Wgs84
    } else if t == "5"@ || t == "Terrain"@ || t == "terrain"@ {
        CrsType::Terrain
    } else {
        CrsType::Unknown
    }
}

/// Maps an `.lrc` `GeoGridType` value to its grid.
pub fn parse_geo_grid_type(s: &str) -> (r: CrsType)
    ensures
        r == geo_grid_type(s@),
{
    let t = trim_chars(&chars_of(s));
    if str_eq_chars("WebMercatorWGS84", &t) || str_eq_chars("WebMercator", &t) || str_eq_chars("2", &t) {
        CrsType::WebMercator
    } else if str_eq_chars("TianDiTuLatLon", &t) || str_eq_chars("WGS84", &t) || str_eq_chars("4326", &t)
        || str_eq_chars("1", &t) {
        CrsType::Wgs84
    } else if str_eq_chars("5", &t) || str_eq_chars("Terrain", &t) || str_eq_chars("terrain", &t) {
        CrsType::Terrain
    } else {
        CrsType::Unknown
    }
}

/// The coordinate scheme a `MapSpaceType` names.
pub open spec fn map_space_type(s: Seq<char>) -> CoordType {
    let t = trim(s);
    if t == "GCJ02"@ {
        CoordType::Gcj02
    } else if t == "BD09"@ || t == "BD09LL"@ {
        CoordType::Bd09
    } else {
        CoordType::Wgs84
    }
}

/// `MapSpaceType` (trimmed): `BD09` and `BD09LL` are Baidu coordinates,
/// `GCJ02` is GCJ-02, and every other value is WGS-84.
pub proof fn lemma_map_space_type(s: Seq<char>)
    ensures
        map_space_type(s) == CoordType::Bd09 <==> (trim(s) == "BD09"@ || trim(s) == "BD09LL"@),
        map_space_type(s) == CoordType::Gcj02 <==> trim(s) == "GCJ02"@,
        map_space_type(s) == CoordType::Wgs84 <==> (trim(s) != "GCJ02"@ && trim(s) != "BD09"@
            && trim(s) != "BD09LL"@),
{
    reveal_strlit("GCJ02");
    reveal_strlit("BD09");
    reveal_strlit("BD09LL");
    assert("BD09"@.len() != "GCJ02"@.len());
    assert("BD09LL"@.len() != "GCJ02"@.len());
}

/// Maps an `.lrc` `MapSpaceType` value to its coordinate scheme.
pub fn parse_map_space_type(s: &str) -> (r: CoordType)
    ensures
        r == map_space_type(s@),
{
    let t = trim_chars(&chars_of(s));
    if str_eq_chars("GCJ02", &t) {
        CoordType::Gcj02
    } else if str_eq_chars("BD09", &t) || str_eq_chars("BD09LL", &t) {
        CoordType::Bd09
    } else {
        CoordType::Wgs84
    }
}

/// The image format a `DataType` value suggests: `jpg`, `webp`, `terrain`
/// (also for `tdtt`), else `png`; compared lower-cased.
pub open spec fn format_of(s: Seq<char>) -> Seq<char> {
    let l = lower_text(s);
    if contains_sub(l, "jpg"@) || contains_sub(l, "jpeg"@) {
        "jpg"@
    } else if contains_sub(l, "webp"@) {
        "webp"@
    } else if contains_sub(l, "terrain"@) || contains_sub(l, "tdtt"@) {
        "terrain"@
    } else {
        "png"@
    }
}

/// Infers the image format from a `DataType` value.
pub fn detect_format(s: &str) -> (r: String)
    ensures
        r@ == format_of(s@),
{
    let l = to_lowercase_chars(&chars_of(s));
    if contains_chars(&l, &chars_of("jpg")) || contains_chars(&l, &chars_of("jpeg")) {
        String::from_str("jpg")
    } else if contains_chars(&l, &chars_of("webp")) {
        String::from_str("webp")
    } else if contains_chars(&l, &chars_of("terrain")) || contains_chars(&l, &chars_of("tdtt")) {
        String::from_str("terrain")
    } else {
        String::from_str("png")
    }
}

// ─── the reading state ──────────────────────────────────────────────────────

/// The state of reading an `.lrc` document: the source so far, the range
/// texts so far, the element whose text comes next (`cur`), whether the
/// reader is inside `<HttpHeaders>` or `<Range>`, and the `<UrlScript>` lines.
#[verifier::ext_equal]
pub struct LrcModel {
    pub src: TileSourceView,
    pub range: RangeView,
    pub cur: Seq<char>,
    pub in_headers: bool,
    pub in_range: bool,
    pub script: Seq<char>,
}

pub open spec fn empty_range() -> RangeView {
    RangeView { west: Seq::empty(), east: Seq::empty(), south: Seq::empty(), north: Seq::empty() }
}

/// The state before the first event: a default source of kind `Lrc` named
/// `default_name`.
pub open spec fn lrc_initial(default_name: Seq<char>) -> LrcModel {
    LrcModel {
        src: TileSourceView { kind: SourceKind::Lrc, name: default_name, ..default_source_view() },
        range: empty_range(),
        cur: Seq::empty(),
        in_headers: false,
        in_range: false,
        script: Seq::empty(),
    }
}

/// A side's texts with the attribute `key` added when it is present.
pub open spec fn side_push(v: Seq<Seq<char>>, a: Map<Seq<char>, Seq<char>>, key: Seq<char>) -> Seq<Seq<char>> {
    if a.contains_key(key) {
        v.push(a[key])
    } else {
        v
    }
}

/// A zoom level read from text (`u8` syntax); `old` where it does not read.
pub open spec fn zoom_text(old: u8, t: Seq<char>) -> u8 {
    match parse_unsigned(t, 255) {
        Some(v) => v as u8,
        None => old,
    }
}

/// A zoom level read from the attribute `key`; `old` where it is absent or
/// does not read.
pub open spec fn zoom_attr(old: u8, a: Map<Seq<char>, Seq<char>>, key: Seq<char>) -> u8 {
    if a.contains_key(key) {
        zoom_text(old, a[key])
    } else {
        old
    }
}

/// A start tag (or empty-element tag) `name` with attributes `attrs`.
pub open spec fn lrc_start(m: LrcModel, name: Seq<char>, attrs: Seq<(Seq<char>, Seq<char>)>) -> LrcModel {
    let a = kv_map(attrs);
    let m1 = LrcModel { cur: name, ..m };
    if name == "Range"@ {
        LrcModel {
            in_range: true,
            range: RangeView {
                west: side_push(m.range.west, a, "West"@),
                east: side_push(m.range.east, a, "East"@),
                south: side_push(m.range.south, a, "South"@),
                north: side_push(m.range.north, a, "North"@),
            },
            src: TileSourceView {
                min_zoom: zoom_attr(m.src.min_zoom, a, "LevelBegin"@),
                max_zoom: zoom_attr(m.src.max_zoom, a, "LevelEnd"@),
                ..m.src
            },
            ..m1
        }
    } else if name == "Header"@ {
        if m.in_headers && a.contains_key("Name"@) && a.contains_key("Value"@) {
            LrcModel {
                src: TileSourceView { headers: m.src.headers.push((a["Name"@], a["Value"@])), ..m.src },
                ..m1
            }
        } else {
            m1
        }
    } else if name == "HttpHeaders"@ {
        LrcModel { in_headers: true, ..m1 }
    } else {
        m1
    }
}

/// An end tag `name`.
pub open spec fn lrc_end(m: LrcModel, name: Seq<char>) -> LrcModel {
    if name == "HttpHeaders"@ {
        LrcModel { in_headers: false, cur: Seq::empty(), ..m }
    } else if name == "Range"@ {
        LrcModel { in_range: false, cur: Seq::empty(), ..m }
    } else {
        LrcModel { cur: Seq::empty(), ..m }
    }
}

/// The trimmed text of a text event: unescaped, or as it stands where
/// unescaping fails.
pub open spec fn event_text(unescaped: Option<Seq<char>>, raw: Seq<char>) -> Seq<char> {
    trim(
        match unescaped {
            Some(u) => u,
            None => raw,
        },
    )
}

/// The upper-cased, trimmed, comma-separated names of a `UrlParamOrder`.
pub open spec fn param_order_of(t: Seq<char>) -> Seq<Seq<char>> {
    split_on(t, ',').map_values(|p: Seq<char>| upper_text(trim(p)))
}

/// A text `t` (trimmed) inside element `m.cur`.
pub open spec fn lrc_text(m: LrcModel, t: Seq<char>, default_name: Seq<char>) -> LrcModel {
    let c = m.cur;
    let s = m.src;
    let r = m.range;
    if t.len() == 0 {
        m
    } else if m.in_headers && c.len() > 0 && c != "HttpHeaders"@ && c != "Header"@ {
        LrcModel { src: TileSourceView { headers: s.headers.push((c, t)), ..s }, ..m }
    } else if m.in_range {
        if c == "West"@ {
            LrcModel { range: RangeView { west: r.west.push(t), ..r }, ..m }
        } else if c == "East"@ {
            LrcModel { range: RangeView { east: r.east.push(t), ..r }, ..m }
        } else if c == "South"@ {
            LrcModel { range: RangeView { south: r.south.push(t), ..r }, ..m }
        } else if c == "North"@ {
            LrcModel { range: RangeView { north: r.north.push(t), ..r }, ..m }
        } else if c == "LevelBegin"@ {
            LrcModel { src: TileSourceView { min_zoom: zoom_text(s.min_zoom, t), ..s }, ..m }
        } else if c == "LevelEnd"@ {
            LrcModel { src: TileSourceView { max_zoom: zoom_text(s.max_zoom, t), ..s }, ..m }
        } else {
            m
        }
    } else if c == "Name"@ || c == "LayerName"@ {
        if s.name == default_name {
            LrcModel { src: TileSourceView { name: t, ..s }, ..m }
        } else {
            m
        }
    } else if c == "NetPath"@ {
        LrcModel { src: TileSourceView { url_template: t, ..s }, ..m }
    } else if c == "UrlScript"@ {
        LrcModel { script: m.script + t + seq!['\n'], ..m }
    } else if c == "GeoGridType"@ {
        LrcModel { src: TileSourceView { crs: geo_grid_type(t), ..s }, ..m }
    } else if c == "SampleSize"@ {
        let size: u32 = match parse_unsigned(t, 0xffff_ffff) {
            Some(v) => v as u32,
            None => 256,
        };
        LrcModel { src: TileSourceView { tile_size: size, ..s }, ..m }
    } else if c == "TileRowDir"@ {
        LrcModel { src: TileSourceView { north_to_south: has_prefix(lower_text(t), "north"@), ..s }, ..m }
    } else if c == "MapSpaceType"@ {
        LrcModel { src: TileSourceView { coord_type: map_space_type(t), ..s }, ..m }
    } else if c == "UrlParamOrder"@ {
        LrcModel { src: TileSourceView { url_param_order: param_order_of(t), ..s }, ..m }
    } else if c == "ServerParts"@ {
        LrcModel { src: TileSourceView { subdomains: words(t), ..s }, ..m }
    } else if c == "DataType"@ || c == "Format"@ || c == "format"@ {
        LrcModel { src: TileSourceView { format: format_of(t), ..s }, ..m }
    } else if c == "attribution"@ || c == "Attribution"@ {
        LrcModel { src: TileSourceView { attribution: Some(t), ..s }, ..m }
    } else {
        m
    }
}

/// What one event does to the state. An empty-element tag (`<Range .../>`)
/// is a start tag closed at once: it reads its attributes and leaves no
/// element open.
pub open spec fn lrc_step(m: LrcModel, e: XmlEventView, default_name: Seq<char>) -> LrcModel {
    match e {
        XmlEventView::Start { name, attrs, empty, .. } => if empty {
            lrc_end(lrc_start(m, name, attrs), name)
        } else {
            lrc_start(m, name, attrs)
        },
        XmlEventView::End { name, .. } => lrc_end(m, name),
        XmlEventView::Text { unescaped, raw } => lrc_text(m, event_text(unescaped, raw), default_name),
        XmlEventView::Other => m,
    }
}

/// The state after all the events, in order.
pub open spec fn lrc_run(evs: Seq<XmlEventView>, default_name: Seq<char>) -> LrcModel
    decreases evs.len(),
{
    if evs.len() == 0 {
        lrc_initial(default_name)
    } else {
        lrc_step(lrc_run(evs.drop_last(), default_name), evs.last(), default_name)
    }
}

/// The source a finished state gives: without a `NetPath`, the template the
/// `<UrlScript>` evaluates to (if any); then the template normalized by the
/// parameter order, and the range texts as bounds.
pub open spec fn lrc_finish(m: LrcModel) -> Result<TileSourceView, LrcError> {
    let url0 = m.src.url_template;
    let from_script = url0.len() == 0 && m.script.len() > 0;
    let sc = trim(m.script);
    if from_script && !script_supported(sc) {
        Err(LrcError::UnsupportedScript)
    } else {
        let url1 = if from_script {
            match script_url(sc) {
                Some(t) => t,
                None => url0,
            }
        } else {
            url0
        };
        Ok(
            TileSourceView {
                url_template: normalized_url(url1, m.src.url_param_order),
                bounds: BoundsView::FromText(m.range),
                ..m.src
            },
        )
    }
}

/// The source a list of events describes.
pub open spec fn lrc_source(evs: Seq<XmlEventView>, default_name: Seq<char>) -> Result<TileSourceView, LrcError> {
    lrc_finish(lrc_run(evs, default_name))
}

/// A result agrees with a described outcome.
pub open spec fn outcome_is(r: Result<TileSource, LrcError>, o: Result<TileSourceView, LrcError>) -> bool {
    match r {
        Ok(s) => o == Ok::<TileSourceView, LrcError>(s@),
        Err(e) => o == Err::<TileSourceView, LrcError>(e),
    }
}

/// Every source read from `.lrc` events has kind `Lrc`, whatever the events.
pub proof fn lemma_lrc_source_kind(evs: Seq<XmlEventView>, default_name: Seq<char>)
    ensures
        lrc_run(evs, default_name).src.kind == SourceKind::Lrc,
        lrc_source(evs, default_name) matches Ok(s) ==> s.kind == SourceKind::Lrc,
    decreases evs.len(),
{
    if evs.len() > 0 {
        lemma_lrc_source_kind(evs.drop_last(), default_name);
    }
}

// ─── reading ────────────────────────────────────────────────────────────────

struct LrcBuilder {
    src: TileSource,
    range: RangeText,
    cur: String,
    in_headers: bool,
    in_range: bool,
    script: Vec<char>,
}

impl View for LrcBuilder {
    type V = LrcModel;

    closed spec fn view(&self) -> LrcModel {
        LrcModel {
            src: self.src@,
            range: self.range@,
            cur: self.cur@,
            in_headers: self.in_headers,
            in_range: self.in_range,
            script: self.script@,
        }
    }
}

fn push_side(v: &mut Vec<String>, attrs: &Vec<(String, String)>, key: &str)
    ensures
        string_views(final(v)@) == side_push(string_views(old(v)@), kv_map(pair_views(attrs@)), key@),
{
    match kv_get(attrs, key) {
        Some(x) => {
            let ghost old_v = string_views(v@);
            let ghost xv = x@;
            v.push(x);
            assert(string_views(v@) =~= old_v.push(xv));
        },
        None => {},
    }
}

fn zoom_from_text(old: u8, t: &Vec<char>) -> (r: u8)
    ensures
        r == zoom_text(old, t@),
{
    match parse_unsigned_chars(t, 255) {
        Some(v) => v as u8,
        None => old,
    }
}

fn zoom_from_attr(old: u8, attrs: &Vec<(String, String)>, key: &str) -> (r: u8)
    ensures
        r == zoom_attr(old, kv_map(pair_views(attrs@)), key@),
{
    match kv_get(attrs, key) {
        Some(x) => zoom_from_text(old, &chars_of(x.as_str())),
        None => old,
    }
}

fn start_step(b: &mut LrcBuilder, name: &String, attrs: &Vec<(String, String)>)
    ensures
        final(b)@ == lrc_start(old(b)@, name@, pair_views(attrs@)),
{
    b.cur = name.clone();
    if str_eq("Range", name.as_str()) {
        b.in_range = true;
        push_side(&mut b.range.west, attrs, "West");
        push_side(&mut b.range.east, attrs, "East");
        push_side(&mut b.range.south, attrs, "South");
        push_side(&mut b.range.north, attrs, "North");
        b.src.min_zoom = zoom_from_attr(b.src.min_zoom, attrs, "LevelBegin");
        b.src.max_zoom = zoom_from_attr(b.src.max_zoom, attrs, "LevelEnd");
    } else if str_eq("Header", name.as_str()) {
        if b.in_headers {
            match (kv_get(attrs, "Name"), kv_get(attrs, "Value")) {
                (Some(n), Some(v)) => {
                    let ghost old_h = pair_views(b.src.headers@);
                    let ghost hv = (n@, v@);
                    b.src.headers.push((n, v));
                    assert(pair_views(b.src.headers@) =~= old_h.push(hv));
                },
                _ => {},
            }
        }
    } else if str_eq("HttpHeaders", name.as_str()) {
        b.in_headers = true;
    }
}

fn end_step(b: &mut LrcBuilder, name: &String)
    ensures
        final(b)@ == lrc_end(old(b)@, name@),
{
    if str_eq("HttpHeaders", name.as_str()) {
        b.in_headers = false;
    } else if str_eq("Range", name.as_str()) {
        b.in_range = false;
    }
    b.cur = String::new();
}

fn param_order_exec(t: &Vec<char>) -> (r: Vec<String>)
    ensures
        string_views(r@) == param_order_of(t@),
{
    let parts = split_chars(t, ',');
    let ghost want = param_order_of(t@);
    let mut r: Vec<String> = Vec::new();
    let mut i: usize = 0;
    while i < parts.len()
        invariant
            i <= parts.len(),
            views(parts@) == split_on(t@, ','),
            want == param_order_of(t@),
            string_views(r@) == want.subrange(0, i as int),
        decreases parts.len() - i,
    {
        let u = to_uppercase_chars(&trim_chars(&parts[i]));
        let ghost old_r = string_views(r@);
        r.push(string_of(&u));
        assert(views(parts@)[i as int] == parts@[i as int]@);
        assert(string_views(r@) =~= old_r.push(u@));
        assert(want.subrange(0, i + 1) =~= want.subrange(0, i as int).push(want[i as int]));
        i += 1;
    }
    assert(want.subrange(0, want.len() as int) =~= want);
    r
}

fn text_step(b: &mut LrcBuilder, t: &Vec<char>, default_name: &str)
    ensures
        final(b)@ == lrc_text(old(b)@, t@, default_name@),
{
    if t.len() == 0 {
        return;
    }
    let c = b.cur.as_str();
    if b.in_headers && c.unicode_len() > 0 && !str_eq(c, "HttpHeaders") && !str_eq(c, "Header") {
        let ghost old_h = pair_views(b.src.headers@);
        let key = b.cur.clone();
        let val = string_of(t);
        let ghost hv = (key@, val@);
        b.src.headers.push((key, val));
        assert(pair_views(b.src.headers@) =~= old_h.push(hv));
        return;
    }
    if b.in_range {
        if str_eq(c, "West") {
            let ghost o = string_views(b.range.west@);
            b.range.west.push(string_of(t));
            assert(string_views(b.range.west@) =~= o.push(t@));
        } else if str_eq(c, "East") {
            let ghost o = string_views(b.range.east@);
            b.range.east.push(string_of(t));
            assert(string_views(b.range.east@) =~= o.push(t@));
        } else if str_eq(c, "South") {
            let ghost o = string_views(b.range.south@);
            b.range.south.push(string_of(t));
            assert(string_views(b.range.south@) =~= o.push(t@));
        } else if str_eq(c, "North") {
            let ghost o = string_views(b.range.north@);
            b.range.north.push(string_of(t));
            assert(string_views(b.range.north@) =~= o.push(t@));
        } else if str_eq(c, "LevelBegin") {
            b.src.min_zoom = zoom_from_text(b.src.min_zoom, t);
        } else if str_eq(c, "LevelEnd") {
            b.src.max_zoom = zoom_from_text(b.src.max_zoom, t);
        }
        return;
    }
    if str_eq(c, "Name") || str_eq(c, "LayerName") {
        if str_eq(b.src.name.as_str(), default_name) {
            b.src.name = string_of(t);
        }
    } else if str_eq(c, "NetPath") {
        b.src.url_template = string_of(t);
    } else if str_eq(c, "UrlScript") {
        push_all(&mut b.script, t);
        b.script.push('\n');
    } else if str_eq(c, "GeoGridType") {
        let ts = string_of(t);
        b.src.crs = parse_geo_grid_type(ts.as_str());
    } else if str_eq(c, "SampleSize") {
        b.src.tile_size = match parse_unsigned_chars(t, 0xffff_ffff) {
            Some(v) => v as u32,
            None => 256,
        };
    } else if str_eq(c, "TileRowDir") {
        let l = to_lowercase_chars(t);
        b.src.north_to_south = starts_with_chars(&l, &chars_of("north"));
    } else if str_eq(c, "MapSpaceType") {
        let ts = string_of(t);
        b.src.coord_type = parse_map_space_type(ts.as_str());
    } else if str_eq(c, "UrlParamOrder") {
        b.src.url_param_order = param_order_exec(t);
    } else if str_eq(c, "ServerParts") {
        b.src.subdomains = strings_of(&split_whitespace_chars(t));
    } else if str_eq(c, "DataType") || str_eq(c, "Format") || str_eq(c, "format") {
        let ts = string_of(t);
        b.src.format = detect_format(ts.as_str());
    } else if str_eq(c, "attribution") || str_eq(c, "Attribution") {
        b.src.attribution = Some(string_of(t));
    }
}

fn text_of_event(unescaped: &Option<String>, raw: &String) -> (r: Vec<char>)
    ensures
        r@ == event_text(
            match unescaped {
                Some(u) => Some(u@),
                None => None,
            },
            raw@,
        ),
{
    match unescaped {
        Some(u) => trim_chars(&chars_of(u.as_str())),
        None => trim_chars(&chars_of(raw.as_str())),
    }
}

/// Builds the tile source that a list of `.lrc` XML events describes.
pub fn lrc_from_events(events: &Vec<XmlEvent>, default_name: &str) -> (r: Result<TileSource, LrcError>)
    ensures
        outcome_is(r, lrc_source(event_views(events@), default_name@)),
{
    let mut src = TileSource::default();
    src.kind = SourceKind::Lrc;
    src.name = String::from_str(default_name);
    let mut b = LrcBuilder {
        src,
        range: RangeText { west: Vec::new(), east: Vec::new(), south: Vec::new(), north: Vec::new() },
        cur: String::new(),
        in_headers: false,
        in_range: false,
        script: Vec::new(),
    };
    let ghost evs = event_views(events@);
    assert(string_views(b.range.west@) =~= Seq::<Seq<char>>::empty());
    assert(string_views(b.range.east@) =~= Seq::<Seq<char>>::empty());
    assert(string_views(b.range.south@) =~= Seq::<Seq<char>>::empty());
    assert(string_views(b.range.north@) =~= Seq::<Seq<char>>::empty());
    assert(b@ =~= lrc_initial(default_name@));
    let mut i: usize = 0;
    while i < events.len()
        invariant
            i <= events.len(),
            evs == event_views(events@),
            b@ == lrc_run(evs.subrange(0, i as int), default_name@),
        decreases events.len() - i,
    {
        assert(evs.subrange(0, i + 1).drop_last() =~= evs.subrange(0, i as int));
        assert(evs.subrange(0, i + 1).last() == events@[i as int]@);
        match &events[i] {
            XmlEvent::Start { name, attrs, empty, .. } => {
                start_step(&mut b, name, attrs);
                if *empty {
                    end_step(&mut b, name);
                }
            },
            XmlEvent::End { name, .. } => end_step(&mut b, name),
            XmlEvent::Text { unescaped, raw } => {
                let t = text_of_event(unescaped, raw);
                text_step(&mut b, &t, default_name);
            },
            XmlEvent::Other => {},
        }
        i += 1;
    }
    assert(evs.subrange(0, events@.len() as int) =~= evs);
    let ghost m = b@;
    if b.src.url_template.unicode_len() == 0 && b.script.len() > 0 {
        let sc = trim_chars(&b.script);
        if !script_is_supported(&sc) {
            return Err(LrcError::UnsupportedScript);
        }
        match parse_url_script(&sc) {
            Some(t) => {
                b.src.url_template = string_of(&t);
            },
            None => {},
        }
    }
    let url = b.src.url_template.clone();
    b.src.url_template = TileSource::normalize_url(url.as_str(), &b.src.url_param_order);
    b.src.bounds = BoundsSpec::FromText(b.range);
    let out = b.src;
    assert(out@ =~= lrc_finish(m).unwrap());
    Ok(out)
}

// ─── decoding ───────────────────────────────────────────────────────────────

/// What `encoding_rs::GB18030.decode` gives for the bytes: the text (after
/// BOM sniffing) and whether malformed sequences were replaced.
pub uninterp spec fn gb18030_decoded(raw: Seq<u8>) -> (Seq<char>, bool);

/// `Encoding::decode` of `encoding_rs::GB18030`, returning the text and the
/// flag that replacements were made.
#[verifier::external_body]
fn gb18030_decode(raw: &[u8]) -> (r: (String, bool))
    ensures
        (r.0@, r.1) == gb18030_decoded(raw@),
{
    let (text, _, had_errors) = encoding_rs::GB18030.decode(raw);
    (text.into_owned(), had_errors)
}

/// What `.lrc` XML text gives: an XML error where the reader reports one,
/// else the source that the document's events describe.
pub open spec fn lrc_xml_source(xml: Seq<char>, default_name: Seq<char>) -> Result<TileSourceView, LrcError> {
    match xml_event_list(xml) {
        None => Err(LrcError::Xml),
        Some(evs) => lrc_source(evs, default_name),
    }
}

/// Parses `.lrc` XML text into the source its events describe.
pub fn parse_lrc_xml(xml: &str, default_name: &str) -> (r: Result<TileSource, LrcError>)
    ensures
        outcome_is(r, lrc_xml_source(xml@, default_name@)),
{
    match xml_events(xml) {
        None => Err(LrcError::Xml),
        Some(events) => lrc_from_events(&events, default_name),
    }
}

/// The text of an `.lrc` file's bytes: GB18030, or UTF-8 where GB18030
/// decoding meets malformed input; `None` where the bytes are not UTF-8
/// either.
pub open spec fn lrc_text_of(raw: Seq<u8>) -> Option<Seq<char>> {
    let d = gb18030_decoded(raw);
    if d.1 {
        if vstd::utf8::valid_utf8(raw) {
            Some(vstd::utf8::decode_utf8(raw))
        } else {
            None
        }
    } else {
        Some(d.0)
    }
}

/// What the bytes of an `.lrc` file give.
pub open spec fn lrc_bytes_source(raw: Seq<u8>, default_name: Seq<char>) -> Result<TileSourceView, LrcError> {
    match lrc_text_of(raw) {
        None => Err(LrcError::Encoding),
        Some(t) => lrc_xml_source(t, default_name),
    }
}

/// Parses the bytes of an `.lrc` file: GB18030 text, or UTF-8 where GB18030
/// decoding meets malformed input.
pub fn parse_lrc_bytes(raw: &[u8], default_name: &str) -> (r: Result<TileSource, LrcError>)
    ensures
        outcome_is(r, lrc_bytes_source(raw@, default_name@)),
{
    let (text, had_errors) = gb18030_decode(raw);
    if had_errors {
        match utf8_chars(raw) {
            Some(cs) => {
                let s = string_of(&cs);
                parse_lrc_xml(s.as_str(), default_name)
            },
            None => Err(LrcError::Encoding),
        }
    } else {
        parse_lrc_xml(text.as_str(), default_name)
    }
}

} // verus!
