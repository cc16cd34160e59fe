//! Area files: KML, KMZ (zipped KML) and GeoJSON, read into the outer rings
//! of their polygons and the list of all their coordinates.
//!
//! Reading goes in two steps with the numbers in between. First a file's
//! structure is read into parts: each part a role and a list of coordinate
//! pairs, still as text (`parse_kml_parts`, `parse_kmz_parts`,
//! `parse_geojson_parts`). The caller reads each pair as two `f64`s and
//! hands them back by their bit patterns; `area_rings` then builds the
//! polygons and the coordinate list. The bounding box of the coordinates is
//! the caller's, as it is floating point.
//!
//! Within KML only rings under a `Polygon`'s `outerBoundaryIs` are polygons:
//! an `innerBoundaryIs` ring is a hole. A KML with no such ring falls back on
//! its first other ring. A ring loses a closing point equal to its first
//! one, and counts as a polygon only with at least three points.

use vstd::prelude::*;
use crate::json_doc::{json_at, json_doc, json_node_at, JsonDoc, JsonNode, JsonNodeView};
use crate::text::{
    chars_of, decimal, push_all, push_decimal, ends_with_chars, has_suffix, lower_text, split_chars, split_on, split_whitespace_chars,
    string_of, str_eq, to_lowercase_chars, views, words,
};

verus! {

// ─── formats ────────────────────────────────────────────────────────────────

/// The kinds of area file.
#[derive(Debug, Clone, Copy, PartialEq, Eq, Structural)]
pub enum AreaFormat {
    Kml,
    Kmz,
    GeoJson,
}

/// Why an area file cannot be read.
#[derive(Debug, Clone, Copy, PartialEq, Eq, Structural)]
pub enum AreaError {
    /// The file's extension is none of `kml`, `kmz`, `json`, `geojson`.
    UnsupportedFormat,
    /// The KML is not well-formed XML.
    Xml,
    /// The GeoJSON is not JSON.
    Json,
    /// The KMZ archive, or its KML entry, cannot be read.
    Zip,
    /// The KMZ archive holds no `.kml` entry.
    NoKml,
    /// The KML holds no coordinates.
    NoKmlCoordinates,
    /// The GeoJSON holds no coordinates.
    NoGeoJsonCoordinates,
}

/// The format a (lower-cased) file extension names.
pub open spec fn format_of_ext(ext: Seq<char>) -> Option<AreaFormat> {
    let e = lower_text(ext);
    if e == "kml"@ {
        Some(AreaFormat::Kml)
    } else if e == "kmz"@ {
        Some(AreaFormat::Kmz)
    } else if e == "json"@ || e == "geojson"@ {
        Some(AreaFormat::GeoJson)
    } else {
        None
    }
}

/// The format of an area file with extension `ext` (empty where the file has
/// none), compared lower-cased.
pub fn area_format(ext: &str) -> (r: Result<AreaFormat, AreaError>)
    ensures
        match format_of_ext(ext@) {
            Some(f) => r == Ok::<AreaFormat, AreaError>(f),
            None => r == Err::<AreaFormat, AreaError>(AreaError::UnsupportedFormat),
        },
{
    let e = string_of(&to_lowercase_chars(&chars_of(ext)));
    if str_eq(e.as_str(), "kml") {
        Ok(AreaFormat::Kml)
    } else if str_eq(e.as_str(), "kmz") {
        Ok(AreaFormat::Kmz)
    } else if str_eq(e.as_str(), "json") || str_eq(e.as_str(), "geojson") {
        Ok(AreaFormat::GeoJson)
    } else {
        Err(AreaError::UnsupportedFormat)
    }
}

// ─── parts ──────────────────────────────────────────────────────────────────

/// What the coordinates of a part are.
#[derive(Debug, Clone, Copy, PartialEq, Eq, Structural)]
pub enum PartRole {
    /// The outer ring of a polygon.
    Outer,
    /// A KML ring that is not under a polygon's outer boundary.
    Loose,
    /// Points and lines, which give coordinates but no polygon.
    Points,
}

/// A part of an area file, its coordinate pairs (longitude, latitude) as text.
#[derive(Debug, Clone, PartialEq, Eq)]
pub struct AreaPart {
    pub role: PartRole,
    pub pairs: Vec<(String, String)>,
}

pub struct AreaPartView {
    pub role: PartRole,
    pub pairs: Seq<(Seq<char>, Seq<char>)>,
}

impl View for AreaPart {
    type V = AreaPartView;

    open spec fn view(&self) -> AreaPartView {
        AreaPartView { role: self.role, pairs: crate::text::pair_views(self.pairs@) }
    }
}

pub open spec fn part_views(v: Seq<AreaPart>) -> Seq<AreaPartView> {
    v.map_values(|p: AreaPart| p@)
}

/// A part with its pairs read as numbers: each pair's two `f64`s by their
/// bit patterns, or `None` where either text does not read as an `f64`.
#[derive(Debug, Clone, PartialEq, Eq)]
pub struct PartPoints {
    pub role: PartRole,
    pub points: Vec<Option<(u64, u64)>>,
}

/// The polygons (outer rings) and all coordinates of an area, each point
/// by the bit patterns of its two `f64`s.
#[derive(Debug, Clone, PartialEq, Eq)]
pub struct AreaRings {
    pub polygons: Vec<Vec<(u64, u64)>>,
    pub all: Vec<(u64, u64)>,
}

// ─── rings ──────────────────────────────────────────────────────────────────

/// The `f64` with bit pattern `b` is NaN.
pub open spec fn f64_bits_nan(b: u64) -> bool {
    (b >> 52u64) & 0x7ffu64 == 0x7ffu64 && b & 0xf_ffff_ffff_ffffu64 != 0
}

/// `==` of the `f64`s with bit patterns `a` and `b`: never for NaN, always
/// for the two zeros, otherwise equal bits.
pub open spec fn f64_bits_eq(a: u64, b: u64) -> bool {
    !f64_bits_nan(a) && !f64_bits_nan(b) && (a == b || (a & 0x7fff_ffff_ffff_ffffu64 == 0
        && b & 0x7fff_ffff_ffff_ffffu64 == 0))
}

/// `==` of two points.
pub open spec fn point_eq(p: (u64, u64), q: (u64, u64)) -> bool {
    f64_bits_eq(p.0, q.0) && f64_bits_eq(p.1, q.1)
}

fn f64_bits_eq_exec(a: u64, b: u64) -> (r: bool)
    ensures
        r == f64_bits_eq(a, b),
{
    let a_nan = (a >> 52u64) & 0x7ffu64 == 0x7ffu64 && a & 0xf_ffff_ffff_ffffu64 != 0;
    let b_nan = (b >> 52u64) & 0x7ffu64 == 0x7ffu64 && b & 0xf_ffff_ffff_ffffu64 != 0;
    !a_nan && !b_nan && (a == b || (a & 0x7fff_ffff_ffff_ffffu64 == 0 && b & 0x7fff_ffff_ffff_ffffu64 == 0))
}

/// The points that read.
pub open spec fn read_points(s: Seq<Option<(u64, u64)>>) -> Seq<(u64, u64)>
    decreases s.len(),
{
    if s.len() == 0 {
        Seq::empty()
    } else {
        let prev = read_points(s.drop_last());
        match s.last() {
            Some(p) => prev.push(p),
            None => prev,
        }
    }
}

/// A ring without a closing point equal to its first one; `None` when fewer
/// than three points are left.
pub open spec fn normalized_ring(r: Seq<(u64, u64)>) -> Option<Seq<(u64, u64)>> {
    let n = if r.len() > 1 && point_eq(r[0], r.last()) {
        r.drop_last()
    } else {
        r
    };
    if n.len() >= 3 {
        Some(n)
    } else {
        None
    }
}

/// What reading the parts so far has found: the polygons, the first ring to
/// fall back on, and all coordinates.
pub struct AreaState {
    pub polygons: Seq<Seq<(u64, u64)>>,
    pub fallback: Option<Seq<(u64, u64)>>,
    pub all: Seq<(u64, u64)>,
}

/// What one part adds: its points to all coordinates; an outer ring's
/// normalized ring to the polygons; the first loose ring that normalizes as
/// the fallback.
pub open spec fn area_step(s: AreaState, role: PartRole, points: Seq<Option<(u64, u64)>>) -> AreaState {
    let ring = read_points(points);
    match role {
        PartRole::Outer => AreaState {
            polygons: match normalized_ring(ring) {
                Some(n) => s.polygons.push(n),
                None => s.polygons,
            },
            all: s.all + ring,
            ..s
        },
        PartRole::Loose => AreaState {
            fallback: if s.fallback is None {
                normalized_ring(ring)
            } else {
                s.fallback
            },
            all: s.all + ring,
            ..s
        },
        PartRole::Points => AreaState { all: s.all + ring, ..s },
    }
}

pub open spec fn area_run(parts: Seq<(PartRole, Seq<Option<(u64, u64)>>)>) -> AreaState
    decreases parts.len(),
{
    if parts.len() == 0 {
        AreaState { polygons: Seq::empty(), fallback: None, all: Seq::empty() }
    } else {
        area_step(area_run(parts.drop_last()), parts.last().0, parts.last().1)
    }
}

pub struct AreaRingsView {
    pub polygons: Seq<Seq<(u64, u64)>>,
    pub all: Seq<(u64, u64)>,
}

impl View for AreaRings {
    type V = AreaRingsView;

    open spec fn view(&self) -> AreaRingsView {
        AreaRingsView { polygons: self.polygons@.map_values(|r: Vec<(u64, u64)>| r@), all: self.all@ }
    }
}

pub open spec fn points_views(v: Seq<PartPoints>) -> Seq<(PartRole, Seq<Option<(u64, u64)>>)> {
    v.map_values(|p: PartPoints| (p.role, p.points@))
}

/// The area the parts describe: an error where they hold no coordinates at
/// all; else the polygons, or, where there is none, the fallback ring.
pub open spec fn area_of(parts: Seq<(PartRole, Seq<Option<(u64, u64)>>)>, missing: AreaError) -> Result<AreaRingsView, AreaError> {
    let s = area_run(parts);
    if s.all.len() == 0 {
        Err(missing)
    } else {
        Ok(
            AreaRingsView {
                polygons: if s.polygons.len() == 0 && s.fallback is Some {
                    seq![s.fallback->0]
                } else {
                    s.polygons
                },
                all: s.all,
            },
        )
    }
}

fn read_points_exec(points: &Vec<Option<(u64, u64)>>) -> (r: Vec<(u64, u64)>)
    ensures
        r@ == read_points(points@),
{
    let mut r: Vec<(u64, u64)> = Vec::new();
    let mut i: usize = 0;
    while i < points.len()
        invariant
            i <= points@.len(),
            r@ == read_points(points@.subrange(0, i as int)),
        decreases points@.len() - i,
    {
        assert(points@.subrange(0, i + 1).drop_last() =~= points@.subrange(0, i as int));
        match points[i] {
            Some(p) => r.push(p),
            None => {},
        }
        i += 1;
    }
    assert(points@.subrange(0, points@.len() as int) =~= points@);
    r
}

fn normalize_ring_exec(ring: Vec<(u64, u64)>) -> (r: Option<Vec<(u64, u64)>>)
    ensures
        match normalized_ring(ring@) {
            Some(n) => r matches Some(v) && v@ == n,
            None => r is None,
        },
{
    let mut n = ring;
    if n.len() > 1 {
        let first = n[0];
        let last = n[n.len() - 1];
        if f64_bits_eq_exec(first.0, last.0) && f64_bits_eq_exec(first.1, last.1) {
            n.pop();
            assert(n@ =~= ring@.drop_last());
        }
    }
    if n.len() >= 3 {
        Some(n)
    } else {
        None
    }
}

/// Builds the polygons and the coordinate list from the parts with their
/// points read; `missing` is the error where there are no coordinates.
pub fn area_rings(parts: &Vec<PartPoints>, missing: AreaError) -> (r: Result<AreaRings, AreaError>)
    ensures
        match area_of(points_views(parts@), missing) {
            Ok(v) => r matches Ok(a) && a@ == v,
            Err(e) => r == Err::<AreaRings, AreaError>(e),
        },
{
    let ghost pv = points_views(parts@);
    let mut polygons: Vec<Vec<(u64, u64)>> = Vec::new();
    let mut fallback: Option<Vec<(u64, u64)>> = None;
    let mut all: Vec<(u64, u64)> = Vec::new();
    let mut i: usize = 0;
    while i < parts.len()
        invariant
            i <= parts@.len(),
            pv == points_views(parts@),
            ({
                let s = area_run(pv.subrange(0, i as int));
                &&& polygons@.map_values(|r: Vec<(u64, u64)>| r@) == s.polygons
                &&& all@ == s.all
                &&& match s.fallback {
                    Some(f) => fallback matches Some(v) && v@ == f,
                    None => fallback is None,
                }
            }),
        decreases parts@.len() - i,
    {
        assert(pv.subrange(0, i + 1).drop_last() =~= pv.subrange(0, i as int));
        assert(pv.subrange(0, i + 1).last() == (parts@[i as int].role, parts@[i as int].points@));
        let ring = read_points_exec(&parts[i].points);
        let ghost all0 = all@;
        let ghost pol0 = polygons@.map_values(|r: Vec<(u64, u64)>| r@);
        let mut k: usize = 0;
        while k < ring.len()
            invariant
                k <= ring@.len(),
                all@ == all0 + ring@.subrange(0, k as int),
            decreases ring@.len() - k,
        {
            all.push(ring[k]);
            assert(all@ =~= all0 + ring@.subrange(0, k + 1));
            k += 1;
        }
        assert(ring@.subrange(0, ring@.len() as int) =~= ring@);
        match parts[i].role {
            PartRole::Outer => {
                match normalize_ring_exec(ring) {
                    Some(n) => {
                        polygons.push(n);
                        assert(polygons@.map_values(|r: Vec<(u64, u64)>| r@) =~= pol0.push(n@));
                    },
                    None => {},
                }
            },
            PartRole::Loose => {
                if fallback.is_none() {
                    fallback = normalize_ring_exec(ring);
                }
            },
            PartRole::Points => {},
        }
        i += 1;
    }
    assert(pv.subrange(0, parts@.len() as int) =~= pv);
    if all.len() == 0 {
        return Err(missing);
    }
    if polygons.len() == 0 {
        match fallback {
            Some(f) => {
                polygons.push(f);
                assert(polygons@.map_values(|r: Vec<(u64, u64)>| r@) =~= seq![f@]);
            },
            None => {},
        }
    }
    Ok(AreaRings { polygons, all })
}

/// Every ring in `s` (a polygon or the fallback) has at least three points,
/// each of which is among all coordinates of `s`.
pub open spec fn rings_well_formed(s: AreaState) -> bool {
    &&& forall|i: int| 0 <= i < s.polygons.len() ==> (#[trigger] s.polygons[i]).len() >= 3
    &&& forall|i: int, j: int| 0 <= i < s.polygons.len() && 0 <= j < s.polygons[i].len()
        ==> s.all.contains(#[trigger] s.polygons[i][j])
    &&& s.fallback matches Some(f) ==> f.len() >= 3 && forall|j: int| 0 <= j < f.len() ==> s.all.contains(#[trigger] f[j])
}

proof fn lemma_area_run_well_formed(parts: Seq<(PartRole, Seq<Option<(u64, u64)>>)>)
    ensures
        rings_well_formed(area_run(parts)),
    decreases parts.len(),
{
    if parts.len() > 0 {
        lemma_area_run_well_formed(parts.drop_last());
        let s = area_run(parts.drop_last());
        let ring = read_points(parts.last().1);
        let t = area_run(parts);
        assert(t.all == s.all + ring);
        assert forall|x: (u64, u64)| s.all.contains(x) implies t.all.contains(x) by {
            let k = choose|k: int| 0 <= k < s.all.len() && s.all[k] == x;
            assert(t.all[k] == x);
        }
        assert forall|j: int| 0 <= j < ring.len() implies t.all.contains(#[trigger] ring[j]) by {
            assert(t.all[s.all.len() + j] == ring[j]);
        }
        match normalized_ring(ring) {
            Some(n) => {
                assert forall|j: int| 0 <= j < n.len() implies t.all.contains(#[trigger] n[j]) by {
                    assert(n[j] == ring[j]);
                }
            },
            None => {},
        }
    }
}

/// Every polygon ring that reading an area file yields has at least three
/// points, and each of its points is among the area's coordinates.
pub proof fn lemma_area_rings_well_formed(parts: Seq<(PartRole, Seq<Option<(u64, u64)>>)>, missing: AreaError)
    ensures
        area_of(parts, missing) matches Ok(v) ==> {
            &&& forall|i: int| 0 <= i < v.polygons.len() ==> (#[trigger] v.polygons[i]).len() >= 3
            &&& forall|i: int, j: int| 0 <= i < v.polygons.len() && 0 <= j < v.polygons[i].len()
                ==> v.all.contains(#[trigger] v.polygons[i][j])
        },
{
    lemma_area_run_well_formed(parts);
}


// ─── KML ────────────────────────────────────────────────────────────────────

/// A node of a KML document, in plain values.
#[derive(Debug, Clone)]
pub struct KmlNode {
    /// Whether the node is an element.
    pub element: bool,
    /// The element's local tag name (empty for other nodes).
    pub name: String,
    /// The position of the parent node in the document's node list.
    pub parent: Option<usize>,
    /// `Node::text`: an element's first child when that is text; the text
    /// of a text or comment node.
    pub text: Option<String>,
}

pub struct KmlNodeView {
    pub element: bool,
    pub name: Seq<char>,
    pub parent: Option<nat>,
    pub text: Option<Seq<char>>,
}

impl View for KmlNode {
    type V = KmlNodeView;

    open spec fn view(&self) -> KmlNodeView {
        KmlNodeView {
            element: self.element,
            name: self.name@,
            parent: match self.parent {
                Some(p) => Some(p as nat),
                None => None,
            },
            text: match self.text {
                Some(t) => Some(t@),
                None => None,
            },
        }
    }
}

pub open spec fn kml_views(v: Seq<KmlNode>) -> Seq<KmlNodeView> {
    v.map_values(|n: KmlNode| n@)
}

/// The nodes of the document that `roxmltree::Document::parse` makes of
/// `text`, in document order (`Document::descendants`, which lists the
/// document's node storage, so that a node's position is its `NodeId`);
/// `None` where the text is not well-formed XML.
pub uninterp spec fn kml_tree_of(text: Seq<char>) -> Option<Seq<KmlNodeView>>;

/// `roxmltree::Document::parse`, then each node of `Document::descendants`
/// reduced to plain values: `is_element`, `tag_name().name()`, the
/// parent's `NodeId` and `text`.
#[verifier::external_body]
fn kml_tree(content: &str) -> (r: Option<Vec<KmlNode>>)
    ensures
        match kml_tree_of(content@) {
            None => r is None,
            Some(t) => r matches Some(v) && kml_views(v@) == t,
        },
{
    let doc = roxmltree::Document::parse(content).ok()?;
    Some(doc.descendants().map(|n| KmlNode {
        element: n.is_element(),
        name: n.tag_name().name().to_string(),
        parent: n.parent().map(|p| p.id().get_usize()),
        text: n.text().map(|t| t.to_string()),
    }).collect())
}

/// Whether node `cur` lies in a polygon's outer boundary: going up at most
/// `steps` more ancestors, a `Polygon` is met after an `outerBoundaryIs`
/// (`found`) and before any `innerBoundaryIs` (names compared lower-cased).
pub open spec fn outer_walk(nodes: Seq<KmlNodeView>, cur: int, steps: nat, found: bool) -> bool
    decreases steps,
{
    if steps == 0 || cur < 0 || cur >= nodes.len() {
        false
    } else {
        match nodes[cur].parent {
            None => false,
            Some(p) => if p >= nodes.len() {
                false
            } else {
                let n = lower_text(nodes[p as int].name);
                if n == "innerboundaryis"@ {
                    false
                } else if n == "polygon"@ {
                    found
                } else {
                    outer_walk(nodes, p as int, (steps - 1) as nat, found || n == "outerboundaryis"@)
                }
            },
        }
    }
}

/// Whether the `<coordinates>` node at `i` is in a polygon's outer ring,
/// looking at most six ancestors up.
pub open spec fn in_outer_ring(nodes: Seq<KmlNodeView>, i: int) -> bool {
    outer_walk(nodes, i, 6, false)
}

/// The coordinate pairs of the white-space separated tokens `ws`: the first
/// two comma-separated fields of each token that has at least two.
pub open spec fn pairs_of_words(ws: Seq<Seq<char>>) -> Seq<(Seq<char>, Seq<char>)>
    decreases ws.len(),
{
    if ws.len() == 0 {
        Seq::empty()
    } else {
        let prev = pairs_of_words(ws.drop_last());
        let sp = split_on(ws.last(), ',');
        if sp.len() >= 2 {
            prev.push((sp[0], sp[1]))
        } else {
            prev
        }
    }
}

/// The coordinate pairs of a `<coordinates>` text.
pub open spec fn coordinate_pairs(t: Seq<char>) -> Seq<(Seq<char>, Seq<char>)> {
    pairs_of_words(words(t))
}

/// The part the node at `i` gives: a `<coordinates>` element (name in any
/// ASCII case) with text gives its pairs, an outer ring or a loose one.
pub open spec fn kml_part_at(nodes: Seq<KmlNodeView>, i: int) -> Seq<AreaPartView> {
    let n = nodes[i];
    if n.element && crate::download_plan::ascii_lower_is(n.name, "coordinates"@) && n.text is Some {
        seq![AreaPartView {
            role: if in_outer_ring(nodes, i) { PartRole::Outer } else { PartRole::Loose },
            pairs: coordinate_pairs(n.text->0),
        }]
    } else {
        Seq::empty()
    }
}

/// The parts of the first `k` nodes, in document order.
pub open spec fn kml_parts_upto(nodes: Seq<KmlNodeView>, k: int) -> Seq<AreaPartView>
    decreases k,
{
    if k <= 0 || k > nodes.len() {
        Seq::empty()
    } else {
        kml_parts_upto(nodes, k - 1) + kml_part_at(nodes, k - 1)
    }
}

/// The parts of a KML document, in document order.
pub open spec fn kml_parts(nodes: Seq<KmlNodeView>) -> Seq<AreaPartView> {
    kml_parts_upto(nodes, nodes.len() as int)
}

fn in_outer_ring_exec(nodes: &Vec<KmlNode>, i: usize) -> (r: bool)
    requires
        i < nodes@.len(),
    ensures
        r == in_outer_ring(kml_views(nodes@), i as int),
{
    let ghost nv = kml_views(nodes@);
    let mut cur: usize = i;
    let mut found = false;
    let mut steps: usize = 6;
    while steps > 0
        invariant
            nv == kml_views(nodes@),
            cur < nodes@.len(),
            steps <= 6,
            in_outer_ring(nv, i as int) == outer_walk(nv, cur as int, steps as nat, found),
        decreases steps,
    {
        assert(nv[cur as int] == nodes@[cur as int]@);
        let p = match nodes[cur].parent {
            None => return false,
            Some(p) => p,
        };
        if p >= nodes.len() {
            return false;
        }
        assert(nv[p as int] == nodes@[p as int]@);
        let n = to_lowercase_chars(&chars_of(nodes[p].name.as_str()));
        let nm = string_of(&n);
        if str_eq(nm.as_str(), "innerboundaryis") {
            return false;
        }
        if str_eq(nm.as_str(), "polygon") {
            return found;
        }
        found = found || str_eq(nm.as_str(), "outerboundaryis");
        cur = p;
        steps -= 1;
    }
    false
}

fn coordinate_pairs_exec(t: &str) -> (r: Vec<(String, String)>)
    ensures
        crate::text::pair_views(r@) == coordinate_pairs(t@),
{
    let ws = split_whitespace_chars(&chars_of(t));
    let ghost wv = views(ws@);
    let mut r: Vec<(String, String)> = Vec::new();
    let mut i: usize = 0;
    while i < ws.len()
        invariant
            i <= ws@.len(),
            wv == views(ws@),
            wv == words(t@),
            crate::text::pair_views(r@) == pairs_of_words(wv.subrange(0, i as int)),
        decreases ws@.len() - i,
    {
        assert(wv.subrange(0, i + 1).drop_last() =~= wv.subrange(0, i as int));
        assert(wv.subrange(0, i + 1).last() == ws@[i as int]@);
        let sp = split_chars(&ws[i], ',');
        if sp.len() >= 2 {
            let ghost r0 = crate::text::pair_views(r@);
            let a = string_of(&sp[0]);
            let b = string_of(&sp[1]);
            assert(views(sp@)[0] == sp@[0]@ && views(sp@)[1] == sp@[1]@);
            r.push((a, b));
            assert(crate::text::pair_views(r@) =~= r0.push((sp@[0]@, sp@[1]@)));
        }
        i += 1;
    }
    assert(wv.subrange(0, ws@.len() as int) =~= wv);
    r
}

/// The parts of a KML document's node list.
pub fn kml_parts_of(nodes: &Vec<KmlNode>) -> (r: Vec<AreaPart>)
    ensures
        part_views(r@) == kml_parts(kml_views(nodes@)),
{
    let ghost nv = kml_views(nodes@);
    let mut r: Vec<AreaPart> = Vec::new();
    let mut i: usize = 0;
    while i < nodes.len()
        invariant
            i <= nodes@.len(),
            nv == kml_views(nodes@),
            part_views(r@) == kml_parts_upto(nv, i as int),
        decreases nodes@.len() - i,
    {
        assert(nv[i as int] == nodes@[i as int]@);
        let ghost r0 = part_views(r@);
        let n = &nodes[i];
        if n.element && crate::download_plan::eq_ascii_lower(n.name.as_str(), "coordinates") {
            match &n.text {
                Some(t) => {
                    let role = if in_outer_ring_exec(nodes, i) { PartRole::Outer } else { PartRole::Loose };
                    let pairs = coordinate_pairs_exec(t.as_str());
                    r.push(AreaPart { role, pairs });
                    assert(part_views(r@) =~= r0 + kml_part_at(nv, i as int));
                },
                None => {
                    assert(part_views(r@) =~= r0 + kml_part_at(nv, i as int));
                },
            }
        } else {
            assert(part_views(r@) =~= r0 + kml_part_at(nv, i as int));
        }
        i += 1;
    }
    r
}

/// Reads a KML document into its parts.
pub fn parse_kml_parts(content: &str) -> (r: Result<Vec<AreaPart>, AreaError>)
    ensures
        match kml_tree_of(content@) {
            None => r == Err::<Vec<AreaPart>, AreaError>(AreaError::Xml),
            Some(t) => r matches Ok(v) && part_views(v@) == kml_parts(t),
        },
{
    match kml_tree(content) {
        None => Err(AreaError::Xml),
        Some(nodes) => Ok(kml_parts_of(&nodes)),
    }
}

// ─── KMZ ────────────────────────────────────────────────────────────────────

/// The number of entries `zip::ZipArchive::new` finds in the archive
/// `bytes`; `None` where it cannot read the archive.
pub uninterp spec fn zip_entry_count_of(bytes: Seq<u8>) -> Option<usize>;

/// The name of entry `i` of the archive `bytes` (`ZipArchive::by_index`,
/// then `ZipFile::name`); `None` where either fails.
pub uninterp spec fn zip_entry_name_of(bytes: Seq<u8>, i: usize) -> Option<Seq<char>>;

/// The content of entry `i` of the archive `bytes` read as UTF-8 text
/// (`ZipArchive::by_index`, then `Read::read_to_string`); `None` where
/// either fails.
pub uninterp spec fn zip_entry_text_of(bytes: Seq<u8>, i: usize) -> Option<Seq<char>>;

/// `ZipArchive::new` over the bytes, then `ZipArchive::len`.
#[verifier::external_body]
fn zip_entry_count(bytes: &[u8]) -> (r: Option<usize>)
    ensures
        r == zip_entry_count_of(bytes@),
{
    zip::ZipArchive::new(std::io::Cursor::new(bytes)).ok().map(|a| a.len())
}

/// `ZipArchive::new` over the bytes, `by_index(i)`, then the entry's name.
#[verifier::external_body]
fn zip_entry_name(bytes: &[u8], i: usize) -> (r: Option<String>)
    ensures
        r is None <==> zip_entry_name_of(bytes@, i) is None,
        r matches Some(n) ==> zip_entry_name_of(bytes@, i) == Some(n@),
{
    let mut a = zip::ZipArchive::new(std::io::Cursor::new(bytes)).ok()?;
    let f = a.by_index(i).ok()?;
    Some(f.name().to_string())
}

/// `ZipArchive::new` over the bytes, `by_index(i)`, then
/// `read_to_string` of the entry.
#[verifier::external_body]
fn zip_entry_text(bytes: &[u8], i: usize) -> (r: Option<String>)
    ensures
        r is None <==> zip_entry_text_of(bytes@, i) is None,
        r matches Some(t) ==> zip_entry_text_of(bytes@, i) == Some(t@),
{
    let mut a = zip::ZipArchive::new(std::io::Cursor::new(bytes)).ok()?;
    let mut f = a.by_index(i).ok()?;
    let mut t = String::new();
    std::io::Read::read_to_string(&mut f, &mut t).ok()?;
    Some(t)
}

/// The first entry, from `i` on, whose name ends in `.kml` (lower-cased).
pub open spec fn kml_entry_from(bytes: Seq<u8>, i: int, n: int) -> Option<int>
    decreases n - i,
{
    if i < 0 || i >= n {
        None
    } else if (match zip_entry_name_of(bytes, i as usize) {
        Some(nm) => has_suffix(lower_text(nm), ".kml"@),
        None => false,
    }) {
        Some(i)
    } else {
        kml_entry_from(bytes, i + 1, n)
    }
}

/// The KML text inside a KMZ archive: its first `.kml` entry.
pub open spec fn kmz_text(bytes: Seq<u8>) -> Result<Seq<char>, AreaError> {
    match zip_entry_count_of(bytes) {
        None => Err(AreaError::Zip),
        Some(n) => match kml_entry_from(bytes, 0, n as int) {
            None => Err(AreaError::NoKml),
            Some(i) => match zip_entry_text_of(bytes, i as usize) {
                None => Err(AreaError::Zip),
                Some(t) => Ok(t),
            },
        },
    }
}

/// The KML text of a KMZ archive.
pub fn kmz_kml_text(bytes: &[u8]) -> (r: Result<String, AreaError>)
    ensures
        match kmz_text(bytes@) {
            Ok(t) => r matches Ok(s) && s@ == t,
            Err(e) => r == Err::<String, AreaError>(e),
        },
{
    let n = match zip_entry_count(bytes) {
        None => return Err(AreaError::Zip),
        Some(n) => n,
    };
    let dot_kml = chars_of(".kml");
    let mut i: usize = 0;
    while i < n
        invariant
            i <= n,
            dot_kml@ == ".kml"@,
            zip_entry_count_of(bytes@) == Some(n),
            kml_entry_from(bytes@, 0, n as int) == kml_entry_from(bytes@, i as int, n as int),
        decreases n - i,
    {
        let hit = match zip_entry_name(bytes, i) {
            Some(nm) => ends_with_chars(&to_lowercase_chars(&chars_of(nm.as_str())), &dot_kml),
            None => false,
        };
        if hit {
            return match zip_entry_text(bytes, i) {
                None => Err(AreaError::Zip),
                Some(t) => Ok(t),
            };
        }
        i += 1;
    }
    Err(AreaError::NoKml)
}

/// Reads a KMZ archive's KML into its parts.
pub fn parse_kmz_parts(bytes: &[u8]) -> (r: Result<Vec<AreaPart>, AreaError>)
    ensures
        match kmz_text(bytes@) {
            Err(e) => r == Err::<Vec<AreaPart>, AreaError>(e),
            Ok(t) => match kml_tree_of(t) {
                None => r == Err::<Vec<AreaPart>, AreaError>(AreaError::Xml),
                Some(nodes) => r matches Ok(v) && part_views(v@) == kml_parts(nodes),
            },
        },
{
    let t = kmz_kml_text(bytes)?;
    parse_kml_parts(t.as_str())
}

// ─── GeoJSON ────────────────────────────────────────────────────────────────

/// The JSON pointer to member `key` of the value at `p`.
pub open spec fn child(p: Seq<char>, key: Seq<char>) -> Seq<char> {
    p + seq!['/'] + key
}

/// The JSON pointer to item `i` of the array at `p`.
pub open spec fn item(p: Seq<char>, i: nat) -> Seq<char> {
    p + seq!['/'] + decimal(i)
}

/// The `type` member of the object at `p` where it is a string; empty
/// otherwise.
pub open spec fn type_at(t: Seq<char>, p: Seq<char>) -> Seq<char> {
    match json_node_at(t, child(p, "type"@)) {
        JsonNodeView::Str(s) => s,
        _ => Seq::empty(),
    }
}

/// The position at `q`: an array whose first two items are numbers.
pub open spec fn point_at(t: Seq<char>, q: Seq<char>) -> Option<(Seq<char>, Seq<char>)> {
    match json_node_at(t, q) {
        JsonNodeView::Array(k) => if k >= 2 {
            match (json_node_at(t, item(q, 0)), json_node_at(t, item(q, 1))) {
                (JsonNodeView::Number(a), JsonNodeView::Number(b)) => Some((a, b)),
                _ => None,
            }
        } else {
            None
        },
        _ => None,
    }
}

/// The positions among the first `m` items of the array at `base`.
pub open spec fn points_upto(t: Seq<char>, base: Seq<char>, m: nat) -> Seq<(Seq<char>, Seq<char>)>
    decreases m,
{
    if m == 0 {
        Seq::empty()
    } else {
        let prev = points_upto(t, base, (m - 1) as nat);
        match point_at(t, item(base, (m - 1) as nat)) {
            Some(pr) => prev.push(pr),
            None => prev,
        }
    }
}

/// The outer ring of a polygon's ring list at `rings`: its first ring, where
/// that is an array.
pub open spec fn ring_part(t: Seq<char>, rings: Seq<char>) -> Seq<AreaPartView> {
    match json_node_at(t, rings) {
        JsonNodeView::Array(n) => if n > 0 {
            match json_node_at(t, item(rings, 0)) {
                JsonNodeView::Array(m) => seq![AreaPartView { role: PartRole::Outer, pairs: points_upto(t, item(rings, 0), m) }],
                _ => Seq::empty(),
            }
        } else {
            Seq::empty()
        },
        _ => Seq::empty(),
    }
}

/// The outer rings of the first `n` polygons of a multi-polygon at `c`.
pub open spec fn polygons_upto(t: Seq<char>, c: Seq<char>, n: nat) -> Seq<AreaPartView>
    decreases n,
{
    if n == 0 {
        Seq::empty()
    } else {
        polygons_upto(t, c, (n - 1) as nat) + ring_part(t, item(c, (n - 1) as nat))
    }
}

/// The positions of the line at `q`, where it is an array.
pub open spec fn line_part(t: Seq<char>, q: Seq<char>) -> Seq<AreaPartView> {
    match json_node_at(t, q) {
        JsonNodeView::Array(m) => seq![AreaPartView { role: PartRole::Points, pairs: points_upto(t, q, m) }],
        _ => Seq::empty(),
    }
}

/// The positions of the first `n` lines of a multi-line at `c`, a part each.
pub open spec fn lines_upto(t: Seq<char>, c: Seq<char>, n: nat) -> Seq<AreaPartView>
    decreases n,
{
    if n == 0 {
        Seq::empty()
    } else {
        lines_upto(t, c, (n - 1) as nat) + line_part(t, item(c, (n - 1) as nat))
    }
}

/// The parts of the GeoJSON value at `p`, by its `type`: the members of a
/// `FeatureCollection` and the geometries of a `GeometryCollection` in
/// order, a `Feature`'s geometry, a `Polygon`'s outer ring, each
/// `MultiPolygon` member's outer ring, and the positions of points and
/// lines. `fuel` bounds the nesting walked.
pub open spec fn geo_parts(t: Seq<char>, p: Seq<char>, fuel: nat) -> Seq<AreaPartView>
    decreases fuel, 0nat,
{
    if fuel == 0 {
        Seq::empty()
    } else {
        let ty = type_at(t, p);
        let c = child(p, "coordinates"@);
        if ty == "FeatureCollection"@ {
            match json_node_at(t, child(p, "features"@)) {
                JsonNodeView::Array(n) => geo_items(t, child(p, "features"@), n, (fuel - 1) as nat),
                _ => Seq::empty(),
            }
        } else if ty == "Feature"@ {
            geo_parts(t, child(p, "geometry"@), (fuel - 1) as nat)
        } else if ty == "Polygon"@ {
            ring_part(t, c)
        } else if ty == "MultiPolygon"@ {
            match json_node_at(t, c) {
                JsonNodeView::Array(n) => polygons_upto(t, c, n),
                _ => Seq::empty(),
            }
        } else if ty == "GeometryCollection"@ {
            match json_node_at(t, child(p, "geometries"@)) {
                JsonNodeView::Array(n) => geo_items(t, child(p, "geometries"@), n, (fuel - 1) as nat),
                _ => Seq::empty(),
            }
        } else if ty == "Point"@ {
            match point_at(t, c) {
                Some(pr) => seq![AreaPartView { role: PartRole::Points, pairs: seq![pr] }],
                None => Seq::empty(),
            }
        } else if ty == "LineString"@ || ty == "MultiPoint"@ {
            match json_node_at(t, c) {
                JsonNodeView::Array(n) => seq![AreaPartView { role: PartRole::Points, pairs: points_upto(t, c, n) }],
                _ => Seq::empty(),
            }
        } else if ty == "MultiLineString"@ {
            match json_node_at(t, c) {
                JsonNodeView::Array(n) => lines_upto(t, c, n),
                _ => Seq::empty(),
            }
        } else {
            Seq::empty()
        }
    }
}

/// Where every one of the first `m` items of the array at `base` is a
/// position, all `m` are read, in order.
proof fn lemma_points_upto_all(t: Seq<char>, base: Seq<char>, m: nat)
    requires
        forall|k: nat| k < m ==> (#[trigger] point_at(t, item(base, k))) is Some,
    ensures
        points_upto(t, base, m).len() == m,
        forall|k: nat| k < m ==> (#[trigger] points_upto(t, base, m)[k as int]) == point_at(t, item(base, k))->0,
    decreases m,
{
    if m > 0 {
        let m1 = (m - 1) as nat;
        assert forall|k: nat| k < m1 implies (#[trigger] point_at(t, item(base, k))) is Some by {
            assert(k < m);
        }
        lemma_points_upto_all(t, base, m1);
        assert(point_at(t, item(base, m1)) is Some);
        let prev = points_upto(t, base, m1);
        assert forall|k: nat| k < m implies (#[trigger] points_upto(t, base, m)[k as int]) == point_at(t, item(base, k))->0 by {
            if k < m1 {
                assert(points_upto(t, base, m)[k as int] == prev[k as int]);
            }
        }
    }
}

/// A `MultiPoint` or `LineString` geometry whose coordinates are an array
/// of `n` items gives one part of loose points: the positions among those
/// items in order, all `n` of them where each is a position.
pub proof fn lemma_multipoint_part(t: Seq<char>, p: Seq<char>, fuel: nat, n: nat)
    requires
        fuel > 0,
        type_at(t, p) == "MultiPoint"@ || type_at(t, p) == "LineString"@,
        json_node_at(t, child(p, "coordinates"@)) == JsonNodeView::Array(n),
    ensures
        geo_parts(t, p, fuel).len() == 1,
        geo_parts(t, p, fuel)[0].role == PartRole::Points,
        geo_parts(t, p, fuel)[0].pairs == points_upto(t, child(p, "coordinates"@), n),
        (forall|k: nat| k < n ==> (#[trigger] point_at(t, item(child(p, "coordinates"@), k))) is Some) ==> {
            &&& geo_parts(t, p, fuel)[0].pairs.len() == n
            &&& forall|k: nat| k < n ==> (#[trigger] geo_parts(t, p, fuel)[0].pairs[k as int])
                == point_at(t, item(child(p, "coordinates"@), k))->0
        },
{
    reveal_strlit("MultiPoint");
    reveal_strlit("FeatureCollection");
    reveal_strlit("Feature");
    reveal_strlit("Polygon");
    reveal_strlit("MultiPolygon");
    reveal_strlit("GeometryCollection");
    reveal_strlit("Point");
    reveal_strlit("LineString");
    let c = child(p, "coordinates"@);
    assert("MultiPoint"@.len() == 10 && "LineString"@.len() == 10);
    assert("FeatureCollection"@.len() == 17 && "Feature"@.len() == 7 && "Polygon"@.len() == 7);
    assert("MultiPolygon"@.len() == 12 && "GeometryCollection"@.len() == 18 && "Point"@.len() == 5);
    assert(type_at(t, p) != "FeatureCollection"@);
    assert(type_at(t, p) != "Feature"@);
    assert(type_at(t, p) != "Polygon"@);
    assert(type_at(t, p) != "MultiPolygon"@);
    assert(type_at(t, p) != "GeometryCollection"@);
    assert(type_at(t, p) != "Point"@);
    assert(geo_parts(t, p, fuel) == seq![AreaPartView { role: PartRole::Points, pairs: points_upto(t, c, n) }]);
    if forall|k: nat| k < n ==> (#[trigger] point_at(t, item(c, k))) is Some {
        lemma_points_upto_all(t, c, n);
    }
}

/// A `Point` geometry whose coordinates are a position gives one part of
/// loose points holding that position; one whose coordinates are not a
/// position gives nothing.
pub proof fn lemma_point_part(t: Seq<char>, p: Seq<char>, fuel: nat)
    requires
        fuel > 0,
        type_at(t, p) == "Point"@,
    ensures
        point_at(t, child(p, "coordinates"@)) matches Some(pr) ==> geo_parts(t, p, fuel)
            == seq![AreaPartView { role: PartRole::Points, pairs: seq![pr] }],
        point_at(t, child(p, "coordinates"@)) is None ==> geo_parts(t, p, fuel).len() == 0,
{
    reveal_strlit("FeatureCollection");
    reveal_strlit("Feature");
    reveal_strlit("Polygon");
    reveal_strlit("MultiPolygon");
    reveal_strlit("GeometryCollection");
    reveal_strlit("Point");
    assert("Point"@.len() != "FeatureCollection"@.len() || "Point"@[0] != "FeatureCollection"@[0]);
    assert(type_at(t, p) != "FeatureCollection"@);
    assert("Point"@.len() != "Feature"@.len() || "Point"@[0] != "Feature"@[0]);
    assert(type_at(t, p) != "Feature"@);
    assert("Point"@.len() != "Polygon"@.len() || "Point"@[0] != "Polygon"@[0]);
    assert(type_at(t, p) != "Polygon"@);
    assert("Point"@.len() != "MultiPolygon"@.len() || "Point"@[0] != "MultiPolygon"@[0]);
    assert(type_at(t, p) != "MultiPolygon"@);
    assert("Point"@.len() != "GeometryCollection"@.len() || "Point"@[0] != "GeometryCollection"@[0]);
    assert(type_at(t, p) != "GeometryCollection"@);
}

/// The parts of the first `n` items of the array at `base`.
pub open spec fn geo_items(t: Seq<char>, base: Seq<char>, n: nat, fuel: nat) -> Seq<AreaPartView>
    decreases fuel, n,
{
    if n == 0 {
        Seq::empty()
    } else {
        geo_items(t, base, (n - 1) as nat, fuel) + geo_parts(t, item(base, (n - 1) as nat), fuel)
    }
}

/// How deep the walk goes: `serde_json` refuses documents nested more than
/// 128 levels, and each step of the walk goes at least one level down.
pub const GEOJSON_DEPTH: u32 = 130;

/// The parts of a GeoJSON document.
pub open spec fn geojson_parts(t: Seq<char>) -> Seq<AreaPartView> {
    geo_parts(t, Seq::empty(), GEOJSON_DEPTH as nat)
}

fn child_path(p: &Vec<char>, key: &str) -> (r: Vec<char>)
    ensures
        r@ == child(p@, key@),
{
    let mut r = p.clone();
    assert(r@ == p@);
    r.push('/');
    push_all(&mut r, &chars_of(key));
    assert(r@ =~= child(p@, key@));
    r
}

fn item_path(p: &Vec<char>, i: usize) -> (r: Vec<char>)
    ensures
        r@ == item(p@, i as nat),
{
    let mut r = p.clone();
    assert(r@ == p@);
    r.push('/');
    push_decimal(&mut r, i as u64);
    assert(r@ =~= item(p@, i as nat));
    r
}

fn node_at(doc: &JsonDoc, path: &Vec<char>) -> (r: JsonNode)
    ensures
        r@ == json_node_at(doc.text(), path@),
{
    let s = string_of(path);
    json_at(doc, s.as_str())
}

fn type_at_exec(doc: &JsonDoc, p: &Vec<char>) -> (r: String)
    ensures
        r@ == type_at(doc.text(), p@),
{
    match node_at(doc, &child_path(p, "type")) {
        JsonNode::Str(s) => s,
        _ => String::new(),
    }
}

fn point_at_exec(doc: &JsonDoc, q: &Vec<char>) -> (r: Option<(String, String)>)
    ensures
        match point_at(doc.text(), q@) {
            Some(pr) => r matches Some(x) && x.0@ == pr.0 && x.1@ == pr.1,
            None => r is None,
        },
{
    match node_at(doc, q) {
        JsonNode::Array(k) => {
            if k >= 2 {
                match (node_at(doc, &item_path(q, 0)), node_at(doc, &item_path(q, 1))) {
                    (JsonNode::Number(a), JsonNode::Number(b)) => Some((a, b)),
                    _ => None,
                }
            } else {
                None
            }
        },
        _ => None,
    }
}

fn points_upto_exec(doc: &JsonDoc, base: &Vec<char>, m: usize) -> (r: Vec<(String, String)>)
    ensures
        crate::text::pair_views(r@) == points_upto(doc.text(), base@, m as nat),
{
    let mut r: Vec<(String, String)> = Vec::new();
    let mut j: usize = 0;
    while j < m
        invariant
            j <= m,
            crate::text::pair_views(r@) == points_upto(doc.text(), base@, j as nat),
        decreases m - j,
    {
        let ghost r0 = crate::text::pair_views(r@);
        match point_at_exec(doc, &item_path(base, j)) {
            Some(pr) => {
                let ghost pv = (pr.0@, pr.1@);
                r.push(pr);
                assert(crate::text::pair_views(r@) =~= r0.push(pv));
            },
            None => {},
        }
        j += 1;
    }
    r
}

fn ring_part_exec(doc: &JsonDoc, rings: &Vec<char>, out: &mut Vec<AreaPart>)
    ensures
        part_views(final(out)@) == part_views(old(out)@) + ring_part(doc.text(), rings@),
{
    let ghost o0 = part_views(out@);
    match node_at(doc, rings) {
        JsonNode::Array(n) => {
            if n > 0 {
                let first = item_path(rings, 0);
                match node_at(doc, &first) {
                    JsonNode::Array(m) => {
                        let pairs = points_upto_exec(doc, &first, m);
                        out.push(AreaPart { role: PartRole::Outer, pairs });
                        assert(part_views(out@) =~= o0 + ring_part(doc.text(), rings@));
                        return;
                    },
                    _ => {},
                }
            }
        },
        _ => {},
    }
    assert(part_views(out@) =~= o0 + ring_part(doc.text(), rings@));
}

fn line_part_exec(doc: &JsonDoc, q: &Vec<char>, out: &mut Vec<AreaPart>)
    ensures
        part_views(final(out)@) == part_views(old(out)@) + line_part(doc.text(), q@),
{
    let ghost o0 = part_views(out@);
    match node_at(doc, q) {
        JsonNode::Array(m) => {
            let pairs = points_upto_exec(doc, q, m);
            out.push(AreaPart { role: PartRole::Points, pairs });
            assert(part_views(out@) =~= o0 + line_part(doc.text(), q@));
        },
        _ => {
            assert(part_views(out@) =~= o0 + line_part(doc.text(), q@));
        },
    }
}

/// The parts of the items of the array member `key` of the value at `p`.
fn collection_exec(doc: &JsonDoc, p: &Vec<char>, key: &str, fuel: u32, out: &mut Vec<AreaPart>)
    requires
        fuel > 0,
    ensures
        part_views(final(out)@) == part_views(old(out)@) + match json_node_at(doc.text(), child(p@, key@)) {
            JsonNodeView::Array(n) => geo_items(doc.text(), child(p@, key@), n, (fuel - 1) as nat),
            _ => Seq::empty(),
        },
    decreases fuel, 0nat,
{
    let ghost t = doc.text();
    let ghost o0 = part_views(out@);
    let base = child_path(p, key);
    match node_at(doc, &base) {
        JsonNode::Array(n) => {
            let mut i: usize = 0;
            assert(part_views(out@) =~= o0 + geo_items(t, base@, 0, (fuel - 1) as nat));
            while i < n
                invariant
                    i <= n,
                    fuel > 0,
                    t == doc.text(),
                    part_views(out@) == o0 + geo_items(t, base@, i as nat, (fuel - 1) as nat),
                decreases n - i,
            {
                geo_walk(doc, &item_path(&base, i), fuel - 1, out);
                assert(part_views(out@) =~= o0 + geo_items(t, base@, (i + 1) as nat, (fuel - 1) as nat));
                i += 1;
            }
        },
        _ => {
            assert(part_views(out@) =~= o0 + Seq::<AreaPartView>::empty());
        },
    }
}

fn geo_walk(doc: &JsonDoc, p: &Vec<char>, fuel: u32, out: &mut Vec<AreaPart>)
    ensures
        part_views(final(out)@) == part_views(old(out)@) + geo_parts(doc.text(), p@, fuel as nat),
    decreases fuel, 1nat,
{
    let ghost t = doc.text();
    let ghost o0 = part_views(out@);
    if fuel == 0 {
        assert(part_views(out@) =~= o0 + geo_parts(t, p@, 0));
        return;
    }
    let ty = type_at_exec(doc, p);
    let c = child_path(p, "coordinates");
    if str_eq(ty.as_str(), "FeatureCollection") {
        collection_exec(doc, p, "features", fuel, out);
        assert(part_views(out@) =~= o0 + geo_parts(t, p@, fuel as nat));
    } else if str_eq(ty.as_str(), "Feature") {
        geo_walk(doc, &child_path(p, "geometry"), fuel - 1, out);
        assert(part_views(out@) =~= o0 + geo_parts(t, p@, fuel as nat));
    } else if str_eq(ty.as_str(), "Polygon") {
        ring_part_exec(doc, &c, out);
        assert(part_views(out@) =~= o0 + geo_parts(t, p@, fuel as nat));
    } else if str_eq(ty.as_str(), "MultiPolygon") {
        match node_at(doc, &c) {
            JsonNode::Array(n) => {
                let mut i: usize = 0;
                while i < n
                    invariant
                        i <= n,
                        t == doc.text(),
                        part_views(out@) == o0 + polygons_upto(t, c@, i as nat),
                    decreases n - i,
                {
                    ring_part_exec(doc, &item_path(&c, i), out);
                    assert(part_views(out@) =~= o0 + polygons_upto(t, c@, (i + 1) as nat));
                    i += 1;
                }
                assert(part_views(out@) =~= o0 + geo_parts(t, p@, fuel as nat));
            },
            _ => {
                assert(part_views(out@) =~= o0 + geo_parts(t, p@, fuel as nat));
            },
        }
    } else if str_eq(ty.as_str(), "GeometryCollection") {
        collection_exec(doc, p, "geometries", fuel, out);
        assert(part_views(out@) =~= o0 + geo_parts(t, p@, fuel as nat));
    } else if str_eq(ty.as_str(), "Point") {
        match point_at_exec(doc, &c) {
            Some(pr) => {
                let ghost pv = (pr.0@, pr.1@);
                let mut pairs: Vec<(String, String)> = Vec::new();
                pairs.push(pr);
                assert(crate::text::pair_views(pairs@) =~= seq![pv]);
                out.push(AreaPart { role: PartRole::Points, pairs });
                assert(part_views(out@) =~= o0 + geo_parts(t, p@, fuel as nat));
            },
            None => {
                assert(part_views(out@) =~= o0 + geo_parts(t, p@, fuel as nat));
            },
        }
    } else if str_eq(ty.as_str(), "LineString") || str_eq(ty.as_str(), "MultiPoint") {
        match node_at(doc, &c) {
            JsonNode::Array(n) => {
                let pairs = points_upto_exec(doc, &c, n);
                out.push(AreaPart { role: PartRole::Points, pairs });
                assert(part_views(out@) =~= o0 + geo_parts(t, p@, fuel as nat));
            },
            _ => {
                assert(part_views(out@) =~= o0 + geo_parts(t, p@, fuel as nat));
            },
        }
    } else if str_eq(ty.as_str(), "MultiLineString") {
        match node_at(doc, &c) {
            JsonNode::Array(n) => {
                let mut i: usize = 0;
                while i < n
                    invariant
                        i <= n,
                        t == doc.text(),
                        part_views(out@) == o0 + lines_upto(t, c@, i as nat),
                    decreases n - i,
                {
                    line_part_exec(doc, &item_path(&c, i), out);
                    assert(part_views(out@) =~= o0 + lines_upto(t, c@, (i + 1) as nat));
                    i += 1;
                }
                assert(part_views(out@) =~= o0 + geo_parts(t, p@, fuel as nat));
            },
            _ => {
                assert(part_views(out@) =~= o0 + geo_parts(t, p@, fuel as nat));
            },
        }
    } else {
        assert(part_views(out@) =~= o0 + geo_parts(t, p@, fuel as nat));
    }
}

/// Reads a GeoJSON document into its parts.
pub fn parse_geojson_parts(content: &str) -> (r: Result<Vec<AreaPart>, AreaError>)
    ensures
        match json_node_at(content@, Seq::empty()) {
            JsonNodeView::Invalid => r == Err::<Vec<AreaPart>, AreaError>(AreaError::Json),
            _ => r matches Ok(v) && part_views(v@) == geojson_parts(content@),
        },
{
    proof {
        reveal_strlit("");
    }
    assert(""@ =~= Seq::<char>::empty());
    let doc = match json_doc(content) {
        None => return Err(AreaError::Json),
        Some(d) => d,
    };
    let mut out: Vec<AreaPart> = Vec::new();
    let root: Vec<char> = Vec::new();
    assert(part_views(out@) =~= Seq::<AreaPartView>::empty());
    geo_walk(&doc, &root, GEOJSON_DEPTH, &mut out);
    assert(root@ =~= Seq::<char>::empty());
    assert(part_views(out@) =~= geojson_parts(content@));
    Ok(out)
}

} // verus!
