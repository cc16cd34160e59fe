//! The tile-source description that every parser produces.

use vstd::prelude::*;
use crate::text::{
    chars_of, concat_chars, find_chars, find_first, find_from, matches_at, kv_get, kv_map, lemma_find_from, pair_views,
    replace_all, replace_str, slice_chars, str_eq_chars, string_of, string_views, to_uppercase_chars,
    upper_text, lower_text,
};

verus! {

/// Projection of a tile grid.
#[derive(Debug, Clone, Copy, PartialEq, Eq, Structural)]
pub enum CrsType {
    /// EPSG:3857, the XYZ / WMTS web grid.
    WebMercator,
    /// EPSG:4326 longitude/latitude grid.
    Wgs84,
    /// Elevation tiles.
    Terrain,
    Unknown,
}

/// Coordinate offset scheme of the map content.
#[derive(Debug, Clone, Copy, PartialEq, Eq, Structural)]
pub enum CoordType {
    Wgs84,
    /// GCJ-02 ("Mars") coordinates.
    Gcj02,
    /// BD-09 coordinates.
    Bd09,
}

/// Where a tile source description came from.
#[derive(Debug, Clone, Copy, PartialEq, Eq, Structural)]
pub enum SourceKind {
    Lrc,
    Lra,
    Wmts,
    Tms,
    WebCapture,
    ThreeDTiles,
    Ovmap,
}

/// The text a `.lrc` file gives for each side of its geographic range, in
/// the order in which it appears. Each value is a decimal number in text; the
/// last one that reads as a number is the one in force.
#[derive(Debug, Clone)]
pub struct RangeText {
    pub west: Vec<String>,
    pub east: Vec<String>,
    pub south: Vec<String>,
    pub north: Vec<String>,
}

/// The geographic range of a tile source, in a form without floating point.
#[derive(Debug, Clone)]
pub enum BoundsSpec {
    /// The whole Web Mercator world: west -180, east 180, south -85.051129,
    /// north 85.051129.
    World,
    /// All four sides 0 (an unset range).
    Zero,
    /// Ranges read from text, starting from `World`; where the sides read do not
    /// form a valid range, `World` again.
    FromText(RangeText),
}

/// A tile service description: URL template, grid, zoom levels, headers.
#[derive(Debug, Clone)]
pub struct TileSource {
    pub kind: SourceKind,
    pub name: String,
    /// URL template with `{z}` `{x}` `{y}` `{s}` placeholders.
    pub url_template: String,
    /// Order of the `%d` parameters of `.lrc` templates, e.g. `["X","Y","Z"]`.
    pub url_param_order: Vec<String>,
    pub subdomains: Vec<String>,
    pub crs: CrsType,
    pub coord_type: CoordType,
    pub tile_size: u32,
    /// Rows run north to south (XYZ) rather than south to north (TMS).
    pub north_to_south: bool,
    pub bounds: BoundsSpec,
    pub min_zoom: u8,
    pub max_zoom: u8,
    /// HTTP headers, read in order into a map (a later key replaces an earlier one).
    pub headers: Vec<(String, String)>,
    /// Extra `{key}` parameters substituted into URLs.
    pub extra_params: Vec<(String, String)>,
    pub param_scripts: Vec<(String, String)>,
    pub attribution: Option<String>,
    /// Image format: png / jpg / webp / terrain.
    pub format: String,
}

/// The view of a `RangeText`: the texts of each side, in order.
#[verifier::ext_equal]
pub struct RangeView {
    pub west: Seq<Seq<char>>,
    pub east: Seq<Seq<char>>,
    pub south: Seq<Seq<char>>,
    pub north: Seq<Seq<char>>,
}

impl View for RangeText {
    type V = RangeView;

    open spec fn view(&self) -> RangeView {
        RangeView {
            west: string_views(self.west@),
            east: string_views(self.east@),
            south: string_views(self.south@),
            north: string_views(self.north@),
        }
    }
}

/// The view of a `BoundsSpec`.
#[verifier::ext_equal]
pub enum BoundsView {
    World,
    Zero,
    FromText(RangeView),
}

impl View for BoundsSpec {
    type V = BoundsView;

    open spec fn view(&self) -> BoundsView {
        match self {
            BoundsSpec::World => BoundsView::World,
            BoundsSpec::Zero => BoundsView::Zero,
            BoundsSpec::FromText(r) => BoundsView::FromText(r@),
        }
    }
}

/// The view of a `TileSource`: its strings as character sequences.
#[verifier::ext_equal]
pub struct TileSourceView {
    pub kind: SourceKind,
    pub name: Seq<char>,
    pub url_template: Seq<char>,
    pub url_param_order: Seq<Seq<char>>,
    pub subdomains: Seq<Seq<char>>,
    pub crs: CrsType,
    pub coord_type: CoordType,
    pub tile_size: u32,
    pub north_to_south: bool,
    pub bounds: BoundsView,
    pub min_zoom: u8,
    pub max_zoom: u8,
    pub headers: Seq<(Seq<char>, Seq<char>)>,
    pub extra_params: Seq<(Seq<char>, Seq<char>)>,
    pub param_scripts: Seq<(Seq<char>, Seq<char>)>,
    pub attribution: Option<Seq<char>>,
    pub format: Seq<char>,
}

impl View for TileSource {
    type V = TileSourceView;

    open spec fn view(&self) -> TileSourceView {
        TileSourceView {
            kind: self.kind,
            name: self.name@,
            url_template: self.url_template@,
            url_param_order: string_views(self.url_param_order@),
            subdomains: string_views(self.subdomains@),
            crs: self.crs,
            coord_type: self.coord_type,
            tile_size: self.tile_size,
            north_to_south: self.north_to_south,
            bounds: self.bounds@,
            min_zoom: self.min_zoom,
            max_zoom: self.max_zoom,
            headers: pair_views(self.headers@),
            extra_params: pair_views(self.extra_params@),
            param_scripts: pair_views(self.param_scripts@),
            attribution: match self.attribution {
                Some(a) => Some(a@),
                None => None,
            },
            format: self.format@,
        }
    }
}

/// The view of `TileSource::default()`.
pub open spec fn default_source_view() -> TileSourceView {
    TileSourceView {
        kind: SourceKind::Tms,
        name: Seq::empty(),
        url_template: Seq::empty(),
        url_param_order: seq!["X"@, "Y"@, "Z"@],
        subdomains: Seq::empty(),
        crs: CrsType::WebMercator,
        coord_type: CoordType::Wgs84,
        tile_size: 256,
        north_to_south: true,
        bounds: BoundsView::World,
        min_zoom: 0,
        max_zoom: 18,
        headers: Seq::empty(),
        extra_params: Seq::empty(),
        param_scripts: Seq::empty(),
        attribution: None,
        format: "png"@,
    }
}

/// The field values of `TileSource::default()`.
pub open spec fn is_default_source(s: TileSource) -> bool {
    &&& s.kind == SourceKind::Tms
    &&& s.name@ == Seq::<char>::empty()
    &&& s.url_template@ == Seq::<char>::empty()
    &&& string_views(s.url_param_order@) == seq!["X"@, "Y"@, "Z"@]
    &&& s.subdomains@.len() == 0
    &&& s.crs == CrsType::WebMercator
    &&& s.coord_type == CoordType::Wgs84
    &&& s.tile_size == 256
    &&& s.north_to_south
    &&& s.bounds is World
    &&& s.min_zoom == 0
    &&& s.max_zoom == 18
    &&& s.headers@.len() == 0
    &&& s.extra_params@.len() == 0
    &&& s.param_scripts@.len() == 0
    &&& s.attribution is None
    &&& s.format@ == "png"@
}

impl Default for TileSource {
    fn default() -> (s: TileSource)
        ensures
            is_default_source(s),
            s@ == default_source_view(),
    {
        let order = vec![
            String::from_str("X"),
            String::from_str("Y"),
            String::from_str("Z"),
        ];
        let s = TileSource {
            kind: SourceKind::Tms,
            name: String::new(),
            url_template: String::new(),
            url_param_order: order,
            subdomains: Vec::new(),
            crs: CrsType::WebMercator,
            coord_type: CoordType::Wgs84,
            tile_size: 256,
            north_to_south: true,
            bounds: BoundsSpec::World,
            min_zoom: 0,
            max_zoom: 18,
            headers: Vec::new(),
            extra_params: Vec::new(),
            param_scripts: Vec::new(),
            attribution: None,
            format: String::from_str("png"),
        };
        assert(string_views(s.url_param_order@) =~= seq!["X"@, "Y"@, "Z"@]);
        assert(string_views(s.subdomains@) =~= Seq::<Seq<char>>::empty());
        assert(pair_views(s.headers@) =~= Seq::<(Seq<char>, Seq<char>)>::empty());
        assert(pair_views(s.extra_params@) =~= Seq::<(Seq<char>, Seq<char>)>::empty());
        assert(pair_views(s.param_scripts@) =~= Seq::<(Seq<char>, Seq<char>)>::empty());
        s
    }
}

/// Placeholder that an `.lrc` parameter name stands for: `{x}`, `{y}` or
/// `{z}` by its upper-cased name, `{x}` for any other name.
pub open spec fn order_placeholder(p: Seq<char>) -> Seq<char> {
    let u = upper_text(p);
    if u == "X"@ {
        "{x}"@
    } else if u == "Y"@ {
        "{y}"@
    } else if u == "Z"@ {
        "{z}"@
    } else {
        "{x}"@
    }
}

/// Replaces the first `%d` of `s` by `ph`; unchanged without a `%d`.
pub open spec fn subst_first_d(s: Seq<char>, ph: Seq<char>) -> Seq<char> {
    match find_first(s, "%d"@) {
        Some(i) => s.subrange(0, i) + ph + s.subrange(i + 2, s.len() as int),
        None => s,
    }
}

/// Fills the `%d` parameters of `s` one by one, in the order `order` names them.
pub open spec fn fill_params(s: Seq<char>, order: Seq<Seq<char>>) -> Seq<char>
    decreases order.len(),
{
    if order.len() == 0 {
        s
    } else {
        subst_first_d(fill_params(s, order.drop_last()), order_placeholder(order.last()))
    }
}

/// The normalized form of an `.lrc` URL template.
pub open spec fn normalized_url(url: Seq<char>, order: Seq<Seq<char>>) -> Seq<char> {
    fill_params(replace_all(url, "{$serverpart}"@, "{s}"@), order)
}

fn placeholder_for(p: &str) -> (r: Vec<char>)
    ensures
        r@ == order_placeholder(p@),
{
    let pv = chars_of(p);
    let u = to_uppercase_chars(&pv);
    if str_eq_chars("X", &u) {
        chars_of("{x}")
    } else if str_eq_chars("Y", &u) {
        chars_of("{y}")
    } else if str_eq_chars("Z", &u) {
        chars_of("{z}")
    } else {
        chars_of("{x}")
    }
}

impl TileSource {
    /// Turns an `.lrc` template into the standard form: `{$serverpart}`
    /// becomes `{s}`, and each `%d` in turn becomes the placeholder of the next
    /// parameter that `param_order` names.
    pub fn normalize_url(url: &str, param_order: &Vec<String>) -> (r: String)
        ensures
            r@ == normalized_url(url@, string_views(param_order@)),
    {
        proof {
            reveal_strlit("{$serverpart}");
        }
        let mut result = replace_str(url, "{$serverpart}", "{s}");
        let mut cur = chars_of(result.as_str());
        let pd = chars_of("%d");
        proof {
            reveal_strlit("%d");
        }
        let mut k: usize = 0;
        let ghost base = cur@;
        assert(string_views(param_order@).subrange(0, 0) =~= Seq::<Seq<char>>::empty());
        while k < param_order.len()
            invariant
                k <= param_order.len(),
                pd@ == "%d"@,
                pd@.len() == 2,
                base == replace_all(url@, "{$serverpart}"@, "{s}"@),
                cur@ == fill_params(base, string_views(param_order@).subrange(0, k as int)),
            decreases param_order.len() - k,
        {
            let ph = placeholder_for(param_order[k].as_str());
            let ghost prev = cur@;
            match find_chars(&cur, &pd) {
                Some(pos) => {
                    proof {
                        lemma_find_from(prev, pd@, 0);
                        assert(find_from(prev, pd@, 0) == Some(pos as int));
                        assert(matches_at(prev, pd@, pos as int));
                        assert(pos + pd@.len() <= prev.len());
                        assert(prev.len() == cur.len());
                    }
                    let head = slice_chars(&cur, 0, pos);
                    let tail = slice_chars(&cur, pos + 2, cur.len());
                    let mid = concat_chars(&head, &ph);
                    cur = concat_chars(&mid, &tail);
                },
                None => {},
            }
            proof {
                let o = string_views(param_order@);
                assert(o.subrange(0, k + 1).drop_last() =~= o.subrange(0, k as int));
                assert(o.subrange(0, k + 1).last() == param_order@[k as int]@);
            }
            k += 1;
        }
        assert(string_views(param_order@).subrange(0, param_order@.len() as int) =~= string_views(param_order@));
        result = string_of(&cur);
        result
    }

    /// Value of a header, reading `headers` in order into a map.
    pub fn header(&self, key: &str) -> (r: Option<String>)
        ensures
            r matches Some(x) ==> kv_map(pair_views(self.headers@)).contains_key(key@)
                && kv_map(pair_views(self.headers@))[key@] == x@,
            r is None ==> !kv_map(pair_views(self.headers@)).contains_key(key@),
    {
        kv_get(&self.headers, key)
    }
}

/// The kinds of tile source file the application reads.
#[derive(Debug, Clone, Copy, PartialEq, Eq, Structural)]
pub enum SourceFileKind {
    Lrc,
    Lra,
    Ovmap,
}

/// The kind of source file a (lower-cased) file extension names.
pub open spec fn file_kind_of(ext: Seq<char>) -> Option<SourceFileKind> {
    let e = lower_text(ext);
    if e == "lrc"@ {
        Some(SourceFileKind::Lrc)
    } else if e == "lra"@ {
        Some(SourceFileKind::Lra)
    } else if e == "ovmap"@ {
        Some(SourceFileKind::Ovmap)
    } else {
        None
    }
}

/// The kind of source file an extension names; `None` for an unsupported one.
pub fn source_file_kind(ext: &str) -> (r: Option<SourceFileKind>)
    ensures
        r == file_kind_of(ext@),
{
    let e = crate::text::to_lowercase_chars(&chars_of(ext));
    if str_eq_chars("lrc", &e) {
        Some(SourceFileKind::Lrc)
    } else if str_eq_chars("lra", &e) {
        Some(SourceFileKind::Lra)
    } else if str_eq_chars("ovmap", &e) {
        Some(SourceFileKind::Ovmap)
    } else {
        None
    }
}

} // verus!
