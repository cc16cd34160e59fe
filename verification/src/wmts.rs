//! WMTS capabilities documents and TMS / XYZ URL templates.
//!
//! A TMS / XYZ template such as `https://tile.openstreetmap.org/{z}/{x}/{y}.png`
//! becomes a tile source directly; a WMTS `GetCapabilities` document is read
//! into its layers, each of which becomes a tile source.

use vstd::prelude::*;
use crate::text::{
    chars_of, concat_chars, contains_chars, contains_sub, find_char, find_chars, find_first, kv_get,
    kv_map, lower_text, pair_views, replace_all, replace_str, slice_chars, str_eq, string_of,
    string_views, to_lowercase_chars, trim, trim_chars,
};
use crate::types::{default_source_view, BoundsSpec, BoundsView, CrsType, SourceKind, TileSource, TileSourceView};
use crate::xml::{event_views, xml_event_list, xml_events, XmlEvent, XmlEventView};

verus! {

/// Why a URL or a capabilities document gave no tile source.
#[derive(Debug, Clone, Copy, PartialEq, Eq, Structural)]
pub enum WmtsError {
    /// The URL is empty (after trimming).
    EmptyUrl,
    /// The URL has no tile placeholders and looks like a WMTS service URL.
    LooksLikeWmts,
    /// The XML reader reported an error.
    Xml,
    /// The capabilities document has no usable layer.
    NoLayers,
}

// ─── small text rules ───────────────────────────────────────────────────────

/// The image format a URL or MIME type suggests: `jpg`, `webp`, `terrain`,
/// else `png`; compared lower-cased.
pub open spec fn url_format_of(s: Seq<char>) -> Seq<char> {
    let l = lower_text(s);
    if contains_sub(l, "jpg"@) || contains_sub(l, "jpeg"@) {
        "jpg"@
    } else if contains_sub(l, "webp"@) {
        "webp"@
    } else if contains_sub(l, "terrain"@) {
        "terrain"@
    } else {
        "png"@
    }
}

/// Infers the image format of a URL or MIME type.
pub fn detect_url_format(s: &str) -> (r: String)
    ensures
        r@ == url_format_of(s@),
{
    let l = to_lowercase_chars(&chars_of(s));
    if contains_chars(&l, &chars_of("jpg")) || contains_chars(&l, &chars_of("jpeg")) {
        String::from_str("jpg")
    } else if contains_chars(&l, &chars_of("webp")) {
        String::from_str("webp")
    } else if contains_chars(&l, &chars_of("terrain")) {
        String::from_str("terrain")
    } else {
        String::from_str("png")
    }
}

/// Sub-domains of a template: `a`, `b`, `c` where it has an `{s}`.
pub open spec fn subdomains_of(url: Seq<char>) -> Seq<Seq<char>> {
    if contains_sub(url, "{s}"@) {
        seq!["a"@, "b"@, "c"@]
    } else {
        Seq::empty()
    }
}

/// The sub-domains a template's `{s}` stands for.
pub fn extract_subdomains(url: &str) -> (r: Vec<String>)
    ensures
        string_views(r@) == subdomains_of(url@),
{
    if contains_chars(&chars_of(url), &chars_of("{s}")) {
        let r = vec![String::from_str("a"), String::from_str("b"), String::from_str("c")];
        assert(string_views(r@) =~= seq!["a"@, "b"@, "c"@]);
        r
    } else {
        let r: Vec<String> = Vec::new();
        assert(string_views(r@) =~= Seq::<Seq<char>>::empty());
        r
    }
}

/// The host part of a URL, between `://` and the next `/`; a fixed name
/// when the URL has no `://`.
pub open spec fn name_from_url(url: Seq<char>) -> Seq<char> {
    match find_first(url, "://"@) {
        Some(i) => {
            let rest = url.subrange(i + 3, url.len() as int);
            match find_first(rest, seq!['/']) {
                Some(e) => rest.subrange(0, e),
                None => rest,
            }
        },
        None => "自定义图层"@,
    }
}

/// A display name for a template URL: its host.
pub fn extract_name_from_url(url: &str) -> (r: String)
    ensures
        r@ == name_from_url(url@),
{
    let u = chars_of(url);
    let sep = chars_of("://");
    proof {
        reveal_strlit("://");
    }
    assert(sep@.len() == 3);
    match find_chars(&u, &sep) {
        Some(i) => {
            let n = u.len();
            let rest = slice_chars(&u, i + 3, n);
            match find_char(&rest, '/') {
                Some(e) => string_of(&slice_chars(&rest, 0, e)),
                None => string_of(&rest),
            }
        },
        None => String::from_str("自定义图层"),
    }
}

/// The grid a template suggests: longitude/latitude for `_c/`, `lat_lon`
/// or `lnglat`; elevation for `terrain` or `dem`; else Web Mercator.
pub open spec fn url_crs(url: Seq<char>) -> CrsType {
    if contains_sub(url, "_c/"@) || contains_sub(url, "lat_lon"@) || contains_sub(url, "lnglat"@) {
        CrsType::Wgs84
    } else if contains_sub(url, "terrain"@) || contains_sub(url, "dem"@) {
        CrsType::Terrain
    } else {
        CrsType::WebMercator
    }
}

fn url_crs_exec(u: &Vec<char>) -> (r: CrsType)
    ensures
        r == url_crs(u@),
{
    if contains_chars(u, &chars_of("_c/")) || contains_chars(u, &chars_of("lat_lon"))
        || contains_chars(u, &chars_of("lnglat")) {
        CrsType::Wgs84
    } else if contains_chars(u, &chars_of("terrain")) || contains_chars(u, &chars_of("dem")) {
        CrsType::Terrain
    } else {
        CrsType::WebMercator
    }
}

// ─── TMS / XYZ templates ────────────────────────────────────────────────────

/// The source a TMS / XYZ template describes.
pub open spec fn tms_source(url: Seq<char>, name: Option<Seq<char>>) -> Result<TileSourceView, WmtsError> {
    let u = trim(url);
    let has_xyz = contains_sub(u, "{z}"@) && contains_sub(u, "{x}"@) && contains_sub(u, "{y}"@);
    let has_d = contains_sub(u, "%d"@);
    if u.len() == 0 {
        Err(WmtsError::EmptyUrl)
    } else if !has_xyz && !has_d && contains_sub(lower_text(u), "wmts"@) {
        Err(WmtsError::LooksLikeWmts)
    } else {
        Ok(
            TileSourceView {
                kind: SourceKind::Tms,
                name: match name {
                    Some(n) => if n.len() > 0 {
                        n
                    } else {
                        name_from_url(u)
                    },
                    None => name_from_url(u),
                },
                url_template: u,
                subdomains: subdomains_of(u),
                crs: url_crs(u),
                format: url_format_of(u),
                ..default_source_view()
            },
        )
    }
}

/// Builds a tile source from a TMS / XYZ template (no request is made).
pub fn parse_tms_url(url: &str, name: Option<&str>) -> (r: Result<TileSource, WmtsError>)
    ensures
        match r {
            Ok(s) => tms_source(url@, match name {
                Some(n) => Some(n@),
                None => None,
            }) == Ok::<TileSourceView, WmtsError>(s@),
            Err(e) => tms_source(url@, match name {
                Some(n) => Some(n@),
                None => None,
            }) == Err::<TileSourceView, WmtsError>(e),
        },
{
    let u = trim_chars(&chars_of(url));
    if u.len() == 0 {
        return Err(WmtsError::EmptyUrl);
    }
    let has_xyz = contains_chars(&u, &chars_of("{z}")) && contains_chars(&u, &chars_of("{x}"))
        && contains_chars(&u, &chars_of("{y}"));
    let has_d = contains_chars(&u, &chars_of("%d"));
    if !has_xyz && !has_d {
        let l = to_lowercase_chars(&u);
        if contains_chars(&l, &chars_of("wmts")) || contains_chars(&l, &chars_of("service=wmts")) {
            proof {
                reveal_strlit("wmts");
                reveal_strlit("service=wmts");
                if contains_sub(l@, "service=wmts"@) {
                    let i = find_first(l@, "service=wmts"@).unwrap();
                    crate::text::lemma_find_from(l@, "service=wmts"@, 0);
                    assert(l@.subrange(i, i + 12) == "service=wmts"@);
                    assert(l@.subrange(i, i + 12).subrange(8, 12) =~= l@.subrange(i + 8, i + 12));
                    assert("service=wmts"@.subrange(8, 12) =~= "wmts"@);
                    assert(l@.subrange(i + 8, i + 12) =~= "wmts"@);
                    crate::text::lemma_find_from(l@, "wmts"@, 0);
                    assert(crate::text::matches_at(l@, "wmts"@, i + 8));
                }
            }
            return Err(WmtsError::LooksLikeWmts);
        }
    }
    let us = string_of(&u);
    let mut s = TileSource::default();
    s.kind = SourceKind::Tms;
    s.name = match name {
        Some(n) => if n.unicode_len() > 0 {
            String::from_str(n)
        } else {
            extract_name_from_url(us.as_str())
        },
        None => extract_name_from_url(us.as_str()),
    };
    s.subdomains = extract_subdomains(us.as_str());
    s.crs = url_crs_exec(&u);
    s.format = detect_url_format(us.as_str());
    s.url_template = us;
    Ok(s)
}

// ─── WMTS capabilities ──────────────────────────────────────────────────────

/// A layer of a WMTS capabilities document.
#[derive(Debug, Clone)]
pub struct WmtsLayer {
    pub identifier: String,
    pub title: String,
    pub formats: Vec<String>,
    pub tile_matrix_sets: Vec<String>,
    /// The RESTful tile template, already with `{z}` `{y}` `{x}`.
    pub resource_url: Option<String>,
}

#[verifier::ext_equal]
pub struct WmtsLayerView {
    pub identifier: Seq<char>,
    pub title: Seq<char>,
    pub formats: Seq<Seq<char>>,
    pub tile_matrix_sets: Seq<Seq<char>>,
    pub resource_url: Option<Seq<char>>,
}

impl View for WmtsLayer {
    type V = WmtsLayerView;

    open spec fn view(&self) -> WmtsLayerView {
        WmtsLayerView {
            identifier: self.identifier@,
            title: self.title@,
            formats: string_views(self.formats@),
            tile_matrix_sets: string_views(self.tile_matrix_sets@),
            resource_url: match self.resource_url {
                Some(u) => Some(u@),
                None => None,
            },
        }
    }
}

pub open spec fn layer_views(v: Seq<WmtsLayer>) -> Seq<WmtsLayerView> {
    v.map_values(|l: WmtsLayer| l@)
}

pub open spec fn opt_layer_view(o: Option<WmtsLayer>) -> Option<WmtsLayerView> {
    match o {
        Some(l) => Some(l@),
        None => None,
    }
}

pub open spec fn empty_layer() -> WmtsLayerView {
    WmtsLayerView {
        identifier: Seq::empty(),
        title: Seq::empty(),
        formats: Seq::empty(),
        tile_matrix_sets: Seq::empty(),
        resource_url: None,
    }
}

/// A RESTful WMTS template in standard placeholders: `{TileMatrix}` →
/// `{z}`, `{TileRow}` → `{y}`, `{TileCol}` → `{x}`, `{Style}` → `default`.
pub open spec fn wmts_template(url: Seq<char>) -> Seq<char> {
    replace_all(
        replace_all(replace_all(replace_all(url, "{TileMatrix}"@, "{z}"@), "{TileRow}"@, "{y}"@), "{TileCol}"@, "{x}"@),
        "{Style}"@,
        "default"@,
    )
}

/// Turns a WMTS `ResourceURL` template into standard placeholders.
pub fn normalize_wmts_url(url: &str) -> (r: String)
    ensures
        r@ == wmts_template(url@),
{
    proof {
        reveal_strlit("{TileMatrix}");
        reveal_strlit("{TileRow}");
        reveal_strlit("{TileCol}");
        reveal_strlit("{Style}");
    }
    let a = replace_str(url, "{TileMatrix}", "{z}");
    let b = replace_str(a.as_str(), "{TileRow}", "{y}");
    let c = replace_str(b.as_str(), "{TileCol}", "{x}");
    replace_str(c.as_str(), "{Style}", "default")
}

/// How many entries of `path` equal `t`.
pub open spec fn count_of(path: Seq<Seq<char>>, t: Seq<char>) -> nat
    decreases path.len(),
{
    if path.len() == 0 {
        0
    } else {
        count_of(path.drop_last(), t) + if path.last() == t {
            1nat
        } else {
            0nat
        }
    }
}

/// The state of reading a capabilities document: the layers done, the
/// top-level layer under way, and the local names of the open elements.
#[verifier::ext_equal]
pub struct CapsModel {
    pub layers: Seq<WmtsLayerView>,
    pub current: Option<WmtsLayerView>,
    pub path: Seq<Seq<char>>,
}

/// A start tag with local name `tag`.
pub open spec fn caps_start(m: CapsModel, tag: Seq<char>, attrs: Seq<(Seq<char>, Seq<char>)>) -> CapsModel {
    let a = kv_map(attrs);
    let cur = if tag == "Layer"@ && count_of(m.path, "Layer"@) == 0 {
        Some(empty_layer())
    } else if tag == "ResourceURL"@ && m.current is Some && a.contains_key("resourceType"@)
        && a["resourceType"@] == "tile"@ && a.contains_key("template"@) {
        Some(WmtsLayerView { resource_url: Some(wmts_template(a["template"@])), ..m.current.unwrap() })
    } else {
        m.current
    };
    CapsModel { current: cur, path: m.path.push(tag), ..m }
}

/// An end tag with local name `tag`: a finished top-level layer is kept when
/// it has an identifier.
pub open spec fn caps_end(m: CapsModel, tag: Seq<char>) -> CapsModel {
    let popped = if m.path.len() > 0 {
        m.path.drop_last()
    } else {
        m.path
    };
    if tag == "Layer"@ {
        match m.current {
            Some(l) => CapsModel {
                layers: if l.identifier.len() > 0 {
                    m.layers.push(l)
                } else {
                    m.layers
                },
                current: None,
                path: popped,
            },
            None => CapsModel { path: popped, ..m },
        }
    } else {
        CapsModel { path: popped, ..m }
    }
}

/// A (trimmed) text inside the innermost open element.
pub open spec fn caps_text(m: CapsModel, t: Seq<char>) -> CapsModel {
    let p = m.path;
    let tag = if p.len() > 0 {
        p.last()
    } else {
        Seq::empty()
    };
    let parent_is_layer = p.len() >= 2 && p[p.len() - 2] == "Layer"@;
    let parent_is_link = p.len() >= 2 && contains_sub(p[p.len() - 2], "Link"@);
    if t.len() == 0 || m.current is None {
        m
    } else {
        let l = m.current.unwrap();
        let l2 = if tag == "Identifier"@ || tag == "ows:Identifier"@ {
            if parent_is_layer {
                WmtsLayerView { identifier: t, ..l }
            } else {
                l
            }
        } else if tag == "Title"@ || tag == "ows:Title"@ {
            if l.title.len() == 0 {
                WmtsLayerView { title: t, ..l }
            } else {
                l
            }
        } else if tag == "Format"@ {
            WmtsLayerView { formats: l.formats.push(t), ..l }
        } else if tag == "TileMatrixSet"@ {
            if parent_is_link || p.contains("TileMatrixSetLink"@) {
                WmtsLayerView { tile_matrix_sets: l.tile_matrix_sets.push(t), ..l }
            } else {
                l
            }
        } else {
            l
        };
        CapsModel { current: Some(l2), ..m }
    }
}

/// What one event does to the state. An empty-element tag (the usual
/// `<ResourceURL .../>`) is a start tag closed at once.
pub open spec fn caps_step(m: CapsModel, e: XmlEventView) -> CapsModel {
    match e {
        XmlEventView::Start { local_name, local_attrs, empty, .. } => if empty {
            caps_end(caps_start(m, local_name, local_attrs), local_name)
        } else {
            caps_start(m, local_name, local_attrs)
        },
        XmlEventView::End { local_name, .. } => caps_end(m, local_name),
        XmlEventView::Text { unescaped, .. } => caps_text(
            m,
            trim(
                match unescaped {
                    Some(u) => u,
                    None => Seq::empty(),
                },
            ),
        ),
        XmlEventView::Other => m,
    }
}

pub open spec fn caps_run(evs: Seq<XmlEventView>) -> CapsModel
    decreases evs.len(),
{
    if evs.len() == 0 {
        CapsModel { layers: Seq::empty(), current: None, path: Seq::empty() }
    } else {
        caps_step(caps_run(evs.drop_last()), evs.last())
    }
}

/// The layers a list of capabilities events describes.
pub open spec fn caps_layers(evs: Seq<XmlEventView>) -> Seq<WmtsLayerView> {
    caps_run(evs).layers
}

struct CapsState {
    layers: Vec<WmtsLayer>,
    current: Option<WmtsLayer>,
    path: Vec<String>,
}

impl View for CapsState {
    type V = CapsModel;

    closed spec fn view(&self) -> CapsModel {
        CapsModel { layers: layer_views(self.layers@), current: opt_layer_view(self.current), path: string_views(self.path@) }
    }
}

fn count_layer(path: &Vec<String>) -> (r: usize)
    ensures
        r == count_of(string_views(path@), "Layer"@),
{
    let mut n: usize = 0;
    let mut i: usize = 0;
    while i < path.len()
        invariant
            i <= path.len(),
            n <= i,
            n == count_of(string_views(path@).subrange(0, i as int), "Layer"@),
        decreases path.len() - i,
    {
        let ghost v = string_views(path@);
        assert(v.subrange(0, i + 1).drop_last() =~= v.subrange(0, i as int));
        if str_eq(path[i].as_str(), "Layer") {
            n += 1;
        }
        i += 1;
    }
    assert(string_views(path@).subrange(0, path@.len() as int) =~= string_views(path@));
    n
}

fn caps_start_exec(st: &mut CapsState, tag: &String, attrs: &Vec<(String, String)>)
    ensures
        final(st)@ == caps_start(old(st)@, tag@, pair_views(attrs@)),
{
    let ghost m = st@;
    if str_eq(tag.as_str(), "Layer") && count_layer(&st.path) == 0 {
        st.current = Some(
            WmtsLayer {
                identifier: String::new(),
                title: String::new(),
                formats: Vec::new(),
                tile_matrix_sets: Vec::new(),
                resource_url: None,
            },
        );
        assert(string_views(st.current.unwrap().formats@) =~= Seq::<Seq<char>>::empty());
        assert(string_views(st.current.unwrap().tile_matrix_sets@) =~= Seq::<Seq<char>>::empty());
    } else if str_eq(tag.as_str(), "ResourceURL") && st.current.is_some() {
        match (kv_get(attrs, "resourceType"), kv_get(attrs, "template")) {
            (Some(rt), Some(tpl)) => {
                if str_eq(rt.as_str(), "tile") {
                    let u = normalize_wmts_url(tpl.as_str());
                    let mut l = st.current.take().unwrap();
                    l.resource_url = Some(u);
                    st.current = Some(l);
                }
            },
            _ => {},
        }
    }
    let ghost old_p = string_views(st.path@);
    st.path.push(tag.clone());
    assert(string_views(st.path@) =~= old_p.push(tag@));
}

fn caps_end_exec(st: &mut CapsState, tag: &String)
    ensures
        final(st)@ == caps_end(old(st)@, tag@),
{
    if str_eq(tag.as_str(), "Layer") {
        match st.current.take() {
            Some(l) => {
                if l.identifier.unicode_len() > 0 {
                    let ghost old_l = layer_views(st.layers@);
                    let ghost lv = l@;
                    st.layers.push(l);
                    assert(layer_views(st.layers@) =~= old_l.push(lv));
                }
            },
            None => {},
        }
    }
    if st.path.len() > 0 {
        let ghost old_p = string_views(st.path@);
        st.path.pop();
        assert(string_views(st.path@) =~= old_p.drop_last());
    }
}

fn caps_text_exec(st: &mut CapsState, t: &Vec<char>)
    ensures
        final(st)@ == caps_text(old(st)@, t@),
{
    if t.len() == 0 || st.current.is_none() {
        return;
    }
    let ghost p = string_views(st.path@);
    let n = st.path.len();
    let tag = if n > 0 {
        st.path[n - 1].clone()
    } else {
        String::new()
    };
    let parent_is_layer = n >= 2 && str_eq(st.path[n - 2].as_str(), "Layer");
    let parent_is_link = n >= 2 && contains_chars(&chars_of(st.path[n - 2].as_str()), &chars_of("Link"));
    proof {
        if n >= 2 {
            assert(p[n - 2] == st.path@[n - 2]@);
        }
        if n > 0 {
            assert(p.last() == st.path@[n - 1]@);
        }
    }
    let mut l = st.current.take().unwrap();
    let tt = string_of(t);
    if str_eq(tag.as_str(), "Identifier") || str_eq(tag.as_str(), "ows:Identifier") {
        if parent_is_layer {
            l.identifier = tt;
        }
    } else if str_eq(tag.as_str(), "Title") || str_eq(tag.as_str(), "ows:Title") {
        if l.title.unicode_len() == 0 {
            l.title = tt;
        }
    } else if str_eq(tag.as_str(), "Format") {
        let ghost o = string_views(l.formats@);
        l.formats.push(tt);
        assert(string_views(l.formats@) =~= o.push(t@));
    } else if str_eq(tag.as_str(), "TileMatrixSet") {
        let mut in_link = parent_is_link;
        let mut k: usize = 0;
        while k < n && !in_link
            invariant
                n == st.path.len(),
                k <= n,
                p == string_views(st.path@),
                in_link ==> (parent_is_link || p.contains("TileMatrixSetLink"@)),
                !in_link ==> (!parent_is_link && forall|j: int| 0 <= j < k ==> p[j] != "TileMatrixSetLink"@),
            decreases n - k,
        {
            if str_eq(st.path[k].as_str(), "TileMatrixSetLink") {
                assert(p[k as int] == "TileMatrixSetLink"@);
                in_link = true;
            }
            k += 1;
        }
        if in_link {
            let ghost o = string_views(l.tile_matrix_sets@);
            l.tile_matrix_sets.push(tt);
            assert(string_views(l.tile_matrix_sets@) =~= o.push(t@));
        }
    }
    st.current = Some(l);
}

/// Builds the layers that a list of capabilities events describes.
pub fn caps_from_events(events: &Vec<XmlEvent>) -> (r: Vec<WmtsLayer>)
    ensures
        layer_views(r@) == caps_layers(event_views(events@)),
{
    let mut st = CapsState { layers: Vec::new(), current: None, path: Vec::new() };
    let ghost evs = event_views(events@);
    assert(layer_views(st.layers@) =~= Seq::<WmtsLayerView>::empty());
    assert(string_views(st.path@) =~= Seq::<Seq<char>>::empty());
    let mut i: usize = 0;
    while i < events.len()
        invariant
            i <= events.len(),
            evs == event_views(events@),
            st@ == caps_run(evs.subrange(0, i as int)),
        decreases events.len() - i,
    {
        assert(evs.subrange(0, i + 1).drop_last() =~= evs.subrange(0, i as int));
        assert(evs.subrange(0, i + 1).last() == events@[i as int]@);
        match &events[i] {
            XmlEvent::Start { local_name, local_attrs, empty, .. } => {
                caps_start_exec(&mut st, local_name, local_attrs);
                if *empty {
                    caps_end_exec(&mut st, local_name);
                }
            },
            XmlEvent::End { local_name, .. } => caps_end_exec(&mut st, local_name),
            XmlEvent::Text { unescaped, .. } => {
                let t = match unescaped {
                    Some(u) => trim_chars(&chars_of(u.as_str())),
                    None => Vec::new(),
                };
                proof {
                    if unescaped is None {
                        assert(trim(Seq::<char>::empty()) =~= Seq::<char>::empty());
                    }
                }
                caps_text_exec(&mut st, &t);
            },
            XmlEvent::Other => {},
        }
        i += 1;
    }
    assert(evs.subrange(0, events@.len() as int) =~= evs);
    st.layers
}

/// The layers of a capabilities document: those its events describe;
/// `None` where the reader reports an error.
pub open spec fn caps_xml_layers(xml: Seq<char>) -> Option<Seq<WmtsLayerView>> {
    match xml_event_list(xml) {
        None => None,
        Some(evs) => Some(caps_layers(evs)),
    }
}

/// Reads the layers of a WMTS `GetCapabilities` document.
pub fn parse_wmts_capabilities(xml: &str) -> (r: Result<Vec<WmtsLayer>, WmtsError>)
    ensures
        match caps_xml_layers(xml@) {
            None => r == Err::<Vec<WmtsLayer>, WmtsError>(WmtsError::Xml),
            Some(lv) => r matches Ok(ls) && layer_views(ls@) == lv,
        },
{
    match xml_events(xml) {
        None => Err(WmtsError::Xml),
        Some(events) => Ok(caps_from_events(&events)),
    }
}

// ─── layers as tile sources ─────────────────────────────────────────────────

/// The KVP `GetTile` template for a layer without a RESTful template: the
/// capabilities URL without its query, then the fixed WMTS parameters with
/// the layer's first tile matrix set (else `GoogleMapsCompatible`) and first
/// format (else `image/png`).
pub open spec fn kvp_url(base_url: Seq<char>, layer_id: Seq<char>, l: WmtsLayerView) -> Seq<char> {
    let base = match find_first(base_url, seq!['?']) {
        Some(i) => base_url.subrange(0, i),
        None => base_url,
    };
    let tms = if l.tile_matrix_sets.len() > 0 {
        l.tile_matrix_sets[0]
    } else {
        "GoogleMapsCompatible"@
    };
    let fmt = if l.formats.len() > 0 {
        l.formats[0]
    } else {
        "image/png"@
    };
    base + "?SERVICE=WMTS&REQUEST=GetTile&VERSION=1.0.0&LAYER="@ + layer_id + "&STYLE=default&TILEMATRIXSET="@
        + tms + "&FORMAT="@ + fmt + "&TILEMATRIX={z}&TILEROW={y}&TILECOL={x}"@
}

/// Builds the KVP `GetTile` template of a layer.
pub fn build_wmts_kvp_url(base_url: &str, layer_id: &str, layer: &WmtsLayer) -> (r: String)
    ensures
        r@ == kvp_url(base_url@, layer_id@, layer@),
{
    let bu = chars_of(base_url);
    let base = match find_char(&bu, '?') {
        Some(i) => slice_chars(&bu, 0, i),
        None => bu,
    };
    let tms = if layer.tile_matrix_sets.len() > 0 {
        chars_of(layer.tile_matrix_sets[0].as_str())
    } else {
        chars_of("GoogleMapsCompatible")
    };
    let fmt = if layer.formats.len() > 0 {
        chars_of(layer.formats[0].as_str())
    } else {
        chars_of("image/png")
    };
    let mut r = base;
    r = concat_chars(&r, &chars_of("?SERVICE=WMTS&REQUEST=GetTile&VERSION=1.0.0&LAYER="));
    r = concat_chars(&r, &chars_of(layer_id));
    r = concat_chars(&r, &chars_of("&STYLE=default&TILEMATRIXSET="));
    r = concat_chars(&r, &tms);
    r = concat_chars(&r, &chars_of("&FORMAT="));
    r = concat_chars(&r, &fmt);
    r = concat_chars(&r, &chars_of("&TILEMATRIX={z}&TILEROW={y}&TILECOL={x}"));
    string_of(&r)
}

/// The grid the first recognised tile matrix set names: Web Mercator for
/// `GoogleMapsCompatible`, `EPSG:3857` or `w`; longitude/latitude for
/// `EPSG:4326` or `c`; Web Mercator when none is recognised.
pub open spec fn tms_crs(sets: Seq<Seq<char>>) -> CrsType
    decreases sets.len(),
{
    if sets.len() == 0 {
        CrsType::WebMercator
    } else {
        let t = sets[0];
        if contains_sub(t, "GoogleMapsCompatible"@) || contains_sub(t, "EPSG:3857"@) || t == "w"@ {
            CrsType::WebMercator
        } else if contains_sub(t, "EPSG:4326"@) || t == "c"@ {
            CrsType::Wgs84
        } else {
            tms_crs(sets.drop_first())
        }
    }
}

fn tms_crs_exec(sets: &Vec<String>) -> (r: CrsType)
    ensures
        r == tms_crs(string_views(sets@)),
{
    let ghost sv = string_views(sets@);
    assert(sv.subrange(0, sv.len() as int) =~= sv);
    let mut k: usize = 0;
    while k < sets.len()
        invariant
            k <= sets.len(),
            sv == string_views(sets@),
            tms_crs(sv) == tms_crs(sv.subrange(k as int, sv.len() as int)),
        decreases sets.len() - k,
    {
        let t = chars_of(sets[k].as_str());
        let ghost rest = sv.subrange(k as int, sv.len() as int);
        assert(rest[0] == t@);
        assert(rest.drop_first() =~= sv.subrange(k + 1, sv.len() as int));
        if contains_chars(&t, &chars_of("GoogleMapsCompatible")) || contains_chars(&t, &chars_of("EPSG:3857"))
            || str_eq(sets[k].as_str(), "w") {
            return CrsType::WebMercator;
        } else if contains_chars(&t, &chars_of("EPSG:4326")) || str_eq(sets[k].as_str(), "c") {
            return CrsType::Wgs84;
        }
        k += 1;
    }
    assert(sv.subrange(sv.len() as int, sv.len() as int).len() == 0);
    CrsType::WebMercator
}

/// The grid of a layer's source: a first tile matrix set `c` (Tianditu
/// longitude/latitude) or one naming EPSG:4326 but neither EPSG:3857 nor
/// GoogleMapsCompatible gives longitude/latitude; a first set `w`, one naming
/// EPSG:3857 or GoogleMapsCompatible, or no set at all gives Web Mercator;
/// a first set that names none of these is passed over for the next.
pub proof fn lemma_layer_crs(l: WmtsLayerView, capabilities_url: Seq<char>)
    ensures
        l.tile_matrix_sets.len() > 0 && l.tile_matrix_sets[0] == "c"@
            ==> layer_source(l, capabilities_url).crs == CrsType::Wgs84,
        l.tile_matrix_sets.len() > 0 && contains_sub(l.tile_matrix_sets[0], "EPSG:4326"@)
            && !contains_sub(l.tile_matrix_sets[0], "EPSG:3857"@)
            && !contains_sub(l.tile_matrix_sets[0], "GoogleMapsCompatible"@)
            ==> layer_source(l, capabilities_url).crs == CrsType::Wgs84,
        l.tile_matrix_sets.len() > 0 && (l.tile_matrix_sets[0] == "w"@
            || contains_sub(l.tile_matrix_sets[0], "EPSG:3857"@)
            || contains_sub(l.tile_matrix_sets[0], "GoogleMapsCompatible"@))
            ==> layer_source(l, capabilities_url).crs == CrsType::WebMercator,
        l.tile_matrix_sets.len() == 0 ==> layer_source(l, capabilities_url).crs == CrsType::WebMercator,
        l.tile_matrix_sets.len() > 0 && l.tile_matrix_sets[0] != "c"@ && l.tile_matrix_sets[0] != "w"@
            && !contains_sub(l.tile_matrix_sets[0], "EPSG:4326"@)
            && !contains_sub(l.tile_matrix_sets[0], "EPSG:3857"@)
            && !contains_sub(l.tile_matrix_sets[0], "GoogleMapsCompatible"@)
            ==> layer_source(l, capabilities_url).crs == layer_source(
                WmtsLayerView { tile_matrix_sets: l.tile_matrix_sets.drop_first(), ..l },
                capabilities_url,
            ).crs,
{
    reveal_strlit("c");
    reveal_strlit("w");
    reveal_strlit("EPSG:4326");
    reveal_strlit("EPSG:3857");
    reveal_strlit("GoogleMapsCompatible");
    let sets = l.tile_matrix_sets;
    if sets.len() > 0 && sets[0] == "c"@ {
        crate::text::lemma_short_not_contains("c"@, "GoogleMapsCompatible"@);
        crate::text::lemma_short_not_contains("c"@, "EPSG:3857"@);
        assert("c"@[0] != "w"@[0]);
        assert("c"@ != "w"@);
    }
}

/// The source a layer describes.
pub open spec fn layer_source(l: WmtsLayerView, capabilities_url: Seq<char>) -> TileSourceView {
    TileSourceView {
        kind: SourceKind::Wmts,
        name: if l.title.len() == 0 {
            l.identifier
        } else {
            l.title
        },
        url_template: match l.resource_url {
            Some(u) => u,
            None => kvp_url(capabilities_url, l.identifier, l),
        },
        crs: tms_crs(l.tile_matrix_sets),
        format: if l.formats.len() > 0 {
            url_format_of(l.formats[0])
        } else {
            "png"@
        },
        bounds: BoundsView::Zero,
        ..default_source_view()
    }
}

/// Builds the tile source of a WMTS layer.
pub fn wmts_layer_to_source(layer: &WmtsLayer, capabilities_url: &str) -> (r: Option<TileSource>)
    ensures
        r matches Some(s) && s@ == layer_source(layer@, capabilities_url@),
{
    let url = match &layer.resource_url {
        Some(u) => u.clone(),
        None => build_wmts_kvp_url(capabilities_url, layer.identifier.as_str(), layer),
    };
    let format = if layer.formats.len() > 0 {
        detect_url_format(layer.formats[0].as_str())
    } else {
        String::from_str("png")
    };
    let crs = tms_crs_exec(&layer.tile_matrix_sets);
    let mut s = TileSource::default();
    s.kind = SourceKind::Wmts;
    s.name = if layer.title.unicode_len() == 0 {
        layer.identifier.clone()
    } else {
        layer.title.clone()
    };
    s.url_template = url;
    s.crs = crs;
    s.format = format;
    s.bounds = BoundsSpec::Zero;
    Some(s)
}

/// The tile sources of a capabilities document fetched from
/// `capabilities_url`: one per layer, in order; an error where the document
/// does not read or has no layer.
pub fn capabilities_sources(xml: &str, capabilities_url: &str) -> (r: Result<Vec<TileSource>, WmtsError>)
    ensures
        match caps_xml_layers(xml@) {
            None => r == Err::<Vec<TileSource>, WmtsError>(WmtsError::Xml),
            Some(lv) => if lv.len() == 0 {
                r == Err::<Vec<TileSource>, WmtsError>(WmtsError::NoLayers)
            } else {
                r matches Ok(v) && v@.len() == lv.len()
                    && forall|i: int| 0 <= i < v@.len() ==> #[trigger] v@[i]@ == layer_source(lv[i], capabilities_url@)
            },
        },
{
    let layers = match parse_wmts_capabilities(xml) {
        Ok(ls) => ls,
        Err(e) => return Err(e),
    };
    let ghost lv = layer_views(layers@);
    let mut out: Vec<TileSource> = Vec::new();
    let mut i: usize = 0;
    while i < layers.len()
        invariant
            i <= layers.len(),
            lv == layer_views(layers@),
            out@.len() == i,
            forall|k: int| 0 <= k < i ==> #[trigger] out@[k]@ == layer_source(lv[k], capabilities_url@),
        decreases layers.len() - i,
    {
        match wmts_layer_to_source(&layers[i], capabilities_url) {
            Some(s) => out.push(s),
            None => {},
        }
        i += 1;
    }
    if out.len() == 0 {
        return Err(WmtsError::NoLayers);
    }
    Ok(out)
}

} // verus!
