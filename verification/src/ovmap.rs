//! `.ovmap` tile-source files (LocaSpaceViewer's binary format).
//!
//! Layout: the magic `OviO`, a 24-byte outer header, then a zlib stream.
//! The inflated data holds little-endian `u32` fields (protocol flag at 20,
//! max zoom at 24, min zoom at 28, tile size at 40) and, further on, a string
//! area: three length-prefixed ASCII strings (server parts, host template,
//! path template).

use vstd::prelude::*;
use crate::compress::{zlib_decode, zlib_decoded};
use crate::text::{
    chars_of, concat_chars, contains_sub, contains_chars, lower_text, replace_all, replace_chars,
    string_of, to_lowercase_chars, has_prefix,
};
use crate::types::{CoordType, CrsType, SourceKind, TileSource};

verus! {

/// Size of the outer header before the zlib stream.
pub const OUTER_HEADER_SIZE: usize = 24;

/// Where the scan for the string area starts in the inflated data.
pub const SCAN_START: usize = 36;

/// Why an `.ovmap` file was refused.
#[derive(Debug, Clone, Copy, PartialEq, Eq, Structural)]
pub enum OvmapError {
    /// Shorter than the outer header plus two bytes.
    TooShort,
    /// Does not start with `OviO`.
    BadMagic,
    /// The compressed part is shorter than two bytes.
    CompressedTooShort,
    /// The compressed part does not start with the zlib byte `0x78`.
    NotZlib,
    /// Inflating failed.
    Inflate,
    /// The inflated data is shorter than 48 bytes.
    DecompressedTooShort,
    /// No string area was found.
    NoStringArea,
}

/// Little-endian `u32` at `off`, or 0 when the four bytes are not all there.
pub open spec fn u32_le(d: Seq<u8>, off: int) -> nat {
    if off < 0 || off + 4 > d.len() {
        0
    } else {
        (d[off] as nat) + (d[off + 1] as nat) * 256 + (d[off + 2] as nat) * 65536 + (d[off + 3] as nat)
            * 16777216
    }
}

/// Reads a little-endian `u32` at `offset`; 0 when it runs past the end.
pub fn read_u32_le(data: &[u8], offset: usize) -> (r: u32)
    ensures
        r as nat == u32_le(data@, offset as int),
{
    if offset > data.len() || data.len() - offset < 4 {
        return 0;
    }
    let b0 = data[offset] as u32;
    let b1 = data[offset + 1] as u32;
    let b2 = data[offset + 2] as u32;
    let b3 = data[offset + 3] as u32;
    b0 + b1 * 256 + b2 * 65536 + b3 * 16777216
}

pub open spec fn is_ascii_alnum(b: u8) -> bool {
    (0x30 <= b <= 0x39) || (0x41 <= b <= 0x5A) || (0x61 <= b <= 0x7A)
}

pub open spec fn all_alnum(s: Seq<u8>) -> bool {
    forall|i: int| 0 <= i < s.len() ==> is_ascii_alnum(#[trigger] s[i])
}

pub open spec fn all_ascii(s: Seq<u8>) -> bool {
    forall|i: int| 0 <= i < s.len() ==> #[trigger] s[i] < 0x80
}

/// The characters of ASCII bytes.
pub open spec fn ascii_chars(s: Seq<u8>) -> Seq<char> {
    s.map_values(|b: u8| b as char)
}

/// The three strings found at offset `off`, if the length-prefixed layout
/// there passes the checks; `Err(())` when the server-part string would run
/// past the end (which ends the scan).
pub open spec fn strings_at(d: Seq<u8>, off: int) -> Result<Option<(Seq<u8>, Seq<u8>, Seq<u8>)>, ()> {
    let len = d.len() as int;
    let sp_len = u32_le(d, off) as int;
    if sp_len == 0 || sp_len > 64 {
        Ok(None)
    } else {
        let sp_end = off + 4 + sp_len;
        if sp_end + 4 > len {
            Err(())
        } else {
            let sp = d.subrange(off + 4, sp_end);
            let host_len = u32_le(d, sp_end) as int;
            let host_end = sp_end + 4 + host_len;
            if !all_alnum(sp) || host_len < 5 || host_len > 512 || host_end + 4 > len {
                Ok(None)
            } else {
                let host = d.subrange(sp_end + 4, host_end);
                let path_len = u32_le(d, host_end) as int;
                let path_end = host_end + 4 + path_len;
                if !all_ascii(host) || !contains_sub(ascii_chars(host), seq!['.']) || path_len == 0
                    || path_len > 1024 || path_end > len {
                    Ok(None)
                } else {
                    let path = d.subrange(host_end + 4, path_end);
                    if !all_ascii(path) || !(has_prefix(ascii_chars(path), seq!['/']) || contains_sub(
                        ascii_chars(path),
                        seq!['{'],
                    )) {
                        Ok(None)
                    } else {
                        Ok(Some((sp, host, path)))
                    }
                }
            }
        }
    }
}

/// Scans offsets `off, off+1, ...` for the string area.
pub open spec fn scan_strings(d: Seq<u8>, off: int) -> Option<(Seq<u8>, Seq<u8>, Seq<u8>)>
    decreases d.len() - off,
{
    if off < 0 || off + 4 > d.len() {
        None
    } else {
        match strings_at(d, off) {
            Err(_) => None,
            Ok(Some(t)) => Some(t),
            Ok(None) => scan_strings(d, off + 1),
        }
    }
}

fn all_alnum_exec(d: &[u8], lo: usize, hi: usize) -> (r: bool)
    requires
        lo <= hi <= d.len(),
    ensures
        r == all_alnum(d@.subrange(lo as int, hi as int)),
{
    let mut i = lo;
    while i < hi
        invariant
            lo <= i <= hi <= d.len(),
            forall|k: int| lo <= k < i ==> is_ascii_alnum(d@[k]),
        decreases hi - i,
    {
        let b = d[i];
        if !((0x30 <= b && b <= 0x39) || (0x41 <= b && b <= 0x5A) || (0x61 <= b && b <= 0x7A)) {
            assert(d@.subrange(lo as int, hi as int)[i - lo] == b);
            return false;
        }
        i += 1;
    }
    assert forall|k: int| 0 <= k < hi - lo implies is_ascii_alnum(#[trigger] d@.subrange(lo as int, hi as int)[k]) by {
        assert(d@.subrange(lo as int, hi as int)[k] == d@[lo + k]);
    }
    true
}

/// The characters of `d[lo..hi]` when those bytes are all ASCII.
fn ascii_slice(d: &[u8], lo: usize, hi: usize) -> (r: Option<Vec<char>>)
    requires
        lo <= hi <= d.len(),
    ensures
        r matches Some(v) ==> all_ascii(d@.subrange(lo as int, hi as int)) && v@ == ascii_chars(
            d@.subrange(lo as int, hi as int),
        ),
        r is None ==> !all_ascii(d@.subrange(lo as int, hi as int)),
{
    let mut v: Vec<char> = Vec::new();
    let mut i = lo;
    while i < hi
        invariant
            lo <= i <= hi <= d.len(),
            forall|k: int| lo <= k < i ==> d@[k] < 0x80,
            v@ == ascii_chars(d@.subrange(lo as int, i as int)),
        decreases hi - i,
    {
        let b = d[i];
        if b >= 0x80 {
            assert(d@.subrange(lo as int, hi as int)[i - lo] == b);
            return None;
        }
        v.push(b as char);
        i += 1;
        assert(v@ =~= ascii_chars(d@.subrange(lo as int, i as int)));
    }
    assert forall|k: int| 0 <= k < hi - lo implies #[trigger] d@.subrange(lo as int, hi as int)[k] < 0x80 by {
        assert(d@.subrange(lo as int, hi as int)[k] == d@[lo + k]);
    }
    Some(v)
}

/// The string area at `off`: `Err(())` ends the scan, `Ok(None)` moves on.
fn strings_at_exec(d: &[u8], off: usize) -> (r: Result<Option<(Vec<char>, Vec<char>, Vec<char>)>, ()>)
    requires
        off + 4 <= d.len(),
    ensures
        r is Err <==> strings_at(d@, off as int) is Err,
        r matches Ok(None) ==> strings_at(d@, off as int) == Ok::<Option<(Seq<u8>, Seq<u8>, Seq<u8>)>, ()>(None),
        r matches Ok(Some(t)) ==> strings_at(d@, off as int) matches Ok(Some(u))
            && t.0@ == ascii_chars(u.0) && t.1@ == ascii_chars(u.1) && t.2@ == ascii_chars(u.2),
{
    let len = d.len();
    let sp_len = read_u32_le(d, off) as usize;
    if sp_len == 0 || sp_len > 64 {
        return Ok(None);
    }
    if len - (off + 4) < sp_len || len - (off + 4) - sp_len < 4 {
        return Err(());
    }
    let sp_end = off + 4 + sp_len;
    if !all_alnum_exec(d, off + 4, sp_end) {
        return Ok(None);
    }
    let host_len = read_u32_le(d, sp_end) as usize;
    if host_len < 5 || host_len > 512 {
        return Ok(None);
    }
    if len - (sp_end + 4) < host_len || len - (sp_end + 4) - host_len < 4 {
        return Ok(None);
    }
    let host_end = sp_end + 4 + host_len;
    let host = match ascii_slice(d, sp_end + 4, host_end) {
        Some(h) => h,
        None => return Ok(None),
    };
    let dot = vec!['.'];
    assert(dot@ =~= seq!['.']);
    if !contains_chars(&host, &dot) {
        return Ok(None);
    }
    let path_len = read_u32_le(d, host_end) as usize;
    if path_len == 0 || path_len > 1024 {
        return Ok(None);
    }
    if len - (host_end + 4) < path_len {
        return Ok(None);
    }
    let path_end = host_end + 4 + path_len;
    let path = match ascii_slice(d, host_end + 4, path_end) {
        Some(p) => p,
        None => return Ok(None),
    };
    let slash = vec!['/'];
    let brace = vec!['{'];
    assert(slash@ =~= seq!['/']);
    assert(brace@ =~= seq!['{']);
    if !(crate::text::starts_with_chars(&path, &slash) || contains_chars(&path, &brace)) {
        return Ok(None);
    }
    let sp = match ascii_slice(d, off + 4, sp_end) {
        Some(s) => s,
        None => {
            proof {
                let spb = d@.subrange(off + 4, sp_end as int);
                assert forall|k: int| 0 <= k < spb.len() implies #[trigger] spb[k] < 0x80 by {
                    assert(is_ascii_alnum(spb[k]));
                }
            }
            return Ok(None);
        },
    };
    Ok(Some((sp, host, path)))
}

/// Finds the string area of the inflated data: server parts, host template
/// and path template, as text.
pub fn find_strings_section(dc: &[u8]) -> (r: Option<(Vec<char>, Vec<char>, Vec<char>)>)
    ensures
        r is None <==> scan_strings(dc@, SCAN_START as int) is None,
        r matches Some(t) ==> scan_strings(dc@, SCAN_START as int) matches Some(u)
            && t.0@ == ascii_chars(u.0) && t.1@ == ascii_chars(u.1) && t.2@ == ascii_chars(u.2),
{
    let len = dc.len();
    let mut off = SCAN_START;
    while off <= len && len - off >= 4
        invariant
            SCAN_START <= off,
            len == dc.len(),
            scan_strings(dc@, SCAN_START as int) == scan_strings(dc@, off as int),
        decreases len + 1 - off,
    {
        match strings_at_exec(dc, off) {
            Err(_) => {
                return None;
            },
            Ok(Some(t)) => {
                return Some(t);
            },
            Ok(None) => {},
        }
        off += 1;
    }
    None
}

/// `{$serverpart}` → `{s}`, `{$x}` → `{x}`, `{$y}` → `{y}`, `{$z}` → `{z}`.
pub open spec fn converted(s: Seq<char>) -> Seq<char> {
    replace_all(
        replace_all(replace_all(replace_all(s, "{$serverpart}"@, "{s}"@), "{$x}"@, "{x}"@), "{$y}"@, "{y}"@),
        "{$z}"@,
        "{z}"@,
    )
}

fn convert_placeholder_chars(s: &Vec<char>) -> (r: Vec<char>)
    ensures
        r@ == converted(s@),
{
    proof {
        reveal_strlit("{$serverpart}");
        reveal_strlit("{$x}");
        reveal_strlit("{$y}");
        reveal_strlit("{$z}");
    }
    let a = replace_chars(s, &chars_of("{$serverpart}"), &chars_of("{s}"));
    let b = replace_chars(&a, &chars_of("{$x}"), &chars_of("{x}"));
    let c = replace_chars(&b, &chars_of("{$y}"), &chars_of("{y}"));
    replace_chars(&c, &chars_of("{$z}"), &chars_of("{z}"))
}

/// Converts LocaSpaceViewer placeholders to the standard ones.
pub fn convert_placeholders(s: &str) -> (r: String)
    ensures
        r@ == converted(s@),
{
    let v = chars_of(s);
    let r = convert_placeholder_chars(&v);
    string_of(&r)
}

/// Projection and coordinate scheme inferred from the host template.
pub open spec fn coord_system_of(host: Seq<char>) -> (CrsType, CoordType) {
    let h = lower_text(host);
    if contains_sub(h, "autonavi"@) || contains_sub(h, "amap"@) {
        (CrsType::WebMercator, CoordType::Gcj02)
    } else if contains_sub(h, "baidu"@) {
        (CrsType::WebMercator, CoordType::Bd09)
    } else if contains_sub(h, "qq.com"@) || contains_sub(h, "map.qq"@) {
        (CrsType::WebMercator, CoordType::Gcj02)
    } else {
        (CrsType::WebMercator, CoordType::Wgs84)
    }
}

/// Gaode (autonavi / amap) and Tencent (qq.com) are GCJ-02, Baidu is BD-09,
/// others WGS84; all on the Web Mercator grid.
pub fn detect_coord_system(host: &str, _path: &str) -> (r: (CrsType, CoordType))
    ensures
        r == coord_system_of(host@),
{
    let hv = chars_of(host);
    let h = to_lowercase_chars(&hv);
    if contains_chars(&h, &chars_of("autonavi")) || contains_chars(&h, &chars_of("amap")) {
        (CrsType::WebMercator, CoordType::Gcj02)
    } else if contains_chars(&h, &chars_of("baidu")) {
        (CrsType::WebMercator, CoordType::Bd09)
    } else if contains_chars(&h, &chars_of("qq.com")) || contains_chars(&h, &chars_of("map.qq")) {
        (CrsType::WebMercator, CoordType::Gcj02)
    } else {
        (CrsType::WebMercator, CoordType::Wgs84)
    }
}

/// Inflates the compressed part: it must be at least two bytes and start
/// with the zlib byte `0x78`.
fn decompress_zlib(data: &[u8]) -> (r: Result<Vec<u8>, OvmapError>)
    ensures
        data@.len() < 2 ==> r == Err::<Vec<u8>, OvmapError>(OvmapError::CompressedTooShort),
        data@.len() >= 2 && data@[0] != 0x78 ==> r == Err::<Vec<u8>, OvmapError>(OvmapError::NotZlib),
        data@.len() >= 2 && data@[0] == 0x78 ==> match zlib_decoded(data@) {
            Some(v) => r matches Ok(w) && w@ == v,
            None => r == Err::<Vec<u8>, OvmapError>(OvmapError::Inflate),
        },
{
    if data.len() < 2 {
        return Err(OvmapError::CompressedTooShort);
    }
    if data[0] != 0x78 {
        return Err(OvmapError::NotZlib);
    }
    match zlib_decode(data) {
        Some(v) => Ok(v),
        None => Err(OvmapError::Inflate),
    }
}

/// `min` of two values.
pub open spec fn min_nat(a: nat, b: nat) -> nat {
    if a <= b { a } else { b }
}

/// What a tile source read from inflated `.ovmap` data `dc` holds, given the
/// string area `(sp, host, path)` found in it.
pub open spec fn ovmap_source_matches(
    s: TileSource,
    dc: Seq<u8>,
    sp: Seq<u8>,
    host: Seq<u8>,
    path: Seq<u8>,
    default_name: Seq<char>,
) -> bool {
    let max_zoom = min_nat(u32_le(dc, 24), 22);
    let min_raw = u32_le(dc, 28) % 256;
    let scheme = if u32_le(dc, 20) != 0 { "https"@ } else { "http"@ };
    &&& s.kind == SourceKind::Ovmap
    &&& s.name@ == default_name
    &&& s.url_template@ == scheme + "://"@ + converted(ascii_chars(host)) + converted(ascii_chars(path))
    &&& crate::text::string_views(s.subdomains@) == ascii_chars(sp).map_values(|c: char| seq![c])
    &&& (s.crs, s.coord_type) == coord_system_of(ascii_chars(host))
    &&& s.tile_size as nat == (if u32_le(dc, 40) == 0 { 256 } else { u32_le(dc, 40) })
    &&& s.north_to_south
    &&& s.max_zoom as nat == max_zoom
    &&& s.min_zoom as nat == min_nat(min_raw, max_zoom)
    &&& crate::text::string_views(s.url_param_order@) == seq!["X"@, "Y"@, "Z"@]
    &&& s.bounds is World
    &&& s.headers@.len() == 0 && s.extra_params@.len() == 0 && s.param_scripts@.len() == 0
    &&& s.attribution is None
    &&& s.format@ == "png"@
}

/// Reads an `.ovmap` file's bytes into a tile source named `default_name`.
pub fn parse_ovmap_bytes(raw: &[u8], default_name: &str) -> (r: Result<TileSource, OvmapError>)
    ensures
        raw@.len() < 26 ==> r == Err::<TileSource, OvmapError>(OvmapError::TooShort),
        raw@.len() >= 26 && raw@.subrange(0, 4) != seq![0x4Fu8, 0x76u8, 0x69u8, 0x4Fu8]
            ==> r == Err::<TileSource, OvmapError>(OvmapError::BadMagic),
        raw@.len() >= 26 && raw@.subrange(0, 4) == seq![0x4Fu8, 0x76u8, 0x69u8, 0x4Fu8] ==> {
            let comp = raw@.subrange(24, raw@.len() as int);
            if comp[0] != 0x78 {
                r == Err::<TileSource, OvmapError>(OvmapError::NotZlib)
            } else {
                match zlib_decoded(comp) {
                    None => r == Err::<TileSource, OvmapError>(OvmapError::Inflate),
                    Some(dc) => if dc.len() < 48 {
                        r == Err::<TileSource, OvmapError>(OvmapError::DecompressedTooShort)
                    } else {
                        match scan_strings(dc, SCAN_START as int) {
                            None => r == Err::<TileSource, OvmapError>(OvmapError::NoStringArea),
                            Some((sp, host, path)) => r matches Ok(s) && ovmap_source_matches(
                                s, dc, sp, host, path, default_name@,
                            ),
                        }
                    },
                }
            }
        },
{
    if raw.len() < OUTER_HEADER_SIZE + 2 {
        return Err(OvmapError::TooShort);
    }
    if !(raw[0] == 0x4F && raw[1] == 0x76 && raw[2] == 0x69 && raw[3] == 0x4F) {
        proof {
            if raw@.subrange(0, 4) == seq![0x4Fu8, 0x76u8, 0x69u8, 0x4Fu8] {
                assert(raw@.subrange(0, 4)[0] == raw@[0]);
                assert(raw@.subrange(0, 4)[1] == raw@[1]);
                assert(raw@.subrange(0, 4)[2] == raw@[2]);
                assert(raw@.subrange(0, 4)[3] == raw@[3]);
            }
        }
        return Err(OvmapError::BadMagic);
    }
    assert(raw@.subrange(0, 4) =~= seq![0x4Fu8, 0x76u8, 0x69u8, 0x4Fu8]);
    let compressed = crate::bytes::slice_bytes(raw, OUTER_HEADER_SIZE, raw.len());
    let dc = match decompress_zlib(compressed.as_slice()) {
        Ok(v) => v,
        Err(e) => return Err(e),
    };
    if dc.len() < 48 {
        return Err(OvmapError::DecompressedTooShort);
    }
    let d = dc.as_slice();
    let mz = read_u32_le(d, 24);
    let max_zoom: u8 = if mz < 22 { mz as u8 } else { 22 };
    let min_raw: u8 = (read_u32_le(d, 28) % 256) as u8;
    let min_zoom: u8 = if min_raw <= max_zoom { min_raw } else { max_zoom };
    let ts = read_u32_le(d, 40);
    let tile_size: u32 = if ts == 0 { 256 } else { ts };
    let use_https = read_u32_le(d, 20) != 0;
    let (sp, host, path) = match find_strings_section(d) {
        Some(t) => t,
        None => return Err(OvmapError::NoStringArea),
    };
    let host_c = convert_placeholder_chars(&host);
    let path_c = convert_placeholder_chars(&path);
    let mut subdomains: Vec<String> = Vec::new();
    let mut i: usize = 0;
    while i < sp.len()
        invariant
            i <= sp.len(),
            crate::text::string_views(subdomains@) == sp@.subrange(0, i as int).map_values(|c: char| seq![c]),
        decreases sp.len() - i,
    {
        let one = vec![sp[i]];
        assert(one@ =~= seq![sp@[i as int]]);
        let ghost old_v = crate::text::string_views(subdomains@);
        subdomains.push(string_of(&one));
        assert(crate::text::string_views(subdomains@) =~= old_v.push(seq![sp@[i as int]]));
        i += 1;
        assert(crate::text::string_views(subdomains@) =~= sp@.subrange(0, i as int).map_values(|c: char| seq![c]));
    }
    assert(sp@.subrange(0, sp@.len() as int) =~= sp@);
    let scheme = if use_https { chars_of("https") } else { chars_of("http") };
    let mut url = concat_chars(&scheme, &chars_of("://"));
    crate::text::push_all(&mut url, &host_c);
    crate::text::push_all(&mut url, &path_c);
    let host_s = string_of(&host);
    let path_s = string_of(&path);
    let (crs, coord_type) = detect_coord_system(host_s.as_str(), path_s.as_str());
    let mut s = TileSource::default();
    s.kind = SourceKind::Ovmap;
    s.name = String::from_str(default_name);
    s.url_template = string_of(&url);
    s.subdomains = subdomains;
    s.crs = crs;
    s.coord_type = coord_type;
    s.tile_size = tile_size;
    s.north_to_south = true;
    s.min_zoom = min_zoom;
    s.max_zoom = max_zoom;
    proof {
        assert(compressed@ == raw@.subrange(24, raw@.len() as int));
        assert(url@ =~= scheme@ + "://"@ + converted(host@) + converted(path@));
    }
    Ok(s)
}

} // verus!
