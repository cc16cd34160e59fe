use std::io::Write;
use tilegrabber::lra::{find_xml_start, parse_lra_bytes, parse_lra_json, LraError};
use tilegrabber::lrc::{detect_format, parse_geo_grid_type, parse_lrc_bytes, parse_lrc_xml, parse_map_space_type, LrcError};
use tilegrabber::lua::{extract_first_string_literal, parse_url_script, script_is_supported};
use tilegrabber::ovmap::{convert_placeholders, parse_ovmap_bytes, OvmapError};
use tilegrabber::types::{BoundsSpec, CoordType, CrsType, SourceKind, TileSource};
use tilegrabber::web_capture::{record_capture, tile_url_to_template};
use tilegrabber::wmts::{
    build_wmts_kvp_url, detect_url_format, extract_name_from_url, extract_subdomains, normalize_wmts_url,
    parse_tms_url, parse_wmts_capabilities, wmts_layer_to_source, WmtsError,
};

const SAMPLE_LRC: &str = r#"<?xml version="1.0" encoding="UTF-8"?>
<DataDefine>
  <Name>天地图影像</Name>
  <NetPath>https://t{$serverpart}.tianditu.gov.cn/img_w/wmts?SERVICE=WMTS&amp;REQUEST=GetTile&amp;VERSION=1.0.0&amp;LAYER=img&amp;STYLE=default&amp;TILEMATRIXSET=w&amp;FORMAT=tiles&amp;TILEMATRIX=%d&amp;TILEROW=%d&amp;TILECOL=%d&amp;tk=75f0434f</NetPath>
  <GeoGridType>WebMercatorWGS84</GeoGridType>
  <SampleSize>256</SampleSize>
  <TileRowDir>NorthToSouth</TileRowDir>
  <UrlParamOrder>Z,Y,X</UrlParamOrder>
  <ServerParts>0 1 2 3 4 5 6 7</ServerParts>
  <DataType>urlformat</DataType>
  <Range West="-180" East="180" South="-90" North="90" LevelBegin="1" LevelEnd="18"/>
  <HttpHeaders>
    <Header Name="Referer" Value="https://www.tianditu.gov.cn/"/>
    <Header Name="User-Agent" Value="Mozilla/5.0"/>
  </HttpHeaders>
  <attribution>天地图影像 GS(2024)0568号</attribution>
</DataDefine>"#;

const TENCENT_LRC: &str = r#"<?xml version="1.0" encoding="GB18030"?><DataDefine>
<Name>img</Name>
<GeoGridType>WebMercatorWGS84</GeoGridType>
<SampleSize>256</SampleSize>
<DataType>urlformat</DataType>
<MapSpaceType>GCJ02</MapSpaceType>
<UrlParamOrder>x,y,z</UrlParamOrder>
<TileRowDir>SouthToNorth</TileRowDir>
<NetPath>https://rt{$serverpart}.map.gtimg.com/tile?x=%d&amp;y=%d&amp;z=%d&amp;type=vector&amp;styleid=5</NetPath>
<ServerParts>0 1 2 3</ServerParts>
<Range>
<West>-180</West><East>180</East><South>-85</South><North>85</North>
<LevelBegin>3</LevelBegin><LevelEnd>18</LevelEnd>
</Range>
</DataDefine>"#;

#[test]
fn test_parse_lrc_basic() {
    let src = parse_lrc_bytes(SAMPLE_LRC.as_bytes(), "test").unwrap();

    assert_eq!(src.name, "天地图影像");
    assert_eq!(src.crs, CrsType::WebMercator);
    assert_eq!(src.tile_size, 256);
    assert_eq!(src.north_to_south, true);
    assert_eq!(src.subdomains, vec!["0", "1", "2", "3", "4", "5", "6", "7"]);
    assert_eq!(src.min_zoom, 1);
    assert_eq!(src.max_zoom, 18);
    assert!(src.header("Referer").is_some());
    assert!(src.url_template.contains("{z}"));
    assert!(src.url_template.contains("{s}"));
}

#[test]
fn test_normalize_url() {
    let url = "https://t{$serverpart}.example.com/%d/%d/%d.png";
    let order = vec!["Z".to_string(), "Y".to_string(), "X".to_string()];
    let result = TileSource::normalize_url(url, &order);
    assert!(result.contains("{s}"));
    assert!(result.contains("{z}"));
    assert!(result.contains("{y}"));
    assert!(result.contains("{x}"));
}

#[test]
fn test_parse_lrc_tencent_south_to_north_gcj02() {
    let src = parse_lrc_bytes(TENCENT_LRC.as_bytes(), "test").unwrap();

    assert_eq!(src.crs, CrsType::WebMercator);
    assert_eq!(src.north_to_south, false, "SouthToNorth 应解析为 north_to_south=false");
    assert_eq!(src.coord_type, CoordType::Gcj02, "MapSpaceType GCJ02 应解析为 CoordType::Gcj02");
    assert_eq!(src.min_zoom, 3);
    assert_eq!(src.max_zoom, 18);
    assert_eq!(src.subdomains, vec!["0", "1", "2", "3"]);
    assert!(src.url_template.contains("{s}"));
    assert!(src.url_template.contains("{x}"));
    assert!(src.url_template.contains("{y}"));
    assert!(src.url_template.contains("{z}"));
}

#[test]
fn lrc_fields_in_detail() {
    let src = parse_lrc_bytes(SAMPLE_LRC.as_bytes(), "test").unwrap();
    assert_eq!(src.kind, SourceKind::Lrc);
    assert_eq!(
        src.url_template,
        "https://t{s}.tianditu.gov.cn/img_w/wmts?SERVICE=WMTS&REQUEST=GetTile&VERSION=1.0.0&LAYER=img&STYLE=default&TILEMATRIXSET=w&FORMAT=tiles&TILEMATRIX={z}&TILEROW={y}&TILECOL={x}&tk=75f0434f"
    );
    assert_eq!(src.url_param_order, vec!["Z", "Y", "X"]);
    assert_eq!(src.format, "png");
    assert_eq!(src.header("Referer").as_deref(), Some("https://www.tianditu.gov.cn/"));
    assert_eq!(src.header("User-Agent").as_deref(), Some("Mozilla/5.0"));
    // The empty-element `<Range .../>` closes at once, so the later
    // `<attribution>` text is taken.
    assert_eq!(src.attribution.as_deref(), Some("天地图影像 GS(2024)0568号"));
    match &src.bounds {
        BoundsSpec::FromText(r) => {
            assert_eq!(r.west, vec!["-180"]);
            assert_eq!(r.north, vec!["90"]);
        }
        _ => panic!("range texts expected"),
    }
}

#[test]
fn lrc_range_children_and_order() {
    let src = parse_lrc_bytes(TENCENT_LRC.as_bytes(), "test").unwrap();
    assert_eq!(src.url_template, "https://rt{s}.map.gtimg.com/tile?x={x}&y={y}&z={z}&type=vector&styleid=5");
    assert_eq!(src.url_param_order, vec!["X", "Y", "Z"]);
    assert_eq!(src.name, "img");
    match &src.bounds {
        BoundsSpec::FromText(r) => {
            assert_eq!(r.south, vec!["-85"]);
            assert_eq!(r.east, vec!["180"]);
        }
        _ => panic!("range texts expected"),
    }
}

#[test]
fn lrc_header_elements_and_name_kept() {
    let xml = "<DataDefine><Name>first</Name><LayerName>second</LayerName>\
               <HttpHeaders><Referer>https://a.example/</Referer></HttpHeaders>\
               <NetPath>https://x.example/%d/%d/%d.png</NetPath></DataDefine>";
    let src = parse_lrc_bytes(xml.as_bytes(), "dflt").unwrap();
    assert_eq!(src.name, "first");
    assert_eq!(src.header("Referer").as_deref(), Some("https://a.example/"));
    assert_eq!(src.url_template, "https://x.example/{x}/{y}/{z}.png");
}

#[test]
fn lrc_url_from_script() {
    let xml = "<DataDefine><UrlScript>function getTileUrl(zoom, x, y)\n\
               key = {\"TOKEN\"}\n\
               url = \"http://host\" .. math.random(1,3) .. \".domain/path/\"\n\
               return url .. zoom .. \"/\" .. x .. \"/\" .. y .. \"?token=\" .. key[1]\n\
               end</UrlScript></DataDefine>";
    let src = parse_lrc_bytes(xml.as_bytes(), "script").unwrap();
    assert_eq!(src.url_template, "http://host{s}.domain/path/{z}/{x}/{y}?token=TOKEN");
    assert_eq!(src.name, "script");
}

#[test]
fn lrc_errors() {
    assert_eq!(parse_lrc_bytes(b"<a><b></a>", "x").err(), Some(LrcError::Xml));
}

#[test]
fn lrc_small_maps() {
    assert_eq!(parse_geo_grid_type(" TianDiTuLatLon "), CrsType::Wgs84);
    assert_eq!(parse_geo_grid_type("5"), CrsType::Terrain);
    assert_eq!(parse_geo_grid_type("other"), CrsType::Unknown);
    assert_eq!(parse_map_space_type("BD09LL"), CoordType::Bd09);
    assert_eq!(parse_map_space_type("WGS84"), CoordType::Wgs84);
    assert_eq!(detect_format("image/JPEG"), "jpg");
    assert_eq!(detect_format("TDTT"), "terrain");
    assert_eq!(detect_format("urlformat"), "png");
}

#[test]
fn lua_script_evaluation() {
    let script: Vec<char> = "function f(level, col, row)\nreturn \"https://s.example/\" .. level .. \"/\" .. col .. \"/\" .. row\nend"
        .chars()
        .collect();
    assert!(script_is_supported(&script));
    let r: String = parse_url_script(&script).unwrap().into_iter().collect();
    assert_eq!(r, "https://s.example/{z}/{x}/{y}");
    let no_url: Vec<char> = "return \"abc\"".chars().collect();
    assert!(parse_url_script(&no_url).is_none());
}

#[test]
fn test_unknown_magic() {
    let result = parse_lra_bytes(b"not compressed", "test");
    assert!(result.is_err());
}

#[test]
fn test_find_xml_start() {
    let data = b"\x00\x00\x00<?xml version";
    assert_eq!(find_xml_start(data), Some(3));

    let data2 = b"\xAA\xBB<DataDefine><N";
    assert_eq!(find_xml_start(data2), Some(2));

    let data3 = b"\x00\x01\x02\x03";
    assert_eq!(find_xml_start(data3), None);
}

fn zlib(data: &[u8]) -> Vec<u8> {
    let mut e = flate2::write::ZlibEncoder::new(Vec::new(), flate2::Compression::default());
    e.write_all(data).unwrap();
    e.finish().unwrap()
}

fn gzip(data: &[u8]) -> Vec<u8> {
    let mut e = flate2::write::GzEncoder::new(Vec::new(), flate2::Compression::default());
    e.write_all(data).unwrap();
    e.finish().unwrap()
}

#[test]
fn lra_errors() {
    assert_eq!(parse_lra_bytes(b"x", "t").err(), Some(LraError::TooShort));
    assert_eq!(parse_lra_bytes(b"ab", "t").err(), Some(LraError::UnknownCompression));
    assert_eq!(parse_lra_bytes(&[0x78, 0x01, 0x02], "t").err(), Some(LraError::Decompress));
    assert_eq!(parse_lra_bytes(&zlib(b"plain"), "t").err(), Some(LraError::UnknownContent));
    assert_eq!(parse_lra_bytes(&zlib(b"  {oops"), "t").err(), Some(LraError::Json));
    assert_eq!(parse_lra_bytes(&zlib(b"{\"a\":1}"), "t").err(), Some(LraError::UnknownJson));
}

#[test]
fn lra_with_lrc_inside() {
    let mut data = vec![1u8, 2, 3];
    data.extend_from_slice(SAMPLE_LRC.as_bytes());
    let src = parse_lra_bytes(&zlib(&data), "t").unwrap();
    assert_eq!(src.kind, SourceKind::Lra);
    assert_eq!(src.name, "天地图影像");
    let src2 = parse_lra_bytes(&gzip(&data), "t").unwrap();
    assert_eq!(src2.kind, SourceKind::Lra);
    assert_eq!(src2.max_zoom, 18);
}

#[test]
fn lra_json_content() {
    let s = parse_lra_json("{\"baseUri\":\"https://b.example/\",\"extras\":{\"name\":\"n\"}}", "d").unwrap();
    assert_eq!(s.url_template, "https://b.example/");
    assert_eq!(s.name, "n");
    assert_eq!(s.kind, SourceKind::Lra);
    let s2 = parse_lra_json("{\"root\":{\"content\":{\"uri\":\"t.b3dm\"}}}", "d").unwrap();
    assert_eq!(s2.url_template, "t.b3dm");
    assert_eq!(s2.name, "d");
    let s3 = parse_lra_json("{\"baseUri\":5}", "d").unwrap();
    assert_eq!(s3.url_template, "");
    let s4 = parse_lra_bytes(&zlib(b"\n {\"baseUri\":\"u\"}"), "d").unwrap();
    assert_eq!(s4.url_template, "u");
}

#[test]
fn test_invalid_magic() {
    let mut bad = Vec::from(&b"NOPE"[..]);
    bad.extend_from_slice(&[0u8; 30]);
    let result = parse_ovmap_bytes(&bad, "test");
    assert!(result.is_err(), "魔数错误时应返回 Err");
}

#[test]
fn test_too_short() {
    let result = parse_ovmap_bytes(b"OviO\x00\x00", "test");
    assert!(result.is_err());
}

#[test]
fn ovmap_error_variants() {
    assert_eq!(parse_ovmap_bytes(b"OviO\x00\x00", "t").err(), Some(OvmapError::TooShort));
    let mut bad = Vec::from(&b"NOPE"[..]);
    bad.extend_from_slice(&[0u8; 30]);
    assert_eq!(parse_ovmap_bytes(&bad, "t").err(), Some(OvmapError::BadMagic));
    let mut not_zlib = Vec::from(&b"OviO"[..]);
    not_zlib.extend_from_slice(&[0u8; 30]);
    assert_eq!(parse_ovmap_bytes(&not_zlib, "t").err(), Some(OvmapError::NotZlib));
    let mut short = Vec::from(&b"OviO"[..]);
    short.extend_from_slice(&[0u8; 20]);
    short.extend_from_slice(&zlib(b"tiny"));
    assert_eq!(parse_ovmap_bytes(&short, "t").err(), Some(OvmapError::DecompressedTooShort));
}

#[test]
fn test_convert_placeholders() {
    let host = "webrd0{$serverpart}.is.autonavi.com";
    let path = "/appmaptile?x={$x}&y={$y}&z={$z}";
    assert_eq!(convert_placeholders(host), "webrd0{s}.is.autonavi.com");
    assert_eq!(convert_placeholders(path), "/appmaptile?x={x}&y={y}&z={z}");
}

#[test]
fn basic_xyz_path() {
    let tmpl = tile_url_to_template("https://tile.example.com/15/12345/6789.png").unwrap();
    assert_eq!(tmpl, "https://tile.example.com/{z}/{x}/{y}.png");
}

#[test]
fn with_path_prefix() {
    let tmpl = tile_url_to_template("https://t0.example.com/maps/layer/14/8192/4096.png").unwrap();
    assert_eq!(tmpl, "https://t0.example.com/maps/layer/{z}/{x}/{y}.png");
}

#[test]
fn no_extension() {
    let tmpl = tile_url_to_template("https://tile.example.com/10/512/256").unwrap();
    assert_eq!(tmpl, "https://tile.example.com/{z}/{x}/{y}");
}

#[test]
fn z_too_large_skipped() {
    assert!(tile_url_to_template("https://example.com/100/200/300.png").is_none());
}

#[test]
fn query_param_tianditu() {
    let url = "https://t6.tianditu.gov.cn/DataServer?T=img_w&x=849&y=419&l=10&tk=abc123";
    let tmpl = tile_url_to_template(url).unwrap();
    assert_eq!(tmpl, "https://t6.tianditu.gov.cn/DataServer?T=img_w&x={x}&y={y}&l={z}&tk=abc123");
}

#[test]
fn query_param_xyz() {
    let url = "https://tile.example.com/service?z=8&x=120&y=60";
    let tmpl = tile_url_to_template(url).unwrap();
    assert_eq!(tmpl, "https://tile.example.com/service?z={z}&x={x}&y={y}");
}

#[test]
fn test_parse_tms_url() {
    let src = parse_tms_url("https://tile.openstreetmap.org/{z}/{x}/{y}.png", Some("OSM")).unwrap();
    assert_eq!(src.name, "OSM");
    assert_eq!(src.format, "png");
}

#[test]
fn tms_url_details_and_errors() {
    let src = parse_tms_url("  https://{s}.tiles.example/_c/{z}/{x}/{y}.jpg ", None).unwrap();
    assert_eq!(src.url_template, "https://{s}.tiles.example/_c/{z}/{x}/{y}.jpg");
    assert_eq!(src.name, "{s}.tiles.example");
    assert_eq!(src.subdomains, vec!["a", "b", "c"]);
    assert_eq!(src.crs, CrsType::Wgs84);
    assert_eq!(src.format, "jpg");
    assert_eq!(src.kind, SourceKind::Tms);
    assert_eq!(parse_tms_url("   ", None).err(), Some(WmtsError::EmptyUrl));
    assert_eq!(parse_tms_url("https://x.example/WMTS/service", None).err(), Some(WmtsError::LooksLikeWmts));
    let plain = parse_tms_url("https://x.example/tiles", Some("")).unwrap();
    assert_eq!(plain.name, "x.example");
}

#[test]
fn test_normalize_wmts_url() {
    let url = "https://example.com/wmts/{Layer}/{TileMatrix}/{TileRow}/{TileCol}";
    let normalized = normalize_wmts_url(url);
    assert!(normalized.contains("{z}"));
    assert!(normalized.contains("{y}"));
    assert!(normalized.contains("{x}"));
    assert_eq!(normalized, "https://example.com/wmts/{Layer}/{z}/{y}/{x}");
}

#[test]
fn wmts_small_rules() {
    assert_eq!(detect_url_format("image/webp"), "webp");
    assert_eq!(detect_url_format("https://a/terrain/1"), "terrain");
    assert_eq!(extract_subdomains("https://a/{z}"), Vec::<String>::new());
    assert_eq!(extract_name_from_url("no scheme here"), "自定义图层");
    assert_eq!(extract_name_from_url("https://host.example"), "host.example");
}

const CAPS: &str = r#"<?xml version="1.0"?>
<Capabilities xmlns:ows="http://www.opengis.net/ows/1.1">
  <Contents>
    <Layer>
      <ows:Title>Imagery</ows:Title>
      <ows:Identifier>img</ows:Identifier>
      <Format>image/jpeg</Format>
      <TileMatrixSetLink><TileMatrixSet>EPSG:4326</TileMatrixSet></TileMatrixSetLink>
    </Layer>
    <Layer>
      <ows:Identifier>vec</ows:Identifier>
      <ResourceURL format="image/png" resourceType="tile" template="https://t.example/{TileMatrix}/{TileRow}/{TileCol}.png"></ResourceURL>
    </Layer>
    <Layer>
      <ows:Title>no identifier</ows:Title>
    </Layer>
    <TileMatrixSet><ows:Identifier>EPSG:4326</ows:Identifier></TileMatrixSet>
  </Contents>
</Capabilities>"#;

#[test]
fn wmts_capabilities_layers() {
    let layers = parse_wmts_capabilities(CAPS).unwrap();
    assert_eq!(layers.len(), 2);
    assert_eq!(layers[0].identifier, "img");
    assert_eq!(layers[0].title, "Imagery");
    assert_eq!(layers[0].formats, vec!["image/jpeg"]);
    assert_eq!(layers[0].tile_matrix_sets, vec!["EPSG:4326"]);
    assert_eq!(layers[1].identifier, "vec");
    assert_eq!(layers[1].resource_url.as_deref(), Some("https://t.example/{z}/{y}/{x}.png"));

    let s0 = wmts_layer_to_source(&layers[0], "https://svc.example/wmts?request=GetCapabilities").unwrap();
    assert_eq!(s0.kind, SourceKind::Wmts);
    assert_eq!(s0.name, "Imagery");
    assert_eq!(s0.crs, CrsType::Wgs84);
    assert_eq!(s0.format, "jpg");
    assert!(matches!(s0.bounds, BoundsSpec::Zero));
    assert_eq!(
        s0.url_template,
        "https://svc.example/wmts?SERVICE=WMTS&REQUEST=GetTile&VERSION=1.0.0&LAYER=img&STYLE=default&TILEMATRIXSET=EPSG:4326&FORMAT=image/jpeg&TILEMATRIX={z}&TILEROW={y}&TILECOL={x}"
    );
    let s1 = wmts_layer_to_source(&layers[1], "https://svc.example/wmts").unwrap();
    assert_eq!(s1.name, "vec");
    assert_eq!(s1.url_template, "https://t.example/{z}/{y}/{x}.png");
    assert_eq!(s1.crs, CrsType::WebMercator);
    assert_eq!(s1.format, "png");
    assert_eq!(
        build_wmts_kvp_url("https://a/wmts", "L", &layers[1]),
        "https://a/wmts?SERVICE=WMTS&REQUEST=GetTile&VERSION=1.0.0&LAYER=L&STYLE=default&TILEMATRIXSET=GoogleMapsCompatible&FORMAT=image/png&TILEMATRIX={z}&TILEROW={y}&TILECOL={x}"
    );
    assert_eq!(parse_wmts_capabilities("<a><b></a>").err(), Some(WmtsError::Xml));
}

#[test]
fn capabilities_to_sources() {
    let sources = tilegrabber::wmts::capabilities_sources(CAPS, "https://svc.example/wmts?request=GetCapabilities").unwrap();
    assert_eq!(sources.len(), 2);
    assert_eq!(sources[1].url_template, "https://t.example/{z}/{y}/{x}.png");
    let empty = "<Capabilities><Contents></Contents></Capabilities>";
    assert_eq!(tilegrabber::wmts::capabilities_sources(empty, "u").err(), Some(WmtsError::NoLayers));
}

#[test]
fn capture_session_keeps_one_source_per_template() {
    let mut captured = Vec::new();
    assert!(record_capture(&mut captured, "  https://a.example.com/tiles/5/10/12.png\n"));
    assert_eq!(captured.len(), 1);
    assert_eq!(captured[0].url_template, "https://a.example.com/tiles/{z}/{x}/{y}.png");
    // the same template from another tile is not added again
    assert!(!record_capture(&mut captured, "https://a.example.com/tiles/6/20/25.png"));
    assert_eq!(captured.len(), 1);
    // a report that is no tile URL changes nothing
    assert!(!record_capture(&mut captured, "hello"));
    assert_eq!(captured.len(), 1);
    assert!(record_capture(&mut captured, "https://b.example.com/7/100/50.jpg"));
    assert_eq!(captured.len(), 2);
    assert_eq!(captured[1].url_template, "https://b.example.com/{z}/{x}/{y}.jpg");
}

#[test]
fn lrc_self_closing_range_reads_its_attributes_only() {
    let xml = "<DataDefine><Range West='100' East='110' South='20' North='30'/><NetPath>http://a.com/%d/%d/%d.png</NetPath></DataDefine>";
    let s = parse_lrc_xml(xml, "t").unwrap();
    assert_eq!(s.url_template, "http://a.com/{x}/{y}/{z}.png");
    match s.bounds {
        BoundsSpec::FromText(r) => {
            assert_eq!(r.west, vec!["100".to_string()]);
            assert_eq!(r.east, vec!["110".to_string()]);
            assert_eq!(r.south, vec!["20".to_string()]);
            assert_eq!(r.north, vec!["30".to_string()]);
        }
        _ => panic!("bounds from text expected"),
    }
    // an empty header list does not swallow the fields after it
    let xml = "<DataDefine><HttpHeaders/><NetPath>http://b/{z}/{x}/{y}</NetPath></DataDefine>";
    let s = parse_lrc_xml(xml, "t").unwrap();
    assert_eq!(s.url_template, "http://b/{z}/{x}/{y}");
    assert!(s.headers.is_empty());
}

#[test]
fn wmts_self_closing_resource_url() {
    let xml = "<Capabilities><Contents><Layer><ows:Identifier>L1</ows:Identifier><ResourceURL format='image/png' resourceType='tile' template='http://a/{TileMatrix}/{TileRow}/{TileCol}.png'/></Layer></Contents></Capabilities>";
    let v = parse_wmts_capabilities(xml).unwrap();
    assert_eq!(v.len(), 1);
    assert_eq!(v[0].identifier, "L1");
    assert_eq!(v[0].resource_url.as_deref(), Some("http://a/{z}/{y}/{x}.png"));
}

fn chars(s: &str) -> Vec<char> {
    s.chars().collect()
}

#[test]
fn script_cuts_are_byte_offsets() {
    // ASCII before the quote: the literal is what lies between the quotes
    assert_eq!(extract_first_string_literal(&chars("{\"v\"}")), Some(chars("v")));
    // the quote's character position plus one, taken as a byte offset,
    // lands on the quote itself after the two-byte `é`
    assert_eq!(extract_first_string_literal(&chars("{é, \"v\"}")), Some(vec![]));
    // a cut that falls inside a character is not taken
    assert!(!script_is_supported(&chars("function f(x, y, z)\né=\"http://a/\"\nreturn é\nend")));
    assert!(script_is_supported(&chars("function f(x, y, z)\nlocal ab = \"http://a/\"\nreturn ab\nend")));
}
