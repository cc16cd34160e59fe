use std::io::Write;
use tilegrabber::area_file::{
    area_format, area_rings, parse_geojson_parts, parse_kml_parts, parse_kmz_parts, AreaError, AreaFormat, AreaPart,
    PartPoints, PartRole,
};

/// Reads the coordinate texts as `f64`s and builds the area, with its
/// bounding box `[west, south, east, north]`.
fn area(parts: Vec<AreaPart>, missing: AreaError) -> Result<(Option<Vec<Vec<[f64; 2]>>>, [f64; 4]), AreaError> {
    let pts: Vec<PartPoints> = parts
        .iter()
        .map(|p| PartPoints {
            role: p.role,
            points: p
                .pairs
                .iter()
                .map(|(a, b)| Some((a.parse::<f64>().ok()?.to_bits(), b.parse::<f64>().ok()?.to_bits())))
                .collect(),
        })
        .collect();
    let r = area_rings(&pts, missing)?;
    let pt = |p: &(u64, u64)| [f64::from_bits(p.0), f64::from_bits(p.1)];
    let mut b = [f64::INFINITY, f64::INFINITY, f64::NEG_INFINITY, f64::NEG_INFINITY];
    for [x, y] in r.all.iter().map(pt) {
        if x < b[0] {
            b[0] = x;
        }
        if y < b[1] {
            b[1] = y;
        }
        if x > b[2] {
            b[2] = x;
        }
        if y > b[3] {
            b[3] = y;
        }
    }
    let polys: Vec<Vec<[f64; 2]>> = r.polygons.iter().map(|r| r.iter().map(pt).collect()).collect();
    Ok(((!polys.is_empty()).then_some(polys), b))
}

fn kml(text: &str) -> Result<(Option<Vec<Vec<[f64; 2]>>>, [f64; 4]), AreaError> {
    area(parse_kml_parts(text)?, AreaError::NoKmlCoordinates)
}

fn geojson(text: &str) -> Result<(Option<Vec<Vec<[f64; 2]>>>, [f64; 4]), AreaError> {
    area(parse_geojson_parts(text)?, AreaError::NoGeoJsonCoordinates)
}

#[test]
fn parses_all_kml_polygon_outer_rings() {
    let kml_text = r#"
        <kml xmlns="http://www.opengis.net/kml/2.2"><Document>
          <Placemark><Polygon><outerBoundaryIs><LinearRing><coordinates>
            10,10,0 11,10,0 11,11,0 10,10,0
          </coordinates></LinearRing></outerBoundaryIs></Polygon></Placemark>
          <Placemark><Polygon><outerBoundaryIs><LinearRing><coordinates>
            20,20,0 21,20,0 21,21,0 20,20,0
          </coordinates></LinearRing></outerBoundaryIs>
          <innerBoundaryIs><LinearRing><coordinates>
            20.2,20.2,0 20.3,20.2,0 20.3,20.3,0 20.2,20.2,0
          </coordinates></LinearRing></innerBoundaryIs></Polygon></Placemark>
        </Document></kml>
    "#;
    let (polygons, bounds) = kml(kml_text).expect("KML parses");
    let polygons = polygons.expect("polygons");
    assert_eq!(polygons.len(), 2);
    assert_eq!(polygons[0].len(), 3);
    assert_eq!(polygons[1].len(), 3);
    assert_eq!(bounds, [10.0, 10.0, 21.0, 21.0]);
}

#[test]
fn kml_parts_and_roles() {
    let parts = parse_kml_parts(
        "<kml><Polygon><outerBoundaryIs><LinearRing><COORDINATES> 1,2,0 3,4 bad 5 </COORDINATES></LinearRing></outerBoundaryIs>\
         <innerBoundaryIs><LinearRing><coordinates>7,8</coordinates></LinearRing></innerBoundaryIs></Polygon>\
         <LineString><coordinates>9,10</coordinates></LineString></kml>",
    )
    .unwrap();
    assert_eq!(parts.len(), 3);
    assert_eq!(parts[0].role, PartRole::Outer);
    assert_eq!(parts[0].pairs, vec![("1".to_string(), "2".to_string()), ("3".to_string(), "4".to_string())]);
    assert_eq!(parts[1].role, PartRole::Loose);
    assert_eq!(parts[2].role, PartRole::Loose);
    assert_eq!(parse_kml_parts("<kml><coordinates>"), Err(AreaError::Xml));
}

#[test]
fn kml_falls_back_on_its_first_ring() {
    // no polygon structure: the first ring that normalizes is the polygon
    let (polygons, bounds) =
        kml("<kml><Placemark><LineString><coordinates>0,0 1,0</coordinates></LineString></Placemark>\
             <Placemark><LinearRing><coordinates>0,0 2,0 2,2 0,2 0,0</coordinates></LinearRing></Placemark></kml>")
            .unwrap();
    assert_eq!(polygons, Some(vec![vec![[0.0, 0.0], [2.0, 0.0], [2.0, 2.0], [0.0, 2.0]]]));
    assert_eq!(bounds, [0.0, 0.0, 2.0, 2.0]);
    // only a short line: coordinates but no polygon
    let (polygons, _) = kml("<kml><coordinates>0,0 1,1</coordinates></kml>").unwrap();
    assert_eq!(polygons, None);
    assert_eq!(kml("<kml><coordinates>x,y</coordinates></kml>"), Err(AreaError::NoKmlCoordinates));
}

#[test]
fn ring_closing_point_and_nan() {
    let p = |v: f64| v.to_bits();
    let ring = |pts: &[(f64, f64)]| PartPoints { role: PartRole::Outer, points: pts.iter().map(|&(a, b)| Some((p(a), p(b)))).collect() };
    // 0.0 and -0.0 are equal, so the closing point goes
    let r = area_rings(&vec![ring(&[(0.0, 0.0), (1.0, 0.0), (1.0, 1.0), (-0.0, 0.0)])], AreaError::NoKmlCoordinates).unwrap();
    assert_eq!(r.polygons[0].len(), 3);
    // NaN never equals itself, so the closing point stays
    let r = area_rings(&vec![ring(&[(f64::NAN, 0.0), (1.0, 0.0), (1.0, 1.0), (f64::NAN, 0.0)])], AreaError::NoKmlCoordinates).unwrap();
    assert_eq!(r.polygons[0].len(), 4);
    assert_eq!(area_rings(&vec![], AreaError::NoGeoJsonCoordinates), Err(AreaError::NoGeoJsonCoordinates));
}

#[test]
fn geojson_type_walk() {
    let text = r#"{"type":"FeatureCollection","features":[
        {"type":"Feature","geometry":{"type":"Polygon","coordinates":[[[0,0],[4,0],[4,4],[0,0]],[[1,1],[2,1],[2,2],[1,1]]]}},
        {"type":"Feature","geometry":{"type":"MultiPolygon","coordinates":[[[[10,10],[11,10],[11,11]]],[[[20,20],[21,20]]]]}},
        {"type":"Feature","geometry":{"type":"GeometryCollection","geometries":[
            {"type":"Point","coordinates":[-5,-6]},
            {"type":"LineString","coordinates":[[30,31],[32,33]]},
            {"type":"MultiLineString","coordinates":[[[40,41]],[[42,43]]]}]}}
    ]}"#;
    let (polygons, bounds) = geojson(text).unwrap();
    let polygons = polygons.unwrap();
    // the polygon's outer ring without its closing point, the first
    // multi-polygon member; the second has only two points
    assert_eq!(polygons.len(), 2);
    assert_eq!(polygons[0], vec![[0.0, 0.0], [4.0, 0.0], [4.0, 4.0]]);
    assert_eq!(polygons[1], vec![[10.0, 10.0], [11.0, 10.0], [11.0, 11.0]]);
    // holes add no coordinates; points and lines do
    assert_eq!(bounds, [-5.0, -6.0, 42.0, 43.0]);
    assert_eq!(geojson(r#"{"type":"Point","coordinates":[1.5,2.5]}"#).unwrap(), (None, [1.5, 2.5, 1.5, 2.5]));
    assert_eq!(geojson(r#"{"type":"Polygon","coordinates":[]}"#), Err(AreaError::NoGeoJsonCoordinates));
    assert_eq!(parse_geojson_parts("{"), Err(AreaError::Json));
}

#[test]
fn kmz_reads_its_first_kml_entry() {
    let mut w = zip::ZipWriter::new(std::io::Cursor::new(Vec::new()));
    let opts = zip::write::SimpleFileOptions::default();
    w.start_file("readme.txt", opts).unwrap();
    w.write_all(b"hello").unwrap();
    w.start_file("doc.KML", opts).unwrap();
    w.write_all(b"<kml><Polygon><outerBoundaryIs><coordinates>0,0 1,0 1,1</coordinates></outerBoundaryIs></Polygon></kml>").unwrap();
    let bytes = w.finish().unwrap().into_inner();
    let parts = parse_kmz_parts(&bytes).unwrap();
    assert_eq!(parts.len(), 1);
    assert_eq!(parts[0].role, PartRole::Outer);
    let mut w = zip::ZipWriter::new(std::io::Cursor::new(Vec::new()));
    w.start_file("a.txt", opts).unwrap();
    w.write_all(b"x").unwrap();
    let bytes = w.finish().unwrap().into_inner();
    assert_eq!(parse_kmz_parts(&bytes), Err(AreaError::NoKml));
    assert_eq!(parse_kmz_parts(b"not a zip"), Err(AreaError::Zip));
}

#[test]
fn area_formats() {
    assert_eq!(area_format("kml"), Ok(AreaFormat::Kml));
    assert_eq!(area_format("KMZ"), Ok(AreaFormat::Kmz));
    assert_eq!(area_format("GeoJSON"), Ok(AreaFormat::GeoJson));
    assert_eq!(area_format("json"), Ok(AreaFormat::GeoJson));
    assert_eq!(area_format("shp"), Err(AreaError::UnsupportedFormat));
    assert_eq!(area_format(""), Err(AreaError::UnsupportedFormat));
}
