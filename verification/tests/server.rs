use tilegrabber::download_plan::{tally_batch, BatchTally, TileAttempt, TileProgress};
use tilegrabber::throttle::AdaptiveThrottle;
use tilegrabber::server::{
    remote_server_status, server_status, tile_matrix_limits, TileMatrixLimit, wms_image_size, wms_route, wms_srs_is_mercator, wms_tiles, wms_zoom,
    wmts_route, StatsTable, TooManyTiles, WmsParams, WmsRoute, WmtsParams, WmtsRoute,
};

fn wmts(request: Option<&str>, z: Option<&str>, row: Option<&str>, col: Option<&str>) -> WmtsParams {
    WmtsParams {
        request: request.map(String::from),
        tile_matrix: z.map(String::from),
        tile_row: row.map(String::from),
        tile_col: col.map(String::from),
        ..WmtsParams::default()
    }
}

#[test]
fn wmts_routing() {
    assert_eq!(wmts_route(&wmts(None, None, None, None)), WmtsRoute::Capabilities);
    assert_eq!(wmts_route(&wmts(Some("getmap"), None, None, None)), WmtsRoute::Capabilities);
    assert_eq!(
        wmts_route(&wmts(Some("GetTile"), Some("12"), Some("-3"), Some("+7"))),
        WmtsRoute::Tile { z: 12, row: -3, col: 7 }
    );
    assert_eq!(
        wmts_route(&wmts(Some("gettile"), Some("x"), None, Some("99999999999999999999"))),
        WmtsRoute::Tile { z: 0, row: 0, col: 0 }
    );
    assert_eq!(
        wmts_route(&wmts(Some("GETTILE"), Some("-9223372036854775808"), Some("-"), Some("-+1"))),
        WmtsRoute::Tile { z: i64::MIN, row: 0, col: 0 }
    );
    assert_eq!(wmts_route(&wmts(Some("DescribeLayer"), None, None, None)), WmtsRoute::Unsupported);
}

#[test]
fn wms_routing_and_size() {
    let mut p = WmsParams::default();
    assert_eq!(wms_route(&p), WmsRoute::Capabilities);
    p.request = Some("getMap".into());
    assert_eq!(wms_route(&p), WmsRoute::GetMap);
    p.request = Some("GetFeatureInfo".into());
    assert_eq!(wms_route(&p), WmsRoute::Unsupported);

    assert_eq!(wms_image_size(&p), (256, 256));
    p.width = Some("800".into());
    p.height = Some("100000".into());
    assert_eq!(wms_image_size(&p), (800, 4096));
    p.width = Some("-5".into());
    assert_eq!(wms_image_size(&p).0, 256);

    assert!(!wms_srs_is_mercator(&p));
    p.crs = Some("epsg:3857".into());
    assert!(wms_srs_is_mercator(&p));
    p.srs = Some("EPSG:4326".into());
    assert!(!wms_srs_is_mercator(&p));
}

#[test]
fn server_status_urls() {
    let s = server_status(true, 8080, Some("192.168.1.7"));
    assert_eq!(s.base_url, "http://localhost:8080");
    assert_eq!(s.lan_urls, vec!["http://192.168.1.7:8080"]);
    assert!(server_status(true, 8080, Some("127.0.0.1")).lan_urls.is_empty());
    assert!(server_status(false, 8080, Some("10.0.0.2")).lan_urls.is_empty());
    assert!(server_status(true, 80, None).lan_urls.is_empty());
    let r = remote_server_status(true, 9000, Some("10.0.0.2"));
    assert_eq!(r.lan_urls, vec!["http://10.0.0.2:9000"]);
    assert!(remote_server_status(true, 9000, Some("::1")).lan_urls.is_empty());
}

#[test]
fn stats_snapshot() {
    let mut t = StatsTable::new();
    t.record_request("a", "tms", 10);
    t.record_request("b", "wms", 11);
    t.record_request("a", "tms", 12);
    let snap = t.snapshot();
    assert_eq!(snap.len(), 2);
    assert_eq!(snap[0].task_id, "a");
    assert_eq!(snap[0].stats.tms_requests, 2);
    assert_eq!(snap[0].stats.last_request_at, Some(12));
    assert_eq!(snap[1].stats.wms_requests, 1);
}

#[test]
fn progress_counts() {
    let p = TileProgress::from_counts(10, 6, 1);
    assert_eq!(p.pending, 3);
    assert_eq!(p.remaining(), 4);
    assert_eq!(TileProgress::default().total, 0);
}

#[test]
fn batch_tally_and_throttle() {
    let mut t = AdaptiveThrottle::new();
    let attempts = vec![
        TileAttempt::Errored("timeout".into()),
        TileAttempt::Errored("404".into()),
        TileAttempt::Errored("cancelled".into()),
        TileAttempt::Errored("500".into()),
        TileAttempt::Lost,
    ];
    let r = tally_batch(&mut t, &attempts);
    assert_eq!(r, BatchTally { downloaded: 0, failed: 3, bytes: 0 });
    assert_eq!(t.extra_delay_ms(), 50);
    let r = tally_batch(&mut t, &vec![TileAttempt::Fetched(100), TileAttempt::Fetched(20)]);
    assert_eq!(r, BatchTally { downloaded: 2, failed: 0, bytes: 120 });
    // each success eases the delay by a quarter plus one: 50 -> 37 -> 27
    assert_eq!(t.extra_delay_ms(), 27);
}

#[test]
fn get_map_zoom_and_tiles() {
    assert_eq!(wms_zoom(12, 3, 18), 12);
    assert_eq!(wms_zoom(1, 3, 18), 3);
    assert_eq!(wms_zoom(25, 3, 18), 18);
    assert_eq!(wms_zoom(-4, 0, 18), 0);
    assert_eq!(wms_tiles(2, -1, 2, 3, 9), Ok(vec![(0, 3), (1, 3)]));
    assert_eq!(wms_tiles(1, 0, 2, 0, 2), Ok(vec![(0, 0), (1, 0), (0, 1), (1, 1)]));
    assert_eq!(wms_tiles(10, 0, 100, 0, 6), Err(TooManyTiles));
    assert_eq!(wms_tiles(10, 0, 100, 0, 5).map(|t| t.len()), Ok(500));
    assert_eq!(wms_tiles(3, 5, 2, 0, 8), Ok(vec![]));
}

#[test]
fn ogc_tile_matrix_limits() {
    let l = tile_matrix_limits(0, 2);
    assert_eq!(
        l,
        vec![
            TileMatrixLimit { zoom: 0, max_row: 0, max_col: 0 },
            TileMatrixLimit { zoom: 1, max_row: 1, max_col: 1 },
            TileMatrixLimit { zoom: 2, max_row: 3, max_col: 3 },
        ]
    );
    assert_eq!(tile_matrix_limits(18, 18)[0].max_row, 262_143);
    assert!(tile_matrix_limits(5, 4).is_empty());
}
