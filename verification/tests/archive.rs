use tilegrabber::task_archive::{read_task_meta, task_meta_pairs, MetaError, MetaField, TaskMeta};

fn task() -> TaskMeta {
    TaskMeta {
        name: "城区".to_string(),
        source_config: r#"{"url_template":"u"}"#.to_string(),
        bounds_west: "116.1".to_string(),
        bounds_east: "116.5".to_string(),
        bounds_south: "39.7".to_string(),
        bounds_north: "40.1".to_string(),
        min_zoom: 3,
        max_zoom: 18,
        clip_to_bounds: true,
        polygon_wgs84: Some("[[116.1,39.7],[116.5,40.1]]".to_string()),
        total_tiles: 1234567,
        downloaded_tiles: 1200000,
        failed_tiles: -5,
    }
}

fn pairs(v: &[(&str, &str)]) -> Vec<(String, String)> {
    v.iter().map(|(k, v)| (k.to_string(), v.to_string())).collect()
}

#[test]
fn export_writes_the_task_metadata() {
    let p = task_meta_pairs(&task());
    assert_eq!(
        p,
        pairs(&[
            ("tgr.version", "2"),
            ("tgr.name", "城区"),
            ("tgr.source_config", r#"{"url_template":"u"}"#),
            ("tgr.bounds_west", "116.1"),
            ("tgr.bounds_east", "116.5"),
            ("tgr.bounds_south", "39.7"),
            ("tgr.bounds_north", "40.1"),
            ("tgr.min_zoom", "3"),
            ("tgr.max_zoom", "18"),
            ("tgr.clip_to_bounds", "1"),
            ("tgr.polygon_wgs84", "[[116.1,39.7],[116.5,40.1]]"),
            ("tgr.total_tiles", "1234567"),
            ("tgr.downloaded_tiles", "1200000"),
            ("tgr.failed_tiles", "-5"),
        ])
    );
}

#[test]
fn import_reads_back_what_export_wrote() {
    let t = task();
    assert_eq!(read_task_meta(&task_meta_pairs(&t)), Ok(t.clone()));
    let mut u = t.clone();
    u.clip_to_bounds = false;
    u.polygon_wgs84 = None;
    u.total_tiles = i64::MIN;
    u.min_zoom = 0;
    u.max_zoom = 255;
    assert_eq!(read_task_meta(&task_meta_pairs(&u)), Ok(u.clone()));
    // an empty polygon comes back as none
    let mut w = t.clone();
    w.polygon_wgs84 = Some(String::new());
    let mut expect = t.clone();
    expect.polygon_wgs84 = None;
    assert_eq!(read_task_meta(&task_meta_pairs(&w)), Ok(expect));
}

#[test]
fn import_refuses_incomplete_metadata() {
    let full = task_meta_pairs(&task());
    let without = |key: &str| -> Vec<(String, String)> { full.iter().filter(|(k, _)| k != key).cloned().collect() };
    assert_eq!(read_task_meta(&without("tgr.name")), Err(MetaError::Missing(MetaField::Name)));
    assert_eq!(read_task_meta(&without("tgr.bounds_south")), Err(MetaError::Missing(MetaField::BoundsSouth)));
    assert_eq!(read_task_meta(&without("tgr.max_zoom")), Err(MetaError::Missing(MetaField::MaxZoom)));
    assert_eq!(read_task_meta(&vec![]), Err(MetaError::Missing(MetaField::Name)));
    let mut bad = full.clone();
    bad.push(("tgr.min_zoom".to_string(), "256".to_string()));
    assert_eq!(read_task_meta(&bad), Err(MetaError::BadZoom(MetaField::MinZoom)));
    let mut bad = full.clone();
    bad.push(("tgr.max_zoom".to_string(), " 7".to_string()));
    assert_eq!(read_task_meta(&bad), Err(MetaError::BadZoom(MetaField::MaxZoom)));
    assert_eq!(MetaField::BoundsWest.key(), "tgr.bounds_west");
}

#[test]
fn import_defaults_counters_and_flags() {
    let m = read_task_meta(&pairs(&[
        ("tgr.name", "n"),
        ("tgr.source_config", "{}"),
        ("tgr.bounds_west", "0"),
        ("tgr.bounds_east", "1"),
        ("tgr.bounds_south", "0"),
        ("tgr.bounds_north", "1"),
        ("tgr.min_zoom", "+2"),
        ("tgr.max_zoom", "4"),
        ("tgr.clip_to_bounds", "true"),
        ("tgr.total_tiles", "many"),
        ("tgr.failed_tiles", "-3"),
    ]))
    .unwrap();
    assert_eq!(m.min_zoom, 2);
    assert!(!m.clip_to_bounds);
    assert_eq!(m.polygon_wgs84, None);
    assert_eq!(m.total_tiles, 0);
    assert_eq!(m.downloaded_tiles, 0);
    assert_eq!(m.failed_tiles, -3);
}
