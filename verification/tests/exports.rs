use tilegrabber::export_jobs::ExportJob;
use tilegrabber::export_plan::{
    center_zoom, directory_plan, mbtiles_meta, import_final_status, import_progress_due, import_row, mbtiles_plan, mbtiles_row,
    pmtiles_plan, pmtiles_zoom_entries, reencode_plan, sample_layer_names, task_file_kind, tile_file_ext, vector_layers, ExportRefusal,
    ImportRowError, PmTileType, PngCompression, Reencode, TaskFileKind,
};
use tilegrabber::mvt_scan::gzip_wrap;
use tilegrabber::storage_report::{storage_stats, task_storage_row, OrphanFile};
use tilegrabber::task_checks::{
    after_reset, check_zoom_widening, failed_tile_coords, first_matching_source, source_config_matches, ZoomNarrowed, failed_zoom_stats, remote_concurrency_setting, AfterReset, FailedTileCoord,
    FailedZoomStat,
};
use tilegrabber::task_status::TaskStatus;
use tilegrabber::tile_grid::TileCoord;
use tilegrabber::types::CrsType;

/// A vector tile with one layer per name.
fn mvt(names: &[&str]) -> Vec<u8> {
    let mut out = Vec::new();
    for n in names {
        let mut layer = vec![0x0a, n.len() as u8];
        layer.extend_from_slice(n.as_bytes());
        out.push(0x1a);
        out.push(layer.len() as u8);
        out.extend_from_slice(&layer);
    }
    out
}

#[test]
fn mbtiles_plan_raster_and_vector() {
    let p = mbtiles_plan("JPG", true, None);
    assert!(!p.is_vector);
    assert_eq!(p.metadata_format, "jpg");
    assert_eq!(p.layer_type, "baselayer");
    assert!(p.need_clip);

    let p = mbtiles_plan("PBF", true, Some("1"));
    assert!(p.is_vector);
    assert_eq!(p.metadata_format, "pbf");
    assert_eq!(p.layer_type, "overlay");
    assert!(!p.need_clip);

    assert!(mbtiles_plan("png", true, Some("0")).need_clip);
    assert!(!mbtiles_plan("png", false, None).need_clip);
}

#[test]
fn mbtiles_rows_count_from_the_south() {
    assert_eq!(mbtiles_row(0, 0), 0);
    assert_eq!(mbtiles_row(1, 0), 1);
    assert_eq!(mbtiles_row(3, 2), 5);
    assert_eq!(mbtiles_row(10, 1023), 0);
    // applied twice it gives the row back
    assert_eq!(mbtiles_row(10, mbtiles_row(10, 17)), 17);
}

#[test]
fn pmtiles_plan_cases() {
    assert_eq!(pmtiles_plan(CrsType::Wgs84, "png", false, None), Err(ExportRefusal::NotWebMercator));
    let p = pmtiles_plan(CrsType::WebMercator, "JPEG", true, None).unwrap();
    assert_eq!(p.tile_type, PmTileType::Jpeg);
    assert!(!p.is_vector);
    assert!(p.need_clip);
    let p = pmtiles_plan(CrsType::WebMercator, "mvt", true, None).unwrap();
    assert_eq!(p.tile_type, PmTileType::Mvt);
    assert!(p.is_vector);
    assert!(!p.need_clip);
    let p = pmtiles_plan(CrsType::WebMercator, "tif", false, None).unwrap();
    assert_eq!(p.tile_type, PmTileType::Unknown);
}

#[test]
fn directory_extensions() {
    let p = directory_plan("JPEG", true, None);
    assert_eq!(p.ext, "jpg");
    assert!(p.need_clip);
    assert_eq!(tile_file_ext(&p, b"\x89PNG\r\n"), "png");
    assert_eq!(tile_file_ext(&p, b"\xff\xd8\xff"), "jpg");
    let p = directory_plan("webp", true, Some("1"));
    assert_eq!(p.ext, "webp");
    assert!(!p.need_clip);
    assert_eq!(tile_file_ext(&p, b"\x89PNG\r\n"), "webp");
    assert_eq!(directory_plan("tiff", false, None).ext, "png");
}

#[test]
fn center_zoom_is_the_midpoint() {
    assert_eq!(center_zoom(3, 18), 10);
    assert_eq!(center_zoom(0, 0), 0);
}

#[test]
fn reencode_choices() {
    let jpeg = [0xff, 0xd8, 0xff, 0xe0];
    let png = *b"\x89PNG";
    assert_eq!(reencode_plan(&jpeg, Some(0), Some(9)), Reencode::Jpeg(1));
    assert_eq!(reencode_plan(&jpeg, Some(180), None), Reencode::Jpeg(100));
    assert_eq!(reencode_plan(&jpeg, None, Some(5)), Reencode::Keep);
    assert_eq!(reencode_plan(&png, Some(80), Some(0)), Reencode::Png(PngCompression::Fast));
    assert_eq!(reencode_plan(&png, None, Some(5)), Reencode::Png(PngCompression::Default));
    assert_eq!(reencode_plan(&png, None, Some(200)), Reencode::Png(PngCompression::Best));
    assert_eq!(reencode_plan(b"RIFF", Some(80), Some(5)), Reencode::Keep);
}

#[test]
fn layer_names_from_samples() {
    let samples = vec![mvt(&["roads", "water"]), gzip_wrap(&mvt(&["water", "buildings"])), b"junk".to_vec()];
    assert_eq!(sample_layer_names(&samples), vec!["buildings", "roads", "water"]);
    assert!(sample_layer_names(&Vec::new()).is_empty());
}

#[test]
fn layer_sampling_stops_after_sixty_four_names() {
    let first: Vec<String> = (0..65).map(|i| format!("l{:03}", i)).collect();
    let refs: Vec<&str> = first.iter().map(|s| s.as_str()).collect();
    let samples = vec![mvt(&refs), mvt(&["zzz"])];
    let names = sample_layer_names(&samples);
    assert_eq!(names.len(), 65);
    assert!(!names.contains(&"zzz".to_string()));
}

#[test]
fn vector_layer_entries() {
    let none = vector_layers(&Vec::new(), 2, 14);
    assert_eq!(none.len(), 1);
    assert_eq!(none[0].id, "default");
    assert_eq!(
        none[0].description,
        "Vector layer (auto-generated placeholder; original style spec unavailable)"
    );
    assert_eq!((none[0].min_zoom, none[0].max_zoom), (2, 14));
    let some = vector_layers(&vec!["roads".to_string(), "water".to_string()], 0, 5);
    assert_eq!(some.len(), 2);
    assert_eq!(some[1].id, "water");
    assert_eq!(some[1].description, "");
}

#[test]
fn import_rows() {
    assert_eq!(import_row(2, 1, 0), Ok(TileCoord { z: 2, x: 1, y: 3 }));
    assert_eq!(import_row(0, 0, 0), Ok(TileCoord { z: 0, x: 0, y: 0 }));
    // a row beyond the grid wraps around
    assert_eq!(import_row(1, 0, 3), Ok(TileCoord { z: 1, x: 0, y: u32::MAX - 1 }));
    assert_eq!(import_row(300, 0, 0), Err(ImportRowError::ZoomOutOfRange));
    assert_eq!(import_row(-1, 0, 0), Err(ImportRowError::ZoomOutOfRange));
    assert_eq!(import_row(3, -1, 0), Err(ImportRowError::ColumnOutOfRange));
    assert_eq!(import_row(3, 1, -2), Err(ImportRowError::RowOutOfRange));
    assert_eq!(import_final_status(0), TaskStatus::Completed);
    assert_eq!(import_final_status(2), TaskStatus::CompletedWithErrors);
    assert!(import_progress_due(60, 40));
    assert!(!import_progress_due(60, 41));
}

#[test]
fn storage_rows() {
    let r = task_storage_row("t1".into(), "a".into(), Some("/x/t1.tiles".into()), 5, "paused".into(), Some(100));
    assert!(r.exists);
    assert_eq!(r.bytes, 100);
    assert!(!r.is_external);
    let r = task_storage_row("t2".into(), "b".into(), Some("/y/t2.tgr".into()), 0, "completed".into(), None);
    assert!(!r.exists);
    assert_eq!(r.bytes, 0);
    assert!(r.is_external);
    let r = task_storage_row("t3".into(), "c".into(), None, 0, "pending".into(), Some(7));
    assert!(!r.exists);
    assert_eq!(r.path, "");
    assert_eq!(r.bytes, 0);
}

#[test]
fn storage_report_sorted_largest_first() {
    let rows = vec![
        task_storage_row("a".into(), "a".into(), Some("/a.tiles".into()), 0, "paused".into(), Some(10)),
        task_storage_row("b".into(), "b".into(), Some("/b.tiles".into()), 0, "paused".into(), Some(30)),
        task_storage_row("c".into(), "c".into(), Some("/c.tiles".into()), 0, "paused".into(), Some(10)),
        task_storage_row("d".into(), "d".into(), None, 0, "paused".into(), None),
    ];
    let orphans = vec![
        OrphanFile { path: "/o1.tiles".into(), bytes: u64::MAX },
        OrphanFile { path: "/o2.tiles".into(), bytes: 5 },
    ];
    let s = storage_stats("/tiles".into(), rows, orphans, 1000, 5000);
    let ids: Vec<&str> = s.tasks.iter().map(|r| r.task_id.as_str()).collect();
    assert_eq!(ids, vec!["b", "a", "c", "d"]);
    assert_eq!(s.total_bytes, 50);
    assert_eq!(s.orphans[0].path, "/o1.tiles");
    assert_eq!(s.orphan_bytes, u64::MAX);
    assert_eq!((s.available_bytes, s.capacity_bytes), (1000, 5000));
    assert_eq!(s.tiles_dir, "/tiles");
}

#[test]
fn export_job_lifecycle() {
    let mut job = ExportJob::start("j".into(), "t".into(), "mbtiles".into(), "/out.mbtiles".into());
    assert_eq!(job.status, "running");
    job.record_progress(5, 10);
    assert_eq!((job.done, job.total), (5, 10));
    let end = job.finish_export(Ok(10));
    assert_eq!(end.status, "done");
    assert_eq!(end.done, 10);
    assert_eq!(job.done, 10);

    let mut job = ExportJob::start("j".into(), "t".into(), "pmtiles".into(), "/o".into());
    job.record_progress(3, 10);
    let end = job.finish_export(Err("__cancelled__".into()));
    assert_eq!(end.status, "cancelled");
    assert_eq!(end.error, None);
    assert_eq!(job.done, 3);

    let end = job.finish_export(Err("disk full".into()));
    assert_eq!(end.status, "error");
    assert_eq!(job.error.as_deref(), Some("disk full"));

    let mut imp = ExportJob::start("k".into(), "t".into(), "mbtiles_import".into(), "/t.tiles".into());
    imp.finish_import(Ok(42));
    assert_eq!((imp.status.as_str(), imp.done, imp.total), ("done", 42, 42));
    let mut imp = ExportJob::start("k".into(), "t".into(), "mbtiles_import".into(), "/t.tiles".into());
    imp.finish_import(Err("bad file".into()));
    assert_eq!(imp.status, "error");
    assert_eq!(imp.error.as_deref(), Some("bad file"));
}

#[test]
fn failed_tile_views() {
    assert_eq!(
        failed_zoom_stats(&vec![(3, 2), (5, 1)]),
        vec![FailedZoomStat { zoom: 3, count: 2 }, FailedZoomStat { zoom: 5, count: 1 }]
    );
    assert_eq!(failed_tile_coords(&vec![(1, 2)]), vec![FailedTileCoord { x: 1, y: 2 }]);
    assert_eq!(after_reset(0, true), AfterReset::Nothing);
    assert_eq!(after_reset(4, true), AfterReset::Resume);
    assert_eq!(after_reset(4, false), AfterReset::Start);
}

#[test]
fn remote_concurrency() {
    assert_eq!(remote_concurrency_setting(None), 32);
    assert_eq!(remote_concurrency_setting(Some("0")), 32);
    assert_eq!(remote_concurrency_setting(Some("x")), 32);
    assert_eq!(remote_concurrency_setting(Some("200")), 200);
}

#[test]
fn task_file_kinds() {
    assert_eq!(task_file_kind(*b"SQLi"), TaskFileKind::TileStore);
    assert_eq!(task_file_kind([0x50, 0x4b, 0x03, 0x04]), TaskFileKind::ZipArchive);
    assert_eq!(task_file_kind(*b"GIF8"), TaskFileKind::Unsupported);
}

#[test]
fn exported_rows_import_back() {
    for (z, y) in [(0u8, 0u32), (5, 17), (20, 1000), (31, 7)] {
        let row = mbtiles_row(z as i64, y as i64);
        assert_eq!(import_row(z as i32, 3, row as i32), Ok(TileCoord { z, x: 3, y }));
    }
}

fn pm_id(z: u8, x: u32, y: u32) -> u64 {
    pmtiles::TileId::from(pmtiles::TileCoord::new(z, x, y).unwrap()).value()
}

#[test]
fn pmtiles_entries_by_tile_id() {
    let rows = vec![(1, 1), (0, 0), (5, 0), (0, 1), (1, 0), (-1, 0)];
    let e = pmtiles_zoom_entries(1, &rows);
    assert_eq!(e.len(), 4);
    for w in e.windows(2) {
        assert!(w[0].2 < w[1].2);
    }
    for (x, y, id) in &e {
        assert_eq!(*id, pm_id(1, *x, *y));
    }
    assert!(e.iter().all(|t| t.2 >= 1));
    assert_eq!(pmtiles_zoom_entries(0, &vec![(0, 0), (1, 0)]), vec![(0, 0, 0)]);
}

#[test]
fn mbtiles_metadata_defaults() {
    let meta = vec![
        ("minzoom".to_string(), "3".to_string()),
        ("maxzoom".to_string(), "300".to_string()),
        ("name".to_string(), "Old".to_string()),
        ("name".to_string(), "City".to_string()),
    ];
    let m = mbtiles_meta(&meta, None);
    assert_eq!((m.min_zoom, m.max_zoom), (3, 18));
    assert_eq!(m.format, "png");
    assert_eq!(m.name, "City");
    let m = mbtiles_meta(&Vec::new(), Some("Mine".into()));
    assert_eq!((m.min_zoom, m.max_zoom, m.name.as_str()), (0, 18, "Mine"));
    assert_eq!(mbtiles_meta(&Vec::new(), None).name, "Imported MBTiles");
}

#[test]
fn stored_source_matching() {
    let cfg = r#"{"url_template":"https://t.example.com/{z}/{x}/{y}.png","coord_type":"GCJ02","kind":"xyz"}"#;
    assert!(source_config_matches(cfg, "https://t.example.com/{z}/{x}/{y}.png", "GCJ02", "xyz"));
    assert!(!source_config_matches(cfg, "https://t.example.com/{z}/{x}/{y}.png", "WGS84", "xyz"));
    assert!(!source_config_matches(cfg, "https://other/{z}/{x}/{y}.png", "GCJ02", "xyz"));
    // missing coordinate type counts as WGS84, missing kind as empty
    let bare = r#"{"url_template":"u"}"#;
    assert!(source_config_matches(bare, "u", "WGS84", ""));
    assert!(!source_config_matches(bare, "u", "GCJ02", ""));
    // a template that is not a string, or text that is not JSON, names nothing
    assert!(!source_config_matches(r#"{"url_template":3}"#, "3", "WGS84", ""));
    assert!(!source_config_matches("not json", "u", "WGS84", ""));
    let configs = vec![
        "not json".to_string(),
        r#"{"url_template":"v"}"#.to_string(),
        bare.to_string(),
        bare.to_string(),
    ];
    assert_eq!(first_matching_source(&configs, "u", "WGS84", ""), Some(2));
    assert_eq!(first_matching_source(&configs, "w", "WGS84", ""), None);
}

#[test]
fn geometry_update_only_widens_zooms() {
    assert_eq!(check_zoom_widening(5, 10, 3, 12), Ok(()));
    assert_eq!(check_zoom_widening(5, 10, 5, 10), Ok(()));
    assert_eq!(
        check_zoom_widening(5, 10, 6, 12),
        Err(ZoomNarrowed::MinRaised { current: 5, requested: 6 })
    );
    assert_eq!(
        check_zoom_widening(5, 10, 4, 9),
        Err(ZoomNarrowed::MaxLowered { current: 10, requested: 9 })
    );
    // the lowest zoom is checked first
    assert_eq!(
        check_zoom_widening(5, 10, 6, 9),
        Err(ZoomNarrowed::MinRaised { current: 5, requested: 6 })
    );
}

#[test]
fn pmtiles_ids_rise_with_zoom() {
    let mut last: Option<u64> = None;
    for z in 0u8..6 {
        let n = 1i64 << z;
        let mut rows = Vec::new();
        for x in 0..n {
            for y in 0..n {
                rows.push((x, y));
            }
        }
        let e = pmtiles_zoom_entries(z, &rows);
        assert_eq!(e.len() as i64, n * n);
        // sorted within the level, and every id past those of lower levels
        for w in e.windows(2) {
            assert!(w[0].2 < w[1].2);
        }
        if let Some(prev) = last {
            assert!(prev < e[0].2);
        }
        // the level's ids are exactly the run after the lower levels
        let base: u64 = (0..z).map(|i| 4u64.pow(i as u32)).sum();
        assert_eq!(e[0].2, base);
        assert_eq!(e[e.len() - 1].2, base + (n * n) as u64 - 1);
        last = Some(e[e.len() - 1].2);
    }
}
