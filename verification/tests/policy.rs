use tilegrabber::mvt_scan::{extract_layer_names, gzip_wrap, is_gzipped, maybe_gunzip};
use tilegrabber::remote::{ClientInfo, RemoteClients, RemoteConfig};
use tilegrabber::rules::DownloadRules;
use tilegrabber::server::{format_to_mime, update_stats, StatsTable};
use tilegrabber::settings::{default_setting, default_settings, merge_settings, setting_value};
use tilegrabber::task_status::TaskStatus;
use tilegrabber::throttle::{
    morton_code, random_accept_language, random_user_agent, sort_spatial_locality, AdaptiveThrottle,
};
use tilegrabber::tile_grid::TileCoord;
use tilegrabber::urls::{build_capabilities_url, extract_host, extract_origin, is_newer};

#[test]
fn throttle_steps_up_and_eases() {
    let mut t = AdaptiveThrottle::new();
    assert_eq!(t.extra_delay_ms(), 0);
    t.report_failure();
    t.report_failure();
    assert_eq!(t.extra_delay_ms(), 0);
    t.report_failure();
    assert_eq!(t.extra_delay_ms(), 50);
    for _ in 0..3 {
        t.report_failure();
    }
    assert_eq!(t.extra_delay_ms(), 200);
    for _ in 0..4 {
        t.report_failure();
    }
    assert_eq!(t.extra_delay_ms(), 1000);
    t.report_success();
    assert_eq!(t.extra_delay_ms(), 749);
    // every further success eases the delay by a quarter again
    t.report_success();
    assert_eq!(t.extra_delay_ms(), 561);
    let mut n = 0;
    while t.extra_delay_ms() > 0 {
        t.report_success();
        n += 1;
    }
    assert!(n < 30);
    t.report_failure();
    assert_eq!(t.extra_delay_ms(), 0);
    t.report_success();
    assert_eq!(t.extra_delay_ms(), 0);
}

#[test]
fn morton_interleaves_bits() {
    assert_eq!(morton_code(0, 0), 0);
    assert_eq!(morton_code(1, 0), 1);
    assert_eq!(morton_code(0, 1), 2);
    assert_eq!(morton_code(3, 5), 0b100111);
    assert_eq!(morton_code(u32::MAX, u32::MAX), u64::MAX);
    assert_eq!(morton_code(u32::MAX, 0), 0x5555_5555_5555_5555);
}

#[test]
fn spatial_order() {
    let mut tiles = vec![
        TileCoord { z: 3, x: 1, y: 1 },
        TileCoord { z: 2, x: 3, y: 3 },
        TileCoord { z: 3, x: 0, y: 0 },
        TileCoord { z: 3, x: 1, y: 0 },
        TileCoord { z: 2, x: 0, y: 1 },
    ];
    sort_spatial_locality(&mut tiles);
    assert_eq!(
        tiles,
        vec![
            TileCoord { z: 2, x: 0, y: 1 },
            TileCoord { z: 2, x: 3, y: 3 },
            TileCoord { z: 3, x: 0, y: 0 },
            TileCoord { z: 3, x: 1, y: 0 },
            TileCoord { z: 3, x: 1, y: 1 },
        ]
    );
}

#[test]
fn random_headers_come_from_the_pools() {
    for _ in 0..20 {
        assert!(random_user_agent().starts_with("Mozilla/5.0"));
        assert!(random_accept_language().contains("q=0."));
    }
}

#[test]
fn rules_from_settings_and_window() {
    let d = DownloadRules::default();
    assert_eq!((d.time_window_start, d.time_window_end), (22, 8));
    let r = DownloadRules::from_settings(Some("true"), Some("21"), None, Some("4"), Some("abc"));
    assert!(r.time_window_enabled);
    assert_eq!(r.time_window_start, 21);
    assert_eq!(r.time_window_end, 8);
    assert_eq!(r.max_tiles_per_sec, 4);
    assert_eq!(r.burst_pause_ms, 0);
    assert_eq!(r.per_tile_delay_ms(), 250);
    assert_eq!(r.batch_pause_ms(), None);
    assert!(r.allows_hour(23));
    assert!(r.allows_hour(3));
    assert!(!r.allows_hour(12));
    assert!(!r.allows_hour(8));
    let day = DownloadRules::from_settings(Some("true"), Some("8"), Some("22"), Some("300"), Some("120"));
    assert!(day.allows_hour(8) && !day.allows_hour(22));
    assert_eq!(day.max_tiles_per_sec, 300);
    assert_eq!(day.per_tile_delay_ms(), 3);
    assert_eq!(day.batch_pause_ms(), Some(120));
    let off = DownloadRules::from_settings(Some("yes"), Some("999"), Some("x"), None, None);
    assert!(!off.time_window_enabled);
    assert_eq!(off.time_window_start, 22);
    assert_eq!(off.per_tile_delay_ms(), 0);
    assert!(off.allows_hour(12));
    assert!(off.is_in_window());
}

#[test]
fn remote_registry() {
    let mut c = RemoteClients::new();
    assert_eq!(c.count(), 0);
    c.insert(ClientInfo { id: "a".into(), ip: "1.1.1.1".into(), connected_at: 1 });
    c.insert(ClientInfo { id: "b".into(), ip: "2.2.2.2".into(), connected_at: 2 });
    c.insert(ClientInfo { id: "a".into(), ip: "3.3.3.3".into(), connected_at: 3 });
    assert_eq!(c.count(), 2);
    let l = c.list();
    assert_eq!(l[0].ip, "3.3.3.3");
    assert_eq!(l[1].id, "b");
    c.remove("zzz");
    assert_eq!(c.count(), 2);
    c.remove("a");
    assert_eq!(c.count(), 1);
    assert_eq!(c.list()[0].id, "b");
    let cfg = RemoteConfig::default();
    assert!(!cfg.enabled && cfg.token.is_empty());
}

#[test]
fn settings_defaults_and_merge() {
    let d = default_settings();
    assert_eq!(d.len(), 16);
    assert_eq!(d[0], ("download.concurrency", "32"));
    assert_eq!(default_setting("server.default_port"), Some("8765"));
    assert_eq!(default_setting("nope"), None);
    assert_eq!(setting_value("rules.time_window_end", None).as_deref(), Some("8"));
    assert_eq!(setting_value("rules.time_window_end", Some("5".into())).as_deref(), Some("5"));
    assert_eq!(setting_value("unknown", None), None);
    let merged = merge_settings(&vec![("download.concurrency".to_string(), "8".to_string())]);
    assert_eq!(merged.len(), 17);
    assert_eq!(merged[16], ("download.concurrency".to_string(), "8".to_string()));
}

#[test]
fn task_status_names() {
    let all = [
        TaskStatus::Pending,
        TaskStatus::Downloading,
        TaskStatus::Paused,
        TaskStatus::Completed,
        TaskStatus::CompletedWithErrors,
        TaskStatus::Failed,
        TaskStatus::Cancelled,
    ];
    for s in all {
        assert_eq!(TaskStatus::parse(s.as_str()), Some(s));
    }
    assert_eq!(TaskStatus::CompletedWithErrors.as_str(), "completed_with_errors");
    assert_eq!(TaskStatus::parse("done"), None);
}

#[test]
fn server_stats_and_mime() {
    let mut t = StatsTable::new();
    update_stats(&mut t, "task1", "tms");
    update_stats(&mut t, "task1", "wmts");
    update_stats(&mut t, "task2", "other");
    t.record_request("task1", "tms", 42);
    assert_eq!(t.entries.len(), 2);
    assert_eq!(t.entries[0].1.tms_requests, 2);
    assert_eq!(t.entries[0].1.wmts_requests, 1);
    assert_eq!(t.entries[0].1.last_request_at, Some(42));
    assert_eq!(t.entries[1].1.tms_requests, 0);
    assert!(t.entries[1].1.last_request_at.is_some());
    assert_eq!(format_to_mime("PNG"), "image/png");
    assert_eq!(format_to_mime("jpeg"), "image/jpeg");
    assert_eq!(format_to_mime("mvt"), "application/x-protobuf");
    assert_eq!(format_to_mime("tiff"), "application/octet-stream");
}

#[test]
fn url_rules() {
    assert_eq!(extract_host("https://t{s}.example.com/a/b").as_deref(), Some("t{s}.example.com"));
    assert_eq!(extract_host("no-scheme"), None);
    assert_eq!(extract_origin("https://host.example/a/b?c"), "https://host.example");
    assert_eq!(extract_origin("relative/path"), "relative/path");
    assert_eq!(build_capabilities_url("https://a/wmts"), "https://a/wmts?SERVICE=WMTS&REQUEST=GetCapabilities&VERSION=1.0.0");
    assert_eq!(build_capabilities_url("https://a/wmts?k=1"), "https://a/wmts?k=1&SERVICE=WMTS&REQUEST=GetCapabilities&VERSION=1.0.0");
    assert_eq!(build_capabilities_url("https://a/wmts?Request=GetCapabilities"), "https://a/wmts?Request=GetCapabilities");
    assert!(is_newer("1.2.10", "1.2.9"));
    assert!(!is_newer("1.2", "1.2.0"));
    assert!(is_newer("2", "1.9.9"));
    assert!(is_newer("x.1", "0.0.1"));
    assert!(!is_newer("1.0.0", "1.0.0"));
}

#[test]
fn gzip_helpers() {
    let raw = b"\x1a\x05\x0a\x03abc".to_vec();
    assert!(!is_gzipped(&raw));
    let wrapped = gzip_wrap(&raw);
    assert!(is_gzipped(&wrapped));
    assert_eq!(gzip_wrap(&wrapped), wrapped);
    assert_eq!(maybe_gunzip(&wrapped), raw);
    assert_eq!(maybe_gunzip(&raw), raw);
    assert_eq!(extract_layer_names(&raw), vec!["abc"]);
}
