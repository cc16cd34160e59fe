use tilegrabber::updater::{
        download_progress, installer_file_name, is_https_url, platform_download_url, release_notes, update_check_result,
        update_failure, Platform,
    };
use tilegrabber::types::{source_file_kind, SourceFileKind};
use tilegrabber::urls::probe_url;
use tilegrabber::remote::{authorize, AuthDecision, RemoteConfig};
use tilegrabber::task_checks::{
    check_concurrent_limit, concurrency_setting, crs_from_name, disk_space_info, estimate_info, max_concurrent_setting,
    pending_tiles, validate_same_source, LimitReached, SourceMismatch,
};
use tilegrabber::tile_grid::TileCoord;
use tilegrabber::types::{CoordType, CrsType, TileSource};
use tilegrabber::worker::{backoff_secs, build_tile_url, has_referer, on_outcome, HttpOutcome, RetryAction};

fn source(template: &str) -> TileSource {
    let mut s = TileSource::default();
    s.url_template = template.to_string();
    s
}

#[test]
fn tile_urls() {
    let mut s = source("https://t{s}.example/{z}/{x}/{y}.png?tk={tk}");
    s.subdomains = vec!["0".into(), "1".into(), "2".into()];
    s.extra_params = vec![("tk".into(), "old".into()), ("tk".into(), "KEY".into())];
    let c = TileCoord { z: 3, x: 5, y: 2 };
    assert_eq!(build_tile_url(&s, c), "https://t1.example/3/5/2.png?tk=KEY");
    s.north_to_south = false;
    assert_eq!(build_tile_url(&s, c), "https://t1.example/3/5/5.png?tk=KEY");
    let mut single = source("http://a.com/{z}/{x}/{y}.png?tk={tk}");
    single.extra_params = vec![("tk".into(), "abc".into())];
    assert_eq!(build_tile_url(&single, TileCoord { z: 1, x: 0, y: 1 }), "http://a.com/1/0/1.png?tk=abc");
    let plain = source("https://a/{z}/{y}/{x}");
    assert_eq!(build_tile_url(&plain, TileCoord { z: 0, x: 0, y: 0 }), "https://a/0/0/0");
}

#[test]
fn retry_policy() {
    assert_eq!(backoff_secs(0), 0);
    assert_eq!(backoff_secs(1), 1);
    assert_eq!(backoff_secs(4), 8);
    assert_eq!(on_outcome(0, HttpOutcome::Status(200)), RetryAction::ReadBody);
    assert_eq!(on_outcome(2, HttpOutcome::Status(404)), RetryAction::Empty);
    assert_eq!(on_outcome(0, HttpOutcome::Status(403)), RetryAction::Fail);
    assert_eq!(on_outcome(1, HttpOutcome::Status(429)), RetryAction::Retry { wait_secs: 18, throttle: true });
    assert_eq!(on_outcome(2, HttpOutcome::Status(503)), RetryAction::Retry { wait_secs: 21, throttle: true });
    assert_eq!(on_outcome(0, HttpOutcome::Status(500)), RetryAction::Retry { wait_secs: 0, throttle: false });
    assert_eq!(on_outcome(4, HttpOutcome::Status(500)), RetryAction::Fail);
    assert_eq!(on_outcome(3, HttpOutcome::TransportError), RetryAction::Retry { wait_secs: 0, throttle: false });
    assert_eq!(on_outcome(4, HttpOutcome::TransportError), RetryAction::Fail);
    assert!(has_referer(&vec![("REFERER".to_string(), "x".to_string())]));
    assert!(!has_referer(&vec![("Referrer".to_string(), "x".to_string())]));
}

#[test]
fn task_checks() {
    assert_eq!(concurrency_setting(None), 32);
    assert_eq!(concurrency_setting(Some("0")), 32);
    assert_eq!(concurrency_setting(Some("100")), 64);
    assert_eq!(concurrency_setting(Some("8")), 8);
    assert_eq!(concurrency_setting(Some("eight")), 32);
    assert_eq!(max_concurrent_setting(Some("3")), 3);
    assert_eq!(max_concurrent_setting(Some("-1")), 0);
    assert_eq!(check_concurrent_limit(0, 99), Ok(()));
    assert_eq!(check_concurrent_limit(2, 1), Ok(()));
    assert_eq!(check_concurrent_limit(2, 2), Err(LimitReached { running: 2, max: 2 }));
    assert_eq!(pending_tiles(100, 60, 10), 30);
    assert_eq!(pending_tiles(10, 8, 5), 0);
    let d = disk_space_info(10, 307_200);
    assert_eq!(d.estimated_bytes, 307_200);
    assert!(d.sufficient);
    assert!(!disk_space_info(11, 307_200).sufficient);
    assert_eq!(estimate_info(2).estimated_bytes, 61_440);
    assert_eq!(crs_from_name("WGS84"), CrsType::Wgs84);
    assert_eq!(crs_from_name("EPSG:4326"), CrsType::Wgs84);
    assert_eq!(crs_from_name("WEB_MERCATOR"), CrsType::WebMercator);
}

#[test]
fn sharing_tiles() {
    let a = source("https://t{s}.host.example/a/{z}/{x}/{y}");
    let b = source("https://t{s}.host.example/b/{z}/{x}/{y}");
    assert_eq!(validate_same_source(&a, &b), Ok(()));
    let mut c = source("https://other.example/{z}/{x}/{y}");
    assert_eq!(validate_same_source(&a, &c), Err(SourceMismatch::Host));
    c.format = "jpg".into();
    assert_eq!(validate_same_source(&a, &c), Err(SourceMismatch::Format));
    c.coord_type = CoordType::Gcj02;
    assert_eq!(validate_same_source(&a, &c), Err(SourceMismatch::CoordType));
    c.crs = CrsType::Wgs84;
    assert_eq!(validate_same_source(&a, &c), Err(SourceMismatch::Crs));
}

#[test]
fn remote_auth() {
    let off = RemoteConfig::from_settings(Some("false"), Some("t".into()));
    assert_eq!(authorize(&off, Some("Bearer t")), AuthDecision::Disabled);
    let no_token = RemoteConfig::from_settings(Some("true"), None);
    assert_eq!(authorize(&no_token, Some("Bearer ")), AuthDecision::NoToken);
    let on = RemoteConfig::from_settings(Some("true"), Some("tg_secret".into()));
    assert_eq!(authorize(&on, Some("Bearer tg_secret")), AuthDecision::Allow);
    assert_eq!(authorize(&on, Some("tg_secret")), AuthDecision::BadToken);
    assert_eq!(authorize(&on, None), AuthDecision::BadToken);
}

#[test]
fn updater_rules() {
    let r = update_check_result("1.2.0".into(), "vv1.3.0", Some("https://r".into()), Some("notes"), Some("https://d".into()));
    assert_eq!(r.latest_version.as_deref(), Some("1.3.0"));
    assert!(r.has_update);
    assert_eq!(r.release_notes.as_deref(), Some("notes"));
    assert!(r.error.is_none());
    let same = update_check_result("1.3.0".into(), "v1.3.0", None, None, None);
    assert!(!same.has_update && same.release_notes.is_none());
    let f = update_failure("1.0.0".into(), "boom".into());
    assert!(!f.has_update && f.error.as_deref() == Some("boom"));
    let long = "a".repeat(600);
    let cut = release_notes(&long);
    assert_eq!(cut.chars().count(), 501);
    assert!(cut.ends_with('…'));
    assert_eq!(release_notes("short"), "short");
    let p = download_progress(50, 200);
    assert_eq!(p.percent, 25);
    assert_eq!(download_progress(300, 200).percent, 100);
    assert_eq!(download_progress(5, 0).percent, 0);
    assert_eq!(installer_file_name("https://x/y/setup.exe"), "setup.exe");
    assert_eq!(installer_file_name("https://x/y/"), "TileGrabber_update_installer");
    assert!(is_https_url("https://a"));
    assert!(!is_https_url("http://a"));
    assert_eq!(
        platform_download_url(Platform::MacIntel, None, Some("arm".into()), None, None).as_deref(),
        Some("arm")
    );
    assert_eq!(
        platform_download_url(Platform::MacIntel, None, Some("arm".into()), Some("x64".into()), None).as_deref(),
        Some("x64")
    );
    assert_eq!(platform_download_url(Platform::Other, Some("w".into()), None, None, None), None);
}

#[test]
fn probing_and_file_kinds() {
    assert_eq!(probe_url("https://t{s}.a/{z}/{x}/{y}").as_deref(), Some("https://ta.a/1/0/0"));
    assert_eq!(probe_url("ftp://a/{z}"), None);
    assert_eq!(source_file_kind("LRC"), Some(SourceFileKind::Lrc));
    assert_eq!(source_file_kind("ovmap"), Some(SourceFileKind::Ovmap));
    assert_eq!(source_file_kind("txt"), None);
}

