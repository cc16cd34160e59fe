use tilegrabber::clip_queue::ClipQueue;
use tilegrabber::download_plan::{
    after_batch, disk_too_full, final_status, is_vector_format, on_signal, on_signal_while_paused, plan_post_steps,
    plan_task, should_notify, CtrlSignal, LoopControl, PostSteps, TileProgress,
};
use tilegrabber::task_status::TaskStatus;
use tilegrabber::tile_grid::{count_from_ranges, enumerate_from_ranges, progress_zoom, TileCoord, ZoomRange};
use tilegrabber::settings::custom_tiles_dir;
use tilegrabber::types::CoordType;

#[test]
fn signals() {
    assert_eq!(on_signal(CtrlSignal::Run), LoopControl::Proceed);
    assert_eq!(on_signal(CtrlSignal::Pause), LoopControl::WaitForSignal);
    assert_eq!(on_signal(CtrlSignal::Cancel), LoopControl::Stop);
    assert_eq!(on_signal_while_paused(CtrlSignal::Run), Some(true));
    assert_eq!(on_signal_while_paused(CtrlSignal::Cancel), Some(false));
    assert_eq!(on_signal_while_paused(CtrlSignal::Pause), None);
}

#[test]
fn task_plans() {
    assert!(is_vector_format("PBF"));
    assert!(is_vector_format("mVt"));
    assert!(!is_vector_format("png"));
    assert!(!is_vector_format("pbf "));
    let p = plan_task(true, CoordType::Gcj02, "png", true);
    assert!(p.gcj02_composite && !p.streaming_clip && !p.enumerate_by_polygon && !p.vector);
    let q = plan_task(true, CoordType::Wgs84, "jpg", true);
    assert!(!q.gcj02_composite && q.streaming_clip && q.enumerate_by_polygon);
    let v = plan_task(true, CoordType::Gcj02, "mvt", true);
    assert!(v.vector && !v.gcj02_composite && !v.streaming_clip && v.enumerate_by_polygon);
    assert_eq!(plan_post_steps(p, true, false, false), PostSteps { composite: true, clip: true });
    assert_eq!(plan_post_steps(q, true, false, true), PostSteps { composite: false, clip: false });
    assert_eq!(plan_post_steps(p, true, true, false), PostSteps { composite: false, clip: false });
}

#[test]
fn batch_decisions() {
    let (n, a) = after_batch(15, 0, 10, 5);
    assert_eq!(n, 16);
    assert!(a.viewport_pause && !a.check_disk && !a.cooldown);
    let (n, a) = after_batch(49, 4, 16, 5);
    assert_eq!(n, 50);
    assert!(a.check_disk && a.cooldown && !a.viewport_pause);
    let (_, a) = after_batch(0, 4, 17, 5);
    assert!(!a.cooldown);
    let (_, a) = after_batch(0, 3, 3, 5);
    assert!(!a.cooldown);
    let (_, a) = after_batch(0, 8, 8, 0);
    assert!(!a.cooldown);
    let (n, _) = after_batch(u32::MAX, 0, 0, 0);
    assert_eq!(n, 0);
    assert!(disk_too_full(209_715_199));
    assert!(!disk_too_full(209_715_200));
}

#[test]
fn ending_state() {
    let done = TileProgress::from_counts(4, 4, 0);
    assert_eq!(done.pending, 0);
    assert_eq!(final_status(true, Some(done)), TaskStatus::Cancelled);
    assert_eq!(final_status(false, Some(done)), TaskStatus::Completed);
    let with_errors = TileProgress::from_counts(4, 1, 3);
    assert_eq!(with_errors.pending, 0);
    assert_eq!(final_status(false, Some(with_errors)), TaskStatus::CompletedWithErrors);
    let unfinished = TileProgress::from_counts(4, 2, 0);
    assert_eq!(unfinished.pending, 2);
    assert_eq!(unfinished.remaining(), 2);
    assert_eq!(final_status(false, Some(unfinished)), TaskStatus::Paused);
    assert_eq!(final_status(false, None), TaskStatus::Paused);
    assert!(should_notify(None, TaskStatus::Completed));
    assert!(!should_notify(Some("false"), TaskStatus::Completed));
    assert!(should_notify(Some("no"), TaskStatus::Failed));
    assert!(!should_notify(None, TaskStatus::Cancelled));
}

#[test]
fn counting_and_listing() {
    let ranges = vec![
        ZoomRange { zoom: 1, x_min: 0, x_max: 1, y_min: 0, y_max: 1 },
        ZoomRange { zoom: 2, x_min: 2, x_max: 3, y_min: 1, y_max: 1 },
    ];
    let c = count_from_ranges(&ranges);
    assert_eq!(c.total, 6);
    assert_eq!(c.per_zoom[0].count, 4);
    assert_eq!(c.per_zoom[1].x_range, (2, 3));
    let all = enumerate_from_ranges(&ranges, 100);
    assert_eq!(all.len(), 6);
    assert_eq!(all[1], TileCoord { z: 1, x: 1, y: 0 });
    assert_eq!(all[4], TileCoord { z: 2, x: 2, y: 1 });
    let first3 = enumerate_from_ranges(&ranges, 3);
    assert_eq!(first3, all[..3].to_vec());
    let inverted = vec![ZoomRange { zoom: 0, x_min: 3, x_max: 1, y_min: 0, y_max: 0 }];
    assert_eq!(count_from_ranges(&inverted).total, 1);
    assert!(enumerate_from_ranges(&inverted, 10).is_empty());
}

#[test]
fn clip_queue_batches() {
    let t = |i: u32| TileCoord { z: 10, x: i, y: i };
    let mut q = ClipQueue::new();
    let first: Vec<(TileCoord, bool)> = (0..300).map(|i| (t(i), i % 2 == 0)).collect();
    let b = q.receive(&first);
    assert!(b.is_empty());
    assert_eq!(q.pending.len(), 150);
    assert_eq!(q.total_boundary, 150);
    let second: Vec<(TileCoord, bool)> = (300..700).map(|i| (t(i), true)).collect();
    let b = q.receive(&second);
    assert_eq!(b.len(), 2);
    assert_eq!(b[0].len(), 256);
    assert_eq!(b[0][0], t(0));
    assert_eq!(b[0][149], t(298));
    assert_eq!(b[0][150], t(300));
    assert_eq!(b[1][0], t(406));
    assert_eq!(q.total_boundary, 550);
    let rest = q.finish();
    assert_eq!(rest.len(), 550 - 512);
    assert_eq!(rest[rest.len() - 1], t(699));
}

#[test]
fn progress_map_zoom() {
    let r = |zoom: u8, n: u32| ZoomRange { zoom, x_min: 0, x_max: n - 1, y_min: 0, y_max: n - 1 };
    assert_eq!(progress_zoom(3, &vec![r(3, 40), r(4, 50), r(5, 100)]), 3);
    assert_eq!(progress_zoom(3, &vec![r(3, 50), r(4, 44), r(5, 100)]), 4);
    assert_eq!(progress_zoom(3, &vec![r(3, 50), r(4, 60)]), 4);
    assert_eq!(progress_zoom(7, &vec![]), 7);
}

#[test]
fn tiles_dir_setting() {
    assert_eq!(custom_tiles_dir(Some("/data/tiles".into())), Some("/data/tiles".to_string()));
    assert_eq!(custom_tiles_dir(Some("   ".into())), None);
    assert_eq!(custom_tiles_dir(None), None);
}
