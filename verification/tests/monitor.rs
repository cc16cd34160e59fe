use tilegrabber::download_plan::CtrlSignal;
use tilegrabber::engine_registry::EngineRegistry;
use tilegrabber::task_status::{TaskStatus, UnknownStatus};
use tilegrabber::network_monitor::{auto_resume_enabled, startup_resumes, NetworkAction, NetworkMonitor};
use tilegrabber::remote::client_ip;
use tilegrabber::task_checks::restart_concurrency_setting;

fn ids(v: &[&str]) -> Vec<String> {
    v.iter().map(|s| s.to_string()).collect()
}

#[test]
fn outage_pauses_and_resumes_only_its_tasks() {
    let mut m = NetworkMonitor::new();
    assert_eq!(m.on_probe(true, &ids(&["a"])), NetworkAction::Stay);
    // one failed probe is tolerated
    assert_eq!(m.on_probe(false, &ids(&["a", "b"])), NetworkAction::Stay);
    assert_eq!(m.on_probe(false, &ids(&["a", "b"])), NetworkAction::WentOffline);
    assert_eq!(m.paused, ids(&["a", "b"]));
    // still offline: nothing more
    assert_eq!(m.on_probe(false, &ids(&["c"])), NetworkAction::Stay);
    assert_eq!(m.on_probe(true, &ids(&[])), NetworkAction::BackOnline(ids(&["a", "b"])));
    assert!(m.paused.is_empty());
    assert_eq!(m.consecutive_failures, 0);
}

#[test]
fn first_probe_counts_as_online() {
    let mut m = NetworkMonitor::new();
    // the first failure still counts as online, so the second one is an outage
    assert_eq!(m.on_probe(false, &ids(&["a"])), NetworkAction::Stay);
    assert_eq!(m.was_online, Some(true));
    assert_eq!(m.on_probe(false, &ids(&["a", "a"])), NetworkAction::WentOffline);
    assert_eq!(m.paused, ids(&["a"]));
}

#[test]
fn startup_resume_choices() {
    assert!(auto_resume_enabled(None));
    assert!(auto_resume_enabled(Some("true")));
    assert!(!auto_resume_enabled(Some("false")));
    let interrupted = vec![
        ("a".to_string(), Some("paused".to_string())),
        ("b".to_string(), Some("completed".to_string())),
        ("c".to_string(), None),
        ("d".to_string(), Some("paused".to_string())),
    ];
    assert_eq!(startup_resumes(true, &interrupted), ids(&["a", "d"]));
    assert!(startup_resumes(false, &interrupted).is_empty());
    assert_eq!(restart_concurrency_setting(None), 32);
    assert_eq!(restart_concurrency_setting(Some("100")), 100);
    assert_eq!(restart_concurrency_setting(Some("0")), 32);
}

#[test]
fn stream_client_addresses() {
    assert_eq!(client_ip(Some(" 10.1.2.3 , 172.16.0.1"), "127.0.0.1"), "10.1.2.3");
    assert_eq!(client_ip(Some("  ,1.1.1.1"), "192.168.0.9"), "192.168.0.9");
    assert_eq!(client_ip(None, "192.168.0.9"), "192.168.0.9");
    assert_eq!(client_ip(Some("8.8.8.8"), "x"), "8.8.8.8");
}

#[test]
fn status_from_str() {
    assert_eq!("completed_with_errors".parse::<TaskStatus>(), Ok(TaskStatus::CompletedWithErrors));
    assert_eq!("Paused".parse::<TaskStatus>(), Err(UnknownStatus));
    assert_eq!(TaskStatus::Cancelled.as_str().parse::<TaskStatus>(), Ok(TaskStatus::Cancelled));
}

#[test]
fn registry_start_pause_resume_finish() {
    let mut r = EngineRegistry::new();
    assert!(r.start("t1"));
    assert!(r.start("t2"));
    // a task already held is not started twice
    assert!(!r.start("t1"));
    assert!(r.is_active("t1"));
    assert_eq!(r.running_task_ids(), ids(&["t1", "t2"]));
    assert_eq!(r.active_download_count(), 2);
    r.send("t1", CtrlSignal::Pause);
    assert!(r.is_active("t1"));
    assert_eq!(r.running_task_ids(), ids(&["t2"]));
    assert_eq!(r.active_download_count(), 1);
    r.send("t1", CtrlSignal::Run);
    assert_eq!(r.running_task_ids(), ids(&["t1", "t2"]));
    r.send("t2", CtrlSignal::Cancel);
    assert_eq!(r.running_task_ids(), ids(&["t1"]));
    r.finish("t2");
    assert!(!r.is_active("t2"));
    // a signal to a task not held changes nothing
    r.send("t9", CtrlSignal::Run);
    assert!(!r.is_active("t9"));
    assert_eq!(r.active_download_count(), 1);
    r.finish("t1");
    assert!(r.running_task_ids().is_empty());
    assert_eq!(r.active_download_count(), 0);
}
