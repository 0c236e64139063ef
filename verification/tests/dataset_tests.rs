use tiandi::dataset::{
    bucket_distribution, check_scan_options, dhash_hex, is_image_ext, thumb_name, thumbnail_dims,
    within_decode_limits, BucketInfo, ScanError,
};
use tiandi::supervisor::{advance, event_run_id, event_visible, handle_event, Event, SupervisorAction};
use tiandi::state::RunState;

#[test]
fn parameter_bounds_are_validated() {
    assert!(check_scan_options(65, 1024).is_err());
    assert!(check_scan_options(5, 0).is_err());
    assert!(check_scan_options(5, 63).is_err());
    assert!(check_scan_options(5, 64).is_ok());
    assert_eq!(check_scan_options(65, 1024).unwrap_err().0, "hash_threshold 超出范围（0..=64）：65");
    assert_eq!(check_scan_options(5, 63).unwrap_err().0, "target_resolution 必须 ≥ 64（当前 63）");
    assert_eq!(ScanError::new("x").message(), "数据集扫描错误: x");
}

#[test]
fn thumbnail_resizes_keeping_aspect() {
    assert_eq!(thumbnail_dims(800, 400, 256), (256, 128));
    assert_eq!(thumbnail_dims(400, 800, 256), (128, 256));
    assert_eq!(thumbnail_dims(10000, 1, 256), (256, 1));
}

#[test]
fn bucket_labels_and_limits() {
    assert_eq!(BucketInfo { width: 1024, height: 768 }.label(), "1024x768");
    assert!(within_decode_limits(16384, 3906));
    assert!(!within_decode_limits(16385, 10));
    assert!(!within_decode_limits(16384, 16384));
    assert!(is_image_ext("PNG"));
    assert!(is_image_ext("jpeg"));
    assert!(!is_image_ext("txt"));
    assert!(!is_image_ext("jpgx"));
}

#[test]
fn hash_text_is_sixteen_lowercase_digits() {
    assert_eq!(dhash_hex(0), "0000000000000000");
    assert_eq!(dhash_hex(0xDEAD_BEEF), "00000000deadbeef");
    assert_eq!(dhash_hex(u64::MAX), "ffffffffffffffff");
    assert_eq!(thumb_name(0xABC), "0000000000000abc.jpg");
}

#[test]
fn bucket_distribution_by_count_then_label() {
    let labels: Vec<String> = ["b", "a", "c", "b", "a", "b", "d"].iter().map(|s| s.to_string()).collect();
    let d = bucket_distribution(&labels);
    let v: Vec<(&str, u64)> = d.iter().map(|(l, n)| (l.as_str(), *n)).collect();
    assert_eq!(v, vec![("b", 3), ("a", 2), ("c", 1), ("d", 1)]);
    assert!(bucket_distribution(&[]).is_empty());
}

fn ev_done(run: &str) -> Event {
    Event::Done { run_id: run.into(), code: 0 }
}

#[test]
fn supervisor_rules() {
    let hello = Event::Hello { run_id: "r1".into(), backend: "b".into(), version: "v".into() };
    assert_eq!(event_run_id(&hello), Some("r1"));
    assert!(event_visible("all", &hello));
    assert!(event_visible("r1", &hello));
    assert!(!event_visible("r2", &hello));
    assert_eq!(handle_event(RunState::Queued, &hello), SupervisorAction::Advance(RunState::Preparing));
    let log = Event::Log { run_id: "r1".into(), level: "info".into(), msg: "m".into() };
    assert_eq!(handle_event(RunState::Running, &log), SupervisorAction::AppendLog);
    assert_eq!(handle_event(RunState::Running, &ev_done("r1")), SupervisorAction::Finish);
    assert_eq!(handle_event(RunState::Canceled, &ev_done("r1")), SupervisorAction::Ignore);
    let fail = Event::Fail { run_id: "r1".into(), code: 1, tail: "OOM".into() };
    assert_eq!(handle_event(RunState::Preparing, &fail), SupervisorAction::Advance(RunState::Failed));
    assert_eq!(handle_event(RunState::Done, &fail), SupervisorAction::Ignore);
    let moved = Event::RunStateChanged { run_id: "r1".into(), from: RunState::Queued, to: RunState::Preparing };
    assert_eq!(handle_event(RunState::Preparing, &moved), SupervisorAction::Ignore);
}

#[test]
fn advance_fills_in_intermediate_states() {
    assert_eq!(advance(RunState::Queued, RunState::Running), vec![RunState::Preparing, RunState::Running]);
    assert_eq!(advance(RunState::Preparing, RunState::Preparing), Vec::<RunState>::new());
    // An ended run stays where it is.
    assert!(advance(RunState::Done, RunState::Preparing).is_empty());
    assert!(advance(RunState::Failed, RunState::Done).is_empty());
}
