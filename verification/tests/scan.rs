use ferromon::scan::{
    DiskScanState, ScanError, ScanWorker, CHILD_FILE_CAP, MAX_DEPTH, MAX_RESULTS, TOTAL_FILE_CAP,
};

fn paths(names: &[&str]) -> Vec<String> {
    names.iter().map(|n| n.to_string()).collect()
}

/// Runs a whole scan over a listing held in memory: for each child the
/// lengths of its files, `None` where a length cannot be read.
fn run_scan(
    state: &mut DiskScanState,
    target: &str,
    exists: bool,
    listing: &[(&str, Vec<Option<u64>>)],
    now: u64,
) {
    if !state.start_scan(target.to_string(), now) {
        return;
    }
    let children: Vec<String> = listing.iter().map(|(name, _)| name.to_string()).collect();
    let outcome = match ScanWorker::open(target, exists, children) {
        Err(e) => Err(e),
        Ok(mut worker) => {
            let mut index = 0;
            while let Some(child) = worker.begin_child(state) {
                assert_eq!(child, listing[index].0);
                for len in &listing[index].1 {
                    if !worker.record_file(*len) {
                        break;
                    }
                }
                worker.end_child(state);
                assert!(state.results().len() <= 25);
                assert!(state.results().windows(2).all(|w| w[0].1 >= w[1].1));
                index += 1;
            }
            assert!(worker.is_done());
            Ok(())
        }
    };
    state.finish(outcome, now + 1);
}

fn entry(label: &str, bytes: u64) -> (String, u64) {
    (label.to_string(), bytes)
}

#[test]
fn constants_of_the_scan() {
    assert_eq!(MAX_RESULTS, 25);
    assert_eq!(MAX_DEPTH, 12);
    assert_eq!(CHILD_FILE_CAP, 50_000);
    assert_eq!(TOTAL_FILE_CAP, 300_000);
}

#[test]
fn new_state_is_idle_and_empty() {
    for state in [DiskScanState::new(), DiskScanState::default()] {
        assert!(!state.running());
        assert_eq!(*state.last_target(), None);
        assert_eq!(state.last_started_at(), None);
        assert_eq!(state.last_finished_at(), None);
        assert_eq!(state.progress(), "");
        assert!(state.results().is_empty());
        assert_eq!(*state.error(), None);
    }
}

#[test]
fn start_scan_marks_running_and_resets() {
    let mut state = DiskScanState::new();
    run_scan(&mut state, "/gone", false, &[], 10);
    assert!(state.error().is_some());
    assert!(state.start_scan("/var".to_string(), 100));
    assert!(state.running());
    assert_eq!(*state.last_target(), Some("/var".to_string()));
    assert_eq!(state.last_started_at(), Some(100));
    assert_eq!(state.last_finished_at(), None);
    assert_eq!(state.progress(), "");
    assert!(state.results().is_empty());
    assert_eq!(*state.error(), None);
}

#[test]
fn state_read_right_after_start_shows_running() {
    let mut state = DiskScanState::new();
    assert!(state.start_scan("/srv".to_string(), 5));
    let seen = state.read_state();
    assert!(seen.running());
    assert_eq!(*seen.last_target(), Some("/srv".to_string()));
    assert_eq!(seen.last_started_at(), Some(5));
}

#[test]
fn second_start_while_running_is_a_no_op() {
    let mut state = DiskScanState::new();
    assert!(state.start_scan("/var".to_string(), 1));
    let mut worker = ScanWorker::open("/var", true, paths(&["/var/a", "/var/b"])).ok().unwrap();
    assert_eq!(worker.begin_child(&mut state), Some("/var/a".to_string()));
    worker.record_file(Some(10));
    worker.end_child(&mut state);
    let before = state.read_state();

    assert!(!state.start_scan("/home".to_string(), 2));

    assert!(state.running());
    assert_eq!(state.last_target(), before.last_target());
    assert_eq!(*state.last_target(), Some("/var".to_string()));
    assert_eq!(state.last_started_at(), Some(1));
    assert_eq!(state.last_finished_at(), None);
    assert_eq!(state.progress(), before.progress());
    assert_eq!(state.results(), before.results());
    assert_eq!(*state.results(), vec![entry("/var/a", 10)]);
    assert_eq!(state.error(), before.error());
}

#[test]
fn a_scan_can_start_again_after_one_ended() {
    let mut state = DiskScanState::new();
    run_scan(&mut state, "/data", true, &[("/data/a", vec![Some(1)])], 1);
    assert!(!state.running());
    assert!(state.start_scan("/data".to_string(), 50));
    assert!(state.running());
    assert!(state.results().is_empty());
}

#[test]
fn missing_target_is_reported() {
    let mut state = DiskScanState::new();
    run_scan(&mut state, "/no/such/place", false, &[], 7);
    assert!(!state.running());
    assert_eq!(*state.error(), Some("Target does not exist: /no/such/place".to_string()));
    assert_eq!(state.last_finished_at(), Some(8));
    assert!(state.results().is_empty());
}

#[test]
fn missing_target_wins_over_children() {
    let opened = ScanWorker::open("/x", false, paths(&["/x/a"]));
    assert!(matches!(opened, Err(ScanError::TargetNotFound(ref p)) if p == "/x"));
}

#[test]
fn target_without_subdirectories_is_reported() {
    let mut state = DiskScanState::new();
    run_scan(&mut state, "/empty", true, &[], 3);
    assert!(!state.running());
    assert_eq!(*state.error(), Some("No child directories found to scan".to_string()));
    assert!(state.error().as_ref().unwrap().starts_with("No child directories found"));
    assert_eq!(state.last_finished_at(), Some(4));
}

#[test]
fn error_messages() {
    assert_eq!(ScanError::NoChildren.message(), "No child directories found to scan");
    assert_eq!(
        ScanError::TargetNotFound("/a b".to_string()).message(),
        "Target does not exist: /a b"
    );
}

#[test]
fn a_failed_scan_does_not_block_the_next() {
    let mut state = DiskScanState::new();
    run_scan(&mut state, "/empty", true, &[], 3);
    assert!(state.error().is_some());
    run_scan(&mut state, "/full", true, &[("/full/a", vec![Some(9)])], 10);
    assert_eq!(*state.error(), None);
    assert_eq!(*state.results(), vec![entry("/full/a", 9)]);
    assert!(!state.running());
}

#[test]
fn sizes_are_summed_per_child_and_sorted_descending() {
    let mut state = DiskScanState::new();
    run_scan(
        &mut state,
        "/t",
        true,
        &[
            ("/t/small", vec![Some(1), Some(2)]),
            ("/t/large", vec![Some(1000), None, Some(24)]),
            ("/t/empty", vec![]),
            ("/t/mid", vec![Some(500)]),
        ],
        0,
    );
    assert_eq!(
        *state.results(),
        vec![entry("/t/large", 1024), entry("/t/mid", 500), entry("/t/small", 3), entry("/t/empty", 0)]
    );
    assert_eq!(state.progress(), "4/4: /t/mid");
    assert_eq!(*state.error(), None);
    assert!(!state.running());
}

#[test]
fn equal_sizes_keep_the_order_in_which_they_were_measured() {
    let mut state = DiskScanState::new();
    run_scan(
        &mut state,
        "/t",
        true,
        &[
            ("/t/a", vec![Some(5)]),
            ("/t/b", vec![Some(7)]),
            ("/t/c", vec![Some(5)]),
            ("/t/d", vec![Some(7)]),
            ("/t/e", vec![Some(5)]),
        ],
        0,
    );
    assert_eq!(
        *state.results(),
        vec![entry("/t/b", 7), entry("/t/d", 7), entry("/t/a", 5), entry("/t/c", 5), entry("/t/e", 5)]
    );
}

#[test]
fn progress_names_the_child_and_its_number() {
    let mut state = DiskScanState::new();
    assert!(state.start_scan("/p".to_string(), 0));
    let names: Vec<String> = (0..12).map(|i| format!("/p/dir{i}")).collect();
    let mut worker = ScanWorker::open("/p", true, names.clone()).ok().unwrap();
    for (i, name) in names.iter().enumerate() {
        assert_eq!(worker.begin_child(&mut state).as_ref(), Some(name));
        assert_eq!(*state.progress(), format!("{}/{}: {}", i + 1, 12, name));
        worker.end_child(&mut state);
    }
    assert_eq!(worker.begin_child(&mut state), None);
    assert_eq!(state.progress(), "12/12: /p/dir11");
}

#[test]
fn results_are_published_after_each_child() {
    let mut state = DiskScanState::new();
    assert!(state.start_scan("/p".to_string(), 0));
    let mut worker = ScanWorker::open("/p", true, paths(&["/p/a", "/p/b", "/p/c"])).ok().unwrap();

    worker.begin_child(&mut state);
    worker.record_file(Some(5));
    assert!(state.results().is_empty());
    worker.end_child(&mut state);
    assert_eq!(*state.results(), vec![entry("/p/a", 5)]);
    assert!(state.running());

    worker.begin_child(&mut state);
    worker.record_file(Some(50));
    worker.end_child(&mut state);
    assert_eq!(*state.results(), vec![entry("/p/b", 50), entry("/p/a", 5)]);
    assert_eq!(worker.results(), state.results());

    worker.begin_child(&mut state);
    worker.record_file(Some(20));
    worker.end_child(&mut state);
    assert_eq!(*state.results(), vec![entry("/p/b", 50), entry("/p/c", 20), entry("/p/a", 5)]);
    assert!(worker.is_done());
}

#[test]
fn results_never_exceed_25_and_keep_the_largest() {
    let mut state = DiskScanState::new();
    let names: Vec<String> = (0..60).map(|i| format!("/big/d{i:02}")).collect();
    let listing: Vec<(&str, Vec<Option<u64>>)> = names
        .iter()
        .enumerate()
        .map(|(i, n)| (n.as_str(), vec![Some(((i * 37) % 60) as u64)]))
        .collect();
    run_scan(&mut state, "/big", true, &listing, 0);
    assert_eq!(state.results().len(), 25);
    let sizes: Vec<u64> = state.results().iter().map(|r| r.1).collect();
    let expected: Vec<u64> = (35..60).rev().collect();
    assert_eq!(sizes, expected);
    for (label, bytes) in state.results() {
        let i: usize = label[6..].parse().unwrap();
        assert_eq!(((i * 37) % 60) as u64, *bytes);
    }
}

#[test]
fn a_later_child_can_displace_an_earlier_one() {
    let mut state = DiskScanState::new();
    let names: Vec<String> = (0..26).map(|i| format!("/d/{i}")).collect();
    let mut listing: Vec<(&str, Vec<Option<u64>>)> =
        names.iter().take(25).map(|n| (n.as_str(), vec![Some(10)])).collect();
    listing.push((names[25].as_str(), vec![Some(11)]));
    run_scan(&mut state, "/d", true, &listing, 0);
    assert_eq!(state.results().len(), 25);
    assert_eq!(state.results()[0], entry("/d/25", 11));
    assert_eq!(state.results()[24], entry("/d/23", 10));
    assert!(!state.results().iter().any(|r| r.0 == "/d/24"));
}

#[test]
fn sizes_saturate() {
    let mut state = DiskScanState::new();
    run_scan(&mut state, "/s", true, &[("/s/a", vec![Some(u64::MAX), Some(5), Some(u64::MAX)])], 0);
    assert_eq!(*state.results(), vec![entry("/s/a", u64::MAX)]);
}

#[test]
fn a_child_stops_at_its_file_cap() {
    let mut state = DiskScanState::new();
    assert!(state.start_scan("/c".to_string(), 0));
    let mut worker = ScanWorker::open("/c", true, paths(&["/c/a", "/c/b"])).ok().unwrap();
    worker.begin_child(&mut state);
    for i in 0..49_999u64 {
        assert!(worker.record_file(Some(1)), "file {i}");
    }
    assert!(!worker.record_file(Some(1)));
    // What is reported after the cap is not counted.
    assert!(!worker.record_file(Some(1_000_000)));
    assert_eq!(worker.total_seen(), 50_000);
    worker.end_child(&mut state);
    assert_eq!(*state.results(), vec![entry("/c/a", 50_000)]);
    assert_eq!(state.progress(), "1/2: /c/a");
    assert!(!worker.is_done());
    assert_eq!(worker.begin_child(&mut state), Some("/c/b".to_string()));
    assert!(worker.record_file(None));
    assert_eq!(worker.total_seen(), 50_001);
}

#[test]
fn the_scan_stops_at_its_total_file_cap() {
    let mut state = DiskScanState::new();
    let names: Vec<String> = (0..8).map(|i| format!("/w/{i}")).collect();
    let listing: Vec<(&str, Vec<Option<u64>>)> =
        names.iter().map(|n| (n.as_str(), vec![Some(2); 60_000])).collect();
    run_scan(&mut state, "/w", true, &listing, 0);
    // Six children of 50,000 counted files each reach the cap of 300,000.
    assert_eq!(state.results().len(), 6);
    assert!(state.results().iter().all(|r| r.1 == 100_000));
    assert_eq!(state.progress(), "Reached scan cap (kept it lightweight).");
    assert_eq!(*state.error(), None);
    assert!(!state.running());
    assert_eq!(state.last_finished_at(), Some(1));
}

#[test]
fn the_worker_is_done_at_the_cap() {
    let mut state = DiskScanState::new();
    assert!(state.start_scan("/w".to_string(), 0));
    let names: Vec<String> = (0..8).map(|i| format!("/w/{i}")).collect();
    let mut worker = ScanWorker::open("/w", true, names).ok().unwrap();
    for _ in 0..6 {
        assert!(!worker.is_done());
        assert!(worker.begin_child(&mut state).is_some());
        while worker.record_file(None) {}
        worker.end_child(&mut state);
    }
    assert_eq!(worker.total_seen(), 300_000);
    assert!(worker.is_done());
    assert_eq!(worker.begin_child(&mut state), None);
    assert_eq!(state.progress(), "Reached scan cap (kept it lightweight).");
}

#[test]
fn calls_outside_a_walk_change_nothing() {
    let mut state = DiskScanState::new();
    assert!(state.start_scan("/o".to_string(), 0));
    let mut worker = ScanWorker::open("/o", true, paths(&["/o/a"])).ok().unwrap();
    assert!(!worker.record_file(Some(5)));
    worker.end_child(&mut state);
    assert!(state.results().is_empty());
    assert_eq!(worker.total_seen(), 0);
    assert_eq!(worker.begin_child(&mut state), Some("/o/a".to_string()));
    // A second begin during a walk is refused.
    assert_eq!(worker.begin_child(&mut state), None);
    assert!(worker.record_file(Some(5)));
    worker.end_child(&mut state);
    assert_eq!(*state.results(), vec![entry("/o/a", 5)]);
}

#[test]
fn finish_keeps_results_and_progress() {
    let mut state = DiskScanState::new();
    assert!(state.start_scan("/f".to_string(), 0));
    let mut worker = ScanWorker::open("/f", true, paths(&["/f/a"])).ok().unwrap();
    worker.begin_child(&mut state);
    worker.record_file(Some(3));
    worker.end_child(&mut state);
    state.finish(Ok(()), 77);
    assert!(!state.running());
    assert_eq!(state.last_finished_at(), Some(77));
    assert_eq!(*state.results(), vec![entry("/f/a", 3)]);
    assert_eq!(state.progress(), "1/1: /f/a");
    assert_eq!(*state.error(), None);
}

#[test]
fn read_state_is_a_copy() {
    let mut state = DiskScanState::new();
    run_scan(&mut state, "/t", true, &[("/t/a", vec![Some(4)]), ("/t/b", vec![Some(9)])], 20);
    let copy = state.read_state();
    assert_eq!(copy.running(), state.running());
    assert_eq!(copy.last_target(), state.last_target());
    assert_eq!(copy.last_started_at(), Some(20));
    assert_eq!(copy.last_finished_at(), Some(21));
    assert_eq!(copy.progress(), "2/2: /t/b");
    assert_eq!(*copy.results(), vec![entry("/t/b", 9), entry("/t/a", 4)]);
    assert_eq!(*copy.error(), None);
    // The copy does not follow the state.
    assert!(state.start_scan("/u".to_string(), 30));
    assert!(!copy.running());
    assert_eq!(copy.results().len(), 2);
}
