use leopardwm::update_check::{
    is_newer, latest_tag, newer_of, parse_latest_release_tag, run_check_once_with, worker_step,
    CheckOutcome, JsonOutline, Reconciliation, UpdateCheckWorker, UpdateSwitch, WorkerAction,
    WorkerPhase, RELEASES_API, RELEASES_PAGE_URL,
};

fn switch(enabled: bool, generation: u64) -> UpdateSwitch {
    UpdateSwitch {
        enabled,
        generation,
    }
}

#[test]
fn update_check_toggle_reconciles_running_worker() {
    let mut starts = 0;
    let mut worker = UpdateCheckWorker::new();
    assert!(!worker.reconcile(false, false).spawn);
    assert!(!worker.has_thread);

    if worker.reconcile(true, false).spawn {
        starts += 1;
        worker.started(true);
    }
    assert_eq!(starts, 1);
    assert!(worker.switch.enabled);
    let first_generation = worker.switch.generation;
    assert!(worker.accepts(first_generation));

    assert!(!worker.reconcile(true, false).spawn);
    assert!(!worker.reconcile(false, false).spawn);
    assert!(!worker.switch.enabled);
    assert!(!worker.accepts(first_generation));
    assert!(!worker.reconcile(true, false).spawn);
    assert!(worker.switch.enabled);
    assert!(!worker.accepts(first_generation));
    assert!(worker.accepts(worker.switch.generation));
    assert_eq!(starts, 1);

    assert!(worker.shutdown());
    assert!(!worker.switch.enabled);
    assert!(worker.cancel);
    assert!(!worker.has_thread);
}

#[test]
fn disabled_generation_cannot_notify_after_false_true_aba() {
    let before = switch(true, 1);
    let after = switch(true, 3);
    let outcome = run_check_once_with(before, Some("v999.0.0"), after, 1, "0.1.0");
    assert_eq!(outcome, CheckOutcome::Superseded);
}

#[test]
fn newer_basic() {
    assert!(is_newer("v0.1.11", "0.1.10"));
    assert!(is_newer("0.2.0", "v0.1.10"));
    assert!(is_newer("1.0.0", "0.99.99"));
}

#[test]
fn not_newer_when_same() {
    assert!(!is_newer("v0.1.10", "0.1.10"));
    assert!(!is_newer("0.1.10", "v0.1.10"));
}

#[test]
fn not_newer_when_older() {
    assert!(!is_newer("v0.1.9", "0.1.10"));
    assert!(!is_newer("0.0.1", "1.0.0"));
}

#[test]
fn fork_prereleases_are_not_superseded_by_upstream_finals() {
    assert!(!is_newer("v0.2.6-sehoon.24-rc3", "0.2.6-sehoon.24-rc3"));
    assert!(is_newer("v0.2.6-sehoon.25-rc1", "0.2.6-sehoon.24-rc3"));
    assert!(RELEASES_API.contains("sehoon123/LeopardWM"));
    assert!(RELEASES_PAGE_URL.contains("sehoon123/LeopardWM"));
}

#[test]
fn latest_tag_is_read_from_a_prerelease_listing() {
    let listing = r#"[{"tag_name":"v0.2.6-sehoon.24-rc3","prerelease":true}]"#;
    assert_eq!(
        parse_latest_release_tag(listing).as_deref(),
        Some("v0.2.6-sehoon.24-rc3")
    );
    let single = r#"{"tag_name":"v0.3.0"}"#;
    assert_eq!(parse_latest_release_tag(single).as_deref(), Some("v0.3.0"));
    assert_eq!(parse_latest_release_tag("[]"), None);
    assert_eq!(parse_latest_release_tag("not json"), None);
}

#[test]
fn fail_closed_on_unparseable() {
    assert!(!is_newer("garbage", "0.1.10"));
    assert!(!is_newer("v0.1.10", "not-a-version"));
    assert!(!is_newer("", ""));
}

#[test]
fn one_leading_v_is_taken_away() {
    assert!(is_newer("v0.2.0", "v0.1.0"));
    assert!(!is_newer("vv0.2.0", "0.1.0"));
    assert!(!is_newer("0.2.0", "vv0.1.0"));
    assert!(!is_newer("V0.2.0", "0.1.0"));
}

#[test]
fn being_newer_is_a_strict_order() {
    let releases = ["v1.0.0-rc.1", "1.0.0-rc.2", "v1.0.0", "1.0.1", "v2.0.0"];
    for (i, a) in releases.iter().enumerate() {
        for (j, b) in releases.iter().enumerate() {
            assert_eq!(is_newer(a, b), i > j, "{a} {b}");
        }
    }
}

#[test]
fn the_switch_admits_its_own_generation() {
    assert!(switch(true, 4).admits(4));
    assert!(!switch(true, 4).admits(5));
    assert!(!switch(false, 4).admits(4));
}

#[test]
fn a_prerelease_is_below_its_release() {
    assert!(is_newer("1.2.3", "1.2.3-rc1"));
    assert!(!is_newer("1.2.3-rc1", "1.2.3"));
    assert!(is_newer("2.0.0-rc1", "1.9.9"));
    assert!(newer_of(true, true, true));
    assert!(!newer_of(false, true, true));
    assert!(!newer_of(true, false, true));
    assert!(!newer_of(true, true, false));
}

#[test]
fn only_the_first_release_with_a_text_tag_counts() {
    let two = r#"[{"name":"x","tag_name":"v2"},{"tag_name":"v1"}]"#;
    assert_eq!(parse_latest_release_tag(two).as_deref(), Some("v2"));
    assert_eq!(parse_latest_release_tag(r#"[{"tag_name":7}]"#), None);
    assert_eq!(parse_latest_release_tag(r#"[{"name":"v1"}]"#), None);
    assert_eq!(parse_latest_release_tag(r#"["tag_name"]"#), None);
    assert_eq!(parse_latest_release_tag("3"), None);
    let members = vec![
        ("name".to_string(), Some("n".to_string())),
        ("tag_name".to_string(), Some("v9".to_string())),
    ];
    let list = JsonOutline::List(vec![members.clone(), vec![]]);
    assert_eq!(latest_tag(&list).as_deref(), Some("v9"));
    assert_eq!(
        latest_tag(&JsonOutline::Single(members)).as_deref(),
        Some("v9")
    );
    assert_eq!(latest_tag(&JsonOutline::List(vec![])), None);
    assert_eq!(latest_tag(&JsonOutline::Single(vec![])), None);
    assert_eq!(
        parse_latest_release_tag(r#"{"tag_name":"v3"}"#).as_deref(),
        Some("v3")
    );
}

#[test]
fn a_check_says_something_only_while_it_is_wanted() {
    let on = switch(true, 4);
    let check = |before, fetched, after| run_check_once_with(before, fetched, after, 4, "0.1.0");
    assert_eq!(check(switch(false, 4), Some("v9.0.0"), on), CheckOutcome::Superseded);
    assert_eq!(check(switch(true, 5), Some("v9.0.0"), on), CheckOutcome::Superseded);
    assert_eq!(check(on, None, on), CheckOutcome::Failed);
    assert_eq!(check(on, Some("v9.0.0"), switch(false, 4)), CheckOutcome::Superseded);
    assert_eq!(check(on, Some("v9.0.0"), on), CheckOutcome::UpdateFound);
    assert_eq!(check(on, Some("v0.1.0"), on), CheckOutcome::UpToDate);
}

#[test]
fn a_finished_thread_is_reaped_and_replaced() {
    let mut worker = UpdateCheckWorker::new();
    worker.reconcile(true, false);
    worker.started(true);
    let again = worker.reconcile(true, true);
    assert_eq!(
        again,
        Reconciliation {
            reap: true,
            spawn: true
        }
    );
    worker.started(false);
    let off = worker.reconcile(false, false);
    assert_eq!(
        off,
        Reconciliation {
            reap: false,
            spawn: false
        }
    );
    assert!(!worker.shutdown());
}

#[test]
fn the_worker_waits_checks_and_polls() {
    let on = switch(true, 2);
    let mut phase = WorkerPhase::Idle;
    let mut slept = 0;
    loop {
        let (next, action) = worker_step(phase, false, on);
        phase = next;
        match action {
            WorkerAction::SleepOneSecond => slept += 1,
            WorkerAction::Check(generation) => {
                assert_eq!(generation, 2);
                break;
            }
            WorkerAction::Continue => {}
            WorkerAction::Exit => unreachable!(),
        }
    }
    assert_eq!(slept, 30);
    assert_eq!(
        phase,
        WorkerPhase::Poll {
            generation: 2,
            left: 86_400
        }
    );
    // A toggle ends the pause; a worker that is off sleeps; a cancelled one ends.
    let (idle, action) = worker_step(phase, false, switch(true, 3));
    assert_eq!((idle, action), (WorkerPhase::Idle, WorkerAction::Continue));
    assert_eq!(
        worker_step(idle, false, switch(false, 3)).1,
        WorkerAction::SleepOneSecond
    );
    assert_eq!(worker_step(idle, true, on).1, WorkerAction::Exit);
    assert_eq!(worker_step(phase, true, on).0, WorkerPhase::Idle);
}

#[test]
fn looks_are_a_day_apart() {
    let on = switch(true, 1);
    let (mut phase, action) = worker_step(WorkerPhase::Check { generation: 1 }, false, on);
    assert_eq!(action, WorkerAction::Check(1));
    let mut slept = 0;
    loop {
        let (next, action) = worker_step(phase, false, on);
        phase = next;
        match action {
            WorkerAction::SleepOneSecond => slept += 1,
            WorkerAction::Check(_) => break,
            WorkerAction::Continue => {}
            WorkerAction::Exit => unreachable!(),
        }
    }
    assert_eq!(slept, 24 * 60 * 60);
}

/// Runs the worker until it looks for a release; the seconds that it slept, and the
/// generation that it looked under.
fn seconds_to_check(phase: &mut WorkerPhase, switch: UpdateSwitch) -> (u64, u64) {
    let mut slept = 0;
    loop {
        let (next, action) = worker_step(*phase, false, switch);
        *phase = next;
        match action {
            WorkerAction::SleepOneSecond => slept += 1,
            WorkerAction::Check(generation) => return (slept, generation),
            WorkerAction::Continue => {}
            WorkerAction::Exit => panic!("not cancelled"),
        }
    }
}

#[test]
fn checks_wait_for_delay_and_interval() {
    let mut phase = WorkerPhase::Idle;
    assert_eq!(seconds_to_check(&mut phase, switch(true, 4)), (30, 4));
    assert_eq!(seconds_to_check(&mut phase, switch(true, 4)), (86_400, 4));
    // A toggle during the interval starts the delay anew.
    for _ in 0..1000 {
        phase = worker_step(phase, false, switch(true, 4)).0;
    }
    assert_eq!(seconds_to_check(&mut phase, switch(true, 6)), (30, 6));
    // One during the delay does too.
    phase = WorkerPhase::Idle;
    for _ in 0..20 {
        phase = worker_step(phase, false, switch(true, 6)).0;
    }
    let (idle, action) = worker_step(phase, false, switch(false, 7));
    assert_eq!((idle, action), (WorkerPhase::Idle, WorkerAction::Continue));
    phase = idle;
    assert_eq!(seconds_to_check(&mut phase, switch(true, 8)), (30, 8));
}
