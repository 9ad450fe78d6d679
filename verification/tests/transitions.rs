use leopardwm::config::{
    AnimationConfig, AppearanceConfig, BehaviorConfig, Config, TabCloseAction,
};
use leopardwm::geometry::Rect;
use leopardwm::ghosts::{
    partition_for_animation, transition_requires_compositor_safe_snap, SourceCrop,
    TransitionTarget, WindowRegionClip,
};
use leopardwm::state::{
    AppState, CrossfadeBarrier, ExitWindow, GhostEntry, LayoutTransition, MonitorInfo,
    MonitorWorkspaces, Visibility, WindowPlacement, Workspace,
};
use leopardwm::transitions::{
    apply_transition_interpolation, compositor_safe_snap_required, failed_parks,
    ghost_frame_barrier_timeout, reduce_motion_enabled, CancelError, FenceOutcome, ParkReport,
    TickOutcome,
};
use std::collections::{HashMap, HashSet};

fn test_config() -> Config {
    Config {
        appearance: AppearanceConfig {
            active_border: true,
            active_border_color: "4285F4".to_string(),
            active_border_position: "inside".to_string(),
            tab_strip_bg: "1F1F1F".to_string(),
            tab_strip_active_bg: "303030".to_string(),
            tab_strip_active_text: "FFFFFF".to_string(),
            tab_strip_inactive_text: "A0A0A0".to_string(),
            tab_strip_opacity: 255,
        },
        behavior: BehaviorConfig {
            compositor_safe_mode: true,
            swap_chain_ghost_animation: false,
            disable_snap_layouts: true,
            tab_close_action: TabCloseAction::CloseWindow,
        },
        animation: AnimationConfig {
            layout_duration_ms: 150,
            reduce_motion_on_battery: false,
        },
    }
}

fn test_monitors() -> Vec<MonitorInfo> {
    vec![MonitorInfo {
        id: 1,
        rect: Rect::new(0, 0, 1920, 1080),
        work_area: Rect::new(0, 0, 1920, 1040),
        is_primary: true,
        device_name: "DISPLAY1".to_string(),
    }]
}

fn two_monitors() -> Vec<MonitorInfo> {
    let mut monitors = test_monitors();
    monitors.push(MonitorInfo {
        id: 2,
        rect: Rect::new(1920, 0, 1920, 1080),
        work_area: Rect::new(1920, 0, 1920, 1040),
        is_primary: false,
        device_name: "DISPLAY2".to_string(),
    });
    monitors
}

fn fresh() -> AppState {
    AppState::new_with_config(test_config(), vec![], test_monitors())
}

fn placement(window_id: u64, rect: Rect) -> WindowPlacement {
    WindowPlacement {
        window_id,
        rect,
        visibility: Visibility::Visible,
        column_index: 0,
    }
}

fn transition(ghosted: &[u64], snap: bool) -> LayoutTransition {
    LayoutTransition {
        start_rects: HashMap::new(),
        exits: vec![],
        elapsed_ms: 0,
        duration_ms: 150,
        requires_compositor_safe_snap: snap,
        ghosted_wids: ghosted.iter().copied().collect(),
        exit_park_failures: 0,
    }
}

fn exit(window_id: u64) -> ExitWindow {
    ExitWindow {
        window_id,
        target: Rect::new(0, -1080, 800, 600),
        column_index: 0,
    }
}

fn park(window_id: u64, parked: bool, still_valid: bool) -> ParkReport {
    ParkReport {
        window_id,
        parked,
        still_valid,
    }
}

#[test]
fn compositor_safe_policy_preserves_position_only_animation() {
    assert!(compositor_safe_snap_required(true, true, true));
    assert!(!compositor_safe_snap_required(true, true, false));
    assert!(!compositor_safe_snap_required(true, false, true));
    assert!(!compositor_safe_snap_required(false, true, true));
}

#[test]
fn transition_policy_snaps_unprotected_resize_and_sensitive_position_changes() {
    let start = HashMap::from([(1, Rect::new(0, 0, 800, 600))]);
    let moved = HashMap::from([(
        1,
        TransitionTarget {
            rect: Rect::new(100, 0, 800, 600),
            monitor: 1,
        },
    )]);
    let resized = HashMap::from([(
        1,
        TransitionTarget {
            rect: Rect::new(100, 0, 900, 600),
            monitor: 1,
        },
    )]);

    assert!(!transition_requires_compositor_safe_snap(
        true,
        &start,
        &moved,
        &HashSet::new(),
        &HashSet::new(),
    ));
    assert!(transition_requires_compositor_safe_snap(
        true,
        &start,
        &moved,
        &HashSet::new(),
        &HashSet::from([1]),
    ));
    assert!(transition_requires_compositor_safe_snap(
        true,
        &start,
        &resized,
        &HashSet::new(),
        &HashSet::new(),
    ));
    assert!(!transition_requires_compositor_safe_snap(
        true,
        &start,
        &resized,
        &HashSet::from([1]),
        &HashSet::from([1]),
    ));
    assert!(!transition_requires_compositor_safe_snap(
        false,
        &start,
        &resized,
        &HashSet::new(),
        &HashSet::from([1]),
    ));
}

#[test]
fn reduce_motion_policy_honors_accessibility_and_battery_preference() {
    assert!(!reduce_motion_enabled(true, true, false));
    assert!(reduce_motion_enabled(true, true, true));
    assert!(!reduce_motion_enabled(true, false, true));
    assert!(reduce_motion_enabled(false, false, false));
    assert!(reduce_motion_enabled(false, true, false));
}

#[test]
fn test_app_state_new() {
    let state = AppState::new_with_config(test_config(), vec![], test_monitors());
    assert_eq!(state.workspaces.len(), 1);
    assert_eq!(state.focused_monitor, 1);
}

#[test]
fn test_app_state_startup_reduce_motion_matches_all_workspaces() {
    let state = AppState::new_with_config(test_config(), vec![], two_monitors());

    assert!(!state.reduce_motion);
    for group in &state.workspaces {
        for workspace in &group.workspaces {
            assert_eq!(workspace.reduce_motion, state.reduce_motion);
        }
    }
}

#[test]
fn test_settling_scroll_animations_lands_every_workspace() {
    let mut state = AppState::new_with_config(test_config(), vec![], two_monitors());
    state.paused = true;
    state.workspaces[0].workspaces[0].animating = true;
    state.workspaces[0].workspaces[0].scroll_target = 640;
    state.workspaces[0].workspaces[0].shown_offset = 100;
    assert!(state.is_animating());

    state.settle_scroll_animations();

    let workspace = &state.workspaces[0].workspaces[0];
    assert!(!workspace.animating);
    assert_eq!(
        workspace.scroll_offset, workspace.shown_offset,
        "landing means the offset is the animation target, not a mid-point"
    );
    assert_eq!(workspace.scroll_offset, 640);
    assert!(!state.is_animating());
}

#[test]
fn test_compositor_safe_mode_keeps_position_only_scroll_smooth() {
    let mut config = test_config();
    config.behavior.compositor_safe_mode = true;
    let mut state = AppState::new_with_config(config, vec![], test_monitors());
    state.paused = false;
    state.workspaces[0].workspaces[0].animating = true;

    state
        .last_placed_layout_rects
        .insert(100, Rect::new(10, 10, 1200, 900));

    assert!(!state.settle_animations_for_compositor_safety());
    assert!(state.is_animating());
    assert!(!state.post_animation_landing_pending);
    assert!(!state.last_placed_layout_rects.is_empty());
}

#[test]
fn test_compositor_safe_mode_snaps_unprotected_size_transition() {
    let mut config = test_config();
    config.behavior.compositor_safe_mode = true;
    let mut state = AppState::new_with_config(config, vec![], test_monitors());
    state.paused = false;
    state.layout_transition = Some(LayoutTransition {
        start_rects: HashMap::from([(100, Rect::new(0, 0, 800, 600))]),
        exits: vec![],
        elapsed_ms: 16,
        duration_ms: 150,
        requires_compositor_safe_snap: true,
        ghosted_wids: HashSet::new(),
        exit_park_failures: 0,
    });
    state
        .last_placed_layout_rects
        .insert(100, Rect::new(10, 10, 800, 600));

    assert!(state.settle_animations_for_compositor_safety());
    let ticket = state.begin_transition_cancel().unwrap();
    let order = state
        .confirm_cancel_fence(ticket, FenceOutcome::NoWorker)
        .unwrap();
    let landing = state.note_exit_parks(order, &vec![]).unwrap();
    let abort = state.cancel_layout_transition_for_exact_landing(landing, FenceOutcome::NoWorker);
    assert!(abort.uncloak.is_empty());
    assert!(!state.is_animating());
    assert!(state.post_animation_landing_pending);
    assert!(state.last_placed_layout_rects.is_empty());
}

#[test]
fn test_partition_for_animation_routes_ghosted_wids_to_ghost_stream() {
    let transition = transition(&[100, 200], false);
    let mut ghost_handles: HashMap<u64, GhostEntry> = HashMap::new();
    ghost_handles.insert(
        100,
        GhostEntry {
            registration: 0,
            final_dest: Rect::new(0, 0, 800, 600),
        },
    );
    ghost_handles.insert(
        200,
        GhostEntry {
            registration: 0,
            final_dest: Rect::new(800, 0, 800, 600),
        },
    );

    let placements = vec![
        placement(100, Rect::new(0, 0, 800, 600)),
        WindowPlacement {
            column_index: 1,
            ..placement(300, Rect::new(800, 0, 800, 600))
        },
        placement(200, Rect::new(0, 0, 800, 600)),
    ];

    let (live, ghosts) =
        partition_for_animation(&placements, Some(&transition), &ghost_handles, &vec![]);

    // 100 and 200 are ghosted; 300 stays live.
    assert_eq!(live.len(), 1, "non-ghosted placement should stay live");
    assert_eq!(live[0].window_id, 300);
    assert_eq!(
        ghosts.len(),
        2,
        "two ghosted placements should produce ghost frames"
    );
    assert!(ghosts.iter().all(|ghost| ghost.registration == 0));
}

#[test]
fn test_ghost_abort_retains_registrations_when_worker_fence_times_out() {
    let mut state = fresh();
    state.ghost_handles.insert(
        100,
        GhostEntry {
            registration: 0,
            final_dest: Rect::new(0, 0, 100, 100),
        },
    );

    let ticket = state.begin_ghost_abort();
    assert!(ticket.needs_wait());
    assert_eq!(state.apply_epoch, 1);
    state.abort_active_ghost_transition(ticket, FenceOutcome::TimedOut);
    assert!(state.paused);
    assert!(state.ghost_handles.contains_key(&100));

    state.paused = false;
    let ticket = state.begin_ghost_abort();
    assert_eq!(state.apply_epoch, 2);
    let abort = state.abort_active_ghost_transition(ticket, FenceOutcome::Reached);
    assert!(state.ghost_handles.is_empty());
    assert_eq!(abort.uncloak, vec![100]);
    assert!(!state.begin_ghost_abort().needs_wait());
    assert_eq!(state.apply_epoch, 2);
}

#[test]
fn test_partition_for_animation_no_transition_keeps_everything_live() {
    let placements = vec![placement(42, Rect::new(0, 0, 100, 100))];

    let (live, ghosts) = partition_for_animation(&placements, None, &HashMap::new(), &vec![]);
    assert_eq!(live.len(), 1);
    assert_eq!(ghosts.len(), 0);
}

#[test]
fn test_aborting_safe_ghost_transition_rearms_exact_landing() {
    let mut config = test_config();
    config.behavior.compositor_safe_mode = true;
    let mut state = AppState::new_with_config(config, vec![], test_monitors());
    state.layout_transition = Some(LayoutTransition {
        start_rects: HashMap::from([(42, Rect::new(0, 0, 800, 600))]),
        exits: vec![],
        elapsed_ms: 16,
        duration_ms: 150,
        requires_compositor_safe_snap: false,
        ghosted_wids: HashSet::from([42]),
        exit_park_failures: 0,
    });
    state.ghost_handles.insert(
        42,
        GhostEntry {
            registration: 0,
            final_dest: Rect::new(100, 0, 900, 600),
        },
    );

    assert!(!state.settle_animations_for_compositor_safety());
    let ticket = state.begin_ghost_abort();
    state.abort_active_ghost_transition(ticket, FenceOutcome::NoWorker);

    let transition = state.layout_transition.as_ref().unwrap();
    assert!(transition.ghosted_wids.is_empty());
    assert!(transition.requires_compositor_safe_snap);
    assert!(state.settle_animations_for_compositor_safety());
}

#[test]
fn test_abort_active_crossfade_clears_state_without_worker_panic() {
    let mut state = fresh();
    state.active_crossfade = Some(5);
    state.crossfade_sources.insert(
        5,
        CrossfadeBarrier {
            windows: HashSet::from([42]),
            started_ms: 0,
        },
    );

    assert_eq!(state.abort_active_crossfade(), Some(5));

    assert!(
        state.active_crossfade.is_none(),
        "abort should clear active"
    );
    assert!(state
        .crossfade_sources
        .get(&5)
        .map(|barrier| barrier.windows.contains(&42))
        .unwrap_or(false));
    assert_eq!(state.abort_active_crossfade(), None);
}

#[test]
fn test_register_ghosts_sweeps_stale_crossfade_barrier() {
    let mut state = fresh();
    let max_age_ms = 5_000;
    let now_ms = 1_000_000;
    state.crossfade_sources.insert(
        99,
        CrossfadeBarrier {
            windows: HashSet::from([42]),
            started_ms: now_ms - max_age_ms - 1_000,
        },
    );
    state.crossfade_sources.insert(
        100,
        CrossfadeBarrier {
            windows: HashSet::from([7]),
            started_ms: now_ms,
        },
    );

    state.sweep_stale_crossfade_barriers(now_ms, max_age_ms);

    assert!(
        !state.crossfade_sources.contains_key(&99),
        "stale epoch should be swept"
    );
    assert!(
        state.crossfade_sources.contains_key(&100),
        "fresh epoch must survive"
    );
    // An age of exactly the limit is stale, and a clock that went back is not.
    state.sweep_stale_crossfade_barriers(now_ms - 1, max_age_ms);
    assert!(state.crossfade_sources.contains_key(&100));
    state.sweep_stale_crossfade_barriers(now_ms + max_age_ms, max_age_ms);
    assert!(state.crossfade_sources.is_empty());
}

#[test]
fn test_partition_for_animation_missing_handle_drops_placement() {
    let transition = transition(&[99], false);
    let placements = vec![placement(99, Rect::new(0, 0, 100, 100))];

    let (live, ghosts) =
        partition_for_animation(&placements, Some(&transition), &HashMap::new(), &vec![]);
    assert_eq!(
        live.len(),
        0,
        "ghosted wid without handle should be dropped"
    );
    assert_eq!(ghosts.len(), 0);
}

#[test]
fn stand_ins_are_clipped_to_their_region() {
    let transition = transition(&[1, 2, 3], false);
    let handles: HashMap<u64, GhostEntry> = [1, 2, 3]
        .into_iter()
        .map(|id| {
            (
                id,
                GhostEntry {
                    registration: id * 10,
                    final_dest: Rect::new(0, 0, 1, 1),
                },
            )
        })
        .collect();
    let clips = vec![
        WindowRegionClip {
            window_id: 1,
            clip_bounds: Rect::new(0, 0, 1920, 1080),
        },
        WindowRegionClip {
            window_id: 2,
            clip_bounds: Rect::new(5000, 0, 100, 100),
        },
    ];
    let placements = vec![
        placement(1, Rect::new(-100, 20, 800, 600)),
        placement(2, Rect::new(0, 0, 800, 600)),
        placement(3, Rect::new(-5, -5, 10, 10)),
    ];
    let (live, ghosts) = partition_for_animation(&placements, Some(&transition), &handles, &clips);
    assert!(live.is_empty());
    assert_eq!(ghosts[0].destination, Rect::new(0, 20, 700, 600));
    assert_eq!(
        ghosts[0].source_crop,
        Some(SourceCrop {
            rect: Rect::new(100, 0, 700, 600),
            source_width: 800,
            source_height: 600
        })
    );
    assert_eq!(ghosts[0].registration, 10);
    assert!(ghosts[0].visible);
    // Nothing of the second window is left: its stand-in hides.
    assert!(!ghosts[1].visible);
    assert_eq!(ghosts[1].opacity, 0);
    assert_eq!(ghosts[1].source_crop, None);
    // The third has no clip.
    assert_eq!(ghosts[2].destination, Rect::new(-5, -5, 10, 10));
    assert_eq!(ghosts[2].opacity, 255);
}

#[test]
fn a_transition_with_stranded_exits_is_kept() {
    let mut state = fresh();
    let mut running = transition(&[], false);
    running.exits = vec![exit(7), exit(8)];
    state.layout_transition = Some(running);
    assert_eq!(state.exit_windows(), vec![7, 8]);
    let ticket = state.begin_transition_cancel().unwrap();
    assert!(ticket.needs_wait());
    assert_eq!(state.apply_epoch, 1);

    let timed_out = state.confirm_cancel_fence(ticket, FenceOutcome::TimedOut);
    assert!(matches!(timed_out, Err(CancelError::BarrierTimedOut)));
    assert!(state.layout_transition.is_some());

    let ticket = state.begin_transition_cancel().unwrap();
    assert_eq!(state.apply_epoch, 2);
    let order = state
        .confirm_cancel_fence(ticket, FenceOutcome::Reached)
        .unwrap();
    assert_eq!(order.windows(), &vec![7, 8]);
    let stranded = vec![park(7, false, true), park(8, true, true)];
    let failed = state.note_exit_parks(order, &stranded);
    assert!(matches!(failed, Err(CancelError::ParkFailed(windows)) if windows == vec![7]));
    assert!(state.layout_transition.is_some());
    assert!(!state.post_animation_landing_pending);

    // A window that no longer exists strands nothing.
    let ticket = state.begin_transition_cancel().unwrap();
    let order = state
        .confirm_cancel_fence(ticket, FenceOutcome::Reached)
        .unwrap();
    let gone = vec![park(7, false, false), park(8, true, true)];
    let landing = state.note_exit_parks(order, &gone).unwrap();
    assert!(!landing.needs_wait());
    state.cancel_layout_transition_for_exact_landing(landing, FenceOutcome::NoWorker);
    assert!(state.layout_transition.is_none());
    assert!(state.post_animation_landing_pending);
    assert_eq!(state.apply_epoch, 3);
    assert!(state.begin_transition_cancel().is_none());
    assert_eq!(state.apply_epoch, 3);
    assert_eq!(failed_parks(&stranded), vec![7]);
    assert!(failed_parks(&gone).is_empty());
}

#[test]
fn a_cancelled_transition_keeps_stand_ins_that_may_be_in_use() {
    let mut state = fresh();
    state.layout_transition = Some(transition(&[1], false));
    state.active_crossfade = Some(3);
    state.ghost_handles.insert(
        1,
        GhostEntry {
            registration: 4,
            final_dest: Rect::new(0, 0, 1, 1),
        },
    );
    let ticket = state.begin_transition_cancel().unwrap();
    let order = state
        .confirm_cancel_fence(ticket, FenceOutcome::Reached)
        .unwrap();
    let landing = state.note_exit_parks(order, &vec![]).unwrap();
    // The stand-ins ask for one more wait, in an epoch of its own.
    assert!(landing.needs_wait());
    assert_eq!(state.apply_epoch, 2);
    let abort = state.cancel_layout_transition_for_exact_landing(landing, FenceOutcome::TimedOut);
    assert!(abort.uncloak.is_empty());
    assert_eq!(abort.abort_crossfade, None);
    assert!(state.paused);
    assert!(state.has_ghosts());
    assert_eq!(state.active_crossfade, Some(3));
    assert!(state.layout_transition.is_none());
    // No transition may start over them.
    let ticket = state.begin_ghost_abort();
    assert!(state
        .prepare_layout_transition(ticket, FenceOutcome::TimedOut)
        .1
        .is_none());
    let ticket = state.begin_ghost_abort();
    let (abort, targets) = state.prepare_layout_transition(ticket, FenceOutcome::Reached);
    assert_eq!(abort.uncloak, vec![1]);
    assert_eq!(abort.abort_crossfade, Some(3));
    assert!(targets.unwrap().is_empty());
}

#[test]
fn ticking_ends_scrolls_and_transitions() {
    let mut state = fresh();
    state.workspaces[0].workspaces.push(Workspace::blank());
    state.workspaces[0].workspaces[0].animating = true;
    state.workspaces[0].workspaces[1].animating = true;
    state.workspaces[0].workspaces[1].scroll_target = 300;
    state.workspaces[0].workspaces[1].shown_offset = 299;
    let outcome = state.tick_animations(&vec![vec![true, false]], false, &vec![]);
    assert_eq!(
        outcome,
        TickOutcome {
            still_animating: true,
            sync_taskbar: true
        }
    );
    assert!(state.workspaces[0].workspaces[0].animating);
    assert!(!state.workspaces[0].workspaces[1].animating);
    assert_eq!(state.workspaces[0].workspaces[1].scroll_offset, 300);
    assert_eq!(state.workspaces[0].workspaces[1].shown_offset, 300);
    let outcome = state.tick_animations(&vec![vec![false, false]], false, &vec![]);
    assert_eq!(
        outcome,
        TickOutcome {
            still_animating: false,
            sync_taskbar: true
        }
    );

    let mut running = transition(&[], false);
    running.exits = vec![exit(7)];
    state.layout_transition = Some(running);
    let quiet = vec![vec![false, false]];
    let outcome = state.tick_animations(&quiet, true, &vec![]);
    assert_eq!(
        outcome,
        TickOutcome {
            still_animating: true,
            sync_taskbar: false
        }
    );
    // Parking fails twice and is tried again; the third failure pauses tiling.
    for attempt in 1..=3 {
        let outcome = state.tick_animations(&quiet, false, &vec![park(7, false, true)]);
        let kept = state.layout_transition.as_ref().unwrap();
        assert_eq!(kept.exit_park_failures, attempt);
        assert_eq!(outcome.still_animating, attempt < 3);
        assert_eq!(state.paused, attempt == 3);
    }
    // A scroll that still runs keeps the animation going all the same.
    state.workspaces[0].workspaces[0].animating = true;
    let scrolling = vec![vec![true, false]];
    let outcome = state.tick_animations(&scrolling, false, &vec![park(7, false, true)]);
    assert!(outcome.still_animating);
    assert!(state.paused);
    state.workspaces[0].workspaces[0].animating = false;
    let outcome = state.tick_animations(&quiet, false, &vec![park(7, true, true)]);
    assert_eq!(
        outcome,
        TickOutcome {
            still_animating: true,
            sync_taskbar: true
        }
    );
    assert!(state.layout_transition.is_none());
}

#[test]
fn reduced_motion_reaches_every_workspace_and_starts_nothing() {
    let mut state = AppState::new_with_config(test_config(), vec![], two_monitors());
    assert!(!state.refresh_reduce_motion(true));
    assert_eq!(state.start_layout_transition(), Some(150));
    state.on_battery_or_saver = true;
    assert!(!state.refresh_reduce_motion(true));
    state.config.animation.reduce_motion_on_battery = true;
    assert!(state.refresh_reduce_motion(true));
    assert!(state.reduce_motion);
    assert!(state
        .workspaces
        .iter()
        .all(|group| group.workspaces.iter().all(|w| w.reduce_motion)));
    assert_eq!(state.start_layout_transition(), None);
    let started = state.start_workspace_switch_transition(
        HashMap::new(),
        &vec![],
        150,
        &HashSet::new(),
        None,
        FenceOutcome::NoWorker,
    );
    assert!(started.is_none());
    assert!(state.layout_transition.is_none());
}

#[test]
fn snapshots_and_targets_are_of_shown_workspaces() {
    let mut state = AppState::new_with_config(test_config(), vec![], two_monitors());
    let off = WindowPlacement {
        visibility: Visibility::OffScreen,
        ..placement(2, Rect::new(9, 9, 9, 9))
    };
    state.workspaces[0].workspaces[0].placements =
        vec![placement(1, Rect::new(0, 0, 10, 10)), off];
    state.workspaces[1].workspaces[0].placements = vec![placement(3, Rect::new(1920, 0, 5, 5))];
    // Neither a workspace that is not shown nor an unknown monitor counts.
    let mut hidden = Workspace::blank();
    hidden.placements = vec![placement(4, Rect::new(0, 0, 1, 1))];
    state.workspaces[0].workspaces.push(hidden.clone());
    state.workspaces.push(MonitorWorkspaces {
        monitor: 77,
        active: 0,
        workspaces: vec![hidden],
    });

    let snapshot = state.snapshot_layout();
    assert_eq!(snapshot.len(), 3);
    assert_eq!(snapshot[&2], Rect::new(9, 9, 9, 9));
    let targets = state.collect_transition_targets();
    assert_eq!(targets.len(), 2);
    assert_eq!(
        targets[&3],
        TransitionTarget {
            rect: Rect::new(1920, 0, 5, 5),
            monitor: 2
        }
    );
}

#[test]
fn transitions_start_one_frame_in() {
    let mut state = fresh();
    let start = HashMap::from([(1, Rect::new(0, 0, 10, 10))]);
    let targets = HashMap::from([(
        1,
        TransitionTarget {
            rect: Rect::new(0, 0, 20, 10),
            monitor: 1,
        },
    )]);
    state.start_layout_transition_with_duration(
        start.clone(),
        200,
        &targets,
        HashSet::new(),
        &HashSet::new(),
    );
    let running = state.layout_transition.as_ref().unwrap();
    assert_eq!((running.elapsed_ms, running.duration_ms), (16, 200));
    assert!(running.requires_compositor_safe_snap);
    assert!(running.exits.is_empty());

    state.workspaces[0].workspaces[0].floating = vec![5];
    let exits = vec![
        (5, Rect::new(0, -1080, 3, 3)),
        (6, Rect::new(0, -1080, 4, 4)),
    ];
    let ticket = state.begin_ghost_abort();
    let abort = state.start_workspace_switch_transition(
        start.clone(),
        &exits,
        300,
        &HashSet::new(),
        Some(ticket),
        FenceOutcome::NoWorker,
    );
    assert!(abort.unwrap().uncloak.is_empty());
    let running = state.layout_transition.as_ref().unwrap();
    assert!(!running.requires_compositor_safe_snap);
    assert_eq!(running.exits[0].column_index, usize::MAX);
    assert_eq!(running.exits[1].column_index, 0);
    assert_eq!(running.exits[1].target, Rect::new(0, -1080, 4, 4));
    // A sensitive window among those that leave makes the switch land at once.
    let ticket = state.begin_ghost_abort();
    state.start_workspace_switch_transition(
        start,
        &exits,
        300,
        &HashSet::from([6]),
        Some(ticket),
        FenceOutcome::NoWorker,
    );
    assert!(state.layout_transition.unwrap().requires_compositor_safe_snap);
}

#[test]
fn placements_are_put_on_their_way() {
    let mut running = transition(&[], false);
    running.start_rects = HashMap::from([
        (1, Rect::new(0, 0, 10, 10)),
        (7, Rect::new(5, 5, 5, 5)),
    ]);
    running.exits = vec![
        exit(8),
        ExitWindow {
            column_index: 3,
            ..exit(7)
        },
    ];
    let mut placements = vec![
        placement(1, Rect::new(100, 0, 10, 10)),
        placement(2, Rect::new(1, 1, 1, 1)),
    ];
    apply_transition_interpolation(
        &running,
        &mut placements,
        &vec![Rect::new(50, 0, 10, 10), Rect::new(9, 9, 9, 9)],
        &vec![Rect::new(8, 8, 8, 8), Rect::new(7, 7, 7, 7)],
    );
    // A window without a recorded start stays, and an exit without one is left out.
    assert_eq!(placements.len(), 3);
    assert_eq!(placements[0].rect, Rect::new(50, 0, 10, 10));
    assert_eq!(placements[1].rect, Rect::new(1, 1, 1, 1));
    assert_eq!(placements[2].window_id, 7);
    assert_eq!(placements[2].rect, Rect::new(7, 7, 7, 7));
    assert_eq!(placements[2].column_index, 3);
    assert_eq!(placements[2].visibility, Visibility::Visible);
}

#[test]
fn only_some_windows_get_a_stand_in() {
    let mut state = fresh();
    assert_eq!(state.ghost_pass(), Some(true));
    state.config.behavior.compositor_safe_mode = false;
    assert_eq!(state.ghost_pass(), None);
    state.config.behavior.swap_chain_ghost_animation = true;
    assert_eq!(state.ghost_pass(), Some(false));

    let at = |x, width, monitor| TransitionTarget {
        rect: Rect::new(x, 0, width, 10),
        monitor,
    };
    let start: HashMap<u64, Rect> = (1..=7).map(|id| (id, Rect::new(0, 0, 10, 10))).collect();
    let targets = HashMap::from([
        (1, at(5, 10, 1)),
        (2, at(0, 20, 1)),
        (3, at(0, 10, 1)),
        (4, at(5, 10, 2)),
        (5, at(5, 20, 1)),
        (6, at(5, 20, 1)),
    ]);
    state.previous_focused_hwnd = Some(5);
    state.crossfade_sources.insert(
        1,
        CrossfadeBarrier {
            windows: HashSet::from([6]),
            started_ms: 0,
        },
    );
    let ghostable: HashSet<u64> = (1..=7).collect();
    // 3 stays, 4 is on another monitor, 5 is focused, 6 is barred, 7 has no target.
    let mut all = state.register_ghosts_for_transition(&start, &targets, false, &ghostable);
    all.sort();
    assert_eq!(all, vec![1, 2]);
    let resized = state.register_ghosts_for_transition(&start, &targets, true, &ghostable);
    assert_eq!(resized, vec![2]);
    let none = state.register_ghosts_for_transition(&start, &targets, true, &HashSet::new());
    assert!(none.is_empty());

    let mut ghosted = HashSet::new();
    let dest = Rect::new(1, 2, 3, 4);
    assert!(!state.note_ghost(&mut ghosted, 2, Some(9), false, dest));
    assert!(!state.note_ghost(&mut ghosted, 2, None, true, dest));
    assert!(ghosted.is_empty());
    assert!(state.note_ghost(&mut ghosted, 2, Some(9), true, dest));
    assert!(ghosted.contains(&2));
    assert_eq!(
        state.ghost_handles[&2],
        GhostEntry {
            registration: 9,
            final_dest: dest
        }
    );
    assert_eq!(ghost_frame_barrier_timeout(), 1500);
}
