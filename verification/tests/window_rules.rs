use leopardwm::config::{
    AnimationConfig, AppearanceConfig, BehaviorConfig, CompiledWindowRule, Config, TabCloseAction,
    WindowAction,
};
use leopardwm::geometry::Rect;
use leopardwm::state::{
    AppState, Column, MonitorInfo, ScratchpadState, Workspace, FALLBACK_VIEWPORT_HEIGHT,
    FALLBACK_VIEWPORT_WIDTH,
};
use leopardwm::window_rules::{
    default_float_rect, focus_to_restore, release_window_for_ignore_with, same_incarnation,
    windows_taken_in, Admission, AdmissionEffects, NewWindow, ReleaseError, ReleaseStage, RuleChange, RuleEffects,
    RuleSize, RuleStep, RuleSubject, WindowIncarnation,
};

fn config() -> Config {
    Config {
        appearance: AppearanceConfig {
            active_border: true,
            active_border_color: "4285F4".to_string(),
            active_border_position: "inside".to_string(),
            tab_strip_bg: "1F1F1F".to_string(),
            tab_strip_active_bg: "303030".to_string(),
            tab_strip_active_text: "FFFFFF".to_string(),
            tab_strip_inactive_text: "A0A0A0".to_string(),
            tab_strip_opacity: 255,
        },
        behavior: BehaviorConfig {
            compositor_safe_mode: true,
            swap_chain_ghost_animation: false,
            disable_snap_layouts: true,
            tab_close_action: TabCloseAction::CloseWindow,
        },
        animation: AnimationConfig {
            layout_duration_ms: 150,
            reduce_motion_on_battery: false,
        },
    }
}

fn monitor() -> MonitorInfo {
    MonitorInfo {
        id: 1,
        rect: Rect::new(0, 0, 1920, 1080),
        work_area: Rect::new(0, 0, 1920, 1040),
        is_primary: true,
        device_name: "DISPLAY1".into(),
    }
}

fn rule(action: WindowAction, width: Option<i32>, height: Option<i32>) -> CompiledWindowRule {
    CompiledWindowRule {
        action,
        width,
        height,
        corner_style: None,
    }
}

fn state(rules: Vec<CompiledWindowRule>) -> AppState {
    AppState::new_with_config(config(), rules, vec![monitor()])
}

fn ignoring() -> AppState {
    state(vec![rule(WindowAction::Ignore, Some(800), Some(600))])
}

fn sizes(rules: &[CompiledWindowRule]) -> Vec<RuleSize> {
    rules
        .iter()
        .map(|rule| RuleSize {
            width: rule.width.unwrap_or(0),
            height: rule.height.unwrap_or(0),
        })
        .collect()
}

fn identity(token: u64) -> WindowIncarnation {
    WindowIncarnation {
        token,
        process_id: 10,
        thread_id: 20,
        class_name: "RuleTarget".into(),
    }
}

/// Runs a release whose actions succeed as `acts` says, and counts the actions.
fn release(
    expected: &WindowIncarnation,
    acts: [bool; 3],
    current: &dyn Fn(usize) -> Option<WindowIncarnation>,
) -> (Result<ReleaseStage, ReleaseError>, usize) {
    let mut stage = ReleaseStage::Begin;
    let mut done = 0;
    loop {
        let acted = match stage {
            ReleaseStage::Begin | ReleaseStage::Done => true,
            _ => {
                done += 1;
                acts[done - 1]
            }
        };
        let now = current(done);
        match release_window_for_ignore_with(expected, stage, acted, now.as_ref()) {
            Ok(ReleaseStage::Done) => return (Ok(ReleaseStage::Done), done),
            Ok(next) => stage = next,
            Err(error) => return (Err(error), done),
        }
    }
}

fn subject(window_id: u64, monitor: i64, workspace: usize, floating: bool) -> RuleSubject {
    RuleSubject {
        window_id,
        monitor,
        workspace,
        floating,
    }
}

/// The patterns of a rule: a pattern that is given has to match.
#[derive(Default)]
struct Patterns {
    class: Option<&'static str>,
    title: Option<&'static str>,
    executable: Option<&'static str>,
}

/// A pattern between two wildcards may stand anywhere in the text.
fn pattern_matches(pattern: Option<&str>, text: &str) -> bool {
    match pattern {
        None => true,
        Some(pattern) => match pattern.strip_prefix(".*").and_then(|p| p.strip_suffix(".*")) {
            Some(part) => text.contains(part),
            None => pattern == text,
        },
    }
}

/// Which rules match a window.
fn verdicts(patterns: &[Patterns], class: &str, title: &str, executable: &str) -> Vec<bool> {
    patterns
        .iter()
        .map(|p| {
            pattern_matches(p.class, class)
                && pattern_matches(p.title, title)
                && pattern_matches(p.executable, executable)
        })
        .collect()
}

fn scratchpad(window_id: u64, shown: bool) -> ScratchpadState {
    ScratchpadState { window_id, shown }
}

fn tiled(windows: &[u64]) -> Workspace {
    let mut workspace = Workspace::blank();
    workspace.columns = vec![Column {
        width: 640,
        tabbed: false,
        windows: windows.to_vec(),
        active_tab: None,
        visible_tab: None,
    }];
    workspace
}

fn new_window(state: &AppState, matched: Vec<bool>) -> NewWindow {
    NewWindow {
        window_id: 10,
        rect: Rect::new(100, 100, 640, 480),
        matched,
        sizes: sizes(&state.compiled_rules),
        monitor: Some(1),
        elevation_blocked: false,
        dialog_like: false,
    }
}

#[test]
fn ignore_release_rejects_failed_physical_uncloak() {
    let expected = identity(1);
    let (result, done) = release(&expected, [false, true, true], &|_| Some(identity(1)));
    assert!(result.is_err());
    assert_eq!(result, Err(ReleaseError::UncloakFailed));
    // Neither the restore nor the show was tried.
    assert_eq!(done, 1);
}

#[test]
fn ignore_release_rejects_recycled_hwnd_before_mutation() {
    let (result, done) = release(&identity(1), [true, true, true], &|_| Some(identity(2)));
    assert!(result.is_err());
    assert_eq!(result, Err(ReleaseError::ChangedBeforeRelease));
    assert_eq!(done, 0);
}

#[test]
fn every_release_error_has_its_cause() {
    let expected = identity(1);
    let same = |_| Some(identity(1));
    let changes_at = |at: usize| {
        move |done: usize| {
            if done >= at {
                None
            } else {
                Some(identity(1))
            }
        }
    };
    let all = [true, true, true];
    assert_eq!(
        release(&expected, all, &same),
        (Ok(ReleaseStage::Done), 3)
    );
    assert_eq!(
        release(&expected, all, &changes_at(1)),
        (Err(ReleaseError::ChangedAfterUncloak), 1)
    );
    assert_eq!(
        release(&expected, [true, false, true], &same),
        (Err(ReleaseError::RestoreFailed), 2)
    );
    assert_eq!(
        release(&expected, all, &changes_at(2)),
        (Err(ReleaseError::ChangedAfterRestore), 2)
    );
    assert_eq!(
        release(&expected, [true, true, false], &same),
        (Err(ReleaseError::ShowFailed), 3)
    );
    assert_eq!(
        release(&expected, all, &changes_at(3)),
        (Err(ReleaseError::ChangedAfterShow), 3)
    );
    let mut other = identity(1);
    other.class_name = "Other".into();
    assert!(!same_incarnation(&expected, Some(&other)));
    assert!(!same_incarnation(&expected, None));
    assert!(same_incarnation(&expected, Some(&identity(1))));
}

#[test]
fn ignore_rule_releases_hidden_scratchpad_designation() {
    let mut state = ignoring();
    state.scratchpad = Some(scratchpad(10, false));

    let plan = state.reapply_window_rules(true, &vec![], Some(&vec![true]));
    assert_eq!(plan.release_scratchpad, Some(10));
    let effects = state.finish_scratchpad_ignore(10, Ok(ReleaseStage::Done));
    assert!(effects.committed);
    assert!(effects.show_in_taskbar);

    assert!(state.scratchpad.is_none());
    assert!(state.locate(10).is_none());
}

#[test]
fn ignore_rule_releases_shown_scratchpad_designation() {
    let mut state = ignoring();
    state.workspaces[0].workspaces[0].floating = vec![10];
    state.scratchpad = Some(scratchpad(10, true));

    let plan = state.reapply_window_rules(true, &vec![Some(vec![true])], Some(&vec![true]));
    assert_eq!(plan.release_scratchpad, None);
    assert_eq!(plan.changes.len(), 1);
    assert_eq!(plan.changes[0].step, RuleStep::Release);
    state.snap_disabled_hwnds.insert(10);
    let effects = state.finish_ignore(
        &plan.changes[0],
        Ok(ReleaseStage::Done),
        Some(Workspace::blank()),
    );
    assert_eq!(
        effects,
        RuleEffects {
            committed: true,
            restore_snap: true,
            disable_snap: false,
            show_in_taskbar: true,
        }
    );

    assert!(state.scratchpad.is_none());
    assert!(state.locate(10).is_none());
}

#[test]
fn failed_hidden_scratchpad_ignore_release_retains_designation() {
    let mut state = ignoring();
    state.scratchpad = Some(scratchpad(10, false));

    let plan = state.reapply_window_rules(true, &vec![], Some(&vec![true]));
    assert_eq!(plan.release_scratchpad, Some(10));
    let effects = state.finish_scratchpad_ignore(10, Err(ReleaseError::UncloakFailed));
    assert!(!effects.committed);
    assert!(!effects.show_in_taskbar);

    assert!(state.scratchpad.is_some_and(|scratchpad| !scratchpad.shown));
}

#[test]
fn failed_ignore_release_retains_model_ownership() {
    let mut state = ignoring();
    state.workspaces[0].workspaces[0] = tiled(&[10]);

    let plan = state.reapply_window_rules(true, &vec![Some(vec![true])], None);
    let kept = state.finish_ignore(
        &plan.changes[0],
        Err(ReleaseError::UncloakFailed),
        Some(Workspace::blank()),
    );
    assert_eq!(
        kept,
        RuleEffects {
            committed: false,
            restore_snap: false,
            disable_snap: false,
            show_in_taskbar: false,
        }
    );
    assert!(state.workspaces[0].workspaces[0].contains_window(10));
    // Nor does the model let go of a window that could not be removed.
    state.window_managed_at.insert(10, 5);
    let kept = state.finish_ignore(&plan.changes[0], Ok(ReleaseStage::Done), None);
    assert!(!kept.committed);
    assert!(kept.show_in_taskbar);
    assert!(state.window_managed_at.contains_key(&10));
}

#[test]
fn an_ignored_window_leaves_no_record() {
    let mut state = ignoring();
    state.workspaces[0].workspaces[0] = tiled(&[10, 11]);
    state.last_placed_layout_rects.insert(10, Rect::new(0, 0, 1, 1));
    state.hidden_column_widths.insert(10, 700);
    state.tab_title_overrides.insert(10, "Mine".into());
    state.window_managed_at.insert(10, 1);
    state.window_managed_at.insert(11, 2);
    state.window_incarnations.insert(10, identity(1));
    state.window_last_maximized_at.insert(10, 1);
    state.recently_hidden_hwnds.insert(10, 1);
    state.moved_or_resized_suppression.insert(10, 1);
    state.settled_geometry_mismatches.insert(10, 1);
    state.previous_focused_hwnd = Some(10);
    let change = RuleChange {
        window_id: 10,
        monitor: 1,
        workspace: 0,
        floating: false,
        step: RuleStep::Release,
    };
    let effects = state.finish_ignore(&change, Ok(ReleaseStage::Done), Some(tiled(&[11])));
    assert!(effects.committed);
    assert!(!effects.restore_snap);
    assert!(state.window_incarnations.is_empty());
    assert!(state.last_placed_layout_rects.is_empty());
    assert!(state.hidden_column_widths.is_empty());
    assert!(state.tab_title_overrides.is_empty());
    assert_eq!(state.window_managed_at.len(), 1);
    assert!(state.window_last_maximized_at.is_empty());
    assert!(state.recently_hidden_hwnds.is_empty());
    assert!(state.moved_or_resized_suppression.is_empty());
    assert!(state.settled_geometry_mismatches.is_empty());
    assert_eq!(state.previous_focused_hwnd, None);
    assert!(state.locate(10).is_none());
    assert_eq!(state.locate(11), Some((0, 0)));
    // There is no such workspace.
    let elsewhere = RuleChange {
        workspace: 4,
        ..change
    };
    let effects = state.finish_ignore(&elsewhere, Ok(ReleaseStage::Done), Some(tiled(&[])));
    assert!(!effects.committed);
}

#[test]
fn changed_rules_move_windows() {
    let mut state = state(vec![
        rule(WindowAction::Float, None, None),
        rule(WindowAction::Tile, None, None),
    ]);
    let mut workspace = tiled(&[10, 13]);
    workspace.floating = vec![11, 12, 14, 15];
    state.workspaces[0].workspaces[0] = workspace;
    assert_eq!(
        state.managed_windows(),
        vec![
            subject(10, 1, 0, false),
            subject(13, 1, 0, false),
            subject(11, 1, 0, true),
            subject(12, 1, 0, true),
            subject(14, 1, 0, true),
            subject(15, 1, 0, true),
        ]
    );
    let float = || Some(vec![true, true]);
    let tile = || Some(vec![false, true]);
    let verdicts = vec![
        float(),
        tile(),
        float(),
        tile(),
        None,
        Some(vec![false, false]),
    ];
    let plan = state.reapply_window_rules(true, &verdicts, None);
    let steps: Vec<(u64, RuleStep)> = plan
        .changes
        .iter()
        .map(|change| (change.window_id, change.step))
        .collect();
    assert_eq!(
        steps,
        vec![
            (10, RuleStep::ToFloat),
            (12, RuleStep::ToTile),
            (15, RuleStep::ToTile)
        ]
    );
    assert_eq!(plan.release_scratchpad, None);
    // Nothing moves while a frame of a transition may still place windows.
    state.scratchpad = Some(scratchpad(99, false));
    let deferred = state.reapply_window_rules(false, &verdicts, Some(&vec![true, true]));
    assert!(deferred.changes.is_empty());
    assert_eq!(deferred.release_scratchpad, None);
}

#[test]
fn every_managed_window_is_listed() {
    let mut monitors = vec![monitor()];
    monitors.push(MonitorInfo {
        id: 2,
        is_primary: false,
        ..monitor()
    });
    let mut state = AppState::new_with_config(config(), vec![], monitors);
    assert!(state.managed_windows().is_empty());
    state.workspaces[0].workspaces[0] = tiled(&[10]);
    state.ensure_workspace_exists(1, 1);
    state.workspaces[0].workspaces[1].floating = vec![20];
    state.workspaces[1].workspaces[0] = tiled(&[30, 31]);
    assert_eq!(
        state.managed_windows(),
        vec![
            subject(10, 1, 0, false),
            subject(20, 1, 1, true),
            subject(30, 2, 0, false),
            subject(31, 2, 0, false),
        ]
    );
}

#[test]
fn rule_transactions_commit_whole_workspaces() {
    let mut state = state(vec![]);
    state.workspaces[0].workspaces.push(tiled(&[30]));
    let mut floated = tiled(&[11]);
    floated.floating = vec![10];
    let tries = [
        (1, 0, false, Some(10)),
        (1, 0, true, Some(11)),
        (1, 9, true, Some(10)),
        (8, 0, true, Some(10)),
    ];
    state.snap_disabled_hwnds.insert(10);
    for (monitor, idx, focused, moved) in tries {
        let effects = state.rule_tile_to_float_transaction(
            monitor,
            idx,
            10,
            focused,
            moved,
            floated.clone(),
            None,
        );
        assert!(!effects.committed);
        assert!(!effects.restore_snap);
    }
    assert!(state.locate(10).is_none());
    let effects = state.rule_tile_to_float_transaction(1, 0, 10, true, Some(10), floated, None);
    assert!(effects.committed);
    assert!(effects.restore_snap);
    assert!(state.workspaces[0].workspaces[0].is_floating(10));
    assert!(state.workspaces[0].workspaces[1].contains_window(30));

    let refused = state.rule_float_to_tile_transaction(1, 0, 10, false, tiled(&[11, 10]), None);
    assert!(!refused.committed);
    assert!(!refused.disable_snap);
    assert!(state.workspaces[0].workspaces[0].is_floating(10));
    let effects = state.rule_float_to_tile_transaction(1, 0, 10, true, tiled(&[11, 10]), None);
    assert!(effects.committed);
    assert!(effects.disable_snap);
    assert!(!state.workspaces[0].workspaces[0].is_floating(10));
    assert!(state.workspaces[0].workspaces[0].contains_window(10));
    state.config.behavior.disable_snap_layouts = false;
    let effects = state.rule_float_to_tile_transaction(1, 0, 10, true, tiled(&[11, 10]), None);
    assert!(effects.committed);
    assert!(!effects.disable_snap);

    assert_eq!(focus_to_restore(Some(11), 10), Some(11));
    assert_eq!(focus_to_restore(Some(10), 10), None);
    assert_eq!(focus_to_restore(None, 10), None);
}

/// A copy with the focus on another window, where it has that.
fn refocused(workspace: &Workspace, focus: Option<u64>) -> Option<Workspace> {
    let focus = focus.filter(|id| workspace.contains_window(*id))?;
    let mut copy = workspace.clone();
    copy.focused_visible = Some(focus);
    Some(copy)
}

#[test]
fn rule_float_then_tile_uses_origin_and_preserves_other_focus() {
    let mut state = state(vec![rule(WindowAction::Float, Some(800), Some(600))]);
    let mut workspace = tiled(&[10, 11]);
    workspace.columns[0].width = 777;
    workspace.focused_visible = Some(11);
    state.workspaces[0].workspaces[0] = workspace;

    let plan = state.reapply_window_rules(true, &vec![Some(vec![true]), None], None);
    assert_eq!(plan.changes.len(), 1);
    let change = plan.changes[0];
    assert_eq!((change.window_id, change.step), (10, RuleStep::ToFloat));
    let before = state.workspace_at(1, 0).unwrap().clone();
    let mut floated = before.clone();
    floated.columns[0].windows = vec![11];
    floated.floating = vec![10];
    floated.focused_visible = Some(10);
    let back = refocused(&floated, focus_to_restore(before.focused_visible, 10));
    state.rule_tile_to_float_transaction(1, 0, 10, true, Some(10), floated, back);
    assert!(state.workspaces[0].workspaces[0].is_floating(10));
    assert_eq!(state.workspaces[0].workspaces[0].focused_visible, Some(11));
    // The same rules change nothing more.
    let again = state.reapply_window_rules(true, &vec![None, Some(vec![true])], None);
    assert!(again.changes.is_empty());

    state.compiled_rules = vec![rule(WindowAction::Tile, None, None)];
    let plan = state.reapply_window_rules(true, &vec![None, Some(vec![true])], None);
    assert_eq!(plan.changes[0].step, RuleStep::ToTile);
    let before = state.workspace_at(1, 0).unwrap().clone();
    let mut retiled = tiled(&[10]);
    retiled.columns[0].width = 777;
    retiled.columns.extend(before.columns.clone());
    retiled.focused_visible = Some(10);
    let back = refocused(&retiled, focus_to_restore(before.focused_visible, 10));
    state.rule_float_to_tile_transaction(1, 0, 10, true, retiled, back);
    let workspace = &state.workspaces[0].workspaces[0];
    let column = workspace
        .columns
        .iter()
        .find(|column| column.windows.contains(&10))
        .unwrap();
    assert_eq!(column.width, 777);
    assert_eq!(workspace.focused_visible, Some(11));
    let again = state.reapply_window_rules(true, &vec![Some(vec![true]), None], None);
    assert!(again.changes.is_empty());
}

#[test]
fn a_moved_window_keeps_the_focus_that_it_had() {
    let mut state = state(vec![]);
    let mut workspace = tiled(&[10, 11]);
    workspace.focused_visible = Some(10);
    state.workspaces[0].workspaces[0] = workspace;
    let mut floated = tiled(&[11]);
    floated.floating = vec![10];
    floated.focused_visible = Some(10);
    // The focus was on the window itself, so it is not moved on.
    let elsewhere = refocused(&floated, Some(11));
    state.rule_tile_to_float_transaction(1, 0, 10, true, Some(10), floated, elsewhere);
    assert_eq!(state.workspaces[0].workspaces[0].focused_visible, Some(10));
    assert!(state.workspace_at(1, 1).is_none());
    assert!(state.workspace_at(2, 0).is_none());
}

#[test]
fn released_windows_settle() {
    let mut state = ignoring();
    state.workspaces[0].workspaces[0] = tiled(&[10, 11]);
    state.scratchpad = Some(scratchpad(20, false));
    let ignored = Some(vec![true]);
    let plan = state.reapply_window_rules(true, &vec![ignored, None], Some(&vec![true]));
    assert_eq!(plan.release_scratchpad, Some(20));
    let done = Ok(ReleaseStage::Done);
    assert!(state.finish_ignore(&plan.changes[0], done, Some(tiled(&[11]))).committed);
    assert!(state.finish_scratchpad_ignore(20, done).committed);
    let again = state.reapply_window_rules(true, &vec![None], None);
    assert!(again.changes.is_empty());
    assert_eq!(again.release_scratchpad, None);
}

#[test]
fn windows_that_were_taken_in_are_counted() {
    let effects = |added| AdmissionEffects {
        added,
        disable_snap: false,
    };
    assert_eq!(windows_taken_in(&vec![]), 0);
    assert_eq!(
        windows_taken_in(&vec![effects(true), effects(false), effects(true)]),
        2
    );
}

#[test]
fn test_window_rule_matching_class() {
    let patterns = [Patterns {
        class: Some("TestClass"),
        ..Patterns::default()
    }];
    let state = state(vec![rule(WindowAction::Float, Some(800), Some(600))]);
    let action =
        state.evaluate_window_rules(&verdicts(&patterns, "TestClass", "Any Title", "any.exe"));
    assert_eq!(action, WindowAction::Float);
    let other =
        state.evaluate_window_rules(&verdicts(&patterns, "OtherClass", "Any Title", "any.exe"));
    assert_eq!(other, WindowAction::Tile);
}

#[test]
fn test_window_rule_matching_title() {
    let patterns = [Patterns {
        title: Some(".*DevTools.*"),
        ..Patterns::default()
    }];
    let state = state(vec![rule(WindowAction::Float, None, None)]);
    let action = state.evaluate_window_rules(&verdicts(
        &patterns,
        "AnyClass",
        "DevTools - localhost",
        "chrome.exe",
    ));
    assert_eq!(action, WindowAction::Float);
}

#[test]
fn test_window_rule_matching_executable() {
    let patterns = [Patterns {
        executable: Some("spotify.exe"),
        ..Patterns::default()
    }];
    let state = state(vec![rule(WindowAction::Ignore, None, None)]);
    let action = state.evaluate_window_rules(&verdicts(
        &patterns,
        "SpotifyClass",
        "Spotify",
        "spotify.exe",
    ));
    assert_eq!(action, WindowAction::Ignore);
}

#[test]
fn test_window_rule_no_match_defaults_to_tile() {
    let state = state(vec![]);
    let action =
        state.evaluate_window_rules(&verdicts(&[], "SomeClass", "Some Title", "some.exe"));
    assert_eq!(action, WindowAction::Tile);
}

#[test]
fn test_floating_rect_uses_rule_dimensions() {
    let patterns = [Patterns {
        class: Some("TestClass"),
        ..Patterns::default()
    }];
    let state = state(vec![rule(WindowAction::Float, Some(1024), Some(768))]);
    let original = Rect::new(100, 100, 640, 480);
    let result = state.get_floating_rect_from_rules(
        &verdicts(&patterns, "TestClass", "Title", "test.exe"),
        &sizes(&state.compiled_rules),
        original,
    );
    assert_eq!(result.width, 1024);
    assert_eq!(result.height, 768);
}

#[test]
fn test_floating_rect_preserves_original_if_no_dimensions() {
    let patterns = [Patterns {
        class: Some("TestClass"),
        ..Patterns::default()
    }];
    let state = state(vec![rule(WindowAction::Float, None, None)]);
    let original = Rect::new(100, 100, 640, 480);
    let result = state.get_floating_rect_from_rules(
        &verdicts(&patterns, "TestClass", "Title", "test.exe"),
        &sizes(&state.compiled_rules),
        original,
    );
    assert_eq!(result.width, 640);
    assert_eq!(result.height, 480);
}

#[test]
fn the_first_matching_rule_wins() {
    let state = state(vec![
        rule(WindowAction::Float, Some(300), None),
        rule(WindowAction::Ignore, None, Some(200)),
    ]);
    assert_eq!(state.matched_rule(&vec![true, true]), Some(0));
    assert_eq!(state.matched_rule(&vec![false, true]), Some(1));
    assert_eq!(state.matched_rule(&vec![false, false]), None);
    let original = Rect::new(1, 2, 3, 4);
    let rect = |matched| {
        state.get_floating_rect_from_rules(&matched, &sizes(&state.compiled_rules), original)
    };
    assert_eq!(rect(vec![true, true]), Rect::new(1, 2, 300, 4));
    assert_eq!(rect(vec![false, true]), Rect::new(1, 2, 3, 200));
    assert_eq!(rect(vec![false, false]), original);
}

#[test]
fn test_app_state_focused_viewport() {
    let state = state(vec![]);
    let viewport = state.focused_viewport();
    assert_eq!(viewport.width, 1920);
    assert_eq!(viewport.height, 1040);
}

#[test]
fn test_app_state_no_monitors_fallback() {
    let state = AppState::new_with_config(config(), vec![], vec![]);
    let viewport = state.focused_viewport();
    assert_eq!(viewport.width, FALLBACK_VIEWPORT_WIDTH);
    assert_eq!(viewport.height, FALLBACK_VIEWPORT_HEIGHT);
}

#[test]
fn test_find_window_workspace_not_found() {
    let state = state(vec![]);
    assert!(state.locate(99999).is_none());
}

#[test]
fn floating_windows_are_centred_without_a_place() {
    let state = state(vec![]);
    assert_eq!(state.rule_float_rect(1, None), Rect::new(560, 220, 800, 600));
    let given = Rect::new(1, 2, 3, 4);
    assert_eq!(state.rule_float_rect(1, Some(given)), given);
    assert_eq!(
        default_float_rect(Rect::new(10, 20, 799, 601)),
        Rect::new(10, 20, 800, 600)
    );
    assert_eq!(
        default_float_rect(Rect::new(0, 0, 700, 500)),
        Rect::new(-50, -50, 800, 600)
    );
}

#[test]
fn windows_are_taken_in_by_the_first_reason() {
    let mut state = state(vec![
        rule(WindowAction::Ignore, None, None),
        rule(WindowAction::Float, Some(300), None),
    ]);
    let ignored = new_window(&state, vec![true, false]);
    let floating = new_window(&state, vec![false, true]);
    let plain = new_window(&state, vec![false, false]);
    let mut dialog = plain.clone();
    dialog.dialog_like = true;
    let mut ruled_dialog = floating.clone();
    ruled_dialog.dialog_like = true;
    let mut elevated = dialog.clone();
    elevated.elevation_blocked = true;
    let mut elsewhere = plain.clone();
    elsewhere.monitor = None;
    let float = Admission::Float {
        monitor: 1,
        workspace: 0,
        rect: Rect::new(100, 100, 300, 480),
    };
    let tile = Admission::Tile {
        monitor: 1,
        workspace: 0,
    };
    let mut windows = vec![
        ignored.clone(),
        floating,
        plain.clone(),
        dialog,
        ruled_dialog,
        elevated,
        elsewhere,
    ];
    for (i, window) in windows.iter_mut().enumerate() {
        window.window_id = 10 + i as u64;
    }
    let admissions = state.enumerate_and_add_windows(&windows);
    assert_eq!(
        admissions,
        vec![
            Admission::IgnoredByRule,
            float,
            tile,
            Admission::DialogLike,
            float,
            Admission::ElevationBlocked,
            tile,
        ]
    );
    // Taking the window in once is enough.
    let nothing = AdmissionEffects {
        added: false,
        disable_snap: false,
    };
    assert_eq!(state.finish_admission(10, tile, None, None, 7), nothing);
    assert_eq!(
        state.finish_admission(10, Admission::DialogLike, Some(tiled(&[10])), None, 7),
        nothing
    );
    assert!(state.window_managed_at.is_empty());
    assert_eq!(
        state.finish_admission(10, tile, Some(tiled(&[10])), Some(identity(1)), 7),
        AdmissionEffects {
            added: true,
            disable_snap: true,
        }
    );
    assert_eq!(state.window_managed_at[&10], 7);
    assert_eq!(state.window_incarnations[&10], identity(1));
    assert_eq!(state.admit_window(&plain), Admission::AlreadyManaged);
    assert_eq!(state.admit_window(&ignored), Admission::IgnoredByRule);
    // A floating window may still be snapped.
    let mut with_float = tiled(&[10]);
    with_float.floating = vec![11];
    let effects = state.finish_admission(11, float, Some(with_float), None, 8);
    assert!(effects.added);
    assert!(!effects.disable_snap);
    assert!(!state.window_incarnations.contains_key(&11));
}

#[test]
fn a_window_gets_a_workspace_where_there_is_none() {
    let mut state = state(vec![]);
    state.reduce_motion = true;
    let second = Admission::Tile {
        monitor: 1,
        workspace: 2,
    };
    assert!(state
        .finish_admission(10, second, Some(tiled(&[10])), None, 1)
        .added);
    assert_eq!(state.workspaces.len(), 1);
    assert_eq!(state.workspaces[0].workspaces.len(), 3);
    assert!(state.workspaces[0].workspaces[1].columns.is_empty());
    assert!(state.workspaces[0].workspaces[1].reduce_motion);
    assert_eq!(state.locate(10), Some((0, 2)));
    // A monitor without workspaces gets them too.
    let elsewhere = Admission::Tile {
        monitor: 5,
        workspace: 0,
    };
    assert!(state
        .finish_admission(11, elsewhere, Some(tiled(&[11])), None, 1)
        .added);
    assert_eq!(state.workspaces[1].monitor, 5);
    assert_eq!(state.workspaces[1].active, 0);
    assert_eq!(state.locate(11), Some((1, 0)));
    // The workspace is made even where the window cannot be placed.
    let later = Admission::Tile {
        monitor: 5,
        workspace: 1,
    };
    assert!(!state.finish_admission(12, later, None, None, 1).added);
    assert_eq!(state.workspaces[1].workspaces.len(), 2);
    assert!(state.locate(12).is_none());
    state.ensure_workspace_exists(5, 0);
    assert_eq!(state.workspaces[1].workspaces.len(), 2);
}

#[test]
fn test_snap_disable_on_tile() {
    let mut state = state(vec![]);
    let hwnd = 42;
    state.workspaces[0].workspaces[0] = tiled(&[hwnd]);
    // The frame of a window that does not exist cannot be changed.
    state.disable_snap_for_window(hwnd, false);
    assert!(!state.snap_disabled_hwnds.contains(&hwnd));
    state.disable_snap_for_window(hwnd, true);
    assert!(state.snap_disabled_hwnds.contains(&hwnd));
}

#[test]
fn test_snap_restore_retains_daemon_receipt_after_transient_failure() {
    let mut state = state(vec![]);
    state.snap_disabled_hwnds.insert(43);
    state.restore_snap_for_window(43, false);
    assert!(state.snap_disabled_hwnds.contains(&43));

    state.restore_snap_for_window(43, true);
    assert!(!state.snap_disabled_hwnds.contains(&43));
}

#[test]
fn test_snap_restore_on_float() {
    let mut state = state(vec![]);
    let hwnd = 43;
    state.snap_disabled_hwnds.insert(hwnd);
    state.restore_snap_for_window(hwnd, true);
    assert!(!state.snap_disabled_hwnds.contains(&hwnd));
}

#[test]
fn test_snap_restore_on_destroy() {
    let mut state = state(vec![]);
    let hwnd = 44;
    state.snap_disabled_hwnds.insert(hwnd);
    state.restore_snap_for_window(hwnd, true);
    assert!(!state.snap_disabled_hwnds.contains(&hwnd));
}

#[test]
fn test_snap_restore_for_window_not_tracked_is_noop() {
    let mut state = state(vec![]);
    state.restore_snap_for_window(999, true);
    assert!(state.snap_disabled_hwnds.is_empty());
}

#[test]
fn test_snap_disable_when_config_disabled() {
    let mut state = state(vec![]);
    state.config.behavior.disable_snap_layouts = false;
    state.disable_snap_for_window(42, true);
    assert!(!state.snap_disabled_hwnds.contains(&42));
}
