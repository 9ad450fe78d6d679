use leopardwm::config::{
    AnimationConfig, AppearanceConfig, BehaviorConfig, CompiledWindowRule, Config, CornerStyle,
    TabCloseAction, WindowAction,
};
use leopardwm::geometry::Rect;
use leopardwm::state::{
    AppState, Column, ExitWindow, LayoutTransition, MonitorInfo, Visibility, WindowPlacement,
    DRAG_PLACEHOLDER_HWND,
};
use leopardwm::ui_sync::{
    foreground_transferred, hex_rgb_to_bgr, placed_rect, stale_overlays, strip_is_wanted,
    tab_strip_fits_owner, BorderAction, BorderPosition, FocusFollowUp, StripKey,
};
use std::collections::{HashMap, HashSet};

const HIGHLIGHT: u32 = 0x00ABCDEF;

fn monitor(x: i32, width: i32) -> MonitorInfo {
    let rect = Rect::new(x, 0, width, 1080);
    MonitorInfo {
        id: 1,
        rect,
        work_area: rect,
        is_primary: true,
        device_name: "DISPLAY1".to_string(),
    }
}

fn config() -> Config {
    Config {
        appearance: AppearanceConfig {
            active_border: true,
            active_border_color: "#4285F4".to_string(),
            active_border_position: "inside".to_string(),
            tab_strip_bg: "112233".to_string(),
            tab_strip_active_bg: "none".to_string(),
            tab_strip_active_text: "".to_string(),
            tab_strip_inactive_text: "#12345".to_string(),
            tab_strip_opacity: 200,
        },
        behavior: BehaviorConfig {
            compositor_safe_mode: true,
            swap_chain_ghost_animation: false,
            disable_snap_layouts: true,
            tab_close_action: TabCloseAction::CloseWindow,
        },
        animation: AnimationConfig {
            layout_duration_ms: 150,
            reduce_motion_on_battery: false,
        },
    }
}

fn rule(corner_style: Option<CornerStyle>) -> CompiledWindowRule {
    CompiledWindowRule {
        action: WindowAction::Tile,
        width: None,
        height: None,
        corner_style,
    }
}

fn column(tabbed: bool, windows: &[u64]) -> Column {
    Column {
        width: 640,
        tabbed,
        windows: windows.to_vec(),
        active_tab: Some(0),
        visible_tab: Some(0),
    }
}

fn placement(window_id: u64, rect: Rect) -> WindowPlacement {
    WindowPlacement {
        window_id,
        rect,
        visibility: Visibility::Visible,
        column_index: 0,
    }
}

/// Window 10 is tiled, window 20 floats.
fn state() -> AppState {
    let mut state = AppState::new_with_config(config(), vec![], vec![monitor(0, 1920)]);
    let workspace = &mut state.workspaces[0].workspaces[0];
    workspace.columns = vec![column(false, &[10])];
    workspace.floating = vec![20];
    workspace.focused_visible = Some(10);
    workspace.placements = vec![placement(10, Rect::new(5, 6, 7, 8))];
    state
}

#[test]
fn a_fully_visible_column_keeps_its_strip() {
    let owner = monitor(0, 1920);
    assert!(tab_strip_fits_owner(
        Rect::new(100, 20, 800, 900),
        Some(&owner)
    ));
    // Flush against both edges still fits.
    assert!(tab_strip_fits_owner(
        Rect::new(0, 20, 1920, 900),
        Some(&owner)
    ));
}

#[test]
fn a_column_reaching_past_either_edge_drops_its_strip() {
    let owner = monitor(0, 1920);
    // Right-edge preview: the strip would paint on the next monitor.
    assert!(!tab_strip_fits_owner(
        Rect::new(1700, 20, 800, 900),
        Some(&owner)
    ));
    // Left-edge preview on a monitor that does not start at zero.
    let right_monitor = monitor(1920, 1920);
    assert!(!tab_strip_fits_owner(
        Rect::new(1700, 20, 800, 900),
        Some(&right_monitor)
    ));
}

#[test]
fn unknown_monitor_geometry_keeps_the_strip() {
    assert!(tab_strip_fits_owner(Rect::new(1700, 20, 800, 900), None));
}

#[test]
fn colours_are_read_red_first() {
    assert_eq!(hex_rgb_to_bgr("4285F4"), Some(0xF48542));
    assert_eq!(hex_rgb_to_bgr("#4285f4"), Some(0xF48542));
    assert_eq!(hex_rgb_to_bgr("#000001"), Some(0x010000));
    assert_eq!(hex_rgb_to_bgr(""), None);
    assert_eq!(hex_rgb_to_bgr("#"), None);
    assert_eq!(hex_rgb_to_bgr("12345"), None);
    assert_eq!(hex_rgb_to_bgr("1234567"), None);
    assert_eq!(hex_rgb_to_bgr("##12345"), None);
    assert_eq!(hex_rgb_to_bgr("12345g"), None);
    assert_eq!(hex_rgb_to_bgr("+12345"), None);
    assert_eq!(hex_rgb_to_bgr("\u{e9}\u{e9}12"), None);
}

#[test]
fn the_border_follows_tiled_and_floating_windows() {
    let mut state = state();
    let slot = Some(Rect::new(1, 2, 3, 4));
    let shown = BorderAction::ShowAt {
        rect: Rect::new(1, 2, 3, 4),
        position: BorderPosition::Inside,
        bgr: 0xF48542,
        corner_radius: 5,
    };
    assert_eq!(state.show_border(10, slot, HIGHLIGHT, None, Some(5)), shown);
    assert_eq!(
        state.show_border(10, None, HIGHLIGHT, None, Some(5)),
        BorderAction::Hide
    );
    state.config.appearance.active_border_position = "Inside".to_string();
    assert_eq!(state.border_position(), BorderPosition::Outside);
    assert_eq!(
        state.show_border(20, None, HIGHLIGHT, None, None),
        BorderAction::Track {
            position: BorderPosition::Outside,
            bgr: 0xF48542,
            corner_radius: 8,
        }
    );
    // The corners are those that the rules ask for.
    state.compiled_rules = vec![rule(Some(CornerStyle::SmallRounded))];
    assert_eq!(
        state.show_border(20, None, HIGHLIGHT, Some(&vec![true]), Some(5)),
        BorderAction::Track {
            position: BorderPosition::Outside,
            bgr: 0xF48542,
            corner_radius: 4,
        }
    );
}

#[test]
fn the_border_hides_while_a_tiled_window_is_dragged() {
    let mut state = state();
    let slot = Some(Rect::new(1, 2, 3, 4));
    state.tiled_drag = true;
    for window in [10, 20] {
        for place in [slot, None] {
            assert_eq!(
                state.show_border(window, place, HIGHLIGHT, None, None),
                BorderAction::Hide
            );
        }
    }
    // A resize preview shows it all the same.
    let preview = Rect::new(9, 9, 9, 9);
    state.resize_preview_display_rect = Some(preview);
    assert_eq!(
        state.show_border(20, slot, HIGHLIGHT, None, None),
        BorderAction::ShowAt {
            rect: preview,
            position: BorderPosition::Inside,
            bgr: 0xF48542,
            corner_radius: 8,
        }
    );
}

#[test]
fn the_border_hides_where_it_has_no_place() {
    let slot = Some(Rect::new(1, 2, 3, 4));
    let hides = |change: &dyn Fn(&mut AppState), window| {
        let mut state = state();
        change(&mut state);
        state.show_border(window, slot, HIGHLIGHT, None, None) == BorderAction::Hide
    };
    assert!(!hides(&|_| {}, 10));
    assert!(hides(&|_| {}, 99));
    assert!(hides(&|s| s.paused = true, 10));
    assert!(hides(&|s| s.workspaces[0].workspaces[0].fullscreen = true, 10));
    assert!(hides(&|s| s.config.appearance.active_border = false, 10));
    let colourless = |s: &mut AppState| s.config.appearance.active_border_color = "red".to_string();
    assert!(hides(&colourless, 10));
}

#[test]
fn high_contrast_takes_the_system_colour() {
    let mut state = state();
    assert_eq!(state.border_color_bgr(HIGHLIGHT), Some(0xF48542));
    assert!(state.refresh_high_contrast(true));
    assert!(!state.refresh_high_contrast(true));
    assert_eq!(state.border_color_bgr(HIGHLIGHT), Some(HIGHLIGHT));
    assert!(state.refresh_high_contrast(false));
}

#[test]
fn corners_come_from_the_first_matching_style() {
    let rules = vec![
        rule(None),
        rule(Some(CornerStyle::SmallRounded)),
        rule(Some(CornerStyle::Square)),
    ];
    let state = AppState::new_with_config(config(), rules, vec![]);
    assert!(state.corner_rules_exist());
    let radius = |matched: &[bool], own| {
        state.corner_radius_for_window(Some(&matched.to_vec()), own)
    };
    assert_eq!(radius(&[true, true, true], Some(3)), 4);
    assert_eq!(radius(&[true, false, true], Some(3)), 0);
    assert_eq!(radius(&[true, false, false], Some(3)), 3);
    assert_eq!(radius(&[false, false, false], None), 8);
    assert_eq!(state.corner_radius_for_window(None, Some(5)), 5);
    assert_eq!(CornerStyle::Rounded.radius_px(), 8);
    let plain = AppState::new_with_config(config(), vec![rule(None)], vec![]);
    assert!(!plain.corner_rules_exist());
}

#[test]
fn layout_rects_follow_the_transition() {
    let mut state = state();
    let none = vec![];
    assert_eq!(
        state.compute_window_layout_rect(10, &none, &none),
        Some(Rect::new(5, 6, 7, 8))
    );
    assert_eq!(state.compute_window_layout_rect(20, &none, &none), None);
    assert_eq!(state.compute_window_layout_rect(99, &none, &none), None);
    state.layout_transition = Some(LayoutTransition {
        start_rects: HashMap::from([
            (10, Rect::new(0, 0, 7, 8)),
            (20, Rect::new(0, 0, 1, 1)),
        ]),
        exits: vec![ExitWindow {
            window_id: 20,
            target: Rect::new(0, -1080, 1, 1),
            column_index: usize::MAX,
        }],
        elapsed_ms: 16,
        duration_ms: 150,
        requires_compositor_safe_snap: false,
        ghosted_wids: HashSet::new(),
        exit_park_failures: 0,
    });
    let morphed = vec![Rect::new(2, 3, 7, 8)];
    let exited = vec![Rect::new(0, -500, 1, 1)];
    assert_eq!(
        state.compute_window_layout_rect(10, &morphed, &exited),
        Some(Rect::new(2, 3, 7, 8))
    );
    assert_eq!(
        state.compute_window_layout_rect(20, &morphed, &exited),
        Some(Rect::new(0, -500, 1, 1))
    );
    // The layout of an unknown monitor is not known.
    state.monitors.clear();
    assert_eq!(state.compute_window_layout_rect(10, &morphed, &exited), None);
    assert!(state.placements_around(10).is_none());
    let twice = vec![
        placement(1, Rect::new(1, 1, 1, 1)),
        placement(1, Rect::new(2, 2, 2, 2)),
    ];
    assert_eq!(placed_rect(&twice, 1), Some(Rect::new(1, 1, 1, 1)));
}

#[test]
fn tabbed_columns_have_strips() {
    let mut state = state();
    let workspace = &mut state.workspaces[0].workspaces[0];
    workspace.columns = vec![
        column(false, &[10]),
        column(true, &[11, DRAG_PLACEHOLDER_HWND, 12]),
        column(true, &[13]),
        column(true, &[14]),
    ];
    workspace.columns[1].active_tab = Some(2);
    workspace.columns[1].visible_tab = Some(0);
    workspace.minimized = vec![12];
    workspace.placements = vec![
        placement(10, Rect::new(0, 0, 100, 100)),
        placement(11, Rect::new(100, 0, 100, 100)),
        placement(13, Rect::new(1900, 0, 100, 100)),
    ];
    // Without a transition nothing is on its way, whatever is said of it.
    let on_the_way = HashMap::from([(11, Rect::new(7, 0, 100, 100))]);
    let update = state.update_tab_strip(true, &on_the_way).unwrap();
    let strips = update.strips;
    assert_eq!(update.close_action, TabCloseAction::CloseWindow);
    assert_eq!(update.colors, state.tab_strip_colors());
    // 13 reaches past the monitor and 14 has no place.
    assert_eq!(strips.len(), 1);
    let key = StripKey {
        monitor: 1,
        workspace: 0,
        column: 1,
    };
    assert_eq!(strips[0].key, key);
    assert_eq!(strips[0].rect, Rect::new(100, 0, 100, 100));
    assert_eq!(strips[0].tabs, vec![11, 12]);
    // The remembered tab is minimized, so the visible one is highlighted.
    assert_eq!(strips[0].active_idx, 0);
    state.workspaces[0].workspaces[0].minimized.clear();
    let again = state.update_tab_strip(true, &on_the_way).unwrap();
    assert_eq!(again.strips[0].active_idx, 2);
    // Nothing is touched where nobody takes what the user does with tabs.
    assert!(state.update_tab_strip(false, &on_the_way).is_none());
    assert_eq!(state.tab_windows(), vec![11, 12, 13, 14]);

    let other = StripKey { column: 2, ..key };
    assert!(strip_is_wanted(&strips, key));
    assert!(!strip_is_wanted(&strips, other));
    assert_eq!(stale_overlays(&vec![key, other], &strips), vec![other]);

    state.workspaces[0].workspaces[0].fullscreen = true;
    let none = state.update_tab_strip(true, &on_the_way).unwrap();
    assert!(none.strips.is_empty());
    assert!(state.tab_windows().is_empty());
    state.workspaces[0].workspaces[0].fullscreen = false;
    state.paused = true;
    let none = state.update_tab_strip(true, &on_the_way).unwrap();
    assert!(none.strips.is_empty());
}

#[test]
fn strips_move_with_their_tabs() {
    let mut state = state();
    state.config.behavior.tab_close_action = TabCloseAction::Untab;
    let workspace = &mut state.workspaces[0].workspaces[0];
    workspace.columns = vec![column(true, &[11]), column(true, &[12])];
    workspace.placements = vec![
        placement(11, Rect::new(100, 0, 100, 100)),
        placement(12, Rect::new(300, 0, 100, 100)),
    ];
    state.layout_transition = Some(LayoutTransition {
        start_rects: HashMap::from([(11, Rect::new(0, 0, 100, 100))]),
        exits: vec![],
        elapsed_ms: 16,
        duration_ms: 150,
        requires_compositor_safe_snap: false,
        ghosted_wids: HashSet::new(),
        exit_park_failures: 0,
    });
    let on_the_way = HashMap::from([
        (11, Rect::new(50, 0, 100, 100)),
        (12, Rect::new(7, 0, 100, 100)),
    ]);
    let update = state.update_tab_strip(true, &on_the_way).unwrap();
    assert_eq!(update.close_action, TabCloseAction::Untab);
    assert_eq!(update.strips.len(), 2);
    assert_eq!(update.strips[0].rect, Rect::new(50, 0, 100, 100));
    // The transition does not move the second.
    assert_eq!(update.strips[1].rect, Rect::new(300, 0, 100, 100));
}

#[test]
fn strip_colours_fall_back() {
    let colors = state().tab_strip_colors();
    assert_eq!(colors.bg, 0x332211);
    assert_eq!(colors.active_bg, 0x303030);
    assert_eq!(colors.active_text, 0xFFFFFF);
    assert_eq!(colors.inactive_text, 0xA0A0A0);
    assert_eq!(colors.opacity, 200);
}

#[test]
fn tab_titles_prefer_the_users() {
    let mut state = state();
    state.tab_title_overrides.insert(10, "Mine".to_string());
    let live = "Live".to_string();
    assert_eq!(state.tab_title(10, Some(&live)), "Mine");
    assert_eq!(state.tab_title(11, Some(&live)), "Live");
    assert_eq!(state.tab_title(11, None), "");
}

#[test]
fn only_an_observed_transfer_moves_the_focus() {
    let mut state = state();
    assert_eq!(state.focus_target(), Some(10));
    assert_eq!(state.sync_foreground_window(false), FocusFollowUp::Nothing);
    assert_eq!(state.previous_focused_hwnd, None);
    assert_eq!(
        state.sync_foreground_window(true),
        FocusFollowUp::Announce(10)
    );
    assert_eq!(state.previous_focused_hwnd, Some(10));
    // A floating window that has the focus keeps it.
    state.previous_focused_hwnd = Some(20);
    assert_eq!(state.focus_target(), Some(20));
    assert_eq!(
        state.sync_foreground_window(true),
        FocusFollowUp::Announce(20)
    );
    assert_eq!(state.focus_target(), Some(20));
    state.workspaces[0].workspaces[0].floating.clear();
    state.workspaces[0].workspaces[0].focused_visible = None;
    assert_eq!(state.sync_foreground_window(true), FocusFollowUp::Clear);
    assert_eq!(state.previous_focused_hwnd, None);

    assert!(foreground_transferred(false, Some(true)));
    assert!(!foreground_transferred(false, Some(false)));
    assert!(!foreground_transferred(false, None));
    assert!(!foreground_transferred(true, Some(true)));
}
