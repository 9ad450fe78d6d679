use leopardwm::autostart::{
    disable_autostart, enable_autostart, get_autostart, preferred_autostart_executable,
    AutostartError, AutostartTarget, RegistryAnswer,
};
use leopardwm::dialog::{
    edit_geometry, edit_key, fade_is_over, glyph_position, icon_position, lighten_bgr, pill_radius, premultiply,
    popup_has_room, route_message, show_rename_inline_popup, tooltip_placement, unpack_point, ActivationEffect,
    CommitEffect, EditGeometry, EditKey, HoverEffects, Placement, PopupContext, PopupError,
    PopupMessage, TooltipChange, FADE_TIMER_ID, VK_ESCAPE, VK_RETURN, WM_CHAR, WM_CLOSE,
    WM_CREATE, WM_INLINE_RENAME_COMMIT, WM_KEYDOWN, WM_TIMER,
};
use leopardwm::focus::{
    close_window, get_foreground_window, ms_since_last_user_input, warp_cursor_to_window,
    FocusError, Handoff, HandoffAction, HandoffDiagnostic,
};
use leopardwm::inspect::WindowBounds;
use leopardwm::ipc_security::pipe_descriptor;

fn bounds(left: i32, top: i32, right: i32, bottom: i32) -> WindowBounds {
    WindowBounds {
        left,
        top,
        right,
        bottom,
    }
}

fn packed(x: i16, y: i16) -> u32 {
    ((y as u16 as u32) << 16) | x as u16 as u32
}

#[test]
fn popup_takes_the_place_of_the_tab() {
    let plan = show_rename_inline_popup(100, 50, 200, 32, 0x1F1F1F).unwrap();
    let g = plan.geometry;
    assert_eq!((g.x, g.y, g.width, g.height), (105, 54, 190, 24));
    // Two thirds of 24 is 16, which is even as 24 is.
    assert_eq!(g.check, bounds(170, 4, 186, 20));
    assert_eq!(plan.hover_color, 0x3B3B3B);
    // An odd height makes the button odd, so that it stays centred.
    let odd = show_rename_inline_popup(0, 0, 200, 33, 0).unwrap().geometry;
    assert_eq!(odd.height, 25);
    assert_eq!(odd.check.top, odd.height - odd.check.bottom);
    assert_eq!(odd.check.bottom - odd.check.top, 17);
    // A tiny tab still gets the least size.
    let tiny = show_rename_inline_popup(0, 0, 1, 1, 0).unwrap().geometry;
    assert_eq!((tiny.width, tiny.height), (20, 12));
    assert_eq!(
        show_rename_inline_popup(0, 0, 0, 30, 0),
        Err(PopupError::ZeroArea)
    );
    assert_eq!(
        show_rename_inline_popup(0, 0, 30, -1, 0),
        Err(PopupError::ZeroArea)
    );
}

#[test]
fn colours_are_lightened_per_channel() {
    assert_eq!(lighten_bgr(0x102030, 0x10), 0x203040);
    assert_eq!(lighten_bgr(0xF0E010, 28), 0xFFFC2C);
    assert_eq!(lighten_bgr(0x123456, 0), 0x123456);
    assert_eq!(lighten_bgr(0x123456, 255), 0xFFFFFF);
    assert_eq!(lighten_bgr(0xAA123456, 0), 0x123456);
}

#[test]
fn edit_control_is_placed_beside_icon_and_button() {
    let plain = edit_geometry(24, 14, None, 32, 170);
    assert_eq!(
        plain,
        EditGeometry {
            left: 3,
            top: 3,
            width: 164,
            height: 21
        }
    );
    let with_icon = edit_geometry(24, 14, Some(18), 32, 170);
    assert_eq!(with_icon.left, 26);
    assert_eq!(with_icon.width, 141);
    // A narrow popup still leaves room for a few letters.
    assert_eq!(edit_geometry(12, 8, None, 14, 5).width, 20);
    assert_eq!(icon_position(24, 14, 18), (3, 3));
    assert_eq!(icon_position(24, 8, 29), (6, -2));
    assert_eq!(glyph_position(bounds(170, 4, 186, 20), 12, 20), (172, 2));
    assert_eq!(pill_radius(16, 18), 5);
    assert_eq!(pill_radius(8, 8), 3);
    assert_eq!(pill_radius(6, 30), 3);
}

#[test]
fn tooltip_is_centred_below_the_button() {
    assert_eq!(
        tooltip_placement(bounds(100, 10, 120, 30), 40, 16),
        Placement {
            x: 76,
            y: 36,
            width: 68,
            height: 32
        }
    );
}

#[test]
fn pixels_are_premultiplied() {
    let mut pixels = vec![200, 100, 50, 128, 10, 20, 30, 255, 9, 9, 9, 0];
    premultiply(&mut pixels);
    assert_eq!(pixels, vec![100, 50, 25, 128, 10, 20, 30, 255, 0, 0, 0, 0]);
}

#[test]
fn pointer_lights_the_check_button() {
    assert_eq!(unpack_point(packed(5, 7)), (5, 7));
    assert_eq!(unpack_point(packed(-1, -32768)), (-1, -32768));
    let mut popup = PopupContext::new(bounds(10, 10, 20, 20), true);
    let enter = popup.on_mouse_move(packed(10, 19));
    assert_eq!(
        enter,
        HoverEffects {
            arm_tracking: true,
            repaint: true,
            tooltip: TooltipChange::Show
        }
    );
    let stay = popup.on_mouse_move(packed(11, 11));
    assert_eq!(
        stay,
        HoverEffects {
            arm_tracking: false,
            repaint: false,
            tooltip: TooltipChange::Stay
        }
    );
    let out = popup.on_mouse_move(packed(20, 11));
    assert!(out.repaint);
    assert_eq!(out.tooltip, TooltipChange::Hide);
    popup.on_mouse_move(packed(15, 15));
    let left = popup.on_mouse_leave();
    assert!(left.repaint);
    assert_eq!(left.tooltip, TooltipChange::Hide);
    assert!(!popup.check_hovered);
    assert!(!popup.tracking_armed);
    assert!(popup.on_lbutton_down(packed(10, 10)));
    assert!(!popup.on_lbutton_down(packed(9, 10)));
    assert!(popup.on_set_cursor(19, 19));
    assert!(!popup.on_set_cursor(19, 20));
    let mut bare = PopupContext::new(bounds(10, 10, 20, 20), false);
    assert_eq!(
        bare.on_mouse_move(packed(12, 12)).tooltip,
        TooltipChange::Stay
    );
}

#[test]
fn only_a_commit_or_a_cancel_ends_the_popup() {
    let mut popup = PopupContext::new(bounds(10, 10, 20, 20), true);
    popup.on_mouse_move(0x000F_000F);
    popup.on_activate(1, true);
    assert_eq!(popup.on_commit("x".repeat(129)), CommitEffect::Reject);
    popup.on_mouse_leave();
    assert!(!popup.finishing);
    assert_eq!(popup.result, None);
    assert_eq!(popup.on_commit("x".repeat(128)), CommitEffect::Close);
    assert!(popup.finishing);
    assert_eq!(popup.result, Some("x".repeat(128)));

    let mut dropped = PopupContext::new(bounds(10, 10, 20, 20), true);
    assert_eq!(dropped.on_commit("x".repeat(200)), CommitEffect::Reject);
    dropped.on_cancel();
    assert!(dropped.finishing);
    assert_eq!(dropped.result, None);
}

#[test]
fn popups_need_room() {
    assert!(popup_has_room(100, 50, 200, 32));
    assert!(popup_has_room(i32::MIN, i32::MIN, i32::MAX, 32));
    assert!(popup_has_room(i32::MAX - 5, 0, 200, 32));
    assert!(!popup_has_room(i32::MAX - 4, 0, 200, 32));
    assert!(!popup_has_room(0, i32::MAX - 3, 200, 32));
    assert!(!popup_has_room(0, 0, 200, i32::MAX));
}

#[test]
fn losing_activation_cancels_once_the_popup_was_active() {
    let mut popup = PopupContext::new(bounds(0, 0, 1, 1), false);
    assert_eq!(popup.on_activate(0, true), ActivationEffect::Nothing);
    assert_eq!(popup.on_activate(1, true), ActivationEffect::FocusEdit);
    assert_eq!(popup.on_activate(1, false), ActivationEffect::Nothing);
    assert_eq!(popup.on_activate(0, true), ActivationEffect::Cancel);
    popup.on_cancel();
    assert!(popup.finishing);
    assert_eq!(popup.on_activate(0, true), ActivationEffect::Nothing);
    assert_eq!(popup.result, None);
}

#[test]
fn titles_are_limited_in_bytes() {
    let mut popup = PopupContext::new(bounds(0, 0, 1, 1), false);
    assert_eq!(popup.on_commit("x".repeat(129)), CommitEffect::Reject);
    assert_eq!(popup.on_commit("\u{e9}".repeat(65)), CommitEffect::Reject);
    assert_eq!(popup.result, None);
    assert!(!popup.finishing);
    assert_eq!(popup.on_commit("\u{e9}".repeat(64)), CommitEffect::Close);
    assert_eq!(popup.result, Some("\u{e9}".repeat(64)));
    assert!(popup.finishing);
}

#[test]
fn keys_and_messages_are_routed() {
    assert_eq!(edit_key(WM_KEYDOWN, VK_ESCAPE), EditKey::Cancel);
    assert_eq!(edit_key(WM_CHAR, VK_RETURN), EditKey::Commit);
    assert_eq!(edit_key(WM_KEYDOWN, 0x41), EditKey::Forward);
    assert_eq!(edit_key(WM_CREATE, VK_RETURN), EditKey::Forward);
    assert_eq!(route_message(WM_CREATE, 0), PopupMessage::Create);
    assert_eq!(route_message(WM_TIMER, FADE_TIMER_ID), PopupMessage::FadeTick);
    assert_eq!(route_message(WM_TIMER, 1), PopupMessage::Default);
    assert_eq!(
        route_message(WM_INLINE_RENAME_COMMIT, 0),
        PopupMessage::Commit
    );
    assert_eq!(route_message(WM_CLOSE, 0), PopupMessage::Close);
    assert_eq!(route_message(0x9999, 0), PopupMessage::Default);
    assert!(!fade_is_over(79));
    assert!(fade_is_over(80));
}

#[test]
fn test_set_foreground_window_zero_fails() {
    let result = Handoff::begin(0, false, false, 0, 1, 0);
    assert!(matches!(result, Err(FocusError::WindowNotFound(0))));
}

#[test]
fn test_set_foreground_window_invalid_hwnd_fails() {
    let result = Handoff::begin(u64::MAX, false, false, 0, 1, 0);
    assert!(matches!(result, Err(FocusError::WindowNotFound(u64::MAX))));
}

#[test]
fn test_close_window_zero_fails() {
    let result = close_window(0, true);
    assert!(result.is_err());
    assert!(matches!(result.unwrap_err(), FocusError::WindowNotFound(0)));
}

/// Runs a handover from thread 1 whose calls come out as `answers` says; the calls
/// that it asked for, and the handover.
fn hand_over(foreground: u32, target: u32, answers: &[bool]) -> (Vec<HandoffAction>, Handoff) {
    let mut handoff = Handoff::begin(6, true, false, target, 1, foreground)
        .ok()
        .unwrap();
    let mut actions = vec![];
    for &answer in answers {
        actions.push(handoff.next_action());
        handoff.step(answer);
    }
    assert_eq!(handoff.next_action(), HandoffAction::Finish);
    (actions, handoff)
}

#[test]
fn handoff_attaches_asks_and_detaches() {
    let (actions, handoff) = hand_over(2, 3, &[true, true, true, true, true]);
    assert_eq!(
        actions,
        vec![
            HandoffAction::Attach(2),
            HandoffAction::Attach(3),
            HandoffAction::Request,
            HandoffAction::Detach(2),
            HandoffAction::Detach(3),
        ]
    );
    assert_eq!(handoff.set_foreground_window(), Ok(true));
    assert!(handoff.diagnostics.is_empty());

    // The window of the foreground thread is attached once, this thread never.
    let (actions, _) = hand_over(3, 3, &[true, true, true]);
    assert_eq!(
        actions,
        vec![
            HandoffAction::Attach(3),
            HandoffAction::Request,
            HandoffAction::Detach(3),
        ]
    );
    let (actions, _) = hand_over(0, 1, &[true]);
    assert_eq!(actions, vec![HandoffAction::Request]);
    let (actions, _) = hand_over(1, 3, &[true, true, true]);
    assert_eq!(actions[0], HandoffAction::Attach(3));

    // A refused request is repeated once the window was raised.
    let (actions, handoff) = hand_over(0, 1, &[false, true, true]);
    assert_eq!(
        actions,
        vec![
            HandoffAction::Request,
            HandoffAction::Raise,
            HandoffAction::Request
        ]
    );
    assert_eq!(handoff.set_foreground_window(), Ok(true));
}

#[test]
fn handoff_records_what_went_wrong() {
    assert_eq!(
        Handoff::begin(5, true, true, 3, 1, 0).err(),
        Some(FocusError::RestoreFailed(5))
    );
    assert_eq!(
        Handoff::begin(5, true, false, 0, 1, 0).err(),
        Some(FocusError::NoThread(5))
    );
    // A thread that could not be attached is tried again as the window's.
    let (actions, refused) = hand_over(3, 3, &[false, true, false, true, false, false]);
    assert_eq!(
        actions,
        vec![
            HandoffAction::Attach(3),
            HandoffAction::Attach(3),
            HandoffAction::Request,
            HandoffAction::Raise,
            HandoffAction::Request,
            HandoffAction::Detach(3),
        ]
    );
    assert_eq!(
        refused.diagnostics,
        vec![
            HandoffDiagnostic::AttachFailed(3),
            HandoffDiagnostic::StillRefused,
            HandoffDiagnostic::DetachFailed(3),
        ]
    );
    assert_eq!(refused.set_foreground_window(), Err(FocusError::Refused(6)));

    let (_, unraised) = hand_over(0, 1, &[false, false]);
    assert_eq!(unraised.diagnostics, vec![HandoffDiagnostic::RaiseFailed]);
    assert_eq!(
        unraised.set_foreground_window(),
        Err(FocusError::Refused(6))
    );
    assert_eq!(close_window(5, false), Err(FocusError::CloseFailed(5)));
    assert_eq!(close_window(5, true), Ok(()));
}

#[test]
fn pointer_and_clock_are_computed() {
    assert_eq!(get_foreground_window(0), None);
    assert_eq!(get_foreground_window(9), Some(9));
    assert_eq!(ms_since_last_user_input(5, Some(3)), Some(2));
    assert_eq!(ms_since_last_user_input(2, Some(u32::MAX)), Some(3));
    assert_eq!(ms_since_last_user_input(2, None), None);
    let place = Some(bounds(-10, 0, 11, 5));
    assert_eq!(warp_cursor_to_window(true, false, place), Some((0, 2)));
    assert_eq!(warp_cursor_to_window(false, false, place), None);
    assert_eq!(warp_cursor_to_window(true, true, place), None);
    assert_eq!(warp_cursor_to_window(true, false, None), None);
}

#[test]
fn autostart_prefers_sibling_watchdog_and_falls_back() {
    assert_eq!(
        preferred_autostart_executable(true, true, false),
        AutostartTarget::Daemon
    );
    assert_eq!(
        preferred_autostart_executable(true, true, true),
        AutostartTarget::Watchdog
    );
    assert_eq!(
        preferred_autostart_executable(false, true, true),
        AutostartTarget::Daemon
    );
    assert_eq!(
        preferred_autostart_executable(true, false, true),
        AutostartTarget::Daemon
    );
}

#[test]
fn autostart_setting_is_read_and_written() {
    assert_eq!(get_autostart(RegistryAnswer::Done), Ok(true));
    assert_eq!(get_autostart(RegistryAnswer::NotFound), Ok(false));
    assert_eq!(
        get_autostart(RegistryAnswer::Failed),
        Err(AutostartError::ReadFailed)
    );
    assert_eq!(
        enable_autostart("C:\\L W\\l.exe", false),
        Ok("\"C:\\L W\\l.exe\"".to_string())
    );
    assert_eq!(
        enable_autostart("C:\\Temp\\l.exe", true),
        Err(AutostartError::InTempDirectory)
    );
    assert_eq!(disable_autostart(RegistryAnswer::Done), Ok(()));
    assert_eq!(disable_autostart(RegistryAnswer::NotFound), Ok(()));
    assert_eq!(
        disable_autostart(RegistryAnswer::Failed),
        Err(AutostartError::RemoveFailed)
    );
}

#[test]
fn pipe_descriptor_names_the_user() {
    assert_eq!(
        pipe_descriptor(Some("S-1-5-21-7")),
        Some("D:(A;;FA;;;S-1-5-21-7)(A;;FA;;;SY)S:(ML;;NW;;;ME)".to_string())
    );
    assert_eq!(pipe_descriptor(None), None);
}
