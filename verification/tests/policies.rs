use leopardwm::event_hooks::WindowEvent;
use leopardwm::policies::{
    can_skip_unchanged_layout, clear_resize_preview_active_if_owned, display_settle_debounce_ms,
    fullscreen_focus_guard, legacy_compositor_nudge_required, merged_cleanup_window_ids,
    pipe_probe_error_indicates_running, reconcile_animation_result_epoch,
    response_for_ipc_wait_failure, select_drag_mode, shutdown_mode_for_command,
    update_display_change_needs_full, AnimationResultOwnership, Args, DragMode, ElevationCheck,
    ElevationLog, IpcCommand, IpcResponse, ShutdownMode, ERROR_FILE_NOT_FOUND, ERROR_PIPE_BUSY,
};

fn indicates_running(error: &std::io::Error) -> bool {
    pipe_probe_error_indicates_running(
        error.raw_os_error(),
        error.kind() == std::io::ErrorKind::NotFound,
    )
}

#[test]
fn test_display_full_change_keeps_long_debounce_after_work_area_event() {
    let full_then_work_area = update_display_change_needs_full(
        update_display_change_needs_full(false, &WindowEvent::DisplayChange),
        &WindowEvent::WorkAreaChanged,
    );
    let work_area_then_full = update_display_change_needs_full(
        update_display_change_needs_full(false, &WindowEvent::WorkAreaChanged),
        &WindowEvent::DisplayChange,
    );
    assert!(full_then_work_area);
    assert!(work_area_then_full);
    assert_eq!(display_settle_debounce_ms(full_then_work_area), 500);
    assert_eq!(display_settle_debounce_ms(false), 180);
}

#[test]
fn test_resize_preview_only_owning_generation_clears_active() {
    let mut active_generation = 2;
    let mut active = true;

    assert!(
        !clear_resize_preview_active_if_owned(1, &mut active_generation, &mut active),
        "canceled generation A must not clear active generation B"
    );
    assert!(active);
    assert_eq!(active_generation, 2);

    assert!(clear_resize_preview_active_if_owned(
        2,
        &mut active_generation,
        &mut active
    ));
    assert!(!active);
    assert_eq!(active_generation, 0);
}

#[test]
fn test_animation_result_only_consumes_its_own_epoch_token() {
    let mut awaited = Some(11);
    let mut last = Some(1000);
    assert_eq!(
        reconcile_animation_result_epoch(12, 11, &mut awaited, &mut last),
        AnimationResultOwnership::StaleOwned
    );
    assert_eq!(awaited, None);
    assert!(last.is_none());

    awaited = Some(12);
    last = Some(2000);
    assert_eq!(
        reconcile_animation_result_epoch(12, 12, &mut awaited, &mut last),
        AnimationResultOwnership::Current
    );
    assert_eq!(awaited, None);
    assert!(last.is_some());

    // A queued result arriving after a replacement was dispatched must not
    // clear the replacement or alter its frame clock.
    awaited = Some(13);
    let replacement_clock = 3000;
    last = Some(replacement_clock);
    assert_eq!(
        reconcile_animation_result_epoch(13, 11, &mut awaited, &mut last),
        AnimationResultOwnership::Unowned
    );
    assert_eq!(awaited, Some(13));
    assert_eq!(last, Some(replacement_clock));
}

#[test]
fn test_note_elevation_block_lifecycle() {
    let mut log = ElevationLog::new();
    let hwnd = 0xABCD_u64;

    assert_eq!(
        log.note_elevation_block(hwnd, "Admin: term", true),
        ElevationCheck::BlockedNew
    );
    assert_eq!(
        log.blocked.get(&hwnd).map(String::as_str),
        Some("Admin: term")
    );

    assert_eq!(
        log.note_elevation_block(hwnd, "Admin: term", true),
        ElevationCheck::BlockedKnown
    );

    assert_eq!(
        log.note_elevation_block(hwnd, "Admin: other", true),
        ElevationCheck::BlockedNew
    );
    assert_eq!(
        log.blocked.get(&hwnd).map(String::as_str),
        Some("Admin: other")
    );

    assert_eq!(
        log.note_elevation_block(hwnd, "Notepad", false),
        ElevationCheck::Manageable
    );
    assert!(!log.blocked.contains_key(&hwnd));

    assert_eq!(
        log.note_elevation_block(0x1234, "Other", false),
        ElevationCheck::Manageable
    );
    assert!(log.blocked.is_empty());
}

#[test]
fn test_response_for_ipc_wait_failure_shutdown_commands_require_acknowledgement() {
    match response_for_ipc_wait_failure(&IpcCommand::Stop, true) {
        IpcResponse::Error { message } => {
            assert!(message.contains("Timed out waiting for daemon response"));
        }
        other => panic!("Expected stop timeout error response, got {other:?}"),
    }
    match response_for_ipc_wait_failure(&IpcCommand::PanicRevert, false) {
        IpcResponse::Error { message } => {
            assert!(message.contains("Failed to get response from daemon"));
        }
        other => panic!("Expected panic-revert responder error response, got {other:?}"),
    }
}

#[test]
fn test_response_for_ipc_wait_failure_non_shutdown_returns_error() {
    match response_for_ipc_wait_failure(&IpcCommand::FocusLeft, true) {
        IpcResponse::Error { message } => {
            assert!(message.contains("Timed out waiting for daemon response"));
        }
        other => panic!("Expected timeout error response, got {:?}", other),
    }

    match response_for_ipc_wait_failure(&IpcCommand::FocusLeft, false) {
        IpcResponse::Error { message } => {
            assert!(message.contains("Failed to get response from daemon"));
        }
        other => panic!("Expected responder error response, got {:?}", other),
    }
}

#[test]
fn test_shutdown_mode_for_command_maps_shutdown_variants() {
    assert_eq!(
        shutdown_mode_for_command(&IpcCommand::Stop),
        Some(ShutdownMode::Graceful)
    );
    assert_eq!(
        shutdown_mode_for_command(&IpcCommand::PanicRevert),
        Some(ShutdownMode::PanicRevert)
    );
    assert_eq!(shutdown_mode_for_command(&IpcCommand::FocusLeft), None);
}

#[test]
fn test_drag_mode_latches_standalone_override_and_shift_priority() {
    assert_eq!(select_drag_mode(true, false, false, true), DragMode::Window);
    assert_eq!(
        select_drag_mode(true, false, true, true),
        DragMode::WindowAsColumn
    );
    assert_eq!(
        select_drag_mode(true, false, false, false),
        DragMode::WindowAsColumn
    );
    assert_eq!(select_drag_mode(true, true, true, false), DragMode::Column);
    assert_eq!(
        select_drag_mode(false, false, true, false),
        DragMode::Window,
        "floating drags are unaffected by tiled merge policy"
    );
}

#[test]
fn test_post_animation_landing_cannot_take_unchanged_fast_path() {
    assert!(can_skip_unchanged_layout(true, false, false));
    assert!(!can_skip_unchanged_layout(true, false, true));
    assert!(!can_skip_unchanged_layout(false, false, false));
    assert!(!can_skip_unchanged_layout(true, true, false));

    assert!(!legacy_compositor_nudge_required(true, true));
    assert!(legacy_compositor_nudge_required(true, false));
    assert!(!legacy_compositor_nudge_required(false, false));
}

#[test]
fn test_args_default_all_false() {
    let args = Args {
        no_hotkeys: false,
        safe_mode: false,
    };
    assert!(!args.skip_hotkeys());
}

#[test]
fn test_args_no_hotkeys() {
    let args = Args {
        no_hotkeys: true,
        safe_mode: false,
    };
    assert!(args.skip_hotkeys());
}

#[test]
fn test_args_safe_mode_implies_no_hotkeys() {
    let args = Args {
        no_hotkeys: false,
        safe_mode: true,
    };
    assert!(args.skip_hotkeys());
}

#[test]
fn test_pipe_busy_error_code_is_231() {
    assert_eq!(ERROR_PIPE_BUSY, 231);
    let err = std::io::Error::from_raw_os_error(ERROR_PIPE_BUSY);
    assert_eq!(err.raw_os_error(), Some(231));
}

#[test]
fn test_pipe_probe_error_hardening_logic() {
    let busy = std::io::Error::from_raw_os_error(ERROR_PIPE_BUSY);
    assert!(indicates_running(&busy));

    let not_found = std::io::Error::from_raw_os_error(ERROR_FILE_NOT_FOUND);
    assert!(!indicates_running(&not_found));

    let not_found_kind = std::io::Error::new(std::io::ErrorKind::NotFound, "missing");
    assert!(!indicates_running(&not_found_kind));

    let access_denied = std::io::Error::from_raw_os_error(5); // ERROR_ACCESS_DENIED
    assert!(indicates_running(&access_denied));
}

#[test]
fn test_merged_cleanup_window_ids_deduplicates_and_preserves_all_sources() {
    let managed = vec![10, 30, 20];
    let discovered = vec![20, 40, 10, 50];
    let merged = merged_cleanup_window_ids(&managed, &discovered);
    assert_eq!(merged, vec![10, 20, 30, 40, 50]);
}

#[test]
fn test_fullscreen_focus_guard() {
    // User-initiated focus is always honored (no override).
    assert_eq!(fullscreen_focus_guard(true, Some(1), 2), None);
    // Not fullscreen: nothing to keep.
    assert_eq!(fullscreen_focus_guard(false, None, 2), None);
    // Non-user focus to the fullscreen window itself: let it through.
    assert_eq!(fullscreen_focus_guard(false, Some(1), 1), None);
    // Non-user focus to a different window while fullscreen: keep fullscreen.
    assert_eq!(fullscreen_focus_guard(false, Some(1), 2), Some(1));
}

#[test]
fn other_events_do_not_lengthen_the_settling() {
    for event in [WindowEvent::WorkAreaChanged, WindowEvent::Focused(3)] {
        assert!(!update_display_change_needs_full(false, &event));
        assert!(update_display_change_needs_full(true, &event));
    }
}
