use leopardwm::gestures::{
    modifier_flag, modifier_flags, scroll_modifiers_held, set_scroll_modifier, wheel_axis,
    wheel_delta, DeliveryOutcome, GestureHook, ModifierKeys, WheelMessage, WM_MOUSEHWHEEL,
    WM_MOUSEWHEEL,
};
use leopardwm::hook_thread::{
    init_outcome, pump_step, shutdown_step, HookInstallError, InitReport, PumpStep, ShutdownStep,
};
use leopardwm::wheel::{
    scroll_event, GestureEvent, WheelAxis, WheelGestureEngine, WheelGestureInput, WheelMode,
    GESTURE_TIMEOUT_MS, LLMHF_INJECTED,
};
use std::sync::mpsc;

fn input(
    now_ms: u128,
    axis: WheelAxis,
    delta: i32,
    mods_held: bool,
    flags: u32,
) -> WheelGestureInput {
    WheelGestureInput {
        now_ms,
        axis,
        delta,
        flags,
        mods_held,
        swipe_candidate: flags & LLMHF_INJECTED != 0,
    }
}

fn offer(tx: &mpsc::SyncSender<GestureEvent>, event: GestureEvent) -> DeliveryOutcome {
    match tx.try_send(event) {
        Ok(()) => DeliveryOutcome::Delivered,
        Err(mpsc::TrySendError::Full(_)) => DeliveryOutcome::Full,
        Err(mpsc::TrySendError::Disconnected(_)) => DeliveryOutcome::Disconnected,
    }
}

fn no_keys() -> ModifierKeys {
    ModifierKeys {
        control: false,
        menu: false,
        shift: false,
        left_win: false,
        right_win: false,
    }
}

fn ctrl_alt() -> ModifierKeys {
    ModifierKeys {
        control: true,
        menu: true,
        ..no_keys()
    }
}

fn wheel_call(thread: u32, message: u32, delta: i16, flags: u32) -> WheelMessage {
    WheelMessage {
        code: 0,
        thread,
        message,
        mouse_data: (delta as u16 as u32) << 16,
        flags,
    }
}

#[test]
fn modifier_notches_remain_one_to_one() {
    let mut engine = WheelGestureEngine::new();

    let up = engine.process(input(0, WheelAxis::Vertical, 120, true, 0));
    let down = engine.process(input(100, WheelAxis::Vertical, -120, true, 0));
    let passthrough = engine.process(input(200, WheelAxis::Vertical, 120, false, 0));

    assert_eq!(up.event, Some(GestureEvent::ScrollUp));
    assert!(up.consume);
    assert_eq!(down.event, Some(GestureEvent::ScrollDown));
    assert!(down.consume);
    assert_eq!(passthrough.event, None);
    assert!(!passthrough.consume);
}

#[test]
fn modifier_stream_at_40ms_is_cooldown_bound() {
    let mut engine = WheelGestureEngine::new();
    let mut emitted = 0;

    for index in 0..9 {
        let result = engine.process(input(index * 40, WheelAxis::Vertical, 120, true, 0));
        assert!(result.consume);
        emitted += usize::from(result.event.is_some());
    }

    assert_eq!(emitted, 3);
}

#[test]
fn partial_ticks_do_not_emit_before_reaching_a_notch() {
    let mut engine = WheelGestureEngine::new();

    let first = engine.process(input(0, WheelAxis::Vertical, 10, true, 0));
    let second = engine.process(input(10, WheelAxis::Vertical, 10, true, 0));
    let third = engine.process(input(20, WheelAxis::Vertical, 10, true, 0));

    assert_eq!(first.event, None);
    assert_eq!(second.event, None);
    assert_eq!(third.event, None);
    assert_eq!(engine.navigation_mode, WheelMode::Stream);
    assert_eq!(engine.navigation_accum, 30);
}

#[test]
fn navigation_stream_retains_only_partial_remainder_during_cooldown() {
    let mut engine = WheelGestureEngine::new();

    let first = engine.process(input(0, WheelAxis::Vertical, 240, true, 0));
    assert_eq!(first.event, Some(GestureEvent::ScrollUp));
    assert_eq!(engine.navigation_accum, 0);

    for now_ms in [40, 80, 120] {
        let suppressed = engine.process(input(now_ms, WheelAxis::Vertical, 1, true, 0));
        assert_eq!(suppressed.event, None);
        assert!(suppressed.trace.cooldown_suppressed);
        assert_eq!(engine.navigation_accum, 0);
    }
    let residual = engine.process(input(160, WheelAxis::Vertical, 1, true, 0));
    assert_eq!(residual.event, None);
    assert_eq!(engine.navigation_accum, 1);

    let mut multi_notch_engine = WheelGestureEngine::new();
    let multi_notch = multi_notch_engine.process(input(0, WheelAxis::Vertical, 250, true, 0));
    assert_eq!(multi_notch.event, Some(GestureEvent::ScrollUp));
    assert_eq!(multi_notch_engine.navigation_accum, 10);

    let partial_suppressed =
        multi_notch_engine.process(input(40, WheelAxis::Vertical, 1, true, 0));
    assert_eq!(partial_suppressed.event, None);
    assert!(partial_suppressed.trace.cooldown_suppressed);
    assert_eq!(multi_notch_engine.navigation_accum, 10);
}

#[test]
fn navigation_sign_reversal_cancels_partial_accumulation() {
    let mut engine = WheelGestureEngine::new();

    engine.process(input(0, WheelAxis::Vertical, 80, true, 0));
    let result = engine.process(input(40, WheelAxis::Vertical, -80, true, 0));

    assert_eq!(result.event, None);
    assert_eq!(engine.navigation_accum, 0);
}

#[test]
fn zero_delta_navigation_passes_through() {
    let mut engine = WheelGestureEngine::new();

    let result = engine.process(input(0, WheelAxis::Vertical, 0, true, 0));

    assert_eq!(result.event, None);
    assert!(!result.consume);
    assert_eq!(engine.navigation_last_event_ms, None);
}

#[test]
fn navigation_stream_resets_after_pause() {
    let mut engine = WheelGestureEngine::new();
    for index in 0..3 {
        engine.process(input(index * 10, WheelAxis::Vertical, 40, true, 0));
    }

    let result = engine.process(input(200, WheelAxis::Vertical, 120, true, 0));

    assert_eq!(result.event, Some(GestureEvent::ScrollUp));
    assert_eq!(result.trace.stream_end.unwrap().emitted, 1);
}

#[test]
fn rapid_swipes_remain_independent() {
    let mut engine = WheelGestureEngine::new();

    let first = engine.process(input(0, WheelAxis::Vertical, 360, false, LLMHF_INJECTED));
    let second = engine.process(input(10, WheelAxis::Vertical, 360, false, LLMHF_INJECTED));

    assert_eq!(first.event, Some(GestureEvent::SwipeDown));
    assert_eq!(second.event, Some(GestureEvent::SwipeDown));
}

#[test]
fn horizontal_swipe_accumulates_independently() {
    let mut engine = WheelGestureEngine::new();

    engine.process(input(0, WheelAxis::Vertical, 240, false, LLMHF_INJECTED));
    let result = engine.process(input(
        10,
        WheelAxis::Horizontal,
        -360,
        false,
        LLMHF_INJECTED,
    ));

    assert_eq!(result.event, Some(GestureEvent::SwipeLeft));
    assert_eq!(engine.swipe_accum_y, 240);
}

#[test]
fn non_candidate_unmodified_wheel_passes_through() {
    let mut engine = WheelGestureEngine::new();

    let result = engine.process(input(0, WheelAxis::Vertical, 120, false, 0));

    assert_eq!(result.event, None);
    assert!(!result.consume);
}

#[test]
fn swipe_timeout_clears_partial_accumulation() {
    let mut engine = WheelGestureEngine::new();

    engine.process(input(0, WheelAxis::Vertical, 240, false, LLMHF_INJECTED));
    let result = engine.process(input(
        GESTURE_TIMEOUT_MS + 1,
        WheelAxis::Vertical,
        120,
        false,
        LLMHF_INJECTED,
    ));

    assert_eq!(result.event, None);
}

#[test]
fn injection_flag_does_not_change_navigation_stream_mode() {
    let mut unflagged = WheelGestureEngine::new();
    let mut injected = WheelGestureEngine::new();
    let mut unflagged_events = Vec::new();
    let mut injected_events = Vec::new();

    for index in 0..6 {
        unflagged_events.push(
            unflagged
                .process(input(index * 40, WheelAxis::Vertical, 120, true, 0))
                .event,
        );
        injected_events.push(
            injected
                .process(input(
                    index * 40,
                    WheelAxis::Vertical,
                    120,
                    true,
                    LLMHF_INJECTED,
                ))
                .event,
        );
    }

    assert_eq!(unflagged_events, injected_events);
    assert_eq!(unflagged.navigation_mode, injected.navigation_mode);
}

#[test]
fn disconnected_delivery_disarms_wheel_consumption_without_releasing_singleton() {
    let (tx, rx) = mpsc::sync_channel(1);
    drop(rx);
    let mut hook = GestureHook::new();
    assert!(hook.begin_registration(false, false).is_ok());
    assert!(hook.delivery_connected);

    assert!(!hook.send_gesture_event(offer(&tx, GestureEvent::ScrollUp)));
    assert!(!hook.delivery_connected);
    assert!(hook.sender_installed);
    hook.clear_gesture_globals();
    assert!(!hook.sender_installed);
}

#[test]
fn failed_navigation_delivery_rearms_the_next_notch() {
    let mut engine = WheelGestureEngine::new();
    let first = engine.process(input(0, WheelAxis::Vertical, 120, true, 0));
    assert_eq!(first.event, Some(GestureEvent::ScrollUp));
    engine.retry_navigation_after_failed_delivery();
    let retry = engine.process(input(10, WheelAxis::Vertical, 120, true, 0));
    assert_eq!(retry.event, Some(GestureEvent::ScrollUp));
}

#[test]
fn full_delivery_queue_passes_through_without_disabling_generation() {
    let (tx, _rx) = mpsc::sync_channel(1);
    tx.try_send(GestureEvent::SwipeLeft).unwrap();
    let mut hook = GestureHook::new();
    assert!(hook.begin_registration(false, false).is_ok());

    assert!(!hook.send_gesture_event(offer(&tx, GestureEvent::ScrollUp)));
    assert!(hook.delivery_connected);
    hook.clear_gesture_globals();
}

#[test]
fn stale_generation_cannot_clear_active_gesture_state() {
    let mut hook = GestureHook::new();
    assert!(hook.begin_registration(false, false).is_ok());
    hook.active_thread = 32;

    hook.retire_gesture_thread(31);
    assert!(hook.sender_installed);
    hook.retire_gesture_thread(32);
    assert!(!hook.sender_installed);
    assert!(hook.engine.is_none());
    assert_eq!(hook.active_thread, 0);
}

#[test]
fn stream_summary_reports_the_whole_stream() {
    let mut engine = WheelGestureEngine::new();
    engine.process(input(0, WheelAxis::Vertical, 120, true, 4));
    let second = engine.process(input(40, WheelAxis::Vertical, 120, true, 2));
    assert_eq!(
        second.trace.mode_transition,
        Some((WheelMode::Discrete, WheelMode::Stream))
    );
    assert!(second.trace.cooldown_suppressed);
    engine.process(input(80, WheelAxis::Vertical, 120, true, 0));
    let ended = engine.process(input(1000, WheelAxis::Vertical, 10, true, 0));
    let summary = ended.trace.stream_end.unwrap();
    assert_eq!(summary.emitted, 0);
    assert_eq!(summary.suppressed, 2);
    assert_eq!(summary.duration_ms, 960);
    assert_eq!(summary.flags_seen, 6);
    assert_eq!(
        ended.trace.mode_transition,
        Some((WheelMode::Stream, WheelMode::Discrete))
    );
    assert_eq!(engine.navigation_stream_flags, 0);
}

#[test]
fn negative_notches_keep_a_negative_remainder() {
    let mut engine = WheelGestureEngine::new();
    let result = engine.process(input(0, WheelAxis::Vertical, -250, true, 0));
    assert_eq!(result.event, Some(GestureEvent::ScrollDown));
    assert_eq!(engine.navigation_accum, -10);
    assert_eq!(engine.navigation_cooldown_until_ms, Some(150));
}

#[test]
fn swipes_fire_at_the_threshold_in_every_direction() {
    for (axis, delta, expected) in [
        (WheelAxis::Horizontal, 360i32, GestureEvent::SwipeRight),
        (WheelAxis::Horizontal, -360, GestureEvent::SwipeLeft),
        (WheelAxis::Vertical, 360, GestureEvent::SwipeDown),
        (WheelAxis::Vertical, -360, GestureEvent::SwipeUp),
    ] {
        let mut engine = WheelGestureEngine::new();
        let short = engine.process(input(0, axis, delta - delta.signum(), false, LLMHF_INJECTED));
        assert_eq!(short.event, None);
        let full = engine.process(input(1, axis, delta.signum(), false, LLMHF_INJECTED));
        assert_eq!(full.event, Some(expected));
        assert!(!full.consume);
        assert_eq!(full.trace.accumulation, Some(0));
    }
    assert_eq!(scroll_event(1), GestureEvent::ScrollUp);
    assert_eq!(scroll_event(-1), GestureEvent::ScrollDown);
}

#[test]
fn scroll_modifier_setting_is_read() {
    let mut flags = 0;
    set_scroll_modifier(&mut flags, "Ctrl+Alt");
    assert_eq!(flags, 0x03);
    set_scroll_modifier(&mut flags, "CONTROL + Shift");
    assert_eq!(flags, 0x05);
    set_scroll_modifier(&mut flags, " super +\tMENU\u{a0}");
    assert_eq!(flags, 0x0a);
    set_scroll_modifier(&mut flags, "Win+Hyper");
    assert_eq!(flags, 0x08);
    set_scroll_modifier(&mut flags, "");
    assert_eq!(flags, 0x03);
    set_scroll_modifier(&mut flags, "+++");
    assert_eq!(flags, 0x03);
    set_scroll_modifier(&mut flags, "hyper");
    assert_eq!(flags, 0x03);
}

#[test]
fn modifier_words_have_their_bits() {
    assert_eq!(modifier_flag("ctrl"), 1);
    assert_eq!(modifier_flag("control"), 1);
    assert_eq!(modifier_flag("alt"), 2);
    assert_eq!(modifier_flag("menu"), 2);
    assert_eq!(modifier_flag("shift"), 4);
    assert_eq!(modifier_flag("win"), 8);
    assert_eq!(modifier_flag("super"), 8);
    assert_eq!(modifier_flag("Ctrl"), 0);
    assert_eq!(modifier_flags(&vec!["shift".to_string(), "x".to_string()]), 4);
    assert_eq!(modifier_flags(&vec![]), 3);
}

#[test]
fn modifiers_are_all_required() {
    assert!(!scroll_modifiers_held(0, ctrl_alt()));
    assert!(scroll_modifiers_held(0x03, ctrl_alt()));
    assert!(!scroll_modifiers_held(0x07, ctrl_alt()));
    assert!(!scroll_modifiers_held(0x08, ctrl_alt()));
    let right_win = ModifierKeys {
        right_win: true,
        ..no_keys()
    };
    assert!(scroll_modifiers_held(0x08, right_win));
    let left_win = ModifierKeys {
        left_win: true,
        ..no_keys()
    };
    assert!(scroll_modifiers_held(0x08, left_win));
}

#[test]
fn wheel_messages_are_decoded() {
    assert_eq!(wheel_axis(WM_MOUSEWHEEL), Some(WheelAxis::Vertical));
    assert_eq!(wheel_axis(WM_MOUSEHWHEEL), Some(WheelAxis::Horizontal));
    assert_eq!(wheel_axis(0x0200), None);
    assert_eq!(wheel_delta(0x0078_0000), 120);
    assert_eq!(wheel_delta(0xff88_1234), -120);
    assert_eq!(wheel_delta(0x8000_0000), -32768);
    assert_eq!(wheel_delta(0x7fff_ffff), 32767);
}

#[test]
fn delivered_navigation_is_swallowed_and_undelivered_passes() {
    let mut hook = GestureHook::new();
    hook.begin_registration(false, false).unwrap();
    hook.active_thread = 7;
    let step = hook.on_wheel(wheel_call(7, WM_MOUSEWHEEL, 120, 0), ctrl_alt(), 0, 5000);
    assert_eq!(step.event, Some(GestureEvent::ScrollUp));
    assert!(step.mods_held);
    assert!(!step.report_modifier_miss);
    assert!(!hook.finish_wheel(step, DeliveryOutcome::Full));
    // The notch was taken back, so the next one is not held up.
    let again = hook.on_wheel(wheel_call(7, WM_MOUSEWHEEL, 120, 0), ctrl_alt(), 10, 5000);
    assert_eq!(again.event, Some(GestureEvent::ScrollUp));
    assert!(hook.finish_wheel(again, DeliveryOutcome::Delivered));
    // Within the cooldown nothing is emitted, and the notch is swallowed.
    let quiet = hook.on_wheel(wheel_call(7, WM_MOUSEWHEEL, 120, 0), ctrl_alt(), 50, 5000);
    assert_eq!(quiet.event, None);
    assert!(hook.finish_wheel(quiet, DeliveryOutcome::NoSender));
    assert!(hook.delivery_connected);
}

#[test]
fn an_exhausted_engine_takes_no_navigation() {
    let mut hook = GestureHook::new();
    hook.begin_registration(false, false).unwrap();
    hook.active_thread = 7;
    let notch = wheel_call(7, WM_MOUSEWHEEL, 120, 0);
    let sideways = wheel_call(7, WM_MOUSEHWHEEL, 120, 0);
    assert!(hook.can_take(notch, ctrl_alt(), 0));
    assert!(!hook.can_take(notch, ctrl_alt(), u128::MAX));
    // Calls that the engine does not count need no room.
    assert!(hook.can_take(notch, no_keys(), u128::MAX));
    assert!(hook.can_take(sideways, ctrl_alt(), u128::MAX));
    assert!(hook.can_take(wheel_call(8, WM_MOUSEWHEEL, 120, 0), ctrl_alt(), u128::MAX));
    let step = hook.on_wheel(sideways, ctrl_alt(), u128::MAX, 0);
    assert_eq!(step.event, None);
    if let Some(engine) = hook.engine.as_mut() {
        engine.navigation_burst_count = u32::MAX;
    }
    assert!(!hook.can_take(notch, ctrl_alt(), 0));
}

#[test]
fn foreign_calls_are_passed_on() {
    let mut hook = GestureHook::new();
    hook.begin_registration(false, false).unwrap();
    hook.active_thread = 7;
    for call in [
        wheel_call(8, WM_MOUSEWHEEL, 120, 0),
        wheel_call(7, 0x0200, 120, 0),
        WheelMessage {
            code: -1,
            ..wheel_call(7, WM_MOUSEWHEEL, 120, 0)
        },
    ] {
        let step = hook.on_wheel(call, ctrl_alt(), 0, 5000);
        assert_eq!(step.event, None);
        assert!(!step.consume);
        assert!(!hook.finish_wheel(step, DeliveryOutcome::Delivered));
    }
}

#[test]
fn missing_modifiers_are_reported_once_a_second() {
    let mut hook = GestureHook::new();
    hook.begin_registration(false, false).unwrap();
    hook.active_thread = 7;
    let call = wheel_call(7, WM_MOUSEWHEEL, 120, 0);
    assert!(hook.on_wheel(call, no_keys(), 0, 5000).report_modifier_miss);
    assert!(!hook.on_wheel(call, no_keys(), 1, 5999).report_modifier_miss);
    assert!(hook.on_wheel(call, no_keys(), 2, 6000).report_modifier_miss);
    let sideways = wheel_call(7, WM_MOUSEHWHEEL, 120, 0);
    assert!(!hook.on_wheel(sideways, no_keys(), 3, 9000).report_modifier_miss);
}

#[test]
fn injected_wheel_is_a_swipe() {
    let mut hook = GestureHook::new();
    hook.begin_registration(false, false).unwrap();
    hook.active_thread = 7;
    let call = wheel_call(7, WM_MOUSEHWHEEL, 360, LLMHF_INJECTED);
    let step = hook.on_wheel(call, ctrl_alt(), 0, 0);
    assert_eq!(step.event, Some(GestureEvent::SwipeRight));
    assert!(!step.mods_held);
    assert!(!hook.finish_wheel(step, DeliveryOutcome::Delivered));
}

#[test]
fn registration_is_refused_or_rolled_back() {
    let mut hook = GestureHook::new();
    assert_eq!(
        hook.begin_registration(true, false),
        Err(HookInstallError::LockPoisoned)
    );
    assert_eq!(
        hook.begin_registration(false, true),
        Err(HookInstallError::LockPoisoned)
    );
    assert!(!hook.sender_installed);
    assert!(!hook.delivery_connected);
    assert_eq!(hook.begin_registration(false, false), Ok(()));
    assert_eq!(
        hook.begin_registration(false, false),
        Err(HookInstallError::AlreadyInitialized)
    );
    assert!(hook.sender_installed);
}

#[test]
fn pump_threads_are_started_and_awaited() {
    let ready = init_outcome(InitReport::Ready(9), false);
    assert_eq!(ready.result, Ok(9));
    assert!(!ready.join);
    let failed = init_outcome(InitReport::Failed, false);
    assert_eq!(failed.result, Err(HookInstallError::InstallFailed));
    assert!(failed.join);
    assert_eq!(
        init_outcome(InitReport::Lost, false).result,
        Err(HookInstallError::InitLost)
    );
    assert!(!init_outcome(InitReport::Lost, false).join);
    assert!(init_outcome(InitReport::Lost, true).join);

    assert_eq!(shutdown_step(true, false, 0), ShutdownStep::Wait);
    assert_eq!(shutdown_step(true, false, 29), ShutdownStep::Wait);
    assert_eq!(shutdown_step(true, false, 30), ShutdownStep::Retain);
    assert_eq!(shutdown_step(false, false, 0), ShutdownStep::Retain);
    assert_eq!(shutdown_step(false, true, 0), ShutdownStep::Join);

    assert_eq!(pump_step(0, 1, 2, None), PumpStep::Stop);
    assert_eq!(pump_step(1, 2, 2, None), PumpStep::Stop);
    assert_eq!(pump_step(1, 0x113, 2, Some(0x113)), PumpStep::Tick);
    assert_eq!(pump_step(1, 0x113, 2, None), PumpStep::Dispatch);
}
