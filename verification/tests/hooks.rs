use leopardwm::event_hooks::{
    classify_native_event, event_ranges, follow_up, invalidated_preview, EventHooks, NativeEvent,
    OfferFollowUp, OfferOutcome, WindowEvent, EVENT_OBJECT_CREATE, EVENT_OBJECT_DESTROY, EVENT_OBJECT_FOCUS,
    EVENT_OBJECT_HIDE, EVENT_OBJECT_LOCATIONCHANGE, EVENT_OBJECT_NAMECHANGE, EVENT_OBJECT_SHOW,
    EVENT_SYSTEM_FOREGROUND, EVENT_SYSTEM_MINIMIZEEND, EVENT_SYSTEM_MINIMIZESTART,
    EVENT_SYSTEM_MOVESIZEEND, EVENT_SYSTEM_MOVESIZESTART,
};
use leopardwm::hook_thread::{HookInstallError, InitReport};
use leopardwm::mouse_hook::{
    MouseHook, PointerDelivery, PointerPlan, PointerSighting, WM_MOUSEMOVE,
};
use leopardwm::window_identity::{
    identity_event_kind, IdentityEventKind, IdentityRegistry, LiveWindow, WindowEventIdentity,
};

fn live(token: u64) -> LiveWindow {
    LiveWindow {
        process_id: 7,
        thread_id: 8,
        class_name: "SameClass".into(),
        property_token: token,
    }
}

fn native(event: u32) -> NativeEvent {
    NativeEvent {
        event,
        object: 0,
        window: 11,
        root: 10,
        placement_cloaked: false,
        previewed: false,
        policy_applies: true,
        policy_admits: true,
        foreground: 10,
    }
}

#[test]
fn a_destroyed_window_has_its_preview_invalidated() {
    let destroyed = native(EVENT_OBJECT_DESTROY);
    assert_eq!(invalidated_preview(&destroyed), Some(11));
    let filtered = NativeEvent {
        placement_cloaked: true,
        previewed: true,
        policy_admits: false,
        ..destroyed
    };
    assert_eq!(invalidated_preview(&filtered), Some(11));
    let child = NativeEvent {
        object: -4,
        ..destroyed
    };
    assert_eq!(invalidated_preview(&child), None);
    let nameless = NativeEvent {
        window: 0,
        ..destroyed
    };
    assert_eq!(invalidated_preview(&nameless), None);
    assert_eq!(invalidated_preview(&native(EVENT_OBJECT_HIDE)), None);
}

fn over(candidate: Option<u64>, managed: bool) -> PointerSighting {
    PointerSighting {
        candidate,
        managed,
        window_busy: false,
        managed_busy: false,
    }
}

#[test]
fn test_event_sender_can_be_reinstalled_after_clear() {
    let mut hooks = EventHooks::new();
    hooks.clear_event_sender();

    assert!(hooks.set_event_sender(false).is_ok());

    let err = hooks.set_event_sender(false).unwrap_err();
    assert_eq!(err, HookInstallError::AlreadyInitialized);

    hooks.clear_event_sender();

    assert!(hooks.set_event_sender(false).is_ok());
    hooks.clear_event_sender();
    assert_eq!(
        hooks.set_event_sender(true),
        Err(HookInstallError::LockPoisoned)
    );
}

#[test]
fn stale_thread_cannot_clear_replacement_generation() {
    let mut hooks = EventHooks::new();
    hooks.set_event_sender(false).unwrap();
    hooks.active_thread = 22;

    hooks.retire_event_thread(21);
    assert!(hooks.sender_installed);
    hooks.retire_event_thread(22);
    assert!(!hooks.sender_installed);
}

#[test]
fn queued_destroy_keeps_old_token_across_same_identity_reuse() {
    let window_id = 0x1234;
    let old = WindowEventIdentity {
        token: 41,
        process_id: 7,
        thread_id: 8,
        class_name: "SameClass".into(),
    };
    let mut registry = IdentityRegistry::new();
    registry.identities.insert(window_id, old.clone());

    let event = WindowEvent::Destroyed(window_id);
    assert_eq!(registry.queue_window_event_identity(&event, None), Some(41));
    registry.identities.insert(
        window_id,
        WindowEventIdentity {
            token: 42,
            ..old.clone()
        },
    );

    assert_eq!(registry.take_window_event_identity(&event), Some(old));
    registry.identities.remove(&window_id);
    assert_eq!(registry.take_window_event_identity(&event), None);
}

#[test]
fn failed_installation_drops_the_sender() {
    let mut hooks = EventHooks::new();
    hooks.set_event_sender(false).unwrap();
    let ready = hooks.finish_installation(InitReport::Ready(5));
    assert_eq!(ready.result, Ok(5));
    assert!(!ready.join);
    assert!(hooks.sender_installed);
    let failed = hooks.finish_installation(InitReport::Failed);
    assert_eq!(failed.result, Err(HookInstallError::InstallFailed));
    assert!(failed.join);
    assert!(!hooks.sender_installed);
    hooks.set_event_sender(false).unwrap();
    let lost = hooks.finish_installation(InitReport::Lost);
    assert_eq!(lost.result, Err(HookInstallError::InitLost));
    assert!(lost.join);
    assert!(!hooks.sender_installed);
}

#[test]
fn incarnations_count_up_and_never_are_zero() {
    let mut registry = IdentityRegistry::new();
    assert_eq!(registry.next_window_incarnation(), 1);
    assert_eq!(registry.next_window_incarnation(), 2);
    registry.next_incarnation = u64::MAX;
    assert_eq!(registry.next_window_incarnation(), u64::MAX);
    assert_eq!(registry.next_window_incarnation(), 1);
    registry.next_incarnation = 0;
    assert_eq!(registry.next_window_incarnation(), 1);
    assert_eq!(registry.next_window_incarnation(), 1);
    assert_eq!(registry.next_window_incarnation(), 2);
}

#[test]
fn capture_keeps_and_renews_tokens() {
    let mut registry = IdentityRegistry::new();
    // A marked window keeps its own token.
    assert_eq!(
        registry.ensure_window_incarnation_token(1, Some(&live(99))),
        Some(99)
    );
    // An unmarked window of the same description keeps what is known of it.
    assert_eq!(
        registry.ensure_window_incarnation_token(1, Some(&live(0))),
        Some(99)
    );
    // Another description is another window.
    let mut other = live(0);
    other.class_name = "Other".into();
    assert_eq!(
        registry.ensure_window_incarnation_token(1, Some(&other)),
        Some(1)
    );
    let identity = registry
        .current_window_event_identity(1, Some(&other))
        .unwrap();
    assert_eq!(identity.token, 1);
    assert_eq!(identity.class_name, "Other");
    // A created window never takes an older incarnation over.
    let token = registry.queue_window_event_identity(&WindowEvent::Created(1), Some(&other));
    assert_eq!(token, Some(2));
    // Windows that are gone or not described have no identity.
    assert_eq!(registry.ensure_window_incarnation_token(5, None), None);
    let mut bare = live(0);
    bare.class_name = String::new();
    assert_eq!(registry.ensure_window_incarnation_token(5, Some(&bare)), None);
    let mut bare = live(0);
    bare.process_id = 0;
    assert_eq!(registry.ensure_window_incarnation_token(5, Some(&bare)), None);
    let mut bare = live(0);
    bare.thread_id = 0;
    assert_eq!(registry.ensure_window_incarnation_token(5, Some(&bare)), None);
}

#[test]
fn identities_wait_first_in_first_out_per_event_and_window() {
    let mut registry = IdentityRegistry::new();
    registry.queue_window_event_identity(&WindowEvent::Hidden(1), Some(&live(10)));
    registry.queue_window_event_identity(&WindowEvent::Restored(1), Some(&live(11)));
    registry.queue_window_event_identity(&WindowEvent::Hidden(2), Some(&live(12)));
    registry.queue_window_event_identity(&WindowEvent::Hidden(1), Some(&live(13)));
    assert_eq!(
        registry.queue_window_event_identity(&WindowEvent::Focused(1), Some(&live(14))),
        None
    );

    let take = |registry: &mut IdentityRegistry, event| {
        registry.take_window_event_identity(&event).map(|i| i.token)
    };
    assert_eq!(take(&mut registry, WindowEvent::Focused(1)), None);
    assert_eq!(take(&mut registry, WindowEvent::Hidden(1)), Some(10));
    assert_eq!(take(&mut registry, WindowEvent::Hidden(1)), Some(13));
    assert_eq!(take(&mut registry, WindowEvent::Hidden(1)), None);
    assert_eq!(take(&mut registry, WindowEvent::Hidden(2)), Some(12));
    assert_eq!(take(&mut registry, WindowEvent::Restored(1)), Some(11));
    // Destroying a window that was never seen queues nothing.
    assert_eq!(
        registry.queue_window_event_identity(&WindowEvent::Destroyed(77), Some(&live(15))),
        None
    );
    assert_eq!(take(&mut registry, WindowEvent::Destroyed(77)), None);
}

#[test]
fn lifecycle_events_carry_identities() {
    assert_eq!(
        identity_event_kind(&WindowEvent::Created(3)),
        Some((IdentityEventKind::Created, 3))
    );
    assert_eq!(
        identity_event_kind(&WindowEvent::Destroyed(3)),
        Some((IdentityEventKind::Destroyed, 3))
    );
    assert_eq!(
        identity_event_kind(&WindowEvent::Hidden(3)),
        Some((IdentityEventKind::Hidden, 3))
    );
    assert_eq!(
        identity_event_kind(&WindowEvent::Restored(3)),
        Some((IdentityEventKind::Restored, 3))
    );
    assert_eq!(identity_event_kind(&WindowEvent::DisplayChange), None);
}

#[test]
fn native_events_are_mapped() {
    for (event, expected) in [
        (EVENT_OBJECT_CREATE, WindowEvent::Created(10)),
        (EVENT_OBJECT_SHOW, WindowEvent::Created(10)),
        (EVENT_OBJECT_DESTROY, WindowEvent::Destroyed(11)),
        (EVENT_OBJECT_HIDE, WindowEvent::Hidden(11)),
        (EVENT_SYSTEM_FOREGROUND, WindowEvent::Focused(10)),
        (EVENT_OBJECT_FOCUS, WindowEvent::Focused(10)),
        (EVENT_SYSTEM_MINIMIZESTART, WindowEvent::Minimized(10)),
        (EVENT_SYSTEM_MINIMIZEEND, WindowEvent::Restored(10)),
        (EVENT_SYSTEM_MOVESIZESTART, WindowEvent::MoveSizeStart(10)),
        (EVENT_SYSTEM_MOVESIZEEND, WindowEvent::MoveSizeEnd(10)),
        (EVENT_OBJECT_LOCATIONCHANGE, WindowEvent::MovedOrResized(10)),
        (EVENT_OBJECT_NAMECHANGE, WindowEvent::TitleChanged(10)),
    ] {
        assert_eq!(classify_native_event(&native(event)), Some(expected));
        assert!(event_ranges()
            .iter()
            .any(|range| range.0 <= event && event <= range.1));
    }
    assert_eq!(classify_native_event(&native(0x8004)), None);
    assert_eq!(event_ranges().len(), 7);
}

#[test]
fn native_events_are_filtered() {
    let child = NativeEvent {
        object: -4,
        ..native(EVENT_OBJECT_SHOW)
    };
    assert_eq!(classify_native_event(&child), None);
    let focus = NativeEvent {
        object: -4,
        ..native(EVENT_OBJECT_FOCUS)
    };
    assert_eq!(classify_native_event(&focus), Some(WindowEvent::Focused(10)));
    let background = NativeEvent {
        foreground: 12,
        ..focus
    };
    assert_eq!(classify_native_event(&background), None);
    let nobody = NativeEvent {
        window: 0,
        ..native(EVENT_OBJECT_DESTROY)
    };
    assert_eq!(classify_native_event(&nobody), None);
    let cloaked = NativeEvent {
        placement_cloaked: true,
        ..native(EVENT_OBJECT_LOCATIONCHANGE)
    };
    assert_eq!(classify_native_event(&cloaked), None);
    let hidden = NativeEvent {
        placement_cloaked: true,
        ..native(EVENT_OBJECT_HIDE)
    };
    assert_eq!(classify_native_event(&hidden), Some(WindowEvent::Hidden(11)));
    let previewed = NativeEvent {
        previewed: true,
        ..native(EVENT_OBJECT_SHOW)
    };
    assert_eq!(classify_native_event(&previewed), None);
    let refused = NativeEvent {
        policy_admits: false,
        ..native(EVENT_OBJECT_CREATE)
    };
    assert_eq!(classify_native_event(&refused), None);
    let exempt = NativeEvent {
        policy_applies: false,
        ..refused
    };
    assert_eq!(classify_native_event(&exempt), Some(WindowEvent::Created(10)));
}

#[test]
fn only_repeating_events_are_dropped() {
    let noise = WindowEvent::MovedOrResized(1);
    let title = WindowEvent::TitleChanged(1);
    let edge = WindowEvent::MoveSizeEnd(1);
    assert_eq!(follow_up(&noise, OfferOutcome::Full), OfferFollowUp::Coalesce);
    assert_eq!(follow_up(&title, OfferOutcome::Full), OfferFollowUp::Coalesce);
    assert_eq!(follow_up(&edge, OfferOutcome::Full), OfferFollowUp::SendBlocking);
    assert_eq!(follow_up(&edge, OfferOutcome::Sent), OfferFollowUp::Done);
    assert_eq!(
        follow_up(&edge, OfferOutcome::Disconnected),
        OfferFollowUp::TakeIdentity
    );
    assert_eq!(
        follow_up(&edge, OfferOutcome::NoSender),
        OfferFollowUp::TakeIdentity
    );
}

#[test]
fn teardown_resets_pointer_state_and_stale_generation_is_inert() {
    let mut hook = MouseHook::new();
    hook.begin_installation(false).unwrap();
    hook.current_window = Some(77);
    hook.over_managed = true;
    hook.active_thread = 12;

    hook.retire_mouse_thread(11);
    assert!(hook.sender_installed);
    hook.retire_mouse_thread(12);
    assert!(!hook.sender_installed);
    assert_eq!(hook.current_window, None);
    assert!(!hook.over_managed);
}

#[test]
fn pointer_enters_and_leaves_managed_windows() {
    let mut hook = MouseHook::new();
    let enter = over(Some(5), true);
    assert_eq!(
        hook.plan_pointer(enter),
        PointerPlan::Offer(WindowEvent::MouseEnterWindow(5))
    );
    hook.reconcile_mouse_position(enter, PointerDelivery::Sent);
    assert_eq!(hook.current_window, Some(5));
    assert!(hook.over_managed);
    assert_eq!(hook.plan_pointer(enter), PointerPlan::Settled);

    let taskbar = over(Some(6), false);
    assert_eq!(
        hook.plan_pointer(taskbar),
        PointerPlan::Offer(WindowEvent::MouseLeftManaged)
    );
    hook.reconcile_mouse_position(taskbar, PointerDelivery::Disconnected);
    assert_eq!(hook.current_window, Some(6));
    assert!(!hook.over_managed);
    assert_eq!(hook.plan_pointer(over(Some(7), false)), PointerPlan::Adopt);
    assert_eq!(hook.plan_pointer(over(None, true)), PointerPlan::Adopt);
}

#[test]
fn undelivered_pointer_events_are_retried() {
    let mut hook = MouseHook::new();
    let enter = over(Some(5), true);
    hook.reconcile_mouse_position(enter, PointerDelivery::Full);
    assert_eq!(hook.current_window, None);
    assert!(hook.retry_current_mouse_position(true));
    assert!(!hook.retry_current_mouse_position(false));
    hook.reconcile_mouse_position(enter, PointerDelivery::NoSender);
    assert_eq!(hook.current_window, Some(5));
    assert!(!hook.retry_current_mouse_position(true));

    let busy = PointerSighting {
        window_busy: true,
        ..enter
    };
    assert_eq!(hook.plan_pointer(busy), PointerPlan::Blocked);
    hook.reconcile_mouse_position(busy, PointerDelivery::Sent);
    assert!(hook.retry_required);
    let half_busy = PointerSighting {
        managed_busy: true,
        ..over(Some(6), true)
    };
    assert_eq!(hook.plan_pointer(half_busy), PointerPlan::Blocked);
    let unmanaged = over(None, false);
    hook.over_managed = false;
    hook.reconcile_mouse_position(unmanaged, PointerDelivery::Full);
    assert_eq!(hook.current_window, None);
    hook.reconcile_mouse_position(over(Some(9), false), PointerDelivery::Busy);
    assert_eq!(hook.current_window, None);
    assert!(hook.retry_required);
}

#[test]
fn mouse_hook_is_installed_once_and_handles_moves() {
    let mut hook = MouseHook::new();
    assert_eq!(
        hook.begin_installation(true),
        Err(HookInstallError::LockPoisoned)
    );
    assert_eq!(hook.begin_installation(false), Ok(()));
    assert_eq!(
        hook.begin_installation(false),
        Err(HookInstallError::AlreadyInitialized)
    );
    hook.active_thread = 4;
    assert!(hook.handles_move(0, 4, WM_MOUSEMOVE));
    assert!(!hook.handles_move(-1, 4, WM_MOUSEMOVE));
    assert!(!hook.handles_move(0, 5, WM_MOUSEMOVE));
    assert!(!hook.handles_move(0, 4, 0x0201));
}
