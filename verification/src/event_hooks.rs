//! Window events: which native events become one, and how they reach their
//! reader.
use vstd::prelude::*;
use crate::geometry::WindowId;
use crate::hook_thread;
use crate::hook_thread::{HookInstallError, InitOutcome, InitReport};

verus! {

/// Window event types that the daemon handles.
#[derive(Clone, Copy, Debug, PartialEq, Eq, Structural)]
pub enum WindowEvent {
    /// A new window was created.
    Created(WindowId),
    /// A window was destroyed.
    Destroyed(WindowId),
    /// A window was hidden, as by an application that closes to the tray.
    Hidden(WindowId),
    /// A window received focus.
    Focused(WindowId),
    /// A window was minimized.
    Minimized(WindowId),
    /// A window was restored from minimized state.
    Restored(WindowId),
    /// A window was moved or resized by the user.
    MovedOrResized(WindowId),
    /// The user started dragging or resizing a window.
    MoveSizeStart(WindowId),
    /// The user finished dragging or resizing a window.
    MoveSizeEnd(WindowId),
    /// Monitors were added, removed or rearranged.
    DisplayChange,
    /// The desktop work area changed without a topology change, as when the
    /// taskbar switches between auto-hide and always-on.
    WorkAreaChanged,
    /// The theme or the high-contrast setting changed.
    AppearanceChanged,
    /// The cursor entered a window.
    MouseEnterWindow(WindowId),
    /// The cursor left a manageable window for a non-manageable one.
    MouseLeftManaged,
    /// A window's title text changed.
    TitleChanged(WindowId),
}

pub const EVENT_SYSTEM_FOREGROUND: u32 = 0x0003;

pub const EVENT_SYSTEM_MOVESIZESTART: u32 = 0x000A;

pub const EVENT_SYSTEM_MOVESIZEEND: u32 = 0x000B;

pub const EVENT_SYSTEM_MINIMIZESTART: u32 = 0x0016;

pub const EVENT_SYSTEM_MINIMIZEEND: u32 = 0x0017;

pub const EVENT_OBJECT_CREATE: u32 = 0x8000;

pub const EVENT_OBJECT_DESTROY: u32 = 0x8001;

pub const EVENT_OBJECT_SHOW: u32 = 0x8002;

pub const EVENT_OBJECT_HIDE: u32 = 0x8003;

pub const EVENT_OBJECT_FOCUS: u32 = 0x8005;

pub const EVENT_OBJECT_LOCATIONCHANGE: u32 = 0x800B;

pub const EVENT_OBJECT_NAMECHANGE: u32 = 0x800C;

/// The object id of the window itself, as opposed to a part of it.
pub const OBJID_WINDOW: i32 = 0;

/// Room in the queue between the callbacks and their reader.
pub const EVENT_QUEUE_CAPACITY: usize = 512;

/// A native event with what the decision on it reads. Handles are zero where
/// there is none.
#[derive(Clone, Copy, Debug)]
pub struct NativeEvent {
    pub event: u32,
    pub object: i32,
    pub window: WindowId,
    /// The root window that `window` belongs to.
    pub root: WindowId,
    /// The window is hidden by the placement engine.
    pub placement_cloaked: bool,
    /// The window is the source of a persistent preview.
    pub previewed: bool,
    /// Events of this kind are subject to the manageability policy.
    pub policy_applies: bool,
    /// The manageability policy lets this event through.
    pub policy_admits: bool,
    /// The foreground window.
    pub foreground: WindowId,
}

/// What became of offering an event to the reader's queue.
#[derive(Clone, Copy, Debug, PartialEq, Eq, Structural)]
pub enum OfferOutcome {
    Sent,
    Full,
    Disconnected,
    NoSender,
}

/// What a callback does after it offered an event.
#[derive(Clone, Copy, Debug, PartialEq, Eq, Structural)]
pub enum OfferFollowUp {
    /// Nothing is left to do.
    Done,
    /// Wait until the queue has room.
    SendBlocking,
    /// The event is dropped; a later one will say the same.
    Coalesce,
    /// No reader will come for the identity that waits with the event.
    TakeIdentity,
}

/// The window that an event speaks of: a window that goes away can no longer
/// be asked for its root.
pub open spec fn event_window(e: NativeEvent) -> WindowId {
    if e.event == EVENT_OBJECT_DESTROY || e.event == EVENT_OBJECT_HIDE {
        e.window
    } else {
        e.root
    }
}

/// The window whose persistent preview a native event makes invalid: one that is
/// destroyed.
pub open spec fn stale_preview(e: NativeEvent) -> Option<WindowId> {
    if e.event == EVENT_OBJECT_DESTROY && e.object == OBJID_WINDOW && e.window != 0 {
        Some(e.window)
    } else {
        None
    }
}

/// The window whose persistent preview a native event makes invalid. This comes before
/// the event is filtered or queued, so that no input to the preview can reach a window
/// that takes over the handle.
pub fn invalidated_preview(e: &NativeEvent) -> (r: Option<WindowId>)
    ensures
        r == stale_preview(*e),
{
    if e.event == EVENT_OBJECT_DESTROY && e.object == OBJID_WINDOW && e.window != 0 {
        Some(e.window)
    } else {
        None
    }
}

/// Foreground and focus events are taken whatever object they name.
pub open spec fn is_focus_event(event: u32) -> bool {
    event == EVENT_SYSTEM_FOREGROUND || event == EVENT_OBJECT_FOCUS
}

/// The event is let through: it speaks of a window, the placement engine did
/// not cause it, the policy admits it, and a focus event is about the
/// foreground window.
pub open spec fn admitted(e: NativeEvent) -> bool {
    &&& e.object == OBJID_WINDOW || is_focus_event(e.event)
    &&& e.window != 0
    &&& e.event == EVENT_OBJECT_SHOW || e.event == EVENT_OBJECT_LOCATIONCHANGE ==> !(
    e.placement_cloaked || e.previewed)
    &&& e.policy_applies ==> e.policy_admits
    &&& e.event == EVENT_OBJECT_FOCUS ==> e.foreground == event_window(e)
}

/// What an admitted event says of `window`.
pub open spec fn meaning(event: u32, window: WindowId) -> Option<WindowEvent> {
    if event == EVENT_OBJECT_CREATE || event == EVENT_OBJECT_SHOW {
        Some(WindowEvent::Created(window))
    } else if event == EVENT_OBJECT_DESTROY {
        Some(WindowEvent::Destroyed(window))
    } else if event == EVENT_OBJECT_HIDE {
        Some(WindowEvent::Hidden(window))
    } else if is_focus_event(event) {
        Some(WindowEvent::Focused(window))
    } else if event == EVENT_SYSTEM_MINIMIZESTART {
        Some(WindowEvent::Minimized(window))
    } else if event == EVENT_SYSTEM_MINIMIZEEND {
        Some(WindowEvent::Restored(window))
    } else if event == EVENT_SYSTEM_MOVESIZESTART {
        Some(WindowEvent::MoveSizeStart(window))
    } else if event == EVENT_SYSTEM_MOVESIZEEND {
        Some(WindowEvent::MoveSizeEnd(window))
    } else if event == EVENT_OBJECT_LOCATIONCHANGE {
        Some(WindowEvent::MovedOrResized(window))
    } else if event == EVENT_OBJECT_NAMECHANGE {
        Some(WindowEvent::TitleChanged(window))
    } else {
        None
    }
}

/// Decides what a native event means for the daemon, `None` if nothing.
pub fn classify_native_event(e: &NativeEvent) -> (r: Option<WindowEvent>)
    ensures
        r == (if admitted(*e) {
            meaning(e.event, event_window(*e))
        } else {
            None
        }),
{
    let focus = e.event == EVENT_SYSTEM_FOREGROUND || e.event == EVENT_OBJECT_FOCUS;
    if e.object != OBJID_WINDOW && !focus {
        return None;
    }
    if e.window == 0 {
        return None;
    }
    let window: WindowId = if e.event == EVENT_OBJECT_DESTROY || e.event == EVENT_OBJECT_HIDE {
        e.window
    } else {
        e.root
    };
    if (e.event == EVENT_OBJECT_SHOW || e.event == EVENT_OBJECT_LOCATIONCHANGE) && (
    e.placement_cloaked || e.previewed) {
        return None;
    }
    if e.policy_applies && !e.policy_admits {
        return None;
    }
    if e.event == EVENT_OBJECT_CREATE || e.event == EVENT_OBJECT_SHOW {
        Some(WindowEvent::Created(window))
    } else if e.event == EVENT_OBJECT_DESTROY {
        Some(WindowEvent::Destroyed(window))
    } else if e.event == EVENT_OBJECT_HIDE {
        Some(WindowEvent::Hidden(window))
    } else if e.event == EVENT_SYSTEM_FOREGROUND {
        Some(WindowEvent::Focused(window))
    } else if e.event == EVENT_OBJECT_FOCUS {
        if e.foreground != window {
            return None;
        }
        Some(WindowEvent::Focused(window))
    } else if e.event == EVENT_SYSTEM_MINIMIZESTART {
        Some(WindowEvent::Minimized(window))
    } else if e.event == EVENT_SYSTEM_MINIMIZEEND {
        Some(WindowEvent::Restored(window))
    } else if e.event == EVENT_SYSTEM_MOVESIZESTART {
        Some(WindowEvent::MoveSizeStart(window))
    } else if e.event == EVENT_SYSTEM_MOVESIZEEND {
        Some(WindowEvent::MoveSizeEnd(window))
    } else if e.event == EVENT_OBJECT_LOCATIONCHANGE {
        Some(WindowEvent::MovedOrResized(window))
    } else if e.event == EVENT_OBJECT_NAMECHANGE {
        Some(WindowEvent::TitleChanged(window))
    } else {
        None
    }
}

/// Lifecycle, focus and drag edges must not be lost; location and title changes
/// repeat.
pub open spec fn must_arrive(event: WindowEvent) -> bool {
    !(event is MovedOrResized || event is TitleChanged)
}

/// What a callback does after an offer to the reader's queue. Only an event that
/// repeats is dropped where the queue is full.
pub open spec fn after_offer(event: WindowEvent, outcome: OfferOutcome) -> OfferFollowUp {
    match outcome {
        OfferOutcome::Sent => OfferFollowUp::Done,
        OfferOutcome::Full => if must_arrive(event) {
            OfferFollowUp::SendBlocking
        } else {
            OfferFollowUp::Coalesce
        },
        OfferOutcome::Disconnected | OfferOutcome::NoSender => OfferFollowUp::TakeIdentity,
    }
}

/// What a callback does after it offered `event` to the reader's queue.
pub fn follow_up(event: &WindowEvent, outcome: OfferOutcome) -> (r: OfferFollowUp)
    ensures
        r == after_offer(*event, outcome),
{
    match outcome {
        OfferOutcome::Sent => OfferFollowUp::Done,
        OfferOutcome::Full => match event {
            WindowEvent::MovedOrResized(_) | WindowEvent::TitleChanged(_) =>
                OfferFollowUp::Coalesce,
            _ => OfferFollowUp::SendBlocking,
        },
        OfferOutcome::Disconnected | OfferOutcome::NoSender => OfferFollowUp::TakeIdentity,
    }
}

/// The ranges of native events that are hooked, first and last of each.
pub open spec fn hooked_ranges() -> Seq<(u32, u32)> {
    seq![
        (EVENT_OBJECT_CREATE, EVENT_OBJECT_HIDE),
        (EVENT_SYSTEM_FOREGROUND, EVENT_SYSTEM_FOREGROUND),
        (EVENT_SYSTEM_MINIMIZESTART, EVENT_SYSTEM_MINIMIZEEND),
        (EVENT_SYSTEM_MOVESIZESTART, EVENT_SYSTEM_MOVESIZEEND),
        (EVENT_OBJECT_LOCATIONCHANGE, EVENT_OBJECT_LOCATIONCHANGE),
        (EVENT_OBJECT_FOCUS, EVENT_OBJECT_FOCUS),
        (EVENT_OBJECT_NAMECHANGE, EVENT_OBJECT_NAMECHANGE),
    ]
}

/// The ranges of native events to hook.
pub fn event_ranges() -> (r: Vec<(u32, u32)>)
    ensures
        r@ == hooked_ranges(),
{
    let mut r: Vec<(u32, u32)> = Vec::new();
    r.push((EVENT_OBJECT_CREATE, EVENT_OBJECT_HIDE));
    r.push((EVENT_SYSTEM_FOREGROUND, EVENT_SYSTEM_FOREGROUND));
    r.push((EVENT_SYSTEM_MINIMIZESTART, EVENT_SYSTEM_MINIMIZEEND));
    r.push((EVENT_SYSTEM_MOVESIZESTART, EVENT_SYSTEM_MOVESIZEEND));
    r.push((EVENT_OBJECT_LOCATIONCHANGE, EVENT_OBJECT_LOCATIONCHANGE));
    r.push((EVENT_OBJECT_FOCUS, EVENT_OBJECT_FOCUS));
    r.push((EVENT_OBJECT_NAMECHANGE, EVENT_OBJECT_NAMECHANGE));
    r
}

/// The state shared between the event callbacks and their installer.
pub struct EventHooks {
    pub sender_installed: bool,
    pub active_thread: u32,
}

impl EventHooks {
    /// Nothing is installed.
    pub fn new() -> (r: EventHooks)
        ensures
            r == (EventHooks { sender_installed: false, active_thread: 0 }),
    {
        EventHooks { sender_installed: false, active_thread: 0 }
    }

    /// Publishes a sender. A second one is refused while one is installed.
    pub fn set_event_sender(&mut self, poisoned: bool) -> (r: Result<(), HookInstallError>)
        ensures
            r == (if poisoned {
                Err::<(), HookInstallError>(HookInstallError::LockPoisoned)
            } else if old(self).sender_installed {
                Err(HookInstallError::AlreadyInitialized)
            } else {
                Ok(())
            }),
            *final(self) == (if r is Ok {
                EventHooks { sender_installed: true, ..*old(self) }
            } else {
                *old(self)
            }),
    {
        if poisoned {
            return Err(HookInstallError::LockPoisoned);
        }
        if self.sender_installed {
            return Err(HookInstallError::AlreadyInitialized);
        }
        self.sender_installed = true;
        Ok(())
    }

    /// Drops the sender.
    pub fn clear_event_sender(&mut self)
        ensures
            *final(self) == (EventHooks { sender_installed: false, ..*old(self) }),
    {
        self.sender_installed = false;
    }

    /// The pump thread `thread_id` has unhooked. A thread that is no longer the
    /// active one changes nothing.
    pub fn retire_event_thread(&mut self, thread_id: u32)
        ensures
            *final(self) == (if old(self).active_thread == thread_id {
                EventHooks { sender_installed: false, active_thread: 0 }
            } else {
                *old(self)
            }),
    {
        if self.active_thread == thread_id {
            self.active_thread = 0;
            self.clear_event_sender();
        }
    }

    /// Decides on the report of the pump thread: whatever went wrong, the
    /// thread is joined and the sender dropped.
    pub fn finish_installation(&mut self, report: InitReport) -> (o: InitOutcome)
        ensures
            o.result == hook_thread::init_result(report),
            o.join == (o.result is Err),
            *final(self) == (if o.result is Err {
                EventHooks { sender_installed: false, ..*old(self) }
            } else {
                *old(self)
            }),
    {
        match report {
            InitReport::Ready(id) => InitOutcome { result: Ok(id), join: false },
            InitReport::Failed => {
                self.clear_event_sender();
                InitOutcome { result: Err(HookInstallError::InstallFailed), join: true }
            },
            InitReport::Lost => {
                self.clear_event_sender();
                InitOutcome { result: Err(HookInstallError::InitLost), join: true }
            },
        }
    }
}

/// Exactly the native events that mean something are hooked: every event with a
/// meaning lies in a hooked range, and every event of a hooked range has one.
pub proof fn law_hooked_events_are_those_with_a_meaning(event: u32, window: WindowId)
    ensures
        meaning(event, window) is Some <==> exists|i: int|
            0 <= i < hooked_ranges().len() && (#[trigger] hooked_ranges()[i]).0 <= event
                <= hooked_ranges()[i].1,
{
    let ranges = hooked_ranges();
    assert(ranges[0] == (EVENT_OBJECT_CREATE, EVENT_OBJECT_HIDE));
    assert(ranges[1] == (EVENT_SYSTEM_FOREGROUND, EVENT_SYSTEM_FOREGROUND));
    assert(ranges[2] == (EVENT_SYSTEM_MINIMIZESTART, EVENT_SYSTEM_MINIMIZEEND));
    assert(ranges[3] == (EVENT_SYSTEM_MOVESIZESTART, EVENT_SYSTEM_MOVESIZEEND));
    assert(ranges[4] == (EVENT_OBJECT_LOCATIONCHANGE, EVENT_OBJECT_LOCATIONCHANGE));
    assert(ranges[5] == (EVENT_OBJECT_FOCUS, EVENT_OBJECT_FOCUS));
    assert(ranges[6] == (EVENT_OBJECT_NAMECHANGE, EVENT_OBJECT_NAMECHANGE));
}

/// Lifecycle, focus and drag events are never dropped: what is dropped is a location
/// or title change, and only where the queue is full.
pub proof fn law_lifecycle_edges_are_never_dropped(e: NativeEvent, outcome: OfferOutcome)
    requires
        admitted(e),
        meaning(e.event, event_window(e)) is Some,
        after_offer(meaning(e.event, event_window(e))->0, outcome) == OfferFollowUp::Coalesce,
    ensures
        e.event == EVENT_OBJECT_LOCATIONCHANGE || e.event == EVENT_OBJECT_NAMECHANGE,
        outcome == OfferOutcome::Full,
{
}

/// A window that goes away is never mistaken for its root, and the placement
/// engine's own cloaking never hides that it did.
pub proof fn law_departures_are_always_told(e: NativeEvent)
    requires
        e.event == EVENT_OBJECT_DESTROY || e.event == EVENT_OBJECT_HIDE,
        e.object == OBJID_WINDOW,
        e.window != 0,
        e.policy_applies ==> e.policy_admits,
    ensures
        admitted(e),
        event_window(e) == e.window,
{
}

/// A window whose destruction reaches the daemon has its preview made invalid, and so has
/// one that neither the placement engine, the preview nor the policy lets through.
pub proof fn law_destroyed_windows_lose_their_preview(
    e: NativeEvent,
    window: WindowId,
    placement_cloaked: bool,
    previewed: bool,
    policy_admits: bool,
)
    requires
        admitted(e),
        meaning(e.event, event_window(e)) == Some(WindowEvent::Destroyed(window)),
    ensures
        stale_preview(e) == Some(window),
        stale_preview(NativeEvent { placement_cloaked, previewed, policy_admits, ..e }) == Some(
            window,
        ),
{
}

/// What each native event says of its window, by the number that the system gives it;
/// any other number says nothing.
pub proof fn law_native_events_have_their_meaning(event: u32, window: WindowId)
    ensures
        match meaning(event, window) {
            Some(WindowEvent::Created(id)) => id == window && (event == 0x8000 || event == 0x8002),
            Some(WindowEvent::Destroyed(id)) => id == window && event == 0x8001,
            Some(WindowEvent::Hidden(id)) => id == window && event == 0x8003,
            Some(WindowEvent::Focused(id)) => id == window && (event == 0x0003 || event == 0x8005),
            Some(WindowEvent::Minimized(id)) => id == window && event == 0x0016,
            Some(WindowEvent::Restored(id)) => id == window && event == 0x0017,
            Some(WindowEvent::MoveSizeStart(id)) => id == window && event == 0x000a,
            Some(WindowEvent::MoveSizeEnd(id)) => id == window && event == 0x000b,
            Some(WindowEvent::MovedOrResized(id)) => id == window && event == 0x800b,
            Some(WindowEvent::TitleChanged(id)) => id == window && event == 0x800c,
            Some(_) => false,
            None => event != 0x8000 && event != 0x8001 && event != 0x8002 && event != 0x8003
                && event != 0x0003 && event != 0x8005 && event != 0x0016 && event != 0x0017
                && event != 0x000a && event != 0x000b && event != 0x800b && event != 0x800c,
        },
{
}

/// An event is let through just where it is about a window itself, or about focus, names
/// one, and the policy does not object; and where moreover neither the placement engine
/// nor a preview caused it, if it shows or moves the window, and the window is in the
/// foreground, if an object in it has the focus.
pub proof fn law_events_are_let_through(e: NativeEvent)
    ensures
        admitted(e) <==> {
            &&& e.object == 0 || e.event == 0x0003 || e.event == 0x8005
            &&& e.window != 0
            &&& !e.policy_applies || e.policy_admits
            &&& e.event == 0x8002 || e.event == 0x800b ==> !e.placement_cloaked && !e.previewed
            &&& e.event == 0x8005 ==> e.foreground == e.root
        },
        event_window(e) == (if e.event == 0x8001 || e.event == 0x8003 {
            e.window
        } else {
            e.root
        }),
{
}

/// Just the destruction of a window itself makes its preview invalid.
pub proof fn law_only_destruction_ends_a_preview(e: NativeEvent)
    ensures
        match stale_preview(e) {
            Some(window) => window == e.window && window != 0 && e.event == 0x8001 && e.object == 0,
            None => e.window == 0 || e.event != 0x8001 || e.object != 0,
        },
{
}

/// An event that the queue took needs nothing more. Where the queue is full the callback
/// waits, except with a location or title change, which it drops; without a reader it
/// takes back the identity that waits with the event.
pub proof fn law_offers_are_followed_up(event: WindowEvent)
    ensures
        after_offer(event, OfferOutcome::Sent) == OfferFollowUp::Done,
        event is MovedOrResized || event is TitleChanged ==> after_offer(event, OfferOutcome::Full)
            == OfferFollowUp::Coalesce,
        !(event is MovedOrResized) && !(event is TitleChanged) ==> after_offer(
            event,
            OfferOutcome::Full,
        ) == OfferFollowUp::SendBlocking,
        after_offer(event, OfferOutcome::Disconnected) == OfferFollowUp::TakeIdentity,
        after_offer(event, OfferOutcome::NoSender) == OfferFollowUp::TakeIdentity,
{
}

} // verus!
