//! Focus-follows-mouse: which window the pointer is over, and when to say so.
use vstd::prelude::*;
use crate::event_hooks::WindowEvent;
use crate::geometry::WindowId;
use crate::hook_thread::HookInstallError;

verus! {

/// The mouse-move message.
pub const WM_MOUSEMOVE: u32 = 0x0200;

/// Period of the timer that retries an undelivered position, in milliseconds.
pub const RETRY_TIMER_MS: u32 = 25;

/// What is under the pointer. `managed` says that the window is one whose
/// events the daemon wants. The two flags say that the tracked state was in use
/// on another thread.
#[derive(Clone, Copy, Debug)]
pub struct PointerSighting {
    pub candidate: Option<WindowId>,
    pub managed: bool,
    pub window_busy: bool,
    pub managed_busy: bool,
}

/// What is to be done about a sighting.
#[derive(Clone, Copy, Debug, PartialEq, Eq, Structural)]
pub enum PointerPlan {
    /// The tracked state cannot be read now; look again later.
    Blocked,
    /// The pointer is still over the tracked window.
    Settled,
    /// The pointer moved to another window; nobody has to hear of it.
    Adopt,
    /// The pointer moved to another window; this event is to be offered first.
    Offer(WindowEvent),
}

/// What became of reaching for the sender.
#[derive(Clone, Copy, Debug, PartialEq, Eq, Structural)]
pub enum PointerDelivery {
    Sent,
    Disconnected,
    NoSender,
    Full,
    Busy,
}

/// The state shared between the mouse hook and its installer.
pub struct MouseHook {
    pub sender_installed: bool,
    pub current_window: Option<WindowId>,
    pub over_managed: bool,
    pub active_thread: u32,
    pub retry_required: bool,
}

impl MouseHook {
    /// Only a window can be a managed one.
    pub open spec fn wf(self) -> bool {
        self.over_managed ==> self.current_window is Some
    }

    /// Nothing is installed and nothing tracked.
    pub fn new() -> (r: MouseHook)
        ensures
            r.wf(),
            r == (MouseHook {
                sender_installed: false,
                current_window: None,
                over_managed: false,
                active_thread: 0,
                retry_required: false,
            }),
    {
        MouseHook {
            sender_installed: false,
            current_window: None,
            over_managed: false,
            active_thread: 0,
            retry_required: false,
        }
    }

    /// The state with sender and pointer forgotten.
    pub open spec fn cleared(self) -> MouseHook {
        MouseHook {
            sender_installed: false,
            current_window: None,
            over_managed: false,
            retry_required: false,
            ..self
        }
    }

    /// Forgets the sender and the pointer.
    pub fn clear_mouse_globals(&mut self)
        ensures
            *final(self) == old(self).cleared(),
            final(self).wf(),
    {
        self.retry_required = false;
        self.sender_installed = false;
        self.current_window = None;
        self.over_managed = false;
    }

    /// The hook thread `thread_id` has unhooked. A thread that is no longer the
    /// active one changes nothing.
    pub fn retire_mouse_thread(&mut self, thread_id: u32)
        requires
            old(self).wf(),
        ensures
            final(self).wf(),
            *final(self) == (if old(self).active_thread == thread_id {
                MouseHook { active_thread: 0, ..old(self).cleared() }
            } else {
                *old(self)
            }),
    {
        if self.active_thread == thread_id {
            self.active_thread = 0;
            self.clear_mouse_globals();
        }
    }

    /// Publishes a sender before the hook thread starts. A second hook is
    /// refused while one is installed.
    pub fn begin_installation(&mut self, poisoned: bool) -> (r: Result<(), HookInstallError>)
        requires
            old(self).wf(),
        ensures
            final(self).wf(),
            r == (if poisoned {
                Err::<(), HookInstallError>(HookInstallError::LockPoisoned)
            } else if old(self).sender_installed {
                Err(HookInstallError::AlreadyInitialized)
            } else {
                Ok(())
            }),
            *final(self) == (if r is Ok {
                MouseHook { sender_installed: true, ..*old(self) }
            } else {
                *old(self)
            }),
    {
        if poisoned {
            return Err(HookInstallError::LockPoisoned);
        }
        if self.sender_installed {
            return Err(HookInstallError::AlreadyInitialized);
        }
        self.sender_installed = true;
        Ok(())
    }

    /// A hook call is a mouse move for the thread that owns the hook.
    pub fn handles_move(&self, code: i32, thread: u32, message: u32) -> (r: bool)
        ensures
            r == (code >= 0 && self.active_thread == thread && message == WM_MOUSEMOVE),
    {
        code >= 0 && self.active_thread == thread && message == WM_MOUSEMOVE
    }

    /// The sighting is of a managed window.
    pub open spec fn over_wanted(seen: PointerSighting) -> bool {
        seen.candidate is Some && seen.managed
    }

    /// What is to be done about a sighting: entering a managed window is told,
    /// and so is leaving the managed windows, once.
    pub open spec fn plan(self, seen: PointerSighting) -> PointerPlan {
        if seen.window_busy {
            PointerPlan::Blocked
        } else if self.current_window == seen.candidate {
            PointerPlan::Settled
        } else if seen.managed_busy {
            PointerPlan::Blocked
        } else if Self::over_wanted(seen) {
            PointerPlan::Offer(WindowEvent::MouseEnterWindow(seen.candidate->0))
        } else if self.over_managed {
            PointerPlan::Offer(WindowEvent::MouseLeftManaged)
        } else {
            PointerPlan::Adopt
        }
    }

    /// Decides what is to be done about a sighting.
    pub fn plan_pointer(&self, seen: PointerSighting) -> (r: PointerPlan)
        ensures
            r == self.plan(seen),
    {
        if seen.window_busy {
            return PointerPlan::Blocked;
        }
        if self.current_window == seen.candidate {
            return PointerPlan::Settled;
        }
        if seen.managed_busy {
            return PointerPlan::Blocked;
        }
        match seen.candidate {
            Some(window) if seen.managed => PointerPlan::Offer(
                WindowEvent::MouseEnterWindow(window),
            ),
            _ => if self.over_managed {
                PointerPlan::Offer(WindowEvent::MouseLeftManaged)
            } else {
                PointerPlan::Adopt
            },
        }
    }

    /// The plan was carried out: the sender could be reached, and an event that
    /// had to be offered did not meet a full queue.
    pub open spec fn carried_out(self, seen: PointerSighting, delivery: PointerDelivery) -> bool {
        &&& delivery != PointerDelivery::Busy
        &&& self.plan(seen) is Offer ==> delivery != PointerDelivery::Full
    }

    /// The state after a sighting, where reaching for the sender ended in
    /// `delivery`.
    pub open spec fn reconciled(self, seen: PointerSighting, delivery: PointerDelivery) -> MouseHook {
        match self.plan(seen) {
            PointerPlan::Blocked => MouseHook { retry_required: true, ..self },
            PointerPlan::Settled => MouseHook { retry_required: false, ..self },
            PointerPlan::Adopt | PointerPlan::Offer(_) => if self.carried_out(seen, delivery) {
                MouseHook {
                    current_window: seen.candidate,
                    over_managed: Self::over_wanted(seen),
                    retry_required: false,
                    ..self
                }
            } else {
                MouseHook { retry_required: true, ..self }
            },
        }
    }

    /// Takes note of a sighting once its plan was tried; `delivery` is ignored
    /// where the plan does not reach for the sender.
    pub fn reconcile_mouse_position(&mut self, seen: PointerSighting, delivery: PointerDelivery)
        requires
            old(self).wf(),
        ensures
            final(self).wf(),
            *final(self) == old(self).reconciled(seen, delivery),
    {
        match self.plan_pointer(seen) {
            PointerPlan::Blocked => {
                self.retry_required = true;
            },
            PointerPlan::Settled => {
                self.retry_required = false;
            },
            PointerPlan::Adopt => {
                self.adopt(seen, delivery != PointerDelivery::Busy);
            },
            PointerPlan::Offer(_) => {
                self.adopt(
                    seen,
                    delivery != PointerDelivery::Busy && delivery != PointerDelivery::Full,
                );
            },
        }
    }

    /// Tracks what was seen, or asks for another look.
    fn adopt(&mut self, seen: PointerSighting, carried_out: bool)
        ensures
            carried_out ==> *final(self) == (MouseHook {
                current_window: seen.candidate,
                over_managed: Self::over_wanted(seen),
                retry_required: false,
                ..*old(self)
            }),
            !carried_out ==> *final(self) == (MouseHook { retry_required: true, ..*old(self) }),
    {
        if carried_out {
            self.current_window = seen.candidate;
            self.over_managed = seen.candidate.is_some() && seen.managed;
        }
        self.retry_required = !carried_out;
    }

    /// Whether the timer has to look at the pointer again; `position_known` says
    /// that the system told where it is.
    pub fn retry_current_mouse_position(&self, position_known: bool) -> (r: bool)
        ensures
            r == (self.retry_required && position_known),
    {
        self.retry_required && position_known
    }
}

/// Leaving the managed windows is told exactly on the step from a managed
/// window to something else, never again while the pointer stays outside.
pub proof fn law_leave_is_told_once(
    hook: MouseHook,
    left: PointerSighting,
    next: PointerSighting,
    delivery: PointerDelivery,
)
    requires
        hook.plan(left) == PointerPlan::Offer(WindowEvent::MouseLeftManaged),
        hook.carried_out(left, delivery),
    ensures
        hook.over_managed,
        !MouseHook::over_wanted(left),
        hook.reconciled(left, delivery).plan(next) != PointerPlan::Offer(
            WindowEvent::MouseLeftManaged,
        ),
{
}

/// A sighting that was taken note of is settled: the same sighting again asks
/// for nothing.
pub proof fn law_sighting_settles(
    hook: MouseHook,
    seen: PointerSighting,
    delivery: PointerDelivery,
)
    requires
        !seen.window_busy,
        !seen.managed_busy,
        hook.plan(seen) == PointerPlan::Settled || hook.carried_out(seen, delivery),
    ensures
        hook.reconciled(seen, delivery).plan(seen) == PointerPlan::Settled,
        !hook.reconciled(seen, delivery).retry_required,
{
}

/// An event that could not be delivered is not lost: the tracked window stays
/// as it was, a retry is due, and the same sighting offers the event again.
pub proof fn law_undelivered_sighting_is_retried(
    hook: MouseHook,
    seen: PointerSighting,
    delivery: PointerDelivery,
)
    requires
        hook.plan(seen) is Offer,
        delivery == PointerDelivery::Full || delivery == PointerDelivery::Busy,
    ensures
        hook.reconciled(seen, delivery).retry_required,
        hook.reconciled(seen, delivery).plan(seen) == hook.plan(seen),
{
}

/// What a sighting asks for: nothing where the pointer is over the tracked window; else,
/// where the tracked state can be read, entering a managed window is told with that
/// window, leaving the managed ones is told where the tracked one was managed, and any
/// other move is only noted.
pub proof fn law_pointer_moves_are_told(hook: MouseHook, seen: PointerSighting)
    ensures
        match hook.plan(seen) {
            PointerPlan::Blocked => seen.window_busy || seen.managed_busy && seen.candidate
                != hook.current_window,
            PointerPlan::Settled => !seen.window_busy && seen.candidate == hook.current_window,
            PointerPlan::Offer(WindowEvent::MouseEnterWindow(window)) => !seen.window_busy
                && !seen.managed_busy && seen.candidate == Some(window) && seen.managed
                && hook.current_window != Some(window),
            PointerPlan::Offer(WindowEvent::MouseLeftManaged) => !seen.window_busy
                && !seen.managed_busy && (seen.candidate is None || !seen.managed)
                && hook.over_managed && seen.candidate != hook.current_window,
            PointerPlan::Offer(_) => false,
            PointerPlan::Adopt => !seen.window_busy && !seen.managed_busy && (seen.candidate is None
                || !seen.managed) && !hook.over_managed && seen.candidate != hook.current_window,
        },
{
}

/// A move is noted once the sender was reached and what had to be told met no full queue:
/// then the window under the pointer is tracked, as a managed one just where it is. Else
/// the tracked window stays and a retry is due. Sender and thread stay in any case.
pub proof fn law_moves_are_noted_once_told(
    hook: MouseHook,
    seen: PointerSighting,
    delivery: PointerDelivery,
)
    ensures
        ({
            let after = hook.reconciled(seen, delivery);
            let same = seen.candidate == hook.current_window;
            let busy = seen.window_busy || !same && seen.managed_busy;
            let told = if hook.over_managed || seen.candidate is Some && seen.managed {
                delivery != PointerDelivery::Busy && delivery != PointerDelivery::Full
            } else {
                delivery != PointerDelivery::Busy
            };
            &&& after.sender_installed == hook.sender_installed
            &&& after.active_thread == hook.active_thread
            &&& after.retry_required <==> busy || !same && !told
            &&& if !busy && !same && told {
                after.current_window == seen.candidate && after.over_managed == (
                seen.candidate is Some && seen.managed)
            } else {
                after.current_window == hook.current_window && after.over_managed
                    == hook.over_managed
            }
        }),
{
}

/// A hook that was cleared tracks no window, has no sender and asks for no retry.
pub proof fn law_cleared_hooks_track_nothing(hook: MouseHook)
    ensures
        hook.cleared().current_window is None,
        !hook.cleared().over_managed,
        !hook.cleared().sender_installed,
        !hook.cleared().retry_required,
        hook.cleared().active_thread == hook.active_thread,
{
}

/// A hook call is a move of the pointer just where the system lets it be handled, it comes
/// on the thread of the hook, and its message is that of a move.
pub proof fn law_moves_of_the_hooks_thread_are_handled(
    hook: &MouseHook,
    code: i32,
    thread: u32,
    message: u32,
    handled: bool,
)
    requires
        call_ensures(MouseHook::handles_move, (hook, code, thread, message), handled),
    ensures
        handled <==> code >= 0 && thread == hook.active_thread && message == 0x0200,
{
}

} // verus!
