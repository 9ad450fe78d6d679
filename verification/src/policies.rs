//! Small decisions of the daemon: ownership of results that arrive late, answers
//! when nobody answered, what a drag moves, and what a shutdown cleans up.
use vstd::prelude::*;
use vstd::std_specs::hash::*;
use std::collections::HashMap;
use crate::event_hooks::WindowEvent;
use crate::geometry::WindowId;
use crate::text;

verus! {

broadcast use group_hash_axioms;

/// How long the displays settle after their arrangement changed, in milliseconds.
pub const DISPLAY_CHANGE_SETTLE_MS: u64 = 500;

/// How long they settle after only a work area changed, in milliseconds.
pub const WORK_AREA_SETTLE_MS: u64 = 180;

/// The system's code for a pipe whose instances are all in use.
pub const ERROR_PIPE_BUSY: i32 = 231;

/// The system's code for a file that does not exist.
pub const ERROR_FILE_NOT_FOUND: i32 = 2;

/// Whose result an animation frame's result is.
#[derive(Clone, Copy, Debug, PartialEq, Eq, Structural)]
pub enum AnimationResultOwnership {
    /// The awaited frame, and still current.
    Current,
    /// The awaited frame, but of an epoch that is over.
    StaleOwned,
    /// Not the awaited frame.
    Unowned,
}

/// A command, as far as the decisions here tell commands apart.
#[derive(Clone, Copy, Debug, PartialEq, Eq, Structural)]
pub enum IpcCommand {
    Stop,
    PanicRevert,
    FocusLeft,
    FocusRight,
    FocusUp,
    FocusDown,
    Refresh,
}

/// An answer to a command.
#[derive(Debug)]
pub enum IpcResponse {
    Success,
    Error { message: String },
}

/// How the daemon shuts down.
#[derive(Clone, Copy, Debug, PartialEq, Eq, Structural)]
pub enum ShutdownMode {
    Graceful,
    PanicRevert,
}

/// What a drag moves.
#[derive(Clone, Copy, Debug, PartialEq, Eq, Structural)]
pub enum DragMode {
    /// One window, which may join another column.
    Window,
    /// One window, which gets a column of its own.
    WindowAsColumn,
    /// The whole column.
    Column,
}

/// What is known of a window's privileges.
#[derive(Clone, Copy, Debug, PartialEq, Eq, Structural)]
pub enum ElevationCheck {
    /// It cannot be placed, and the user is to be told.
    BlockedNew,
    /// It cannot be placed, which is known.
    BlockedKnown,
    /// It can be placed.
    Manageable,
}

/// The daemon's flags.
#[derive(Clone, Copy, Debug)]
pub struct Args {
    pub no_hotkeys: bool,
    pub safe_mode: bool,
}

impl Args {
    /// Whether no hotkeys are installed; safe mode implies that.
    pub fn skip_hotkeys(&self) -> (r: bool)
        ensures
            r == (self.no_hotkeys || self.safe_mode),
    {
        self.no_hotkeys || self.safe_mode
    }
}

/// The settling has to cover a change of the arrangement once `event` has arrived.
pub open spec fn covers_full(needs_full: bool, event: WindowEvent) -> bool {
    needs_full || event is DisplayChange
}

/// Whether the settling that goes on has to cover a change of the arrangement: once
/// it does, later events do not take that back.
pub fn update_display_change_needs_full(needs_full: bool, event: &WindowEvent) -> (r: bool)
    ensures
        r == covers_full(needs_full, *event),
{
    match event {
        WindowEvent::DisplayChange => true,
        _ => needs_full,
    }
}

/// Whether the settling has to cover a change of the arrangement after a list of
/// events.
pub open spec fn needs_full_after(needs_full: bool, events: Seq<WindowEvent>) -> bool
    decreases events.len(),
{
    if events.len() == 0 {
        needs_full
    } else {
        covers_full(needs_full_after(needs_full, events.drop_last()), events.last())
    }
}

/// The order in which events arrive makes no difference: the long settling is due if
/// it was before, or if the arrangement changed at any point.
pub proof fn law_full_change_is_never_downgraded(needs_full: bool, events: Seq<WindowEvent>)
    ensures
        needs_full_after(needs_full, events) <==> needs_full || exists|i: int|
            0 <= i < events.len() && (#[trigger] events[i]) is DisplayChange,
    decreases events.len(),
{
    if events.len() > 0 {
        let rest = events.drop_last();
        law_full_change_is_never_downgraded(needs_full, rest);
        if exists|i: int| 0 <= i < rest.len() && (#[trigger] rest[i]) is DisplayChange {
            let i = choose|i: int| 0 <= i < rest.len() && (#[trigger] rest[i]) is DisplayChange;
            assert(events[i] is DisplayChange);
        }
        if exists|i: int| 0 <= i < events.len() && (#[trigger] events[i]) is DisplayChange {
            let i = choose|i: int|
                0 <= i < events.len() && (#[trigger] events[i]) is DisplayChange;
            if i < rest.len() {
                assert(rest[i] is DisplayChange);
            }
        }
    }
}

/// How long the displays settle, in milliseconds.
pub fn display_settle_debounce_ms(needs_full: bool) -> (r: u64)
    ensures
        r == (if needs_full {
            DISPLAY_CHANGE_SETTLE_MS
        } else {
            WORK_AREA_SETTLE_MS
        }),
{
    if needs_full {
        DISPLAY_CHANGE_SETTLE_MS
    } else {
        WORK_AREA_SETTLE_MS
    }
}

/// Ends the resize preview if it is that of `generation`; true if it was. A preview
/// that was replaced cannot end its successor.
pub fn clear_resize_preview_active_if_owned(
    generation: u64,
    active_generation: &mut u64,
    active: &mut bool,
) -> (owned: bool)
    ensures
        owned == (*old(active_generation) == generation),
        owned ==> *final(active_generation) == 0 && !*final(active),
        !owned ==> *final(active_generation) == *old(active_generation) && *final(active) == *old(
            active,
        ),
{
    if *active_generation == generation {
        *active_generation = 0;
        *active = false;
        true
    } else {
        false
    }
}

/// Takes note of the result of a frame of epoch `result`. Only the awaited frame's
/// result ends the waiting; one of an epoch that is over also resets the frame
/// clock.
pub fn reconcile_animation_result_epoch(
    current: u64,
    result: u64,
    awaited: &mut Option<u64>,
    last_frame: &mut Option<u64>,
) -> (r: AnimationResultOwnership)
    ensures
        r == (if *old(awaited) != Some(result) {
            AnimationResultOwnership::Unowned
        } else if result == current {
            AnimationResultOwnership::Current
        } else {
            AnimationResultOwnership::StaleOwned
        }),
        *final(awaited) == (if r == AnimationResultOwnership::Unowned {
            *old(awaited)
        } else {
            None
        }),
        *final(last_frame) == (if r == AnimationResultOwnership::StaleOwned {
            None
        } else {
            *old(last_frame)
        }),
{
    if *awaited != Some(result) {
        return AnimationResultOwnership::Unowned;
    }
    *awaited = None;
    if result == current {
        AnimationResultOwnership::Current
    } else {
        *last_frame = None;
        AnimationResultOwnership::StaleOwned
    }
}

/// The answer to a command that the daemon did not answer, be it a shutdown or not:
/// an error that says whether time ran out or the answer was lost.
pub fn response_for_ipc_wait_failure(_command: &IpcCommand, timed_out: bool) -> (r: IpcResponse)
    ensures
        r matches IpcResponse::Error { message } && message@ == (if timed_out {
            "Timed out waiting for daemon response"@
        } else {
            "Failed to get response from daemon"@
        }),
{
    let message = if timed_out {
        "Timed out waiting for daemon response".to_owned()
    } else {
        "Failed to get response from daemon".to_owned()
    };
    IpcResponse::Error { message }
}

/// How a command shuts the daemon down, `None` if it does not.
pub fn shutdown_mode_for_command(command: &IpcCommand) -> (r: Option<ShutdownMode>)
    ensures
        r == (match *command {
            IpcCommand::Stop => Some(ShutdownMode::Graceful),
            IpcCommand::PanicRevert => Some(ShutdownMode::PanicRevert),
            _ => None,
        }),
{
    match command {
        IpcCommand::Stop => Some(ShutdownMode::Graceful),
        IpcCommand::PanicRevert => Some(ShutdownMode::PanicRevert),
        _ => None,
    }
}

/// What a drag moves. Shift moves the column and comes before Ctrl+Alt, which keeps
/// the window apart, as the setting does that turns merging off. A floating window
/// is moved by itself.
pub fn select_drag_mode(
    is_tiled: bool,
    shift: bool,
    ctrl_alt: bool,
    drag_to_merge: bool,
) -> (r: DragMode)
    ensures
        r == (if !is_tiled {
            DragMode::Window
        } else if shift {
            DragMode::Column
        } else if ctrl_alt || !drag_to_merge {
            DragMode::WindowAsColumn
        } else {
            DragMode::Window
        }),
{
    if !is_tiled {
        DragMode::Window
    } else if shift {
        DragMode::Column
    } else if ctrl_alt || !drag_to_merge {
        DragMode::WindowAsColumn
    } else {
        DragMode::Window
    }
}

/// Whether a layout that did not change need not be applied. It must be while an
/// animation runs, and once more after one has landed.
pub fn can_skip_unchanged_layout(
    unchanged: bool,
    animating: bool,
    landing_pending: bool,
) -> (r: bool)
    ensures
        r == (unchanged && !animating && !landing_pending),
{
    unchanged && !animating && !landing_pending
}

/// Whether a window has to be nudged for the compositor after it landed; not in
/// compositor-safe mode.
pub fn legacy_compositor_nudge_required(landing: bool, compositor_safe_mode: bool) -> (r: bool)
    ensures
        r == (landing && !compositor_safe_mode),
{
    landing && !compositor_safe_mode
}

/// The window that keeps the focus when another asks for it: the fullscreen one,
/// unless the user asked, or it is the one that asks.
pub fn fullscreen_focus_guard(
    user_initiated: bool,
    fullscreen: Option<WindowId>,
    target: WindowId,
) -> (r: Option<WindowId>)
    ensures
        r == (match fullscreen {
            Some(id) if !user_initiated && id != target => Some(id),
            _ => None,
        }),
{
    match fullscreen {
        Some(id) => if !user_initiated && id != target {
            Some(id)
        } else {
            None
        },
        None => None,
    }
}

/// Whether a failed attempt to reach the daemon's pipe means that a daemon runs:
/// only a missing pipe says that none does.
pub fn pipe_probe_error_indicates_running(code: Option<i32>, not_found: bool) -> (r: bool)
    ensures
        r == (!not_found && code != Some(ERROR_FILE_NOT_FOUND)),
{
    !not_found && code != Some(ERROR_FILE_NOT_FOUND)
}

/// The list is strictly ascending.
pub open spec fn ascending(ids: Seq<u64>) -> bool {
    forall|i: int, j: int| 0 <= i < j < ids.len() ==> #[trigger] ids[i] < #[trigger] ids[j]
}

fn insert_ascending(ids: &mut Vec<u64>, id: u64)
    requires
        ascending(old(ids)@),
    ensures
        ascending(final(ids)@),
        final(ids)@.to_set() == old(ids)@.to_set().insert(id),
{
    let ghost before = ids@;
    let mut i: usize = 0;
    while i < ids.len() && ids[i] < id
        invariant
            i <= ids.len(),
            ids@ == before,
            forall|k: int| 0 <= k < i ==> #[trigger] before[k] < id,
        decreases ids.len() - i,
    {
        i = i + 1;
    }
    if i < ids.len() && ids[i] == id {
        assert(before.to_set().contains(before[i as int]));
        assert(before.to_set() =~= before.to_set().insert(id));
        return;
    }
    ids.insert(i, id);
    proof {
        let after = ids@;
        assert forall|x: u64| after.to_set().contains(x) <==> before.to_set().insert(id).contains(
            x,
        ) by {
            if after.to_set().contains(x) {
                let k = choose|k: int| 0 <= k < after.len() && after[k] == x;
                if k < i {
                    assert(before[k] == x);
                } else if k > i {
                    assert(before[k - 1] == x);
                }
            }
            if before.to_set().contains(x) {
                let k = choose|k: int| 0 <= k < before.len() && before[k] == x;
                if k < i {
                    assert(after[k] == x);
                } else {
                    assert(after[k + 1] == x);
                }
            }
            if x == id {
                assert(after[i as int] == x);
            }
        }
        assert(after.to_set() =~= before.to_set().insert(id));
    }
}

/// The windows that a shutdown restores: those that are managed and those that were
/// found, each once, in ascending order.
pub fn merged_cleanup_window_ids(managed: &Vec<u64>, discovered: &Vec<u64>) -> (r: Vec<u64>)
    ensures
        ascending(r@),
        r@.to_set() == managed@.to_set().union(discovered@.to_set()),
{
    let mut r: Vec<u64> = Vec::new();
    let mut i: usize = 0;
    assert(r@.to_set() =~= managed@.take(0).to_set());
    while i < managed.len()
        invariant
            i <= managed.len(),
            ascending(r@),
            r@.to_set() == managed@.take(i as int).to_set(),
        decreases managed.len() - i,
    {
        insert_ascending(&mut r, managed[i]);
        proof {
            lemma_take_one_more(managed@, i as int);
        }
        i = i + 1;
    }
    assert(managed@.take(i as int) =~= managed@);
    let mut j: usize = 0;
    assert(discovered@.take(0).to_set() =~= Set::<u64>::empty());
    assert(r@.to_set() =~= managed@.to_set().union(discovered@.take(0).to_set()));
    while j < discovered.len()
        invariant
            j <= discovered.len(),
            ascending(r@),
            r@.to_set() == managed@.to_set().union(discovered@.take(j as int).to_set()),
        decreases discovered.len() - j,
    {
        insert_ascending(&mut r, discovered[j]);
        proof {
            lemma_take_one_more(discovered@, j as int);
            assert(r@.to_set() =~= managed@.to_set().union(discovered@.take(j + 1).to_set()));
        }
        j = j + 1;
    }
    assert(discovered@.take(j as int) =~= discovered@);
    r
}

proof fn lemma_take_one_more(s: Seq<u64>, i: int)
    requires
        0 <= i < s.len(),
    ensures
        s.take(i + 1).to_set() == s.take(i).to_set().insert(s[i]),
{
    let a = s.take(i + 1);
    let b = s.take(i);
    assert forall|x: u64| a.to_set().contains(x) <==> b.to_set().insert(s[i]).contains(x) by {
        if a.to_set().contains(x) {
            let k = choose|k: int| 0 <= k < a.len() && a[k] == x;
            if k < i {
                assert(b[k] == x);
            }
        }
        if b.to_set().contains(x) {
            let k = choose|k: int| 0 <= k < b.len() && b[k] == x;
            assert(a[k] == x);
        }
        if x == s[i] {
            assert(a[i] == x);
        }
    }
    assert(a.to_set() =~= b.to_set().insert(s[i]));
}

/// The windows that cannot be placed, with the title that each was announced by.
pub struct ElevationLog {
    pub blocked: HashMap<u64, String>,
}

impl ElevationLog {
    /// What is known of a window: blocked under a title, or nothing.
    pub open spec fn titles(self) -> Map<u64, Seq<char>> {
        self.blocked@.map_values(|title: String| title@)
    }

    /// Nothing is blocked.
    pub fn new() -> (r: ElevationLog)
        ensures
            r.titles() == Map::<u64, Seq<char>>::empty(),
    {
        let r = ElevationLog { blocked: HashMap::new() };
        assert(r.titles() =~= Map::<u64, Seq<char>>::empty());
        r
    }

    /// Takes note of whether a window can be placed. A blocked window is announced
    /// once; another title under the same handle is another window.
    pub fn note_elevation_block(
        &mut self,
        window_id: WindowId,
        title: &str,
        blocked: bool,
    ) -> (r: ElevationCheck)
        ensures
            r == (if !blocked {
                ElevationCheck::Manageable
            } else if old(self).titles().contains_key(window_id) && old(self).titles()[window_id]
                == title@ {
                ElevationCheck::BlockedKnown
            } else {
                ElevationCheck::BlockedNew
            }),
            final(self).titles() == (if blocked {
                old(self).titles().insert(window_id, title@)
            } else {
                old(self).titles().remove(window_id)
            }),
    {
        let ghost before = self.titles();
        if !blocked {
            self.blocked.remove(&window_id);
            assert(self.titles() =~= before.remove(window_id));
            return ElevationCheck::Manageable;
        }
        if let Some(known) = self.blocked.get(&window_id) {
            if text::same_text(known.as_str(), title) {
                assert(before.contains_key(window_id));
                assert(self.titles() =~= before.insert(window_id, title@));
                return ElevationCheck::BlockedKnown;
            }
        }
        self.blocked.insert(window_id, title.to_owned());
        assert(self.titles() =~= before.insert(window_id, title@));
        ElevationCheck::BlockedNew
    }
}

/// A list that is ascending holds each id once, and a smaller one before a larger one.
pub proof fn law_ascending_lists_are_in_order(ids: Seq<u64>, i: int, j: int)
    requires
        ascending(ids),
        0 <= i < ids.len(),
        0 <= j < ids.len(),
    ensures
        ids[i] < ids[j] <==> i < j,
        ids[i] == ids[j] <==> i == j,
        ids.no_duplicates(),
{
}

/// Each event counts alone: a change of the arrangement asks for the long settling, and
/// any other event leaves what was asked for.
pub proof fn law_arrangement_changes_ask_for_the_long_settling(
    needs_full: bool,
    event: WindowEvent,
)
    ensures
        covers_full(needs_full, WindowEvent::DisplayChange),
        event != WindowEvent::DisplayChange ==> covers_full(needs_full, event) == needs_full,
{
}

/// The windows that are known as blocked are those that were recorded, with their titles.
pub proof fn law_blocked_windows_are_known_by_title(log: ElevationLog, window_id: WindowId)
    ensures
        log.titles().contains_key(window_id) <==> log.blocked@.contains_key(window_id),
        log.blocked@.contains_key(window_id) ==> log.titles()[window_id]
            == log.blocked@[window_id]@,
{
}

/// The displays settle for half a second after a change of the arrangement, and for 180 ms
/// where only the usable area changed.
pub proof fn law_arrangement_changes_settle_longest(needs_full: bool, ms: u64)
    requires
        call_ensures(display_settle_debounce_ms, (needs_full,), ms),
    ensures
        needs_full ==> ms == 500,
        !needs_full ==> ms == 180,
{
}

/// A drag moves the column just where a tiled window is dragged with Shift; it keeps the
/// window apart where it is tiled, without Shift, and Ctrl+Alt or the settings say so.
pub proof fn law_drags_move_what_the_keys_say(
    is_tiled: bool,
    shift: bool,
    ctrl_alt: bool,
    drag_to_merge: bool,
    mode: DragMode,
)
    requires
        call_ensures(select_drag_mode, (is_tiled, shift, ctrl_alt, drag_to_merge), mode),
    ensures
        mode == DragMode::Column <==> is_tiled && shift,
        mode == DragMode::WindowAsColumn <==> is_tiled && !shift && (ctrl_alt || !drag_to_merge),
        mode == DragMode::Window <==> !is_tiled || (!shift && !ctrl_alt && drag_to_merge),
{
}

/// A layout is applied again where it changed, where something moves, and where a landing
/// is due; a landing is followed by a nudge only outside compositor-safe mode.
pub proof fn law_layouts_are_skipped_only_at_rest(
    unchanged: bool,
    animating: bool,
    landing_pending: bool,
    skip: bool,
    compositor_safe_mode: bool,
    nudge: bool,
)
    requires
        call_ensures(can_skip_unchanged_layout, (unchanged, animating, landing_pending), skip),
        call_ensures(
            legacy_compositor_nudge_required,
            (landing_pending, compositor_safe_mode),
            nudge,
        ),
    ensures
        !unchanged || animating || landing_pending <==> !skip,
        nudge <==> landing_pending && !compositor_safe_mode,
        nudge ==> !skip,
{
}

/// A fullscreen window keeps the focus from every other window that asks without the user,
/// and from none that the user asked for, nor from itself.
pub proof fn law_fullscreen_windows_keep_the_focus(
    user_initiated: bool,
    fullscreen: Option<WindowId>,
    target: WindowId,
    r: Option<WindowId>,
)
    requires
        call_ensures(fullscreen_focus_guard, (user_initiated, fullscreen, target), r),
    ensures
        r is Some ==> r == fullscreen && r != Some(target) && !user_initiated,
        r is None ==> user_initiated || fullscreen is None || fullscreen == Some(target),
{
}

/// Only a pipe that was not found, by its kind or by the system's number for it, says that
/// no daemon runs.
pub proof fn law_only_a_missing_pipe_says_none_runs(code: Option<i32>, not_found: bool, runs: bool)
    requires
        call_ensures(pipe_probe_error_indicates_running, (code, not_found), runs),
    ensures
        !runs <==> not_found || code == Some(2i32),
{
}

/// Only two commands shut the daemon down, and only one of them reverts.
pub proof fn law_two_commands_shut_down(command: &IpcCommand, mode: Option<ShutdownMode>)
    requires
        call_ensures(shutdown_mode_for_command, (command,), mode),
    ensures
        mode == Some(ShutdownMode::Graceful) <==> *command == IpcCommand::Stop,
        mode == Some(ShutdownMode::PanicRevert) <==> *command == IpcCommand::PanicRevert,
{
}

} // verus!
