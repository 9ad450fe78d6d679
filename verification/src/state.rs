//! The daemon's state, as far as its decisions read it: monitors, workspaces
//! with what the layout engine made of them, the running transition and the
//! bookkeeping around it.
use vstd::prelude::*;
use vstd::std_specs::hash::*;
use std::collections::{HashMap, HashSet};
use crate::config::{CompiledWindowRule, Config};
use crate::geometry::{MonitorId, Rect, WindowId};
use crate::window_identity::WindowEventIdentity;

verus! {

broadcast use group_hash_axioms;

/// Width of the viewport where no monitor is known.
pub const FALLBACK_VIEWPORT_WIDTH: i32 = 1920;

/// Height of the viewport where no monitor is known.
pub const FALLBACK_VIEWPORT_HEIGHT: i32 = 1080;

/// The stand-in for a window while it is dragged out of its column.
pub const DRAG_PLACEHOLDER_HWND: WindowId = u64::MAX;

/// A monitor.
#[derive(Clone, Debug)]
pub struct MonitorInfo {
    pub id: MonitorId,
    pub rect: Rect,
    pub work_area: Rect,
    pub is_primary: bool,
    pub device_name: String,
}

/// Whether a placed window shows on its monitor.
#[derive(Clone, Copy, Debug, PartialEq, Eq, Structural)]
pub enum Visibility {
    Visible,
    OffScreen,
}

/// Where the layout engine puts a window.
#[derive(Clone, Copy, Debug, PartialEq, Eq, Structural)]
pub struct WindowPlacement {
    pub window_id: WindowId,
    pub rect: Rect,
    pub visibility: Visibility,
    pub column_index: usize,
}

/// A column of a workspace. `active_tab` is the tab that the column remembers,
/// `visible_tab` the one that shows now that minimized tabs are passed over.
#[derive(Clone, Debug)]
pub struct Column {
    pub width: i32,
    pub tabbed: bool,
    pub windows: Vec<WindowId>,
    pub active_tab: Option<usize>,
    pub visible_tab: Option<usize>,
}

/// A workspace, with the placements that the layout engine computed for it. While
/// it scrolls, `shown_offset` is on its way to `scroll_target` and `scroll_offset`
/// is where it came from.
#[derive(Clone, Debug)]
pub struct Workspace {
    pub animating: bool,
    pub scroll_offset: i32,
    pub scroll_target: i32,
    pub shown_offset: i32,
    pub reduce_motion: bool,
    pub fullscreen: bool,
    pub columns: Vec<Column>,
    pub floating: Vec<WindowId>,
    pub minimized: Vec<WindowId>,
    pub focused_visible: Option<WindowId>,
    pub placements: Vec<WindowPlacement>,
}

/// The workspaces of one monitor and which of them is active.
#[derive(Clone, Debug)]
pub struct MonitorWorkspaces {
    pub monitor: MonitorId,
    pub active: usize,
    pub workspaces: Vec<Workspace>,
}

/// A window that a workspace switch moves out, to `target`.
#[derive(Clone, Copy, Debug, PartialEq, Eq, Structural)]
pub struct ExitWindow {
    pub window_id: WindowId,
    pub target: Rect,
    pub column_index: usize,
}

/// A running layout transition. It alone owns its exit windows.
#[derive(Debug)]
pub struct LayoutTransition {
    pub start_rects: HashMap<u64, Rect>,
    pub exits: Vec<ExitWindow>,
    pub elapsed_ms: u64,
    pub duration_ms: u64,
    pub requires_compositor_safe_snap: bool,
    pub ghosted_wids: HashSet<u64>,
    pub exit_park_failures: u32,
}

/// A thumbnail that stands in for a window while it moves.
#[derive(Clone, Copy, Debug, PartialEq, Eq, Structural)]
pub struct GhostEntry {
    pub registration: u64,
    pub final_dest: Rect,
}

/// The windows that a crossfade still uses, and when it began.
#[derive(Debug)]
pub struct CrossfadeBarrier {
    pub windows: HashSet<u64>,
    pub started_ms: u64,
}

/// The scratchpad: a window that is kept aside.
#[derive(Clone, Copy, Debug, PartialEq, Eq, Structural)]
pub struct ScratchpadState {
    pub window_id: WindowId,
    pub shown: bool,
}

/// The daemon's state.
pub struct AppState {
    pub config: Config,
    pub compiled_rules: Vec<CompiledWindowRule>,
    pub monitors: Vec<MonitorInfo>,
    pub workspaces: Vec<MonitorWorkspaces>,
    pub focused_monitor: MonitorId,
    pub paused: bool,
    pub reduce_motion: bool,
    pub high_contrast: bool,
    pub on_battery_or_saver: bool,
    pub layout_transition: Option<LayoutTransition>,
    pub ghost_handles: HashMap<u64, GhostEntry>,
    pub apply_epoch: u64,
    pub post_animation_landing_pending: bool,
    pub last_placed_layout_rects: HashMap<u64, Rect>,
    pub active_crossfade: Option<u64>,
    pub crossfade_sources: HashMap<u64, CrossfadeBarrier>,
    pub previous_focused_hwnd: Option<WindowId>,
    pub scratchpad: Option<ScratchpadState>,
    pub hidden_column_widths: HashMap<u64, i32>,
    pub tab_title_overrides: HashMap<u64, String>,
    pub window_managed_at: HashMap<u64, u64>,
    pub window_incarnations: HashMap<u64, WindowEventIdentity>,
    pub snap_disabled_hwnds: HashSet<u64>,
    pub window_last_maximized_at: HashMap<u64, u64>,
    pub recently_hidden_hwnds: HashMap<u64, u64>,
    pub moved_or_resized_suppression: HashMap<u64, u64>,
    pub settled_geometry_mismatches: HashMap<u64, u64>,
    pub resize_preview_display_rect: Option<Rect>,
    pub tiled_drag: bool,
}

impl Workspace {
    /// Nothing is on the workspace, and its motion is reduced or not.
    pub open spec fn is_new(self, reduce_motion: bool) -> bool {
        &&& !self.animating
        &&& self.scroll_offset == 0
        &&& self.scroll_target == 0
        &&& self.shown_offset == 0
        &&& self.reduce_motion == reduce_motion
        &&& !self.fullscreen
        &&& self.columns@.len() == 0
        &&& self.floating@.len() == 0
        &&& self.minimized@.len() == 0
        &&& self.focused_visible is None
        &&& self.placements@.len() == 0
    }

    /// Nothing is on the workspace.
    pub open spec fn is_blank(self) -> bool {
        self.is_new(false)
    }

    /// A workspace with nothing on it.
    pub fn blank() -> (r: Workspace)
        ensures
            r.is_blank(),
    {
        Workspace {
            animating: false,
            scroll_offset: 0,
            scroll_target: 0,
            shown_offset: 0,
            reduce_motion: false,
            fullscreen: false,
            columns: Vec::new(),
            floating: Vec::new(),
            minimized: Vec::new(),
            focused_visible: None,
            placements: Vec::new(),
        }
    }
}

/// The monitor that has the focus at first: the primary one, else the first, else
/// none.
pub open spec fn first_focus(monitors: Seq<MonitorInfo>, n: int) -> MonitorId
    decreases n,
{
    if n <= 0 {
        if monitors.len() > 0 {
            monitors[0].id
        } else {
            0
        }
    } else if monitors[n - 1].is_primary && !some_primary(monitors, n - 1) {
        monitors[n - 1].id
    } else {
        first_focus(monitors, n - 1)
    }
}

/// One of the first `n` monitors is the primary one.
pub open spec fn some_primary(monitors: Seq<MonitorInfo>, n: int) -> bool {
    exists|k: int| 0 <= k < n && (#[trigger] monitors[k]).is_primary
}

/// No monitor is listed twice.
pub open spec fn monitors_are_distinct(monitors: Seq<MonitorInfo>) -> bool {
    forall|a: int, b: int|
        0 <= a < b < monitors.len() ==> (#[trigger] monitors[a]).id != (#[trigger] monitors[b]).id
}

/// No two groups are of the same monitor.
pub open spec fn groups_are_distinct(groups: Seq<MonitorWorkspaces>) -> bool {
    forall|a: int, b: int|
        0 <= a < b < groups.len() ==> (#[trigger] groups[a]).monitor != (
        #[trigger] groups[b]).monitor
}

/// No window leaves twice.
pub open spec fn exits_are_distinct(exits: Seq<ExitWindow>) -> bool {
    forall|a: int, b: int|
        0 <= a < b < exits.len() ==> (#[trigger] exits[a]).window_id != (
        #[trigger] exits[b]).window_id
}

impl AppState {
    /// No monitor is listed twice, neither by itself nor with workspaces, and no
    /// window leaves twice in the running transition.
    pub open spec fn wf(self) -> bool {
        &&& monitors_are_distinct(self.monitors@)
        &&& groups_are_distinct(self.workspaces@)
        &&& self.layout_transition matches Some(transition) ==> exits_are_distinct(
            transition.exits@,
        )
    }

    /// Nothing moves, nothing is remembered, and each monitor has one blank
    /// workspace.
    pub open spec fn is_fresh(self) -> bool {
        &&& !self.paused
        &&& !self.reduce_motion
        &&& !self.high_contrast
        &&& !self.on_battery_or_saver
        &&& self.layout_transition is None
        &&& self.ghost_handles@.is_empty()
        &&& self.apply_epoch == 0
        &&& !self.post_animation_landing_pending
        &&& self.last_placed_layout_rects@.is_empty()
        &&& self.active_crossfade is None
        &&& self.crossfade_sources@.is_empty()
        &&& self.previous_focused_hwnd is None
        &&& self.scratchpad is None
        &&& self.hidden_column_widths@.is_empty()
        &&& self.tab_title_overrides@.is_empty()
        &&& self.window_managed_at@.is_empty()
        &&& self.window_incarnations@.is_empty()
        &&& self.snap_disabled_hwnds@.is_empty()
        &&& self.window_last_maximized_at@.is_empty()
        &&& self.recently_hidden_hwnds@.is_empty()
        &&& self.moved_or_resized_suppression@.is_empty()
        &&& self.settled_geometry_mismatches@.is_empty()
        &&& self.resize_preview_display_rect is None
        &&& !self.tiled_drag
        &&& self.workspaces@.len() == self.monitors@.len()
        &&& forall|i: int|
            0 <= i < self.monitors@.len() ==> {
                &&& (#[trigger] self.workspaces@[i]).monitor == self.monitors@[i].id
                &&& self.workspaces@[i].active == 0
                &&& self.workspaces@[i].workspaces@.len() == 1
                &&& self.workspaces@[i].workspaces@[0].is_blank()
            }
    }

    /// The state at the start, with the focus on the primary monitor.
    pub fn new_with_config(
        config: Config,
        compiled_rules: Vec<CompiledWindowRule>,
        monitors: Vec<MonitorInfo>,
    ) -> (r: AppState)
        requires
            monitors_are_distinct(monitors@),
        ensures
            r.wf(),
            r.is_fresh(),
            r.config == config,
            r.compiled_rules == compiled_rules,
            r.monitors == monitors,
            r.focused_monitor == first_focus(monitors@, monitors@.len() as int),
    {
        let mut focused_monitor: MonitorId = if monitors.len() > 0 {
            monitors[0].id
        } else {
            0
        };
        let mut primary_seen = false;
        let mut workspaces: Vec<MonitorWorkspaces> = Vec::new();
        let mut i: usize = 0;
        while i < monitors.len()
            invariant
                i <= monitors.len(),
                focused_monitor == first_focus(monitors@, i as int),
                primary_seen == some_primary(monitors@, i as int),
                workspaces@.len() == i,
                forall|k: int|
                    0 <= k < i ==> {
                        &&& (#[trigger] workspaces@[k]).monitor == monitors@[k].id
                        &&& workspaces@[k].active == 0
                        &&& workspaces@[k].workspaces@.len() == 1
                        &&& workspaces@[k].workspaces@[0].is_blank()
                    },
            decreases monitors.len() - i,
        {
            if monitors[i].is_primary {
                if !primary_seen {
                    focused_monitor = monitors[i].id;
                }
                primary_seen = true;
                assert(monitors@[i as int].is_primary);
            }
            let mut own: Vec<Workspace> = Vec::new();
            own.push(Workspace::blank());
            workspaces.push(
                MonitorWorkspaces { monitor: monitors[i].id, active: 0, workspaces: own },
            );
            i = i + 1;
        }
        AppState {
            config,
            compiled_rules,
            monitors,
            workspaces,
            focused_monitor,
            paused: false,
            reduce_motion: false,
            high_contrast: false,
            on_battery_or_saver: false,
            layout_transition: None,
            ghost_handles: HashMap::new(),
            apply_epoch: 0,
            post_animation_landing_pending: false,
            last_placed_layout_rects: HashMap::new(),
            active_crossfade: None,
            crossfade_sources: HashMap::new(),
            previous_focused_hwnd: None,
            scratchpad: None,
            hidden_column_widths: HashMap::new(),
            tab_title_overrides: HashMap::new(),
            window_managed_at: HashMap::new(),
            window_incarnations: HashMap::new(),
            snap_disabled_hwnds: HashSet::new(),
            window_last_maximized_at: HashMap::new(),
            recently_hidden_hwnds: HashMap::new(),
            moved_or_resized_suppression: HashMap::new(),
            settled_geometry_mismatches: HashMap::new(),
            resize_preview_display_rect: None,
            tiled_drag: false,
        }
    }
}

/// The focus is at first on the primary monitor, the first one where several claim to be
/// that; else on the first monitor.
pub proof fn law_first_focus_is_on_the_primary_monitor(monitors: Seq<MonitorInfo>, k: int)
    requires
        0 <= k < monitors.len(),
    ensures
        monitors[k].is_primary && (forall|j: int|
            0 <= j < k ==> !(#[trigger] monitors[j]).is_primary) ==> first_focus(
            monitors,
            monitors.len() as int,
        ) == monitors[k].id,
        (forall|j: int| 0 <= j < monitors.len() ==> !(#[trigger] monitors[j]).is_primary)
            ==> first_focus(monitors, monitors.len() as int) == monitors[0].id,
        first_focus(Seq::empty(), 0) == 0,
{
    if forall|j: int| 0 <= j < k ==> !(#[trigger] monitors[j]).is_primary {
        lemma_first_focus(monitors, k, monitors.len() as int);
    }
    lemma_first_focus(monitors, 0, monitors.len() as int);
}

proof fn lemma_first_focus(monitors: Seq<MonitorInfo>, k: int, n: int)
    requires
        0 <= k < monitors.len(),
        0 <= n <= monitors.len(),
        forall|j: int| 0 <= j < k ==> !(#[trigger] monitors[j]).is_primary,
    ensures
        n <= k ==> first_focus(monitors, n) == monitors[0].id,
        n > k && monitors[k].is_primary ==> first_focus(monitors, n) == monitors[k].id,
        (forall|j: int| 0 <= j < n ==> !(#[trigger] monitors[j]).is_primary) ==> first_focus(
            monitors,
            n,
        ) == monitors[0].id,
    decreases n,
{
    if n > 0 {
        lemma_first_focus(monitors, k, n - 1);
        if n - 1 > k && monitors[k].is_primary {
            assert(some_primary(monitors, n - 1));
        }
    }
}

/// A blank workspace holds nothing and is at rest, without reduced motion; a new one is the
/// same but for that.
pub proof fn law_blank_workspaces_hold_nothing(workspace: Workspace, reduce_motion: bool)
    ensures
        workspace.is_new(reduce_motion) <==> {
            &&& workspace.columns@ == Seq::<Column>::empty()
            &&& workspace.floating@ == Seq::<WindowId>::empty()
            &&& workspace.minimized@ == Seq::<WindowId>::empty()
            &&& workspace.placements@ == Seq::<WindowPlacement>::empty()
            &&& workspace.focused_visible is None
            &&& !workspace.animating
            &&& !workspace.fullscreen
            &&& workspace.scroll_offset == 0
            &&& workspace.scroll_target == 0
            &&& workspace.shown_offset == 0
            &&& workspace.reduce_motion == reduce_motion
        },
        workspace.is_blank() <==> workspace.is_new(false),
{
    assert(workspace.columns@.len() == 0 ==> workspace.columns@ =~= Seq::empty());
    assert(workspace.floating@.len() == 0 ==> workspace.floating@ =~= Seq::empty());
    assert(workspace.minimized@.len() == 0 ==> workspace.minimized@ =~= Seq::empty());
    assert(workspace.placements@.len() == 0 ==> workspace.placements@ =~= Seq::empty());
}

/// In a well-formed state two monitors with one identifier are the same, and so are two
/// groups of one monitor and two exits of one window.
pub proof fn law_well_formed_states_list_nothing_twice(state: AppState, a: int, b: int)
    requires
        state.wf(),
    ensures
        0 <= a < state.monitors@.len() && 0 <= b < state.monitors@.len() && state.monitors@[a].id
            == state.monitors@[b].id ==> a == b,
        0 <= a < state.workspaces@.len() && 0 <= b < state.workspaces@.len()
            && state.workspaces@[a].monitor == state.workspaces@[b].monitor ==> a == b,
        state.layout_transition matches Some(transition) ==> (0 <= a < transition.exits@.len() && 0
            <= b < transition.exits@.len() && transition.exits@[a].window_id
            == transition.exits@[b].window_id ==> a == b),
{
}

/// A fresh state has a group for each monitor, in their order, with one blank workspace
/// that is the active one; nothing moves and nothing is kept of any window.
pub proof fn law_fresh_states_have_one_workspace_per_monitor(
    state: AppState,
    a: int,
    id: WindowId,
)
    requires
        state.is_fresh(),
        0 <= a < state.monitors@.len(),
    ensures
        state.workspaces@.len() == state.monitors@.len(),
        state.workspaces@[a].monitor == state.monitors@[a].id,
        state.workspaces@[a].active == 0,
        state.workspaces@[a].workspaces@.len() == 1,
        state.workspaces@[a].workspaces@[0].is_blank(),
        !state.paused,
        !state.reduce_motion,
        !state.tiled_drag,
        state.layout_transition is None,
        state.apply_epoch == 0,
        !state.post_animation_landing_pending,
        state.scratchpad is None,
        state.previous_focused_hwnd is None,
        state.active_crossfade is None,
        state.resize_preview_display_rect is None,
        !state.ghost_handles@.contains_key(id),
        !state.last_placed_layout_rects@.contains_key(id),
        !state.window_managed_at@.contains_key(id),
        !state.window_incarnations@.contains_key(id),
        !state.snap_disabled_hwnds@.contains(id),
        !state.tab_title_overrides@.contains_key(id),
{
}

} // verus!
