//! Animation transitions: when they start, how they are cancelled without
//! stranding a window, and when motion is reduced.
use vstd::prelude::*;
use vstd::std_specs::hash::*;
use std::collections::{HashMap, HashSet};
use crate::geometry::{MonitorId, Rect, WindowId};
use crate::ghosts;
use crate::ghosts::TransitionTarget;
use crate::state::{
    AppState, CrossfadeBarrier, ExitWindow, GhostEntry, LayoutTransition, MonitorInfo,
    MonitorWorkspaces, Visibility, WindowPlacement, Workspace,
};

verus! {

broadcast use group_hash_axioms;

/// How long the cancellation of a transition waits for the frame worker.
pub const TRANSITION_BARRIER_MS: u64 = 750;

/// How long the abort of stand-ins waits for the frame worker.
pub const GHOST_BARRIER_MS: u64 = 1500;

/// A transition starts with one frame already elapsed, so that the first frame
/// moves.
pub const FIRST_FRAME_MS: u64 = 16;

/// Failed attempts to park exit windows after which retrying stops.
pub const MAX_EXIT_PARK_FAILURES: u32 = 3;

/// What became of waiting until the frame worker has drained its queue.
#[derive(Clone, Copy, Debug, PartialEq, Eq, Structural)]
pub enum FenceOutcome {
    /// There is no worker to wait for.
    NoWorker,
    /// The worker has drained its queue.
    Reached,
    /// The worker did not answer in time.
    TimedOut,
}

/// What became of parking an exit window.
#[derive(Clone, Copy, Debug, PartialEq, Eq, Structural)]
pub struct ParkReport {
    pub window_id: WindowId,
    pub parked: bool,
    /// The window still exists. One that does not has no pixels to strand.
    pub still_valid: bool,
}

/// Why a transition could not be cancelled.
#[derive(Clone, Debug)]
pub enum CancelError {
    /// The frame worker could still move an exit window back.
    BarrierTimedOut,
    /// These windows could not be parked.
    ParkFailed(Vec<WindowId>),
}

/// The promise that frames in flight were made obsolete before the frame worker is
/// waited for: [`AppState::begin_ghost_abort`] and
/// [`AppState::begin_transition_cancel`] alone give one, and it holds for the epoch
/// that they began.
#[derive(Debug)]
pub struct FenceTicket {
    epoch: u64,
    advanced: bool,
}

impl FenceTicket {
    /// The epoch that frames have to be of to be shown.
    pub closed spec fn epoch(self) -> u64 {
        self.epoch
    }

    /// A new epoch began, so that the worker has to be waited for.
    pub closed spec fn advanced(self) -> bool {
        self.advanced
    }

    /// Whether the worker has to be waited for.
    pub fn needs_wait(&self) -> (r: bool)
        ensures
            r == self.advanced(),
    {
        self.advanced
    }
}

/// The exit windows to park. [`AppState::confirm_cancel_fence`] alone gives it, once
/// no frame can move one of them back.
#[derive(Debug)]
pub struct ParkOrder {
    epoch: u64,
    windows: Vec<WindowId>,
}

impl ParkOrder {
    /// The epoch that the worker was waited for in.
    pub closed spec fn epoch(self) -> u64 {
        self.epoch
    }

    /// The windows to park, in order.
    pub closed spec fn to_park(self) -> Seq<WindowId> {
        self.windows@
    }

    /// The windows to park, in order.
    pub fn windows(&self) -> (r: &Vec<WindowId>)
        ensures
            r@ == self.to_park(),
    {
        &self.windows
    }
}

/// The right to drop the running transition. [`AppState::note_exit_parks`] alone
/// gives it, once no exit window is left on screen.
#[derive(Debug)]
pub struct LandingTicket {
    fence: FenceTicket,
    parked: Vec<WindowId>,
}

impl LandingTicket {
    /// The ticket for the abort of the stand-ins that goes with it.
    pub closed spec fn fence(self) -> FenceTicket {
        self.fence
    }

    /// The exit windows that were parked, or are gone.
    pub closed spec fn parked(self) -> Seq<WindowId> {
        self.parked@
    }

    /// Whether the worker has to be waited for once more.
    pub fn needs_wait(&self) -> (r: bool)
        ensures
            r == self.fence().advanced(),
    {
        self.fence.needs_wait()
    }
}

/// What the abort of the stand-ins leaves to be done.
#[derive(Debug)]
pub struct GhostAbort {
    /// The sources to uncloak.
    pub uncloak: Vec<WindowId>,
    /// The crossfade that the worker is to abort.
    pub abort_crossfade: Option<u64>,
}

/// What one animation tick comes to.
#[derive(Clone, Copy, Debug, PartialEq, Eq, Structural)]
pub struct TickOutcome {
    pub still_animating: bool,
    /// The taskbar buttons are to be reconciled with what is visible.
    pub sync_taskbar: bool,
}

/// How long the abort of stand-ins waits for the frame worker.
pub fn ghost_frame_barrier_timeout() -> (ms: u64)
    ensures
        ms == GHOST_BARRIER_MS,
{
    GHOST_BARRIER_MS
}

/// Whether motion is reduced: animations are off, or the machine runs on battery
/// and the user wants that respected.
pub fn reduce_motion_enabled(
    animations_enabled: bool,
    on_battery_or_saver: bool,
    reduce_motion_on_battery: bool,
) -> (r: bool)
    ensures
        r == (!animations_enabled || (on_battery_or_saver && reduce_motion_on_battery)),
{
    !animations_enabled || (on_battery_or_saver && reduce_motion_on_battery)
}

/// Whether an animation must be collapsed into one exact landing. Movement
/// without a change of size stays smooth.
pub fn compositor_safe_snap_required(
    compositor_safe_mode: bool,
    has_active_animation: bool,
    transition_requires_snap: bool,
) -> (r: bool)
    ensures
        r == (compositor_safe_mode && has_active_animation && transition_requires_snap),
{
    compositor_safe_mode && has_active_animation && transition_requires_snap
}

/// The epoch after `epoch`.
pub open spec fn next_epoch(epoch: u64) -> u64 {
    if epoch == u64::MAX {
        0
    } else {
        (epoch + 1) as u64
    }
}

/// Some workspace scrolls.
pub open spec fn any_scrolls(workspaces: Seq<MonitorWorkspaces>) -> bool {
    exists|i: int, j: int|
        0 <= i < workspaces.len() && 0 <= j < workspaces[i].workspaces@.len() && (
        #[trigger] workspaces[i].workspaces@[j]).animating
}

/// `after` is `before` with every workspace changed as `change` says and
/// nothing else.
pub open spec fn each_changed(
    before: Seq<MonitorWorkspaces>,
    after: Seq<MonitorWorkspaces>,
    change: spec_fn(int, int, Workspace) -> Workspace,
) -> bool {
    &&& after.len() == before.len()
    &&& forall|i: int|
        0 <= i < before.len() ==> {
            &&& (#[trigger] after[i]).monitor == before[i].monitor
            &&& after[i].active == before[i].active
            &&& after[i].workspaces@.len() == before[i].workspaces@.len()
        }
    &&& forall|i: int, j: int|
        0 <= i < before.len() && 0 <= j < before[i].workspaces@.len() ==> (
        #[trigger] after[i].workspaces@[j]) == change(i, j, before[i].workspaces@[j])
}

/// The workspace after a tick that it still scrolls after, or does not. Where a
/// scroll ends, the offset is its target.
pub open spec fn ticked(workspace: Workspace, runs: bool) -> Workspace {
    if workspace.animating && !runs {
        Workspace {
            animating: false,
            scroll_offset: workspace.scroll_target,
            shown_offset: workspace.scroll_target,
            ..workspace
        }
    } else {
        Workspace { animating: runs, ..workspace }
    }
}

/// The workspace with its scrolling landed.
pub open spec fn landed(workspace: Workspace) -> Workspace {
    ticked(workspace, false)
}

/// A park that leaves pixels of a live window on screen.
pub open spec fn stranded(report: ParkReport) -> bool {
    !report.parked && report.still_valid
}

/// Some park left pixels of a live window on screen.
pub open spec fn any_stranded(parks: Seq<ParkReport>) -> bool {
    exists|i: int| 0 <= i < parks.len() && stranded(#[trigger] parks[i])
}

/// The windows of a list of exits, in order.
pub open spec fn exit_ids(exits: Seq<ExitWindow>) -> Seq<WindowId> {
    exits.map_values(|e: ExitWindow| e.window_id)
}

/// The parks report on every exit window, in order.
pub open spec fn parks_cover(parks: Seq<ParkReport>, exits: Seq<ExitWindow>) -> bool {
    &&& parks.len() == exits.len()
    &&& forall|i: int|
        0 <= i < exits.len() ==> (#[trigger] parks[i]).window_id == exits[i].window_id
}

/// The windows of the parks that failed, in order.
pub open spec fn stranded_windows(parks: Seq<ParkReport>) -> Seq<WindowId>
    decreases parks.len(),
{
    if parks.len() == 0 {
        Seq::empty()
    } else if stranded(parks.last()) {
        stranded_windows(parks.drop_last()).push(parks.last().window_id)
    } else {
        stranded_windows(parks.drop_last())
    }
}

/// The windows of the parks that failed, in order.
pub fn failed_parks(parks: &Vec<ParkReport>) -> (r: Vec<WindowId>)
    ensures
        r@ == stranded_windows(parks@),
        r@.len() > 0 <==> any_stranded(parks@),
{
    let mut r: Vec<WindowId> = Vec::new();
    let mut i: usize = 0;
    while i < parks.len()
        invariant
            i <= parks.len(),
            r@ == stranded_windows(parks@.take(i as int)),
            r@.len() > 0 <==> any_stranded(parks@.take(i as int)),
        decreases parks.len() - i,
    {
        proof {
            let next = parks@.take(i + 1);
            assert(next.drop_last() =~= parks@.take(i as int));
            assert(next.last() == parks@[i as int]);
            assert forall|k: int| 0 <= k < i && stranded(#[trigger] next[k]) implies any_stranded(
                parks@.take(i as int),
            ) by {
                assert(parks@.take(i as int)[k] == next[k]);
            }
            assert forall|k: int|
                0 <= k < i && stranded(#[trigger] parks@.take(i as int)[k]) implies any_stranded(
                next,
            ) by {
                assert(next[k] == parks@.take(i as int)[k]);
            }
        }
        let report = parks[i];
        if !report.parked && report.still_valid {
            r.push(report.window_id);
            assert(stranded(parks@.take(i + 1)[i as int]));
        }
        i = i + 1;
    }
    assert(parks@.take(i as int) =~= parks@);
    r
}

/// The keys of a map keyed by window, each once.
fn window_keys<V>(m: &HashMap<u64, V>) -> (r: Vec<u64>)
    ensures
        r@.no_duplicates(),
        r@.to_set() == m@.dom(),
{
    let mut r: Vec<u64> = Vec::new();
    let ghost all = vstd::std_specs::iter::IteratorSpec::remaining(&m.keys());
    for k in it: m.keys()
        invariant
            it.seq() == all,
            r@ == all.take(it.index()).unref(),
    {
        r.push(*k);
    }
    assert(all.take(all.len() as int) =~= all);
    r
}

/// `m` with the places of all placements; a later one replaces an earlier one.
pub open spec fn with_places(
    m: Map<u64, Rect>,
    placements: Seq<WindowPlacement>,
) -> Map<u64, Rect>
    decreases placements.len(),
{
    if placements.len() == 0 {
        m
    } else {
        with_places(m, placements.drop_last()).insert(
            placements.last().window_id,
            placements.last().rect,
        )
    }
}

/// `m` with the places of the visible placements on `monitor`; a later one
/// replaces an earlier one.
pub open spec fn with_targets(
    m: Map<u64, TransitionTarget>,
    placements: Seq<WindowPlacement>,
    monitor: MonitorId,
) -> Map<u64, TransitionTarget>
    decreases placements.len(),
{
    if placements.len() == 0 {
        m
    } else {
        let before = with_targets(m, placements.drop_last(), monitor);
        let last = placements.last();
        if last.visibility == Visibility::Visible {
            before.insert(last.window_id, TransitionTarget { rect: last.rect, monitor })
        } else {
            before
        }
    }
}

/// The monitor is known.
pub open spec fn is_known_monitor(monitors: Seq<MonitorInfo>, id: MonitorId) -> bool {
    exists|i: int| 0 <= i < monitors.len() && (#[trigger] monitors[i]).id == id
}

/// The placements that a monitor shows: those of its active workspace, if the
/// monitor is known and has that workspace.
pub open spec fn shown_placements(
    group: MonitorWorkspaces,
    monitors: Seq<MonitorInfo>,
) -> Seq<WindowPlacement> {
    if is_known_monitor(monitors, group.monitor) && group.active < group.workspaces@.len() {
        group.workspaces@[group.active as int].placements@
    } else {
        Seq::empty()
    }
}

/// The place of every window that some monitor shows.
pub open spec fn snapshot_of(
    groups: Seq<MonitorWorkspaces>,
    monitors: Seq<MonitorInfo>,
) -> Map<u64, Rect>
    decreases groups.len(),
{
    if groups.len() == 0 {
        Map::empty()
    } else {
        with_places(
            snapshot_of(groups.drop_last(), monitors),
            shown_placements(groups.last(), monitors),
        )
    }
}

/// The place of every visible window, with its monitor.
pub open spec fn targets_of(
    groups: Seq<MonitorWorkspaces>,
    monitors: Seq<MonitorInfo>,
) -> Map<u64, TransitionTarget>
    decreases groups.len(),
{
    if groups.len() == 0 {
        Map::empty()
    } else {
        with_targets(
            targets_of(groups.drop_last(), monitors),
            shown_placements(groups.last(), monitors),
            groups.last().monitor,
        )
    }
}

/// Some workspace keeps the window floating.
pub open spec fn floats_somewhere(
    groups: Seq<MonitorWorkspaces>,
    window_id: WindowId,
) -> bool {
    exists|i: int, j: int|
        0 <= i < groups.len() && 0 <= j < groups[i].workspaces@.len() && (
        #[trigger] groups[i].workspaces@[j]).floating@.contains(window_id)
}

/// Whether the monitor is known.
pub(crate) fn known_monitor(monitors: &Vec<MonitorInfo>, id: MonitorId) -> (r: bool)
    ensures
        r == is_known_monitor(monitors@, id),
{
    let mut i: usize = 0;
    while i < monitors.len()
        invariant
            i <= monitors.len(),
            forall|k: int| 0 <= k < i ==> (#[trigger] monitors@[k]).id != id,
        decreases monitors.len() - i,
    {
        if monitors[i].id == id {
            return true;
        }
        i = i + 1;
    }
    false
}

/// Whether `ids` lists `id`.
pub(crate) fn lists(ids: &Vec<WindowId>, id: WindowId) -> (r: bool)
    ensures
        r == ids@.contains(id),
{
    let mut i: usize = 0;
    while i < ids.len()
        invariant
            i <= ids.len(),
            forall|k: int| 0 <= k < i ==> #[trigger] ids@[k] != id,
        decreases ids.len() - i,
    {
        if ids[i] == id {
            return true;
        }
        i = i + 1;
    }
    false
}

impl AppState {
    /// A transition runs or some workspace scrolls.
    pub open spec fn animates(self) -> bool {
        self.layout_transition is Some || any_scrolls(self.workspaces@)
    }

    /// Whether a transition runs or some workspace scrolls.
    pub fn is_animating(&self) -> (r: bool)
        ensures
            r == self.animates(),
    {
        if self.layout_transition.is_some() {
            return true;
        }
        let mut i: usize = 0;
        while i < self.workspaces.len()
            invariant
                i <= self.workspaces.len(),
                self.layout_transition is None,
                forall|a: int, b: int|
                    0 <= a < i && 0 <= b < self.workspaces@[a].workspaces@.len() ==> !(
                    #[trigger] self.workspaces@[a].workspaces@[b]).animating,
            decreases self.workspaces.len() - i,
        {
            let mut j: usize = 0;
            while j < self.workspaces[i].workspaces.len()
                invariant
                    i < self.workspaces.len(),
                    j <= self.workspaces@[i as int].workspaces@.len(),
                    forall|b: int|
                        0 <= b < j ==> !(
                        #[trigger] self.workspaces@[i as int].workspaces@[b]).animating,
                decreases self.workspaces@[i as int].workspaces@.len() - j,
            {
                if self.workspaces[i].workspaces[j].animating {
                    return true;
                }
                j = j + 1;
            }
            i = i + 1;
        }
        false
    }

    /// `after` is `before` with every scroll landed.
    pub open spec fn scrolls_landed(before: AppState, after: AppState) -> bool {
        &&& after == (AppState { workspaces: after.workspaces, ..before })
        &&& each_changed(
            before.workspaces@,
            after.workspaces@,
            |i: int, j: int, w: Workspace| landed(w),
        )
    }

    /// Lands every scroll animation.
    pub fn settle_scroll_animations(&mut self)
        ensures
            old(self).wf() ==> final(self).wf(),
            Self::scrolls_landed(*old(self), *final(self)),
    {
        let ghost change = |i: int, j: int, w: Workspace| landed(w);
        let mut i: usize = 0;
        while i < self.workspaces.len()
            invariant
                i <= self.workspaces.len(),
                *self == (AppState { workspaces: self.workspaces, ..*old(self) }),
                self.workspaces@.len() == old(self).workspaces@.len(),
                forall|a: int|
                    i <= a < self.workspaces@.len() ==> #[trigger] self.workspaces@[a] == old(self).workspaces@[a],
                forall|a: int|
                    0 <= a < i ==> {
                        &&& (#[trigger] self.workspaces@[a]).monitor == old(self).workspaces@[a].monitor
                        &&& self.workspaces@[a].active == old(self).workspaces@[a].active
                        &&& self.workspaces@[a].workspaces@.len() == old(self).workspaces@[a].workspaces@.len()
                    },
                forall|a: int, b: int|
                    0 <= a < i && 0 <= b < old(self).workspaces@[a].workspaces@.len() ==> (
                    #[trigger] self.workspaces@[a].workspaces@[b]) == landed(
                        old(self).workspaces@[a].workspaces@[b],
                    ),
            decreases self.workspaces.len() - i,
        {
            let group = &mut self.workspaces[i];
            let ghost before = *group;
            let mut j: usize = 0;
            while j < group.workspaces.len()
                invariant
                    j <= group.workspaces@.len(),
                    group.workspaces@.len() == before.workspaces@.len(),
                    group.monitor == before.monitor,
                    group.active == before.active,
                    forall|b: int|
                        j <= b < group.workspaces@.len() ==> #[trigger] group.workspaces@[b]
                            == before.workspaces@[b],
                    forall|b: int|
                        0 <= b < j ==> #[trigger] group.workspaces@[b] == landed(
                            before.workspaces@[b],
                        ),
                decreases group.workspaces@.len() - j,
            {
                if group.workspaces[j].animating {
                    let target: i32 = group.workspaces[j].scroll_target;
                    group.workspaces[j].animating = false;
                    group.workspaces[j].scroll_offset = target;
                    group.workspaces[j].shown_offset = target;
                }
                j = j + 1;
            }
            i = i + 1;
        }
        assert(each_changed(old(self).workspaces@, self.workspaces@, change));
    }

    /// The running transition must not animate.
    pub open spec fn transition_must_snap(self) -> bool {
        self.layout_transition matches Some(transition)
            && transition.requires_compositor_safe_snap
    }

    /// Begins to collapse a transition that is unsafe to animate: scrolling
    /// lands at once, and the caller goes on to cancel the transition. False,
    /// with nothing changed, when there is nothing to collapse.
    pub fn settle_animations_for_compositor_safety(&mut self) -> (r: bool)
        ensures
            old(self).wf() ==> final(self).wf(),
            r == (old(self).config.behavior.compositor_safe_mode && old(self).animates() && old(self).transition_must_snap()),
            !r ==> *final(self) == *old(self),
            r ==> Self::scrolls_landed(*old(self), *final(self)),
    {
        let transition_requires_snap = match &self.layout_transition {
            Some(transition) => transition.requires_compositor_safe_snap,
            None => false,
        };
        if !compositor_safe_snap_required(
            self.config.behavior.compositor_safe_mode,
            self.is_animating(),
            transition_requires_snap,
        ) {
            return false;
        }
        self.settle_scroll_animations();
        true
    }

    /// Ends the record of a running crossfade and gives the epoch that the
    /// worker is to abort. The sources stay barred until the worker says that it
    /// has stopped.
    pub fn abort_active_crossfade(&mut self) -> (epoch: Option<u64>)
        ensures
            old(self).wf() ==> final(self).wf(),
            epoch == old(self).active_crossfade,
            *final(self) == (AppState { active_crossfade: None, ..*old(self) }),
    {
        let epoch = self.active_crossfade;
        self.active_crossfade = None;
        epoch
    }

    /// The crossfade barrier has outlived what a crossfade can take.
    pub open spec fn barrier_is_stale(
        barrier: CrossfadeBarrier,
        now_ms: u64,
        max_age_ms: u64,
    ) -> bool {
        (if now_ms >= barrier.started_ms {
            now_ms - barrier.started_ms
        } else {
            0
        }) >= max_age_ms
    }

    /// Drops the barriers of crossfades whose end was never reported, so that
    /// their windows can get a stand-in again.
    pub fn sweep_stale_crossfade_barriers(&mut self, now_ms: u64, max_age_ms: u64)
        ensures
            old(self).wf() ==> final(self).wf(),
            *final(self) == (AppState {
                crossfade_sources: final(self).crossfade_sources,
                ..*old(self)
            }),
            forall|epoch: u64| #[trigger]
                final(self).crossfade_sources@.contains_key(epoch) <==> old(self).crossfade_sources@.contains_key(epoch) && !Self::barrier_is_stale(
                    old(self).crossfade_sources@[epoch],
                    now_ms,
                    max_age_ms,
                ),
            forall|epoch: u64| #[trigger]
                final(self).crossfade_sources@.contains_key(epoch) ==> final(self).crossfade_sources@[epoch] == old(self).crossfade_sources@[epoch],
    {
        let epochs = window_keys(&self.crossfade_sources);
        let ghost before = self.crossfade_sources@;
        let mut i: usize = 0;
        while i < epochs.len()
            invariant
                i <= epochs.len(),
                epochs@.no_duplicates(),
                epochs@.to_set() == before.dom(),
                before == old(self).crossfade_sources@,
                *self == (AppState { crossfade_sources: self.crossfade_sources, ..*old(self) }),
                forall|epoch: u64| #[trigger]
                    self.crossfade_sources@.contains_key(epoch) <==> before.contains_key(epoch)
                        && !(epochs@.take(i as int).contains(epoch) && Self::barrier_is_stale(
                        before[epoch],
                        now_ms,
                        max_age_ms,
                    )),
                forall|epoch: u64| #[trigger]
                    self.crossfade_sources@.contains_key(epoch) ==> self.crossfade_sources@[epoch]
                        == before[epoch],
            decreases epochs.len() - i,
        {
            let epoch: u64 = epochs[i];
            proof {
                assert(epochs@.to_set().contains(epoch));
                assert forall|e: u64| epochs@.take(i + 1).contains(e) <==> (epochs@.take(
                    i as int,
                ).contains(e) || e == epoch) by {
                    assert(epochs@.take(i + 1) =~= epochs@.take(i as int).push(epoch));
                    if epochs@.take(i as int).contains(e) {
                        let k = choose|k: int|
                            0 <= k < i && epochs@.take(i as int)[k] == e;
                        assert(epochs@.take(i + 1)[k] == e);
                    }
                    if e == epoch {
                        assert(epochs@.take(i + 1)[i as int] == e);
                    }
                }
                assert(!epochs@.take(i as int).contains(epoch));
                assert(self.crossfade_sources@.contains_key(epoch));
            }
            let stale = match self.crossfade_sources.get(&epoch) {
                Some(barrier) => now_ms.saturating_sub(barrier.started_ms) >= max_age_ms,
                None => false,
            };
            if stale {
                self.crossfade_sources.remove(&epoch);
            }
            i = i + 1;
        }
        proof {
            assert(epochs@.take(i as int) =~= epochs@);
            assert forall|e: u64| before.contains_key(e) implies epochs@.contains(e) by {
                assert(epochs@.to_set().contains(e));
            }
        }
    }

    /// The ticket was given for the current epoch and covers the stand-ins.
    pub open spec fn fenced_by(self, ticket: FenceTicket) -> bool {
        &&& ticket.epoch() == self.apply_epoch
        &&& !self.ghost_handles@.is_empty() ==> ticket.advanced()
    }

    /// Begins to abort the stand-ins. Where there are any, frames in flight are
    /// made obsolete and the caller has to wait for the frame worker.
    pub fn begin_ghost_abort(&mut self) -> (ticket: FenceTicket)
        ensures
            old(self).wf() ==> final(self).wf(),
            ticket.advanced() == (!old(self).ghost_handles@.is_empty()),
            *final(self) == (if ticket.advanced() {
                AppState { apply_epoch: next_epoch(old(self).apply_epoch), ..*old(self) }
            } else {
                *old(self)
            }),
            final(self).fenced_by(ticket),
    {
        let advanced = self.has_ghosts();
        if advanced {
            self.bump_epoch();
        }
        FenceTicket { epoch: self.apply_epoch, advanced }
    }

    /// Whether any window has a stand-in.
    pub fn has_ghosts(&self) -> (r: bool)
        ensures
            r == (!self.ghost_handles@.is_empty()),
    {
        !self.ghost_handles.is_empty()
    }

    fn bump_epoch(&mut self)
        ensures
            *final(self) == (AppState {
                apply_epoch: next_epoch(old(self).apply_epoch),
                ..*old(self)
            }),
    {
        self.apply_epoch = if self.apply_epoch == u64::MAX {
            0
        } else {
            self.apply_epoch + 1
        };
    }

    /// The transition once its stand-ins are gone. In compositor-safe mode every
    /// stand-in protected a window that changes its size, so without them the
    /// transition must land at once.
    pub open spec fn unghosted(
        compositor_safe_mode: bool,
        before: LayoutTransition,
        after: LayoutTransition,
    ) -> bool {
        &&& after.ghosted_wids@ == Set::<u64>::empty()
        &&& after == (LayoutTransition {
            ghosted_wids: after.ghosted_wids,
            requires_compositor_safe_snap: before.requires_compositor_safe_snap || (
            compositor_safe_mode && !before.ghosted_wids@.is_empty()),
            ..before
        })
    }

    /// `after` is `before` without stand-ins and without a running crossfade.
    pub open spec fn ghosts_aborted(before: AppState, after: AppState) -> bool {
        &&& after.ghost_handles@ == Map::<u64, GhostEntry>::empty()
        &&& after.active_crossfade is None
        &&& match (before.layout_transition, after.layout_transition) {
            (None, None) => true,
            (Some(b), Some(a)) => Self::unghosted(before.config.behavior.compositor_safe_mode, b, a),
            _ => false,
        }
        &&& after == (AppState {
            ghost_handles: after.ghost_handles,
            active_crossfade: None,
            layout_transition: after.layout_transition,
            ..before
        })
    }

    /// The stand-ins have to be kept: the frame worker could still own frames of
    /// them.
    pub open spec fn keeps_ghosts(self, fence: FenceOutcome) -> bool {
        !self.ghost_handles@.is_empty() && fence == FenceOutcome::TimedOut
    }

    /// How an abort of the stand-ins ends. Stand-ins that have to be kept pause
    /// tiling; else they are dropped, their sources are to be uncloaked, and a
    /// running crossfade is aborted.
    pub open spec fn abort_outcome(
        before: AppState,
        after: AppState,
        fence: FenceOutcome,
        abort: GhostAbort,
    ) -> bool {
        if before.keeps_ghosts(fence) {
            &&& after == (AppState { paused: true, ..before })
            &&& abort.uncloak@.len() == 0
            &&& abort.abort_crossfade is None
        } else {
            &&& Self::ghosts_aborted(before, after)
            &&& abort.uncloak@.no_duplicates()
            &&& abort.uncloak@.to_set() == before.ghost_handles@.dom()
            &&& abort.abort_crossfade == before.active_crossfade
        }
    }

    /// Aborts the stand-ins once the frame worker was waited for.
    pub fn abort_active_ghost_transition(&mut self, ticket: FenceTicket, fence: FenceOutcome) -> (r:
        GhostAbort)
        requires
            old(self).fenced_by(ticket),
        ensures
            old(self).wf() ==> final(self).wf(),
            Self::abort_outcome(*old(self), *final(self), fence, r),
    {
        if self.has_ghosts() && fence == FenceOutcome::TimedOut {
            self.paused = true;
            return GhostAbort { uncloak: Vec::new(), abort_crossfade: None };
        }
        let uncloak = window_keys(&self.ghost_handles);
        self.ghost_handles.clear();
        let compositor_safe_mode = self.config.behavior.compositor_safe_mode;
        if let Some(mut transition) = self.layout_transition.take() {
            if compositor_safe_mode && !transition.ghosted_wids.is_empty() {
                transition.requires_compositor_safe_snap = true;
            }
            transition.ghosted_wids.clear();
            self.layout_transition = Some(transition);
        }
        let abort_crossfade = self.abort_active_crossfade();
        GhostAbort { uncloak, abort_crossfade }
    }

    /// Begins to cancel the running transition. Where there is one, frames in
    /// flight are made obsolete, and the caller waits for the frame worker. `None`,
    /// with nothing changed, when none runs.
    pub fn begin_transition_cancel(&mut self) -> (ticket: Option<FenceTicket>)
        ensures
            old(self).wf() ==> final(self).wf(),
            ticket is Some <==> old(self).layout_transition is Some,
            match ticket {
                Some(ticket) => {
                    &&& ticket.advanced()
                    &&& ticket.epoch() == final(self).apply_epoch
                    &&& *final(self) == (AppState {
                        apply_epoch: next_epoch(old(self).apply_epoch),
                        ..*old(self)
                    })
                },
                None => *final(self) == *old(self),
            },
    {
        if self.layout_transition.is_some() {
            self.bump_epoch();
            Some(FenceTicket { epoch: self.apply_epoch, advanced: true })
        } else {
            None
        }
    }

    /// The exit windows of the running transition, which have to be parked before
    /// it may go.
    pub fn exit_windows(&self) -> (r: Vec<WindowId>)
        ensures
            r@ == (match self.layout_transition {
                Some(transition) => exit_ids(transition.exits@),
                None => Seq::empty(),
            }),
    {
        let mut r: Vec<WindowId> = Vec::new();
        if let Some(transition) = &self.layout_transition {
            let mut i: usize = 0;
            while i < transition.exits.len()
                invariant
                    i <= transition.exits.len(),
                    r@ == exit_ids(transition.exits@.take(i as int)),
                decreases transition.exits.len() - i,
            {
                assert(transition.exits@.take(i + 1) =~= transition.exits@.take(i as int).push(
                    transition.exits@[i as int],
                ));
                r.push(transition.exits[i].window_id);
                i = i + 1;
            }
            assert(transition.exits@.take(i as int) =~= transition.exits@);
        }
        r
    }

    /// Takes note of the wait for the frame worker that a cancel began. Only a worker
    /// that answered lets the exit windows be parked: else it could still move one of
    /// them back.
    pub fn confirm_cancel_fence(&self, ticket: FenceTicket, fence: FenceOutcome) -> (r: Result<
        ParkOrder,
        CancelError,
    >)
        requires
            self.layout_transition is Some,
            ticket.advanced(),
            ticket.epoch() == self.apply_epoch,
        ensures
            match r {
                Ok(order) => {
                    &&& fence != FenceOutcome::TimedOut
                    &&& order.epoch() == self.apply_epoch
                    &&& order.to_park() == exit_ids(self.layout_transition->0.exits@)
                },
                Err(error) => fence == FenceOutcome::TimedOut && error
                    == CancelError::BarrierTimedOut,
            },
    {
        if fence == FenceOutcome::TimedOut {
            return Err(CancelError::BarrierTimedOut);
        }
        Ok(ParkOrder { epoch: ticket.epoch, windows: self.exit_windows() })
    }

    /// Takes note of what became of parking the exit windows. Where none is left on
    /// screen the transition may go, and the abort of its stand-ins begins. Else it
    /// stays, with nothing changed: it is the only record of them.
    pub fn note_exit_parks(&mut self, order: ParkOrder, parks: &Vec<ParkReport>) -> (r: Result<
        LandingTicket,
        CancelError,
    >)
        requires
            order.epoch() == old(self).apply_epoch,
            old(self).layout_transition matches Some(transition) && order.to_park() == exit_ids(
                transition.exits@,
            ) && parks_cover(parks@, transition.exits@),
        ensures
            old(self).wf() ==> final(self).wf(),
            match r {
                Ok(landing) => {
                    &&& !any_stranded(parks@)
                    &&& landing.parked() == order.to_park()
                    &&& landing.fence().advanced() == (!old(self).ghost_handles@.is_empty())
                    &&& final(self).fenced_by(landing.fence())
                    &&& *final(self) == (if landing.fence().advanced() {
                        AppState { apply_epoch: next_epoch(old(self).apply_epoch), ..*old(self) }
                    } else {
                        *old(self)
                    })
                },
                Err(CancelError::ParkFailed(windows)) => {
                    &&& any_stranded(parks@)
                    &&& windows@ == stranded_windows(parks@)
                    &&& *final(self) == *old(self)
                },
                Err(_) => false,
            },
    {
        let failures = failed_parks(parks);
        if failures.len() > 0 {
            return Err(CancelError::ParkFailed(failures));
        }
        Ok(LandingTicket { fence: self.begin_ghost_abort(), parked: order.windows })
    }

    /// The state after the running transition was ended for an exact landing.
    pub open spec fn landed_exactly(
        before: AppState,
        after: AppState,
        ghost_fence: FenceOutcome,
    ) -> bool {
        let kept = before.keeps_ghosts(ghost_fence);
        &&& after.last_placed_layout_rects@ == Map::<u64, Rect>::empty()
        &&& after.ghost_handles@ == (if kept {
            before.ghost_handles@
        } else {
            Map::<u64, GhostEntry>::empty()
        })
        &&& after == (AppState {
            layout_transition: None,
            post_animation_landing_pending: true,
            last_placed_layout_rects: after.last_placed_layout_rects,
            ghost_handles: after.ghost_handles,
            paused: before.paused || kept,
            active_crossfade: if kept {
                before.active_crossfade
            } else {
                None
            },
            ..before
        })
    }

    /// Ends the running transition for an exact landing, once its exit windows are
    /// parked and, if there are stand-ins, the frame worker was waited for again
    /// (`ghost_fence`). The exit windows of the transition are those that the ticket
    /// was given for.
    pub fn cancel_layout_transition_for_exact_landing(
        &mut self,
        landing: LandingTicket,
        ghost_fence: FenceOutcome,
    ) -> (abort: GhostAbort)
        requires
            old(self).layout_transition matches Some(transition) && landing.parked() == exit_ids(
                transition.exits@,
            ),
            old(self).fenced_by(landing.fence()),
        ensures
            old(self).wf() ==> final(self).wf(),
            ({
                let kept = old(self).keeps_ghosts(ghost_fence);
                &&& Self::landed_exactly(*old(self), *final(self), ghost_fence)
                &&& kept ==> abort.uncloak@.len() == 0 && abort.abort_crossfade is None
                &&& !kept ==> {
                    &&& abort.uncloak@.no_duplicates()
                    &&& abort.uncloak@.to_set() == old(self).ghost_handles@.dom()
                    &&& abort.abort_crossfade == old(self).active_crossfade
                }
            }),
    {
        let abort = self.abort_active_ghost_transition(landing.fence, ghost_fence);
        self.layout_transition = None;
        self.post_animation_landing_pending = true;
        self.last_placed_layout_rects.clear();
        abort
    }

    /// `ticks` says of each workspace whether it still scrolls.
    pub open spec fn ticks_match(self, ticks: Seq<Vec<bool>>) -> bool {
        &&& ticks.len() == self.workspaces@.len()
        &&& forall|i: int|
            0 <= i < ticks.len() ==> (#[trigger] ticks[i])@.len()
                == self.workspaces@[i].workspaces@.len()
    }

    /// Some workspace stopped scrolling with this tick.
    pub open spec fn some_scroll_ended(self, ticks: Seq<Vec<bool>>) -> bool {
        exists|i: int, j: int|
            0 <= i < self.workspaces@.len() && 0 <= j < self.workspaces@[i].workspaces@.len() && (
            #[trigger] self.workspaces@[i].workspaces@[j]).animating && !ticks[i]@[j]
    }

    /// Some workspace still scrolls after this tick.
    pub open spec fn some_scroll_runs(self, ticks: Seq<Vec<bool>>) -> bool {
        exists|i: int, j: int|
            0 <= i < ticks.len() && 0 <= j < ticks[i]@.len() && #[trigger] ticks[i]@[j]
    }

    /// Advances the scroll animations: `ticks` says which of them still run.
    fn tick_workspaces(&mut self, ticks: &Vec<Vec<bool>>) -> (r: (bool, bool))
        requires
            old(self).ticks_match(ticks@),
        ensures
            r.0 == old(self).some_scroll_runs(ticks@),
            r.1 == old(self).some_scroll_ended(ticks@),
            *final(self) == (AppState { workspaces: final(self).workspaces, ..*old(self) }),
            each_changed(
                old(self).workspaces@,
                final(self).workspaces@,
                |i: int, j: int, w: Workspace| ticked(w, ticks@[i]@[j]),
            ),
    {
        let mut runs = false;
        let mut ended = false;
        let mut i: usize = 0;
        while i < self.workspaces.len()
            invariant
                i <= self.workspaces.len(),
                old(self).ticks_match(ticks@),
                *self == (AppState { workspaces: self.workspaces, ..*old(self) }),
                self.workspaces@.len() == old(self).workspaces@.len(),
                runs ==> old(self).some_scroll_runs(ticks@),
                ended ==> old(self).some_scroll_ended(ticks@),
                !runs ==> forall|a: int, b: int|
                    0 <= a < i && 0 <= b < ticks@[a]@.len() ==> !#[trigger] ticks@[a]@[b],
                !ended ==> forall|a: int, b: int|
                    0 <= a < i && 0 <= b < old(self).workspaces@[a].workspaces@.len() ==> !((
                    #[trigger] old(self).workspaces@[a].workspaces@[b]).animating
                        && !ticks@[a]@[b]),
                forall|a: int|
                    i <= a < self.workspaces@.len() ==> #[trigger] self.workspaces@[a]
                        == old(self).workspaces@[a],
                forall|a: int|
                    0 <= a < i ==> {
                        &&& (#[trigger] self.workspaces@[a]).monitor
                            == old(self).workspaces@[a].monitor
                        &&& self.workspaces@[a].active == old(self).workspaces@[a].active
                        &&& self.workspaces@[a].workspaces@.len()
                            == old(self).workspaces@[a].workspaces@.len()
                    },
                forall|a: int, b: int|
                    0 <= a < i && 0 <= b < old(self).workspaces@[a].workspaces@.len() ==> (
                    #[trigger] self.workspaces@[a].workspaces@[b]) == ticked(
                        old(self).workspaces@[a].workspaces@[b],
                        ticks@[a]@[b],
                    ),
            decreases self.workspaces.len() - i,
        {
            assert(ticks@[i as int]@.len() == old(self).workspaces@[i as int].workspaces@.len());
            let row = &ticks[i];
            let group = &mut self.workspaces[i];
            let ghost before = *group;
            let mut j: usize = 0;
            while j < group.workspaces.len()
                invariant
                    j <= group.workspaces@.len(),
                    row@.len() == group.workspaces@.len(),
                    group.workspaces@.len() == before.workspaces@.len(),
                    group.monitor == before.monitor,
                    group.active == before.active,
                    0 <= i < ticks@.len(),
                    ticks@.len() == old(self).workspaces@.len(),
                    *row == ticks@[i as int],
                    before == old(self).workspaces@[i as int],
                    runs ==> old(self).some_scroll_runs(ticks@),
                    ended ==> old(self).some_scroll_ended(ticks@),
                    !runs ==> forall|a: int, b: int|
                        0 <= a < i && 0 <= b < ticks@[a]@.len() ==> !#[trigger] ticks@[a]@[b],
                    !runs ==> forall|b: int| 0 <= b < j ==> !#[trigger] row@[b],
                    !ended ==> forall|a: int, b: int|
                        0 <= a < i && 0 <= b < old(self).workspaces@[a].workspaces@.len() ==> !((
                        #[trigger] old(self).workspaces@[a].workspaces@[b]).animating
                            && !ticks@[a]@[b]),
                    !ended ==> forall|b: int|
                        0 <= b < j ==> !((#[trigger] before.workspaces@[b]).animating
                            && !row@[b]),
                    forall|b: int|
                        j <= b < group.workspaces@.len() ==> #[trigger] group.workspaces@[b]
                            == before.workspaces@[b],
                    forall|b: int|
                        0 <= b < j ==> #[trigger] group.workspaces@[b] == ticked(
                            before.workspaces@[b],
                            row@[b],
                        ),
                decreases group.workspaces@.len() - j,
            {
                let was_animating = group.workspaces[j].animating;
                let still = row[j];
                if still {
                    runs = true;
                    assert(ticks@[i as int]@[j as int]);
                } else if was_animating {
                    ended = true;
                    assert(old(self).workspaces@[i as int].workspaces@[j as int].animating);
                    let target: i32 = group.workspaces[j].scroll_target;
                    group.workspaces[j].scroll_offset = target;
                    group.workspaces[j].shown_offset = target;
                }
                group.workspaces[j].animating = still;
                j = j + 1;
            }
            i = i + 1;
        }
        (runs, ended)
    }

    /// Advances every animation by one tick. `ticks` says which workspaces still
    /// scroll, `transition_runs` whether the transition does; where it does not,
    /// `parks` says what became of parking its exit windows.
    ///
    /// A transition that is over goes only once its exit windows are parked; an
    /// exact landing then follows, which counts as one more frame. While parking
    /// fails it stays, and after the last attempt tiling is paused; animations go on
    /// running only if some workspace still scrolls then.
    pub fn tick_animations(
        &mut self,
        ticks: &Vec<Vec<bool>>,
        transition_runs: bool,
        parks: &Vec<ParkReport>,
    ) -> (r: TickOutcome)
        requires
            old(self).ticks_match(ticks@),
            !transition_runs ==> (old(self).layout_transition matches Some(transition)
                ==> parks_cover(parks@, transition.exits@)),
        ensures
            old(self).wf() ==> final(self).wf(),
            old(self).some_scroll_runs(ticks@) ==> r.still_animating,
            each_changed(
                old(self).workspaces@,
                final(self).workspaces@,
                |i: int, j: int, w: Workspace| ticked(w, ticks@[i]@[j]),
            ),
            match old(self).layout_transition {
                None => {
                    &&& *final(self) == (AppState {
                        workspaces: final(self).workspaces,
                        ..*old(self)
                    })
                    &&& r == (TickOutcome {
                        still_animating: old(self).some_scroll_runs(ticks@),
                        sync_taskbar: old(self).some_scroll_ended(ticks@),
                    })
                },
                Some(transition) => if transition_runs {
                    &&& *final(self) == (AppState {
                        workspaces: final(self).workspaces,
                        ..*old(self)
                    })
                    &&& r == (TickOutcome {
                        still_animating: true,
                        sync_taskbar: old(self).some_scroll_ended(ticks@),
                    })
                } else if !any_stranded(parks@) {
                    &&& *final(self) == (AppState {
                        workspaces: final(self).workspaces,
                        layout_transition: None,
                        ..*old(self)
                    })
                    &&& r == (TickOutcome { still_animating: true, sync_taskbar: true })
                } else {
                    let failures = if transition.exit_park_failures == u32::MAX {
                        u32::MAX
                    } else {
                        (transition.exit_park_failures + 1) as u32
                    };
                    &&& *final(self) == (AppState {
                        workspaces: final(self).workspaces,
                        layout_transition: Some(
                            LayoutTransition { exit_park_failures: failures, ..transition },
                        ),
                        paused: old(self).paused || failures >= MAX_EXIT_PARK_FAILURES,
                        ..*old(self)
                    })
                    &&& r == (TickOutcome {
                        still_animating: old(self).some_scroll_runs(ticks@) || failures
                            < MAX_EXIT_PARK_FAILURES,
                        sync_taskbar: old(self).some_scroll_ended(ticks@),
                    })
                },
            },
    {
        let (runs, ended) = self.tick_workspaces(ticks);
        let mut outcome = TickOutcome { still_animating: runs, sync_taskbar: ended };
        if let Some(mut transition) = self.layout_transition.take() {
            if transition_runs {
                outcome.still_animating = true;
                self.layout_transition = Some(transition);
            } else if failed_parks(parks).len() == 0 {
                outcome.sync_taskbar = true;
                outcome.still_animating = true;
            } else {
                transition.exit_park_failures = transition.exit_park_failures.saturating_add(1);
                if transition.exit_park_failures >= MAX_EXIT_PARK_FAILURES {
                    self.paused = true;
                } else {
                    outcome.still_animating = true;
                }
                self.layout_transition = Some(transition);
            }
        }
        outcome
    }

    /// Reduces or restores motion as the system and the settings ask for, on
    /// every workspace. True if that changed.
    pub fn refresh_reduce_motion(&mut self, animations_enabled: bool) -> (changed: bool)
        ensures
            old(self).wf() ==> final(self).wf(),
            ({
                let reduce = !animations_enabled || (old(self).on_battery_or_saver
                    && old(self).config.animation.reduce_motion_on_battery);
                &&& changed == (reduce != old(self).reduce_motion)
                &&& !changed ==> *final(self) == *old(self)
                &&& changed ==> *final(self) == (AppState {
                    workspaces: final(self).workspaces,
                    reduce_motion: reduce,
                    ..*old(self)
                }) && each_changed(
                    old(self).workspaces@,
                    final(self).workspaces@,
                    |i: int, j: int, w: Workspace| Workspace { reduce_motion: reduce, ..w },
                )
            }),
    {
        let reduce = reduce_motion_enabled(
            animations_enabled,
            self.on_battery_or_saver,
            self.config.animation.reduce_motion_on_battery,
        );
        if reduce == self.reduce_motion {
            return false;
        }
        self.reduce_motion = reduce;
        let ghost start = *self;
        let mut i: usize = 0;
        while i < self.workspaces.len()
            invariant
                i <= self.workspaces.len(),
                *self == (AppState { workspaces: self.workspaces, ..start }),
                self.workspaces@.len() == start.workspaces@.len(),
                forall|a: int|
                    i <= a < self.workspaces@.len() ==> #[trigger] self.workspaces@[a]
                        == start.workspaces@[a],
                forall|a: int|
                    0 <= a < i ==> {
                        &&& (#[trigger] self.workspaces@[a]).monitor == start.workspaces@[a].monitor
                        &&& self.workspaces@[a].active == start.workspaces@[a].active
                        &&& self.workspaces@[a].workspaces@.len()
                            == start.workspaces@[a].workspaces@.len()
                    },
                forall|a: int, b: int|
                    0 <= a < i && 0 <= b < start.workspaces@[a].workspaces@.len() ==> (
                    #[trigger] self.workspaces@[a].workspaces@[b]) == (Workspace {
                        reduce_motion: reduce,
                        ..start.workspaces@[a].workspaces@[b]
                    }),
            decreases self.workspaces.len() - i,
        {
            let group = &mut self.workspaces[i];
            let ghost before = *group;
            let mut j: usize = 0;
            while j < group.workspaces.len()
                invariant
                    j <= group.workspaces@.len(),
                    group.workspaces@.len() == before.workspaces@.len(),
                    group.monitor == before.monitor,
                    group.active == before.active,
                    forall|b: int|
                        j <= b < group.workspaces@.len() ==> #[trigger] group.workspaces@[b]
                            == before.workspaces@[b],
                    forall|b: int|
                        0 <= b < j ==> #[trigger] group.workspaces@[b] == (Workspace {
                            reduce_motion: reduce,
                            ..before.workspaces@[b]
                        }),
                decreases group.workspaces@.len() - j,
            {
                group.workspaces[j].reduce_motion = reduce;
                j = j + 1;
            }
            i = i + 1;
        }
        true
    }

    /// The place of every window that some monitor shows, to be taken before the
    /// structure of the layout changes.
    pub fn snapshot_layout(&self) -> (r: HashMap<u64, Rect>)
        ensures
            r@ == snapshot_of(self.workspaces@, self.monitors@),
    {
        let mut rects: HashMap<u64, Rect> = HashMap::new();
        let mut i: usize = 0;
        while i < self.workspaces.len()
            invariant
                i <= self.workspaces.len(),
                rects@ == snapshot_of(self.workspaces@.take(i as int), self.monitors@),
            decreases self.workspaces.len() - i,
        {
            let group = &self.workspaces[i];
            proof {
                let next = self.workspaces@.take(i + 1);
                assert(next.drop_last() =~= self.workspaces@.take(i as int));
                assert(next.last() == *group);
            }
            if known_monitor(&self.monitors, group.monitor) && group.active
                < group.workspaces.len() {
                let ghost base = rects@;
                let placements = &group.workspaces[group.active].placements;
                let mut j: usize = 0;
                while j < placements.len()
                    invariant
                        j <= placements.len(),
                        rects@ == with_places(base, placements@.take(j as int)),
                    decreases placements.len() - j,
                {
                    assert(placements@.take(j + 1).drop_last() =~= placements@.take(j as int));
                    rects.insert(placements[j].window_id, placements[j].rect);
                    j = j + 1;
                }
                assert(placements@.take(j as int) =~= placements@);
            }
            i = i + 1;
        }
        assert(self.workspaces@.take(i as int) =~= self.workspaces@);
        rects
    }

    /// Where a transition ends: the place of every visible window, with its
    /// monitor.
    pub fn collect_transition_targets(&self) -> (r: HashMap<u64, TransitionTarget>)
        ensures
            r@ == targets_of(self.workspaces@, self.monitors@),
    {
        let mut targets: HashMap<u64, TransitionTarget> = HashMap::new();
        let mut i: usize = 0;
        while i < self.workspaces.len()
            invariant
                i <= self.workspaces.len(),
                targets@ == targets_of(self.workspaces@.take(i as int), self.monitors@),
            decreases self.workspaces.len() - i,
        {
            let group = &self.workspaces[i];
            proof {
                let next = self.workspaces@.take(i + 1);
                assert(next.drop_last() =~= self.workspaces@.take(i as int));
                assert(next.last() == *group);
            }
            if known_monitor(&self.monitors, group.monitor) && group.active
                < group.workspaces.len() {
                let ghost base = targets@;
                let placements = &group.workspaces[group.active].placements;
                let mut j: usize = 0;
                while j < placements.len()
                    invariant
                        j <= placements.len(),
                        targets@ == with_targets(base, placements@.take(j as int), group.monitor),
                    decreases placements.len() - j,
                {
                    assert(placements@.take(j + 1).drop_last() =~= placements@.take(j as int));
                    let p = placements[j];
                    if p.visibility == Visibility::Visible {
                        targets.insert(
                            p.window_id,
                            TransitionTarget { rect: p.rect, monitor: group.monitor },
                        );
                    }
                    j = j + 1;
                }
                assert(placements@.take(j as int) =~= placements@);
            }
            i = i + 1;
        }
        assert(self.workspaces@.take(i as int) =~= self.workspaces@);
        targets
    }

    /// Whether some workspace keeps the window floating.
    pub fn is_floating_somewhere(&self, window_id: WindowId) -> (r: bool)
        ensures
            r == floats_somewhere(self.workspaces@, window_id),
    {
        let mut i: usize = 0;
        while i < self.workspaces.len()
            invariant
                i <= self.workspaces.len(),
                forall|a: int, b: int|
                    0 <= a < i && 0 <= b < self.workspaces@[a].workspaces@.len() ==> !(
                    #[trigger] self.workspaces@[a].workspaces@[b]).floating@.contains(window_id),
            decreases self.workspaces.len() - i,
        {
            let group = &self.workspaces[i];
            let mut j: usize = 0;
            while j < group.workspaces.len()
                invariant
                    i < self.workspaces.len(),
                    *group == self.workspaces@[i as int],
                    j <= group.workspaces@.len(),
                    forall|b: int|
                        0 <= b < j ==> !(#[trigger] group.workspaces@[b]).floating@.contains(
                            window_id,
                        ),
                decreases group.workspaces@.len() - j,
            {
                if lists(&group.workspaces[j].floating, window_id) {
                    assert(self.workspaces@[i as int].workspaces@[j as int].floating@.contains(
                        window_id,
                    ));
                    return true;
                }
                j = j + 1;
            }
            i = i + 1;
        }
        false
    }

    /// The duration of a layout transition, `None` where motion is reduced and no
    /// transition starts.
    pub fn start_layout_transition(&self) -> (duration_ms: Option<u64>)
        ensures
            duration_ms == (if self.reduce_motion {
                None
            } else {
                Some(self.config.animation.layout_duration_ms)
            }),
    {
        if self.reduce_motion {
            None
        } else {
            Some(self.config.animation.layout_duration_ms)
        }
    }

    /// Which windows a transition may move by stand-in: in compositor-safe mode
    /// those that change their size, else all that move if the experimental
    /// setting asks for it. `Some(true)` stands for size changes only.
    pub fn ghost_pass(&self) -> (size_changes_only: Option<bool>)
        ensures
            size_changes_only == (if self.config.behavior.compositor_safe_mode {
                Some(true)
            } else if self.config.behavior.swap_chain_ghost_animation {
                Some(false)
            } else {
                None
            }),
    {
        if self.config.behavior.compositor_safe_mode {
            Some(true)
        } else if self.config.behavior.swap_chain_ghost_animation {
            Some(false)
        } else {
            None
        }
    }

    /// Prepares a layout transition, once the frame worker was waited for (`fence`)
    /// where there were stand-ins: earlier stand-ins and crossfades are aborted, and
    /// the places where the transition ends are collected. `None` for these where
    /// stand-ins had to be kept; no transition may start then.
    pub fn prepare_layout_transition(&mut self, ticket: FenceTicket, fence: FenceOutcome) -> (r: (
        GhostAbort,
        Option<HashMap<u64, TransitionTarget>>,
    ))
        requires
            old(self).fenced_by(ticket),
        ensures
            old(self).wf() ==> final(self).wf(),
            Self::abort_outcome(*old(self), *final(self), fence, r.0),
            match r.1 {
                None => old(self).keeps_ghosts(fence),
                Some(targets) => !old(self).keeps_ghosts(fence) && targets@ == targets_of(
                    old(self).workspaces@,
                    old(self).monitors@,
                ),
            },
    {
        let abort = self.abort_active_ghost_transition(ticket, fence);
        if self.has_ghosts() {
            (abort, None)
        } else {
            (abort, Some(self.collect_transition_targets()))
        }
    }

    /// Starts a layout transition from the places that `start_rects` recorded to
    /// `targets`, where `ghosted_wids` move by stand-in and
    /// `compositor_sensitive_wids` must not be moved while they are composed.
    /// Earlier stand-ins were aborted before.
    pub fn start_layout_transition_with_duration(
        &mut self,
        start_rects: HashMap<u64, Rect>,
        duration_ms: u64,
        targets: &HashMap<u64, TransitionTarget>,
        ghosted_wids: HashSet<u64>,
        compositor_sensitive_wids: &HashSet<u64>,
    )
        ensures
            old(self).wf() ==> final(self).wf(),
            final(self).layout_transition matches Some(transition) && {
                &&& transition.exits@ == Seq::<ExitWindow>::empty()
                &&& transition == (LayoutTransition {
                    start_rects,
                    exits: transition.exits,
                    elapsed_ms: FIRST_FRAME_MS,
                    duration_ms,
                    requires_compositor_safe_snap: ghosts::must_snap(
                        old(self).config.behavior.compositor_safe_mode,
                        start_rects@,
                        targets@,
                        ghosted_wids@,
                        compositor_sensitive_wids@,
                    ),
                    ghosted_wids,
                    exit_park_failures: 0,
                })
            },
            *final(self) == (AppState {
                layout_transition: final(self).layout_transition,
                ..*old(self)
            }),
    {
        let requires_compositor_safe_snap = ghosts::transition_requires_compositor_safe_snap(
            self.config.behavior.compositor_safe_mode,
            &start_rects,
            targets,
            &ghosted_wids,
            compositor_sensitive_wids,
        );
        self.layout_transition = Some(
            LayoutTransition {
                start_rects,
                exits: Vec::new(),
                elapsed_ms: FIRST_FRAME_MS,
                duration_ms,
                requires_compositor_safe_snap,
                ghosted_wids,
                exit_park_failures: 0,
            },
        );
    }

    /// The exit windows of a workspace switch. A floating window keeps no column,
    /// so its index is past every column.
    pub open spec fn exits_of(self, exits: Seq<(WindowId, Rect)>) -> Seq<ExitWindow> {
        exits.map_values(
            |e: (WindowId, Rect)|
                ExitWindow {
                    window_id: e.0,
                    target: e.1,
                    column_index: if floats_somewhere(self.workspaces@, e.0) {
                        usize::MAX
                    } else {
                        0
                    },
                },
        )
    }

    /// No window is listed twice.
    pub open spec fn each_leaves_once(exits: Seq<(WindowId, Rect)>) -> bool {
        forall|a: int, b: int|
            0 <= a < b < exits.len() ==> (#[trigger] exits[a]).0 != (#[trigger] exits[b]).0
    }

    /// Some window of a workspace switch must not be moved while it is composed.
    pub open spec fn switch_is_sensitive(
        start_rects: Map<u64, Rect>,
        exits: Seq<(WindowId, Rect)>,
        sensitive: Set<u64>,
    ) -> bool {
        ||| exists|id: u64| #[trigger] start_rects.contains_key(id) && sensitive.contains(id)
        ||| exists|k: int| 0 <= k < exits.len() && sensitive.contains((#[trigger] exits[k]).0)
    }

    /// The transition of a workspace switch that starts in this state.
    pub open spec fn is_switch(
        self,
        transition: LayoutTransition,
        start_rects: HashMap<u64, Rect>,
        exits: Seq<(WindowId, Rect)>,
        duration_ms: u64,
        sensitive: Set<u64>,
    ) -> bool {
        &&& transition.exits@ == self.exits_of(exits)
        &&& transition.ghosted_wids@ == Set::<u64>::empty()
        &&& transition == (LayoutTransition {
            start_rects,
            exits: transition.exits,
            elapsed_ms: FIRST_FRAME_MS,
            duration_ms,
            requires_compositor_safe_snap: self.config.behavior.compositor_safe_mode
                && Self::switch_is_sensitive(start_rects@, exits, sensitive),
            ghosted_wids: transition.ghosted_wids,
            exit_park_failures: 0,
        })
    }

    /// Starts a workspace switch: windows slide in from `start_rects` while those
    /// of `exit_rects` slide out, each listed once. Earlier stand-ins are aborted
    /// first; `ticket` began that, and `fence` says what became of waiting for the
    /// frame worker where there were any. Nothing happens where motion is reduced,
    /// so no ticket is needed there, and no switch starts where stand-ins had to be
    /// kept.
    pub fn start_workspace_switch_transition(
        &mut self,
        start_rects: HashMap<u64, Rect>,
        exit_rects: &Vec<(WindowId, Rect)>,
        duration_ms: u64,
        compositor_sensitive_wids: &HashSet<u64>,
        ticket: Option<FenceTicket>,
        fence: FenceOutcome,
    ) -> (r: Option<GhostAbort>)
        requires
            !old(self).reduce_motion ==> (ticket matches Some(ticket) && old(self).fenced_by(
                ticket,
            )),
            Self::each_leaves_once(exit_rects@),
        ensures
            old(self).wf() ==> final(self).wf(),
            r is None <==> old(self).reduce_motion,
            r is None ==> *final(self) == *old(self),
            r matches Some(abort) ==> {
                if old(self).keeps_ghosts(fence) {
                    Self::abort_outcome(*old(self), *final(self), fence, abort)
                } else {
                    &&& abort.uncloak@.no_duplicates()
                    &&& abort.uncloak@.to_set() == old(self).ghost_handles@.dom()
                    &&& abort.abort_crossfade == old(self).active_crossfade
                    &&& final(self).ghost_handles@ == Map::<u64, GhostEntry>::empty()
                    &&& final(self).layout_transition matches Some(transition)
                    &&& old(self).is_switch(
                        transition,
                        start_rects,
                        exit_rects@,
                        duration_ms,
                        compositor_sensitive_wids@,
                    )
                    &&& *final(self) == (AppState {
                        ghost_handles: final(self).ghost_handles,
                        active_crossfade: None,
                        layout_transition: final(self).layout_transition,
                        ..*old(self)
                    })
                }
            },
    {
        if self.reduce_motion {
            return None;
        }
        let ticket = match ticket {
            Some(ticket) => ticket,
            None => {
                return None;
            },
        };
        let abort = self.abort_active_ghost_transition(ticket, fence);
        if self.has_ghosts() {
            return Some(abort);
        }
        let ghost cleared = *self;
        let mut sensitive = false;
        let wids = window_keys(&start_rects);
        let mut k: usize = 0;
        while k < wids.len()
            invariant
                k <= wids.len(),
                wids@.to_set() == start_rects@.dom(),
                sensitive ==> Self::switch_is_sensitive(
                    start_rects@,
                    exit_rects@,
                    compositor_sensitive_wids@,
                ),
                !sensitive ==> forall|a: int|
                    0 <= a < k ==> !compositor_sensitive_wids@.contains(#[trigger] wids@[a]),
            decreases wids.len() - k,
        {
            if compositor_sensitive_wids.contains(&wids[k]) {
                proof {
                    assert(wids@.to_set().contains(wids@[k as int]));
                    assert(start_rects@.contains_key(wids@[k as int]));
                }
                sensitive = true;
            }
            k = k + 1;
        }
        let mut exits: Vec<ExitWindow> = Vec::new();
        let mut i: usize = 0;
        while i < exit_rects.len()
            invariant
                i <= exit_rects.len(),
                *self == cleared,
                exits@ == self.exits_of(exit_rects@).take(i as int),
                wids@.to_set() == start_rects@.dom(),
                sensitive ==> Self::switch_is_sensitive(
                    start_rects@,
                    exit_rects@,
                    compositor_sensitive_wids@,
                ),
                !sensitive ==> forall|a: int|
                    0 <= a < wids@.len() ==> !compositor_sensitive_wids@.contains(
                        #[trigger] wids@[a],
                    ),
                !sensitive ==> forall|a: int|
                    0 <= a < i ==> !compositor_sensitive_wids@.contains(
                        (#[trigger] exit_rects@[a]).0,
                    ),
            decreases exit_rects.len() - i,
        {
            let window_id: WindowId = exit_rects[i].0;
            let target = exit_rects[i].1;
            if compositor_sensitive_wids.contains(&window_id) {
                assert(compositor_sensitive_wids@.contains(exit_rects@[i as int].0));
                sensitive = true;
            }
            let column_index: usize = if self.is_floating_somewhere(window_id) {
                usize::MAX
            } else {
                0
            };
            exits.push(ExitWindow { window_id, target, column_index });
            i = i + 1;
        }
        proof {
            assert(self.exits_of(exit_rects@).take(i as int) =~= self.exits_of(exit_rects@));
            assert forall|a: int, b: int| 0 <= a < b < exits@.len() implies (
            #[trigger] exits@[a]).window_id != (#[trigger] exits@[b]).window_id by {
                assert(exit_rects@[a].0 != exit_rects@[b].0);
            }
            if !sensitive {
                assert forall|id: u64| #[trigger] start_rects@.contains_key(
                    id,
                ) implies !compositor_sensitive_wids@.contains(id) by {
                    assert(wids@.to_set().contains(id));
                    let a = choose|a: int| 0 <= a < wids@.len() && wids@[a] == id;
                    assert(!compositor_sensitive_wids@.contains(wids@[a]));
                }
            }
        }
        let requires_compositor_safe_snap = self.config.behavior.compositor_safe_mode && sensitive;
        self.layout_transition = Some(
            LayoutTransition {
                start_rects,
                exits,
                elapsed_ms: FIRST_FRAME_MS,
                duration_ms,
                requires_compositor_safe_snap,
                ghosted_wids: HashSet::new(),
                exit_park_failures: 0,
            },
        );
        Some(abort)
    }

    /// A crossfade whose end was not reported yet still uses the window.
    pub open spec fn is_barred(self, window_id: WindowId) -> bool {
        exists|epoch: u64| #[trigger]
            self.crossfade_sources@.contains_key(epoch)
                && self.crossfade_sources@[epoch].windows@.contains(window_id)
    }

    /// The monitor that stand-ins are limited to: that of the focused window if
    /// the transition shows it, else the focused monitor.
    pub open spec fn ghost_monitor(self, targets: Map<u64, TransitionTarget>) -> MonitorId {
        match self.previous_focused_hwnd {
            Some(id) if targets.contains_key(id) => targets[id].monitor,
            _ => self.focused_monitor,
        }
    }

    /// A window of a transition that may move by stand-in: it moves (or, where
    /// only that counts, changes its size) on the monitor of the focus, is not
    /// focused, is of a class that stand-ins work for, and no crossfade uses it.
    pub open spec fn may_ghost(
        self,
        window_id: WindowId,
        start_rects: Map<u64, Rect>,
        targets: Map<u64, TransitionTarget>,
        size_changes_only: bool,
        ghostable: Set<u64>,
    ) -> bool {
        &&& start_rects.contains_key(window_id)
        &&& targets.contains_key(window_id)
        &&& start_rects[window_id] != targets[window_id].rect
        &&& size_changes_only ==> start_rects[window_id].width != targets[window_id].rect.width
            || start_rects[window_id].height != targets[window_id].rect.height
        &&& targets[window_id].monitor == self.ghost_monitor(targets)
        &&& self.previous_focused_hwnd != Some(window_id)
        &&& !self.is_barred(window_id)
        &&& ghostable.contains(window_id)
    }

    /// Whether a crossfade whose end was not reported yet still uses the window.
    fn barred(&self, window_id: WindowId) -> (r: bool)
        ensures
            r == self.is_barred(window_id),
    {
        let epochs = window_keys(&self.crossfade_sources);
        let mut i: usize = 0;
        while i < epochs.len()
            invariant
                i <= epochs.len(),
                epochs@.to_set() == self.crossfade_sources@.dom(),
                forall|a: int|
                    0 <= a < i ==> !self.crossfade_sources@[#[trigger] epochs@[a]].windows@.contains(
                        window_id,
                    ),
            decreases epochs.len() - i,
        {
            let epoch: u64 = epochs[i];
            proof {
                assert(epochs@.to_set().contains(epoch));
                assert(self.crossfade_sources@.contains_key(epoch));
            }
            if let Some(barrier) = self.crossfade_sources.get(&epoch) {
                if barrier.windows.contains(&window_id) {
                    return true;
                }
            }
            i = i + 1;
        }
        proof {
            assert forall|epoch: u64| #[trigger] self.crossfade_sources@.contains_key(
                epoch,
            ) implies !self.crossfade_sources@[epoch].windows@.contains(window_id) by {
                assert(epochs@.to_set().contains(epoch));
                let a = choose|a: int| 0 <= a < epochs@.len() && epochs@[a] == epoch;
                assert(!self.crossfade_sources@[epochs@[a]].windows@.contains(window_id));
            }
        }
        false
    }

    /// The windows of a transition to try a stand-in for, each once; stale
    /// crossfade barriers were swept before.
    pub fn register_ghosts_for_transition(
        &self,
        start_rects: &HashMap<u64, Rect>,
        targets: &HashMap<u64, TransitionTarget>,
        size_changes_only: bool,
        ghostable: &HashSet<u64>,
    ) -> (r: Vec<WindowId>)
        ensures
            r@.no_duplicates(),
            forall|id: WindowId| #[trigger]
                r@.contains(id) <==> self.may_ghost(
                    id,
                    start_rects@,
                    targets@,
                    size_changes_only,
                    ghostable@,
                ),
    {
        let monitor = match self.previous_focused_hwnd {
            Some(id) => match targets.get(&id) {
                Some(target) => target.monitor,
                None => self.focused_monitor,
            },
            None => self.focused_monitor,
        };
        let wids = window_keys(start_rects);
        let mut r: Vec<WindowId> = Vec::new();
        let mut i: usize = 0;
        while i < wids.len()
            invariant
                i <= wids.len(),
                wids@.no_duplicates(),
                wids@.to_set() == start_rects@.dom(),
                monitor == self.ghost_monitor(targets@),
                r@.no_duplicates(),
                forall|id: WindowId| #[trigger]
                    r@.contains(id) <==> wids@.take(i as int).contains(id) && self.may_ghost(
                        id,
                        start_rects@,
                        targets@,
                        size_changes_only,
                        ghostable@,
                    ),
            decreases wids.len() - i,
        {
            let wid: WindowId = wids[i];
            proof {
                assert(wids@.to_set().contains(wid));
                assert(start_rects@.contains_key(wid));
                assert(wids@.take(i + 1) =~= wids@.take(i as int).push(wid));
                assert(!wids@.take(i as int).contains(wid));
                lemma_push_contains(wids@.take(i as int), wid);
                lemma_push_contains(r@, wid);
                assert(!r@.contains(wid));
            }
            let start = match start_rects.get(&wid) {
                Some(start) => *start,
                None => Rect::new(0, 0, 0, 0),
            };
            let mut wanted = false;
            if let Some(target) = targets.get(&wid) {
                let size_changed = start.width != target.rect.width || start.height
                    != target.rect.height;
                wanted = start != target.rect && (!size_changes_only || size_changed)
                    && target.monitor == monitor && self.previous_focused_hwnd != Some(wid)
                    && !self.barred(wid) && ghostable.contains(&wid);
            }
            assert(wanted == self.may_ghost(
                wid,
                start_rects@,
                targets@,
                size_changes_only,
                ghostable@,
            ));
            if wanted {
                r.push(wid);
            }
            i = i + 1;
        }
        proof {
            assert(wids@.take(i as int) =~= wids@);
            assert forall|id: WindowId| start_rects@.contains_key(id) implies wids@.contains(
                id,
            ) by {
                assert(wids@.to_set().contains(id));
            }
        }
        r
    }

    /// Takes note of the attempt to make a stand-in. It counts only if the source
    /// is really hidden; else the live window goes on being placed.
    pub fn note_ghost(
        &mut self,
        ghosted_wids: &mut HashSet<u64>,
        window_id: WindowId,
        registration: Option<u64>,
        cloaked: bool,
        final_dest: Rect,
    ) -> (ghosted: bool)
        ensures
            old(self).wf() ==> final(self).wf(),
            ghosted == (registration is Some && cloaked),
            *final(self) == (AppState {
                ghost_handles: final(self).ghost_handles,
                ..*old(self)
            }),
            ghosted ==> final(self).ghost_handles@ == old(self).ghost_handles@.insert(
                window_id,
                GhostEntry { registration: registration->0, final_dest },
            ) && final(ghosted_wids)@ == old(ghosted_wids)@.insert(window_id),
            !ghosted ==> *final(self) == *old(self) && *final(ghosted_wids) == *old(ghosted_wids),
    {
        if !cloaked {
            return false;
        }
        match registration {
            Some(registration) => {
                self.ghost_handles.insert(window_id, GhostEntry { registration, final_dest });
                ghosted_wids.insert(window_id);
                true
            },
            None => false,
        }
    }
}

proof fn lemma_push_contains(s: Seq<u64>, x: u64)
    ensures
        forall|id: u64| #[trigger] s.push(x).contains(id) <==> s.contains(id) || id == x,
{
    assert forall|id: u64| s.contains(id) || id == x implies #[trigger] s.push(x).contains(id) by {
        if id == x {
            assert(s.push(x)[s.len() as int] == id);
        } else {
            let k = choose|k: int| 0 <= k < s.len() && s[k] == id;
            assert(s.push(x)[k] == id);
        }
    }
}

/// A placement on its way: where the transition recorded a start, it is at the
/// given place between start and end.
pub open spec fn on_its_way(
    start_rects: Map<u64, Rect>,
    p: WindowPlacement,
    between: Rect,
) -> WindowPlacement {
    if start_rects.contains_key(p.window_id) {
        WindowPlacement { rect: between, ..p }
    } else {
        p
    }
}

/// The placements of the first `n` exit windows that have a recorded start.
pub open spec fn leaving(
    start_rects: Map<u64, Rect>,
    exits: Seq<ExitWindow>,
    between: Seq<Rect>,
    n: int,
) -> Seq<WindowPlacement>
    decreases n,
{
    if n <= 0 {
        Seq::empty()
    } else {
        let before = leaving(start_rects, exits, between, n - 1);
        let exit = exits[n - 1];
        if start_rects.contains_key(exit.window_id) {
            before.push(
                WindowPlacement {
                    window_id: exit.window_id,
                    rect: between[n - 1],
                    visibility: Visibility::Visible,
                    column_index: exit.column_index,
                },
            )
        } else {
            before
        }
    }
}

/// The placements of a transition: those on their way, then those that leave.
pub open spec fn in_transition(
    transition: LayoutTransition,
    placements: Seq<WindowPlacement>,
    morphed: Seq<Rect>,
    exited: Seq<Rect>,
) -> Seq<WindowPlacement> {
    Seq::new(
        placements.len(),
        |i: int| on_its_way(transition.start_rects@, placements[i], morphed[i]),
    ) + leaving(
        transition.start_rects@,
        transition.exits@,
        exited,
        transition.exits@.len() as int,
    )
}

/// Puts the windows of a transition on their way. `morphed` holds for each
/// placement the place between start and end that the easing asks for, `exited`
/// the same for each exit window.
pub fn apply_transition_interpolation(
    transition: &LayoutTransition,
    placements: &mut Vec<WindowPlacement>,
    morphed: &Vec<Rect>,
    exited: &Vec<Rect>,
)
    requires
        morphed@.len() == old(placements)@.len(),
        exited@.len() == transition.exits@.len(),
    ensures
        final(placements)@ == in_transition(*transition, old(placements)@, morphed@, exited@),
{
    let ghost before = placements@;
    let n: usize = placements.len();
    let mut i: usize = 0;
    while i < n
        invariant
            i <= n,
            n == before.len(),
            placements@.len() == n,
            morphed@.len() == n,
            forall|k: int| i <= k < n ==> #[trigger] placements@[k] == before[k],
            forall|k: int|
                0 <= k < i ==> #[trigger] placements@[k] == on_its_way(
                    transition.start_rects@,
                    before[k],
                    morphed@[k],
                ),
        decreases n - i,
    {
        let p = placements[i];
        if transition.start_rects.contains_key(&p.window_id) {
            placements.set(
                i,
                WindowPlacement {
                    window_id: p.window_id,
                    rect: morphed[i],
                    visibility: p.visibility,
                    column_index: p.column_index,
                },
            );
        }
        i = i + 1;
    }
    let ghost moved = placements@;
    assert(moved =~= Seq::new(
        before.len(),
        |k: int| on_its_way(transition.start_rects@, before[k], morphed@[k]),
    ));
    let mut j: usize = 0;
    while j < transition.exits.len()
        invariant
            j <= transition.exits.len(),
            exited@.len() == transition.exits@.len(),
            placements@ == moved + leaving(
                transition.start_rects@,
                transition.exits@,
                exited@,
                j as int,
            ),
        decreases transition.exits.len() - j,
    {
        let exit = transition.exits[j];
        if transition.start_rects.contains_key(&exit.window_id) {
            placements.push(
                WindowPlacement {
                    window_id: exit.window_id,
                    rect: exited[j],
                    visibility: Visibility::Visible,
                    column_index: exit.column_index,
                },
            );
        }
        j = j + 1;
        assert(placements@ =~= moved + leaving(
            transition.start_rects@,
            transition.exits@,
            exited@,
            j as int,
        ));
    }
}

/// Frames in flight are of another epoch than the one that a ticket was given for.
pub proof fn law_a_new_epoch_outdates_frames(epoch: u64)
    ensures
        next_epoch(epoch) != epoch,
{
}

/// Landing every scroll leaves no workspace scrolling, and each that scrolled at its
/// target.
pub proof fn law_landing_stops_every_scroll(
    before: Seq<MonitorWorkspaces>,
    after: Seq<MonitorWorkspaces>,
)
    requires
        each_changed(before, after, |i: int, j: int, w: Workspace| landed(w)),
    ensures
        !any_scrolls(after),
        forall|i: int, j: int|
            0 <= i < before.len() && 0 <= j < before[i].workspaces@.len() && (
            #[trigger] before[i].workspaces@[j]).animating ==> {
                let w = after[i].workspaces@[j];
                &&& w.scroll_offset == before[i].workspaces@[j].scroll_target
                &&& w.shown_offset == w.scroll_offset
            },
{
    assert forall|i: int, j: int|
        0 <= i < before.len() && 0 <= j < before[i].workspaces@.len() && (
        #[trigger] before[i].workspaces@[j]).animating implies {
        let w = after[i].workspaces@[j];
        &&& w.scroll_offset == before[i].workspaces@[j].scroll_target
        &&& w.shown_offset == w.scroll_offset
    } by {
        assert(after[i].workspaces@[j] == landed(before[i].workspaces@[j]));
    }
    assert forall|i: int, j: int|
        0 <= i < after.len() && 0 <= j < after[i].workspaces@.len() implies !(
    #[trigger] after[i].workspaces@[j]).animating by {
        assert(after[i].workspaces@.len() == before[i].workspaces@.len());
        assert(after[i].workspaces@[j] == landed(before[i].workspaces@[j]));
    }
}

/// The state that frames in flight were made obsolete in.
pub open spec fn epoch_begun(state: AppState) -> AppState {
    AppState { apply_epoch: next_epoch(state.apply_epoch), ..state }
}

/// A cancel of the running transition: frames in flight were made obsolete and the frame
/// worker was waited for (`fence`), the exit windows were parked (`parks`), and where
/// that left none on screen the transition went, after another wait where there were
/// stand-ins (`ghost_fence`). True if the transition went.
pub open spec fn cancelled(
    before: AppState,
    after: AppState,
    fence: FenceOutcome,
    parks: Seq<ParkReport>,
    ghost_fence: FenceOutcome,
) -> bool {
    let begun = epoch_begun(before);
    if fence == FenceOutcome::TimedOut || any_stranded(parks) {
        after == begun
    } else {
        AppState::landed_exactly(
            if before.ghost_handles@.is_empty() {
                begun
            } else {
                epoch_begun(begun)
            },
            after,
            ghost_fence,
        )
    }
}

/// Collapsing a transition that is unsafe to animate: `settled` is the state with the
/// scrolls landed, `after` the one once the cancel ended. The collapse succeeds just
/// where the cancel does: then nothing animates any more, an exact landing follows, and
/// it does not go by what was placed before. Else the transition is kept, and still
/// asks for an exact landing.
pub proof fn law_collapse_lands_just_where_the_cancel_succeeds(
    before: AppState,
    settled: AppState,
    after: AppState,
    fence: FenceOutcome,
    parks: Seq<ParkReport>,
    ghost_fence: FenceOutcome,
)
    requires
        before.config.behavior.compositor_safe_mode,
        before.animates(),
        before.transition_must_snap(),
        AppState::scrolls_landed(before, settled),
        cancelled(settled, after, fence, parks, ghost_fence),
    ensures
        ({
            let succeeds = fence != FenceOutcome::TimedOut && !any_stranded(parks);
            &&& succeeds <==> !after.animates()
            &&& succeeds <==> after.layout_transition is None
            &&& succeeds ==> after.post_animation_landing_pending
            &&& succeeds ==> after.last_placed_layout_rects@ == Map::<u64, Rect>::empty()
            &&& !succeeds ==> after.layout_transition == before.layout_transition
                && after.transition_must_snap()
            &&& !any_scrolls(after.workspaces@)
        }),
{
    law_landing_stops_every_scroll(before.workspaces@, settled.workspaces@);
}

/// A transition that goes strands no window: where no park left pixels on screen,
/// every exit window was parked or is gone.
pub proof fn law_no_exit_window_is_stranded(parks: Seq<ParkReport>, exits: Seq<ExitWindow>, k: int)
    requires
        parks_cover(parks, exits),
        !any_stranded(parks),
        0 <= k < exits.len(),
    ensures
        parks[k].window_id == exits[k].window_id,
        parks[k].parked || !parks[k].still_valid,
{
    assert(!stranded(parks[k]));
}

/// A transition that only moves windows, none of them sensitive, is never
/// collapsed.
pub proof fn law_position_only_motion_stays_smooth(
    compositor_safe_mode: bool,
    start_rects: Map<u64, Rect>,
    targets: Map<u64, TransitionTarget>,
    ghosted: Set<u64>,
    sensitive: Set<u64>,
)
    requires
        forall|id: u64| #[trigger]
            start_rects.contains_key(id) && targets.contains_key(id) ==> start_rects[id].width
                == targets[id].rect.width && start_rects[id].height == targets[id].rect.height
                && !sensitive.contains(id),
    ensures
        !ghosts::must_snap(compositor_safe_mode, start_rects, targets, ghosted, sensitive),
{
}

/// In compositor-safe mode, a transition that loses its stand-ins must land at
/// once, and nothing takes that back.
pub proof fn law_losing_stand_ins_rearms_the_exact_landing(before: AppState, after: AppState)
    requires
        before.config.behavior.compositor_safe_mode,
        AppState::ghosts_aborted(before, after),
        before.layout_transition matches Some(transition) && (!transition.ghosted_wids@.is_empty()
            || transition.requires_compositor_safe_snap),
    ensures
        after.transition_must_snap(),
        after.animates(),
        after.config.behavior.compositor_safe_mode,
{
}

/// A window with a stand-in in compositor-safe mode always changes its size.
pub proof fn law_safe_stand_ins_change_their_size(
    state: AppState,
    window_id: WindowId,
    start_rects: Map<u64, Rect>,
    targets: Map<u64, TransitionTarget>,
    ghostable: Set<u64>,
)
    requires
        state.may_ghost(window_id, start_rects, targets, true, ghostable),
    ensures
        start_rects[window_id].width != targets[window_id].rect.width
            || start_rects[window_id].height != targets[window_id].rect.height,
{
}

/// Placement `k` is of the workspace that group `a` shows: its monitor is known, and the
/// workspace is the active one.
pub open spec fn is_on_screen(state: AppState, a: int, k: int) -> bool {
    &&& 0 <= a < state.workspaces@.len()
    &&& exists|m: int|
        0 <= m < state.monitors@.len() && (#[trigger] state.monitors@[m]).id
            == state.workspaces@[a].monitor
    &&& state.workspaces@[a].active < state.workspaces@[a].workspaces@.len()
    &&& 0 <= k
        < state.workspaces@[a].workspaces@[state.workspaces@[a].active as int].placements@.len()
}

/// Placement `k` of the workspace that is active in group `a`.
pub open spec fn placement_on(state: AppState, a: int, k: int) -> WindowPlacement {
    state.workspaces@[a].workspaces@[state.workspaces@[a].active as int].placements@[k]
}

proof fn lemma_with_places(m: Map<u64, Rect>, placements: Seq<WindowPlacement>, id: u64)
    ensures
        with_places(m, placements).contains_key(id) <==> m.contains_key(id) || exists|k: int|
            0 <= k < placements.len() && (#[trigger] placements[k]).window_id == id,
        (forall|k: int| 0 <= k < placements.len() ==> (#[trigger] placements[k]).window_id != id)
            ==> with_places(m, placements)[id] == m[id],
        with_places(m, placements).contains_key(id) ==> {
            ||| m.contains_key(id) && with_places(m, placements)[id] == m[id]
            ||| exists|k: int|
                0 <= k < placements.len() && (#[trigger] placements[k]).window_id == id
                    && placements[k].rect == with_places(m, placements)[id]
        },
        (exists|k: int| 0 <= k < placements.len() && (#[trigger] placements[k]).window_id == id)
            ==> exists|k: int|
            0 <= k < placements.len() && (#[trigger] placements[k]).window_id == id
                && placements[k].rect == with_places(m, placements)[id],
    decreases placements.len(),
{
    if placements.len() > 0 {
        let rest = placements.drop_last();
        lemma_with_places(m, rest, id);
        assert forall|k: int| 0 <= k < rest.len() implies #[trigger] rest[k] == placements[k] by {}
        if placements.last().window_id == id {
            assert(placements[placements.len() - 1].window_id == id);
        } else {
            if exists|k: int| 0 <= k < placements.len() && (#[trigger] placements[k]).window_id
                == id {
                let k = choose|k: int|
                    0 <= k < placements.len() && (#[trigger] placements[k]).window_id == id;
                assert(rest[k].window_id == id);
                let l = choose|l: int|
                    0 <= l < rest.len() && (#[trigger] rest[l]).window_id == id && rest[l].rect
                        == with_places(m, rest)[id];
                assert(placements[l].window_id == id);
            }
            if exists|k: int| 0 <= k < rest.len() && (#[trigger] rest[k]).window_id == id {
                let k = choose|k: int| 0 <= k < rest.len() && (#[trigger] rest[k]).window_id == id;
                assert(placements[k].window_id == id);
            }
        }
    }
}

proof fn lemma_with_targets(
    m: Map<u64, TransitionTarget>,
    placements: Seq<WindowPlacement>,
    monitor: MonitorId,
    id: u64,
)
    ensures
        ({
            let after = with_targets(m, placements, monitor);
            &&& (forall|k: int|
                0 <= k < placements.len() ==> !((#[trigger] placements[k]).window_id == id
                    && placements[k].visibility == Visibility::Visible)) ==> (after.contains_key(id)
                <==> m.contains_key(id)) && after[id] == m[id]
            &&& (exists|k: int|
                0 <= k < placements.len() && (#[trigger] placements[k]).window_id == id
                    && placements[k].visibility == Visibility::Visible) ==> after.contains_key(id)
                && after[id].monitor == monitor && exists|k: int|
                0 <= k < placements.len() && (#[trigger] placements[k]).window_id == id
                    && placements[k].visibility == Visibility::Visible && placements[k].rect
                    == after[id].rect
        }),
    decreases placements.len(),
{
    if placements.len() > 0 {
        let rest = placements.drop_last();
        lemma_with_targets(m, rest, monitor, id);
        assert forall|k: int| 0 <= k < rest.len() implies #[trigger] rest[k] == placements[k] by {}
        let last = placements.last();
        if last.window_id == id && last.visibility == Visibility::Visible {
            assert(placements[placements.len() - 1] == last);
        } else if exists|k: int|
            0 <= k < placements.len() && (#[trigger] placements[k]).window_id == id
                && placements[k].visibility == Visibility::Visible {
            let k = choose|k: int|
                0 <= k < placements.len() && (#[trigger] placements[k]).window_id == id
                    && placements[k].visibility == Visibility::Visible;
            assert(rest[k].window_id == id);
            let l = choose|l: int|
                0 <= l < rest.len() && (#[trigger] rest[l]).window_id == id && rest[l].visibility
                    == Visibility::Visible && rest[l].rect == with_targets(
                    m,
                    rest,
                    monitor,
                )[id].rect;
            assert(placements[l].window_id == id);
        } else {
            assert forall|k: int| 0 <= k < rest.len() implies !((#[trigger] rest[k]).window_id == id
                && rest[k].visibility == Visibility::Visible) by {
                assert(rest[k] == placements[k]);
            }
        }
    }
}

proof fn lemma_on_screen(state: AppState, a: int, k: int)
    requires
        is_on_screen(state, a, k),
    ensures
        shown_placements(state.workspaces@[a], state.monitors@).len() > k,
        shown_placements(state.workspaces@[a], state.monitors@)[k] == placement_on(state, a, k),
{
    let m = choose|m: int|
        0 <= m < state.monitors@.len() && (#[trigger] state.monitors@[m]).id
            == state.workspaces@[a].monitor;
    assert(is_known_monitor(state.monitors@, state.workspaces@[a].monitor));
}

proof fn lemma_shown(state: AppState, a: int, k: int)
    requires
        0 <= a < state.workspaces@.len(),
        0 <= k < shown_placements(state.workspaces@[a], state.monitors@).len(),
    ensures
        is_on_screen(state, a, k),
        shown_placements(state.workspaces@[a], state.monitors@)[k] == placement_on(state, a, k),
{
}

proof fn lemma_snapshot(state: AppState, n: int, id: u64)
    requires
        0 <= n <= state.workspaces@.len(),
    ensures
        ({
            let taken = snapshot_of(state.workspaces@.take(n), state.monitors@);
            &&& taken.contains_key(id) <==> exists|a: int, k: int|
                a < n && #[trigger] is_on_screen(state, a, k) && placement_on(
                    state,
                    a,
                    k,
                ).window_id == id
            &&& taken.contains_key(id) ==> exists|a: int, k: int|
                a < n && #[trigger] is_on_screen(state, a, k) && placement_on(
                    state,
                    a,
                    k,
                ).window_id == id && placement_on(state, a, k).rect == taken[id]
        }),
    decreases n,
{
    let groups = state.workspaces@.take(n);
    if n > 0 {
        lemma_snapshot(state, n - 1, id);
        assert(groups.drop_last() =~= state.workspaces@.take(n - 1));
        assert(groups.last() == state.workspaces@[n - 1]);
        let before = snapshot_of(groups.drop_last(), state.monitors@);
        let placements = shown_placements(groups.last(), state.monitors@);
        lemma_with_places(before, placements, id);
        let taken = snapshot_of(groups, state.monitors@);
        if exists|k: int| 0 <= k < placements.len() && (#[trigger] placements[k]).window_id == id {
            let k = choose|k: int|
                0 <= k < placements.len() && (#[trigger] placements[k]).window_id == id
                    && placements[k].rect == taken[id];
            lemma_shown(state, n - 1, k);
            assert(is_on_screen(state, n - 1, k));
        } else {
            assert forall|a: int, k: int|
                a < n && #[trigger] is_on_screen(state, a, k) && placement_on(
                    state,
                    a,
                    k,
                ).window_id == id implies a < n - 1 by {
                if a == n - 1 {
                    lemma_on_screen(state, a, k);
                    assert(placements[k].window_id == id);
                }
            }
            if taken.contains_key(id) {
                let (a, k) = choose|a: int, k: int|
                    a < n - 1 && #[trigger] is_on_screen(state, a, k) && placement_on(
                        state,
                        a,
                        k,
                    ).window_id == id && placement_on(state, a, k).rect == before[id];
                assert(is_on_screen(state, a, k));
            }
        }
    }
}

/// Placement `k` of what group `a` shows is a visible one of the window.
pub open spec fn shows(state: AppState, a: int, k: int, id: WindowId) -> bool {
    &&& is_on_screen(state, a, k)
    &&& placement_on(state, a, k).window_id == id
    &&& placement_on(state, a, k).visibility == Visibility::Visible
}

proof fn lemma_targets(state: AppState, n: int, id: u64)
    requires
        0 <= n <= state.workspaces@.len(),
    ensures
        ({
            let targets = targets_of(state.workspaces@.take(n), state.monitors@);
            &&& targets.contains_key(id) <==> exists|a: int, k: int|
                a < n && #[trigger] shows(state, a, k, id)
            &&& targets.contains_key(id) ==> exists|a: int, k: int|
                a < n && #[trigger] shows(state, a, k, id) && placement_on(state, a, k).rect
                    == targets[id].rect && state.workspaces@[a].monitor == targets[id].monitor
        }),
    decreases n,
{
    let groups = state.workspaces@.take(n);
    if n > 0 {
        lemma_targets(state, n - 1, id);
        assert(groups.drop_last() =~= state.workspaces@.take(n - 1));
        assert(groups.last() == state.workspaces@[n - 1]);
        let before = targets_of(groups.drop_last(), state.monitors@);
        let placements = shown_placements(groups.last(), state.monitors@);
        lemma_with_targets(before, placements, groups.last().monitor, id);
        let targets = targets_of(groups, state.monitors@);
        if exists|k: int|
            0 <= k < placements.len() && (#[trigger] placements[k]).window_id == id
                && placements[k].visibility == Visibility::Visible {
            let k = choose|k: int|
                0 <= k < placements.len() && (#[trigger] placements[k]).window_id == id
                    && placements[k].visibility == Visibility::Visible && placements[k].rect
                    == targets[id].rect;
            lemma_shown(state, n - 1, k);
            assert(shows(state, n - 1, k, id));
        } else {
            assert forall|a: int, k: int| a < n && #[trigger] shows(state, a, k, id) implies a < n
                - 1 by {
                if a == n - 1 {
                    lemma_on_screen(state, a, k);
                    assert(placements[k].window_id == id);
                }
            }
            if targets.contains_key(id) {
                let (a, k) = choose|a: int, k: int|
                    a < n - 1 && #[trigger] shows(state, a, k, id) && placement_on(
                        state,
                        a,
                        k,
                    ).rect == before[id].rect && state.workspaces@[a].monitor
                        == before[id].monitor;
                assert(shows(state, a, k, id));
            }
        }
    }
}

/// A snapshot has exactly the windows that are placed on the active workspaces of known
/// monitors, each at a place that it has there. A window that is placed on other
/// workspaces only is not in it, and one that is placed once is at that place.
pub proof fn law_snapshot_is_of_what_is_on_screen(state: AppState, id: WindowId)
    ensures
        ({
            let taken = snapshot_of(state.workspaces@, state.monitors@);
            &&& taken.contains_key(id) <==> exists|a: int, k: int|
                #[trigger] is_on_screen(state, a, k) && placement_on(state, a, k).window_id == id
            &&& taken.contains_key(id) ==> exists|a: int, k: int|
                #[trigger] is_on_screen(state, a, k) && placement_on(state, a, k).window_id == id
                    && placement_on(state, a, k).rect == taken[id]
            &&& forall|a: int, k: int|
                #[trigger] is_on_screen(state, a, k) && placement_on(state, a, k).window_id == id
                    && (forall|b: int, l: int|
                    #[trigger] is_on_screen(state, b, l) && placement_on(state, b, l).window_id
                        == id ==> placement_on(state, b, l) == placement_on(state, a, k))
                    ==> taken[id] == placement_on(state, a, k).rect
        }),
{
    let n = state.workspaces@.len() as int;
    assert(state.workspaces@.take(n) =~= state.workspaces@);
    lemma_snapshot(state, n, id);
}

/// A transition ends with exactly the windows that are visible on the active workspaces of
/// known monitors, each at a place that it has there, with that monitor. A window that is
/// placed on other workspaces only, or off screen only, is not among them, and one that
/// is visible once is at that place.
pub proof fn law_targets_are_of_what_is_visible(state: AppState, id: WindowId)
    ensures
        ({
            let targets = targets_of(state.workspaces@, state.monitors@);
            &&& targets.contains_key(id) <==> exists|a: int, k: int|
                #[trigger] shows(state, a, k, id)
            &&& targets.contains_key(id) ==> exists|a: int, k: int|
                #[trigger] shows(state, a, k, id) && placement_on(state, a, k).rect
                    == targets[id].rect && state.workspaces@[a].monitor == targets[id].monitor
            &&& forall|a: int, k: int|
                #[trigger] shows(state, a, k, id) && (forall|b: int, l: int|
                    #[trigger] shows(state, b, l, id) ==> b == a && l == k) ==> targets[id] == (
                TransitionTarget {
                    rect: placement_on(state, a, k).rect,
                    monitor: state.workspaces@[a].monitor,
                })
        }),
{
    let n = state.workspaces@.len() as int;
    assert(state.workspaces@.take(n) =~= state.workspaces@);
    lemma_targets(state, n, id);
}

/// The windows that are left on screen are those whose park failed and that still exist,
/// in their order.
pub proof fn law_failed_parks_of_live_windows_strand(parks: Seq<ParkReport>)
    ensures
        stranded_windows(parks) == parks.filter(
            |r: ParkReport| !r.parked && r.still_valid,
        ).map_values(|r: ParkReport| r.window_id),
        any_stranded(parks) <==> exists|k: int|
            0 <= k < parks.len() && !(#[trigger] parks[k]).parked && parks[k].still_valid,
    decreases parks.len(),
{
    reveal(Seq::filter);
    let fails = |r: ParkReport| !r.parked && r.still_valid;
    let id_of = |r: ParkReport| r.window_id;
    if parks.len() > 0 {
        law_failed_parks_of_live_windows_strand(parks.drop_last());
        let before = parks.drop_last().filter(fails);
        if fails(parks.last()) {
            assert(before.push(parks.last()).map_values(id_of) =~= before.map_values(id_of).push(
                parks.last().window_id,
            ));
        }
    }
    assert(stranded_windows(parks) =~= parks.filter(fails).map_values(id_of));
    if any_stranded(parks) {
        let k = choose|k: int| 0 <= k < parks.len() && stranded(#[trigger] parks[k]);
        assert(!parks[k].parked && parks[k].still_valid);
    }
    if exists|k: int| 0 <= k < parks.len() && !(#[trigger] parks[k]).parked && parks[k].still_valid {
        let k = choose|k: int|
            0 <= k < parks.len() && !(#[trigger] parks[k]).parked && parks[k].still_valid;
        assert(stranded(parks[k]));
    }
}

/// Where the frame worker could still own frames of stand-ins, these are kept, nothing is
/// uncloaked, and tiling is paused.
pub proof fn law_stand_ins_in_use_pause_tiling(
    before: AppState,
    after: AppState,
    abort: GhostAbort,
    id: WindowId,
)
    requires
        AppState::abort_outcome(before, after, FenceOutcome::TimedOut, abort),
        before.ghost_handles@.contains_key(id),
    ensures
        after.paused,
        after.ghost_handles == before.ghost_handles,
        after.layout_transition == before.layout_transition,
        after.active_crossfade == before.active_crossfade,
        after.workspaces == before.workspaces,
        abort.uncloak@.len() == 0,
        abort.abort_crossfade is None,
{
    assert(!before.ghost_handles@.is_empty());
}

/// Where the frame worker answered, or there is none, or no window has a stand-in, no
/// stand-in is left, each source is uncloaked once and nothing else is, a crossfade that
/// ran is aborted, and tiling goes on as before.
pub proof fn law_aborted_stand_ins_are_uncloaked(
    before: AppState,
    after: AppState,
    fence: FenceOutcome,
    abort: GhostAbort,
    id: WindowId,
)
    requires
        AppState::abort_outcome(before, after, fence, abort),
        fence != FenceOutcome::TimedOut || before.ghost_handles@.is_empty(),
    ensures
        !after.ghost_handles@.contains_key(id),
        after.paused == before.paused,
        abort.uncloak@.contains(id) <==> before.ghost_handles@.contains_key(id),
        abort.uncloak@.no_duplicates(),
        abort.abort_crossfade == before.active_crossfade,
        after.active_crossfade is None,
        after.workspaces == before.workspaces,
        after.apply_epoch == before.apply_epoch,
        after.layout_transition is Some <==> before.layout_transition is Some,
        before.layout_transition matches Some(b) ==> (after.layout_transition matches Some(a) && {
            &&& a.start_rects == b.start_rects
            &&& a.exits == b.exits
            &&& a.elapsed_ms == b.elapsed_ms
            &&& a.duration_ms == b.duration_ms
            &&& a.exit_park_failures == b.exit_park_failures
            &&& !a.ghosted_wids@.contains(id)
            &&& b.requires_compositor_safe_snap ==> a.requires_compositor_safe_snap
            &&& b.ghosted_wids@.contains(id) && before.config.behavior.compositor_safe_mode
                ==> a.requires_compositor_safe_snap
            &&& !before.config.behavior.compositor_safe_mode ==> a.requires_compositor_safe_snap
                == b.requires_compositor_safe_snap
            &&& b.ghosted_wids@ == Set::<u64>::empty() ==> a.requires_compositor_safe_snap
                == b.requires_compositor_safe_snap
        }),
{
    assert(abort.uncloak@.to_set().contains(id) <==> abort.uncloak@.contains(id));
    assert(before.ghost_handles@.dom().contains(id) <==> before.ghost_handles@.contains_key(id));
}

/// A transition that was ended for an exact landing is gone, the landing is due and goes
/// by nothing that was placed before; stand-ins are kept, with tiling paused, just where
/// the frame worker did not answer.
pub proof fn law_exact_landing_forgets_what_was_placed(
    before: AppState,
    after: AppState,
    ghost_fence: FenceOutcome,
    id: WindowId,
)
    requires
        AppState::landed_exactly(before, after, ghost_fence),
    ensures
        after.layout_transition is None,
        after.post_animation_landing_pending,
        !after.last_placed_layout_rects@.contains_key(id),
        after.ghost_handles@.contains_key(id) <==> before.ghost_handles@.contains_key(id)
            && ghost_fence == FenceOutcome::TimedOut,
        before.ghost_handles@.contains_key(id) && ghost_fence == FenceOutcome::TimedOut ==> {
            &&& after.paused
            &&& after.ghost_handles@[id] == before.ghost_handles@[id]
            &&& after.active_crossfade == before.active_crossfade
        },
        ghost_fence != FenceOutcome::TimedOut || before.ghost_handles@.is_empty() ==> after.paused
            == before.paused && after.active_crossfade is None,
        after.workspaces == before.workspaces,
        after.apply_epoch == before.apply_epoch,
{
    if before.ghost_handles@.contains_key(id) {
        assert(!before.ghost_handles@.is_empty());
    }
}

/// A barrier is stale once the time since its start has reached the largest age; a clock
/// that went backwards has let no time pass.
pub proof fn law_barriers_grow_stale(barrier: CrossfadeBarrier, now_ms: u64, max_age_ms: u64)
    ensures
        AppState::barrier_is_stale(barrier, now_ms, max_age_ms) <==> max_age_ms == 0
            || barrier.started_ms + max_age_ms <= now_ms,
{
}

/// The epochs count up, and begin again after the largest.
pub proof fn law_epochs_count_up(epoch: u64)
    ensures
        epoch < 0xffff_ffff_ffff_ffff ==> next_epoch(epoch) == epoch + 1,
        epoch == 0xffff_ffff_ffff_ffff ==> next_epoch(epoch) == 0,
{
}

/// A state animates just where a transition runs or some workspace scrolls, shown or not.
pub proof fn law_scrolls_and_transitions_animate(state: AppState)
    ensures
        state.layout_transition is Some ==> state.animates(),
        forall|a: int, b: int|
            0 <= a < state.workspaces@.len() && 0 <= b < state.workspaces@[a].workspaces@.len() && (
            #[trigger] state.workspaces@[a].workspaces@[b]).animating ==> state.animates(),
        state.layout_transition is None && (forall|a: int, b: int|
            0 <= a < state.workspaces@.len() && 0 <= b < state.workspaces@[a].workspaces@.len()
                ==> !(#[trigger] state.workspaces@[a].workspaces@[b]).animating)
            ==> !state.animates(),
{
}

/// A tick that a scroll goes on after moves no offset of its own; one that it ends with
/// puts both offsets at the target; a workspace at rest stays as it is.
pub proof fn law_ticks_end_scrolls_at_their_target(workspace: Workspace, runs: bool)
    ensures
        ({
            let after = ticked(workspace, runs);
            &&& after.animating == runs
            &&& after.scroll_target == workspace.scroll_target
            &&& workspace.animating && !runs ==> after.scroll_offset == workspace.scroll_target
                && after.shown_offset == workspace.scroll_target
            &&& runs || !workspace.animating ==> after.scroll_offset == workspace.scroll_offset
                && after.shown_offset == workspace.shown_offset
            &&& after.columns == workspace.columns
            &&& after.floating == workspace.floating
            &&& after.minimized == workspace.minimized
            &&& after.focused_visible == workspace.focused_visible
            &&& after.placements == workspace.placements
            &&& after.reduce_motion == workspace.reduce_motion
            &&& after.fullscreen == workspace.fullscreen
        }),
        !workspace.animating && !runs ==> ticked(workspace, runs) == workspace,
        landed(workspace) == ticked(workspace, false),
{
}

/// Landing touches nothing but offsets: every window stays where it is, and a workspace
/// that did not scroll is left alone.
pub proof fn law_landing_touches_only_scrolls(before: AppState, after: AppState, a: int, b: int)
    requires
        AppState::scrolls_landed(before, after),
        0 <= a < before.workspaces@.len(),
        0 <= b < before.workspaces@[a].workspaces@.len(),
    ensures
        after.workspaces@.len() == before.workspaces@.len(),
        after.workspaces@[a].monitor == before.workspaces@[a].monitor,
        after.workspaces@[a].active == before.workspaces@[a].active,
        !before.workspaces@[a].workspaces@[b].animating ==> after.workspaces@[a].workspaces@[b]
            == before.workspaces@[a].workspaces@[b],
        !after.workspaces@[a].workspaces@[b].animating,
        after.workspaces@[a].workspaces@[b].columns == before.workspaces@[a].workspaces@[b].columns,
        after.workspaces@[a].workspaces@[b].placements
            == before.workspaces@[a].workspaces@[b].placements,
        after.layout_transition == before.layout_transition,
        after.ghost_handles == before.ghost_handles,
        after.apply_epoch == before.apply_epoch,
{
    let change = |i: int, j: int, w: Workspace| landed(w);
    assert(after.workspaces@[a].workspaces@[b] == change(
        a,
        b,
        before.workspaces@[a].workspaces@[b],
    ));
}

/// A scroll ended with a tick where some workspace scrolled before and not after, and one
/// runs where some workspace still scrolls.
pub proof fn law_ticks_tell_which_scrolls_run(state: AppState, ticks: Seq<Vec<bool>>, a: int, b: int)
    requires
        state.ticks_match(ticks),
        0 <= a < state.workspaces@.len(),
        0 <= b < state.workspaces@[a].workspaces@.len(),
    ensures
        ticks[a]@[b] ==> state.some_scroll_runs(ticks),
        state.workspaces@[a].workspaces@[b].animating && !ticks[a]@[b] ==> state.some_scroll_ended(
            ticks,
        ),
        (forall|i: int, j: int|
            0 <= i < ticks.len() && 0 <= j < ticks[i]@.len() ==> !#[trigger] ticks[i]@[j])
            ==> !state.some_scroll_runs(ticks),
        (forall|i: int, j: int|
            0 <= i < ticks.len() && 0 <= j < ticks[i]@.len() ==> #[trigger] ticks[i]@[j])
            ==> !state.some_scroll_ended(ticks),
        !state.animates() ==> !state.some_scroll_ended(ticks),
{
}

/// A workspace switch leaves with each window that it was given, to the place that it was
/// given, in their order; a window that floats on some workspace counts as past every
/// column, and any other one as of the first.
pub proof fn law_switches_move_each_window_to_its_exit(
    state: AppState,
    transition: LayoutTransition,
    start_rects: HashMap<u64, Rect>,
    exits: Seq<(WindowId, Rect)>,
    duration_ms: u64,
    sensitive: Set<u64>,
    k: int,
)
    requires
        state.is_switch(transition, start_rects, exits, duration_ms, sensitive),
        0 <= k < exits.len(),
    ensures
        transition.exits@.len() == exits.len(),
        transition.exits@[k].window_id == exits[k].0,
        transition.exits@[k].target == exits[k].1,
        ({
            let floats = exists|a: int, b: int|
                0 <= a < state.workspaces@.len() && 0 <= b < state.workspaces@[a].workspaces@.len()
                    && (#[trigger] state.workspaces@[a].workspaces@[b]).floating@.contains(
                    exits[k].0,
                );
            &&& floats ==> transition.exits@[k].column_index == usize::MAX
            &&& !floats ==> transition.exits@[k].column_index == 0
        }),
        exit_ids(transition.exits@)[k] == exits[k].0,
{
}

/// A workspace switch starts with its first frame elapsed, without stand-ins or failures,
/// and lands at once just where, in compositor-safe mode, it would move a window in or
/// out that must not be moved.
pub proof fn law_switches_start_with_their_first_frame(
    state: AppState,
    transition: LayoutTransition,
    start_rects: HashMap<u64, Rect>,
    exits: Seq<(WindowId, Rect)>,
    duration_ms: u64,
    sensitive: Set<u64>,
)
    requires
        state.is_switch(transition, start_rects, exits, duration_ms, sensitive),
    ensures
        transition.elapsed_ms == 16,
        transition.duration_ms == duration_ms,
        transition.start_rects == start_rects,
        transition.exit_park_failures == 0,
        forall|id: u64| !transition.ghosted_wids@.contains(id),
        !state.config.behavior.compositor_safe_mode ==> !transition.requires_compositor_safe_snap,
        state.config.behavior.compositor_safe_mode ==> {
            &&& forall|id: u64|
                start_rects@.contains_key(id) && #[trigger] sensitive.contains(id)
                    ==> transition.requires_compositor_safe_snap
            &&& forall|k: int|
                0 <= k < exits.len() && sensitive.contains((#[trigger] exits[k]).0)
                    ==> transition.requires_compositor_safe_snap
            &&& (forall|id: u64| #[trigger]
                start_rects@.contains_key(id) ==> !sensitive.contains(id)) && (forall|k: int|
                0 <= k < exits.len() ==> !sensitive.contains((#[trigger] exits[k]).0))
                ==> !transition.requires_compositor_safe_snap
        },
{
}

/// Every window that moves on the monitor of the focus may move by stand-in, unless it is
/// focused, of a class that stand-ins do not work for, or used by a crossfade; where only
/// changes of size count, one that keeps its size may not. The monitor of the focus is
/// where the focused window ends, or the focused one where it is not shown.
pub proof fn law_windows_that_move_may_have_a_stand_in(
    state: AppState,
    id: WindowId,
    start_rects: Map<u64, Rect>,
    targets: Map<u64, TransitionTarget>,
    size_changes_only: bool,
    ghostable: Set<u64>,
)
    ensures
        state.may_ghost(id, start_rects, targets, size_changes_only, ghostable) <==> {
            let start = start_rects[id];
            let end = targets[id].rect;
            let resized = start.width != end.width || start.height != end.height;
            let moves = resized || start.x != end.x || start.y != end.y;
            &&& start_rects.contains_key(id)
            &&& targets.contains_key(id)
            &&& if size_changes_only {
                resized
            } else {
                moves
            }
            &&& state.previous_focused_hwnd matches Some(focused) ==> {
                &&& focused != id
                &&& targets.contains_key(focused) ==> targets[id].monitor
                    == targets[focused].monitor
                &&& !targets.contains_key(focused) ==> targets[id].monitor == state.focused_monitor
            }
            &&& state.previous_focused_hwnd is None ==> targets[id].monitor
                == state.focused_monitor
            &&& ghostable.contains(id)
            &&& forall|epoch: u64| #[trigger]
                state.crossfade_sources@.contains_key(epoch)
                    ==> !state.crossfade_sources@[epoch].windows@.contains(id)
        },
{
}

/// A window on its way keeps what it is and is between start and end just where a start
/// was recorded.
pub proof fn law_windows_on_their_way_keep_what_they_are(
    transition: LayoutTransition,
    placements: Seq<WindowPlacement>,
    morphed: Seq<Rect>,
    exited: Seq<Rect>,
    i: int,
)
    requires
        0 <= i < placements.len(),
        morphed.len() == placements.len(),
    ensures
        ({
            let shown = in_transition(transition, placements, morphed, exited);
            &&& shown.len() >= placements.len()
            &&& shown[i].window_id == placements[i].window_id
            &&& shown[i].visibility == placements[i].visibility
            &&& shown[i].column_index == placements[i].column_index
            &&& transition.start_rects@.contains_key(placements[i].window_id) ==> shown[i].rect
                == morphed[i]
            &&& !transition.start_rects@.contains_key(placements[i].window_id) ==> shown[i].rect
                == placements[i].rect
        }),
{
}

/// An exit window with its place between start and end.
pub open spec fn exits_at(exits: Seq<ExitWindow>, between: Seq<Rect>) -> Seq<(ExitWindow, Rect)> {
    Seq::new(exits.len(), |k: int| (exits[k], between[k]))
}

/// Behind the windows on their way come the exit windows with a recorded start, in their
/// order, each visible at its place between start and end.
pub proof fn law_exit_windows_are_shown_while_they_leave(
    transition: LayoutTransition,
    placements: Seq<WindowPlacement>,
    morphed: Seq<Rect>,
    exited: Seq<Rect>,
)
    requires
        morphed.len() == placements.len(),
        exited.len() == transition.exits@.len(),
    ensures
        ({
            let shown = in_transition(transition, placements, morphed, exited);
            shown.skip(placements.len() as int) == exits_at(
                transition.exits@,
                exited,
            ).filter(
                |e: (ExitWindow, Rect)| transition.start_rects@.contains_key(e.0.window_id),
            ).map_values(
                |e: (ExitWindow, Rect)|
                    (WindowPlacement {
                        window_id: e.0.window_id,
                        rect: e.1,
                        visibility: Visibility::Visible,
                        column_index: e.0.column_index,
                    }),
            )
        }),
{
    lemma_leaving(transition.start_rects@, transition.exits@, exited, exited.len() as int);
    let shown = in_transition(transition, placements, morphed, exited);
    assert(exits_at(transition.exits@, exited).take(exited.len() as int) =~= exits_at(
        transition.exits@,
        exited,
    ));
    assert(shown.skip(placements.len() as int) =~= leaving(
        transition.start_rects@,
        transition.exits@,
        exited,
        exited.len() as int,
    ));
}

proof fn lemma_leaving(
    start_rects: Map<u64, Rect>,
    exits: Seq<ExitWindow>,
    between: Seq<Rect>,
    n: int,
)
    requires
        0 <= n <= exits.len(),
        between.len() == exits.len(),
    ensures
        leaving(start_rects, exits, between, n) == exits_at(exits, between).take(n).filter(
            |e: (ExitWindow, Rect)| start_rects.contains_key(e.0.window_id),
        ).map_values(
            |e: (ExitWindow, Rect)|
                (WindowPlacement {
                    window_id: e.0.window_id,
                    rect: e.1,
                    visibility: Visibility::Visible,
                    column_index: e.0.column_index,
                }),
        ),
    decreases n,
{
    reveal(Seq::filter);
    let starts = |e: (ExitWindow, Rect)| start_rects.contains_key(e.0.window_id);
    let placed = |e: (ExitWindow, Rect)|
        (WindowPlacement {
            window_id: e.0.window_id,
            rect: e.1,
            visibility: Visibility::Visible,
            column_index: e.0.column_index,
        });
    let all = exits_at(exits, between);
    if n > 0 {
        lemma_leaving(start_rects, exits, between, n - 1);
        assert(all.take(n).drop_last() =~= all.take(n - 1));
        assert(all.take(n).last() == (exits[n - 1], between[n - 1]));
        let before = all.take(n - 1).filter(starts);
        if starts(all.take(n).last()) {
            assert(before.push(all.take(n).last()).map_values(placed) =~= before.map_values(
                placed,
            ).push(placed(all.take(n).last())));
        }
    }
    assert(leaving(start_rects, exits, between, n) =~= all.take(n).filter(starts).map_values(
        placed,
    ));
}

/// A ticket is good for the epoch that it was given for, and for stand-ins only where a
/// new epoch began.
pub proof fn law_tickets_are_good_for_one_epoch(state: AppState, ticket: FenceTicket)
    ensures
        ticket.epoch() != state.apply_epoch ==> !state.fenced_by(ticket),
        !ticket.advanced() && !state.ghost_handles@.is_empty() ==> !state.fenced_by(ticket),
        ticket.epoch() == state.apply_epoch && ticket.advanced() ==> state.fenced_by(ticket),
        ticket.epoch() == state.apply_epoch && state.ghost_handles@.is_empty() ==> state.fenced_by(
            ticket,
        ),
{
}

/// Motion is reduced just where the system's animations are off, or the machine saves
/// power and the user wants that respected.
pub proof fn law_motion_is_reduced_on_request(
    animations_enabled: bool,
    on_battery_or_saver: bool,
    reduce_motion_on_battery: bool,
    reduced: bool,
)
    requires
        call_ensures(
            reduce_motion_enabled,
            (animations_enabled, on_battery_or_saver, reduce_motion_on_battery),
            reduced,
        ),
    ensures
        !animations_enabled ==> reduced,
        animations_enabled && !reduce_motion_on_battery ==> !reduced,
        animations_enabled && reduce_motion_on_battery ==> reduced == on_battery_or_saver,
{
}

/// An animation is collapsed only where the mode, an animation and its transition all ask
/// for it.
pub proof fn law_animations_are_collapsed_on_request(
    compositor_safe_mode: bool,
    has_active_animation: bool,
    transition_requires_snap: bool,
    collapse: bool,
)
    requires
        call_ensures(
            compositor_safe_snap_required,
            (compositor_safe_mode, has_active_animation, transition_requires_snap),
            collapse,
        ),
    ensures
        !collapse <==> !compositor_safe_mode || !has_active_animation || !transition_requires_snap,
{
}

/// The abort of stand-ins waits a second and a half for the frame worker, twice as long as
/// the cancel of a transition; parking is given up after the third failure.
pub proof fn law_waits_are_bounded(ms: u64)
    requires
        call_ensures(ghost_frame_barrier_timeout, (), ms),
    ensures
        ms == 1500,
        ms == 2 * TRANSITION_BARRIER_MS,
        MAX_EXIT_PARK_FAILURES == 3,
{
}

/// A transition must land at once just where one runs that says so.
pub proof fn law_transitions_say_whether_they_land(state: AppState)
    ensures
        match state.layout_transition {
            Some(transition) => state.transition_must_snap()
                == transition.requires_compositor_safe_snap,
            None => !state.transition_must_snap(),
        },
{
}

/// A transition takes the configured time, and none starts where motion is reduced; in
/// compositor-safe mode only changes of size are moved by stand-in, else every move where
/// the setting asks for it, and none where it does not.
pub proof fn law_settings_decide_how_transitions_start(
    state: &AppState,
    duration_ms: Option<u64>,
    size_changes_only: Option<bool>,
)
    requires
        call_ensures(AppState::start_layout_transition, (state,), duration_ms),
        call_ensures(AppState::ghost_pass, (state,), size_changes_only),
    ensures
        state.reduce_motion <==> duration_ms is None,
        duration_ms matches Some(ms) ==> ms == state.config.animation.layout_duration_ms,
        size_changes_only == Some(true) <==> state.config.behavior.compositor_safe_mode,
        size_changes_only == Some(false) <==> !state.config.behavior.compositor_safe_mode
            && state.config.behavior.swap_chain_ghost_animation,
{
}

proof fn lemma_last_place(m: Map<u64, Rect>, placements: Seq<WindowPlacement>, k: int, id: u64)
    requires
        -1 <= k < placements.len(),
        k >= 0 ==> placements[k].window_id == id,
        forall|l: int| k < l < placements.len() ==> (#[trigger] placements[l]).window_id != id,
    ensures
        k >= 0 ==> with_places(m, placements)[id] == placements[k].rect,
        k < 0 ==> with_places(m, placements)[id] == m[id],
    decreases placements.len(),
{
    if placements.len() > 0 && k < placements.len() - 1 {
        assert(placements[placements.len() - 1].window_id != id);
        lemma_last_place(m, placements.drop_last(), k, id);
    }
}

proof fn lemma_last_target(
    m: Map<u64, TransitionTarget>,
    placements: Seq<WindowPlacement>,
    monitor: MonitorId,
    k: int,
    id: u64,
)
    requires
        -1 <= k < placements.len(),
        k >= 0 ==> placements[k].window_id == id && placements[k].visibility == Visibility::Visible,
        forall|l: int|
            k < l < placements.len() ==> !((#[trigger] placements[l]).window_id == id
                && placements[l].visibility == Visibility::Visible),
    ensures
        k >= 0 ==> with_targets(m, placements, monitor)[id] == (TransitionTarget {
            rect: placements[k].rect,
            monitor,
        }),
        k < 0 ==> with_targets(m, placements, monitor)[id] == m[id],
    decreases placements.len(),
{
    if placements.len() > 0 && k < placements.len() - 1 {
        assert(!(placements[placements.len() - 1].window_id == id && placements[placements.len()
            - 1].visibility == Visibility::Visible));
        lemma_last_target(m, placements.drop_last(), monitor, k, id);
    }
}

/// Where a window is placed more than once on screen, the last place counts.
pub proof fn law_last_place_on_screen_counts(state: AppState, id: WindowId, a: int, k: int)
    requires
        is_on_screen(state, a, k),
        placement_on(state, a, k).window_id == id,
        forall|b: int, l: int| #[trigger]
            is_on_screen(state, b, l) && placement_on(state, b, l).window_id == id ==> b < a || (b
                == a && l <= k),
    ensures
        snapshot_of(state.workspaces@, state.monitors@)[id] == placement_on(state, a, k).rect,
{
    let n = state.workspaces@.len() as int;
    assert(state.workspaces@.take(n) =~= state.workspaces@);
    lemma_last_snapshot(state, id, a, k, n);
}

proof fn lemma_last_snapshot(state: AppState, id: WindowId, a: int, k: int, n: int)
    requires
        is_on_screen(state, a, k),
        placement_on(state, a, k).window_id == id,
        forall|b: int, l: int| #[trigger]
            is_on_screen(state, b, l) && placement_on(state, b, l).window_id == id ==> b < a || (b
                == a && l <= k),
        a < n <= state.workspaces@.len(),
    ensures
        snapshot_of(state.workspaces@.take(n), state.monitors@)[id] == placement_on(
            state,
            a,
            k,
        ).rect,
    decreases n,
{
    let groups = state.workspaces@.take(n);
    let before = snapshot_of(groups.drop_last(), state.monitors@);
    let shown = shown_placements(groups.last(), state.monitors@);
    assert(groups.drop_last() =~= state.workspaces@.take(n - 1));
    assert(groups.last() == state.workspaces@[n - 1]);
    assert forall|l: int| 0 <= l < shown.len() implies is_on_screen(state, n - 1, l)
        && placement_on(state, n - 1, l) == #[trigger] shown[l] by {}
    if a == n - 1 {
        assert(shown[k] == placement_on(state, a, k));
        assert forall|l: int| k < l < shown.len() implies (#[trigger] shown[l]).window_id != id by {
            assert(is_on_screen(state, a, l));
        }
        lemma_last_place(before, shown, k, id);
    } else {
        lemma_last_snapshot(state, id, a, k, n - 1);
        assert forall|l: int| -1 < l < shown.len() implies (#[trigger] shown[l]).window_id
            != id by {
            assert(is_on_screen(state, n - 1, l));
        }
        lemma_last_place(before, shown, -1, id);
    }
}

/// Where a window is visible more than once, a transition ends at the last place.
pub proof fn law_last_visible_place_counts(state: AppState, id: WindowId, a: int, k: int)
    requires
        shows(state, a, k, id),
        forall|b: int, l: int| #[trigger]
            shows(state, b, l, id) ==> b < a || (b == a && l <= k),
    ensures
        targets_of(state.workspaces@, state.monitors@)[id] == (TransitionTarget {
            rect: placement_on(state, a, k).rect,
            monitor: state.workspaces@[a].monitor,
        }),
{
    let n = state.workspaces@.len() as int;
    assert(state.workspaces@.take(n) =~= state.workspaces@);
    lemma_last_targets(state, id, a, k, n);
}

proof fn lemma_last_targets(state: AppState, id: WindowId, a: int, k: int, n: int)
    requires
        shows(state, a, k, id),
        forall|b: int, l: int| #[trigger]
            shows(state, b, l, id) ==> b < a || (b == a && l <= k),
        a < n <= state.workspaces@.len(),
    ensures
        targets_of(state.workspaces@.take(n), state.monitors@)[id] == (TransitionTarget {
            rect: placement_on(state, a, k).rect,
            monitor: state.workspaces@[a].monitor,
        }),
    decreases n,
{
    let groups = state.workspaces@.take(n);
    let before = targets_of(groups.drop_last(), state.monitors@);
    let shown = shown_placements(groups.last(), state.monitors@);
    let monitor = groups.last().monitor;
    assert(groups.drop_last() =~= state.workspaces@.take(n - 1));
    assert(groups.last() == state.workspaces@[n - 1]);
    assert forall|l: int| 0 <= l < shown.len() implies is_on_screen(state, n - 1, l)
        && placement_on(state, n - 1, l) == #[trigger] shown[l] by {}
    if a == n - 1 {
        assert(shown[k] == placement_on(state, a, k));
        assert forall|l: int| k < l < shown.len() implies !((#[trigger] shown[l]).window_id == id
            && shown[l].visibility == Visibility::Visible) by {
            assert(!shows(state, a, l, id));
        }
        lemma_last_target(before, shown, monitor, k, id);
    } else {
        lemma_last_targets(state, id, a, k, n - 1);
        assert forall|l: int| -1 < l < shown.len() implies !((#[trigger] shown[l]).window_id == id
            && shown[l].visibility == Visibility::Visible) by {
            assert(!shows(state, n - 1, l, id));
        }
        lemma_last_target(before, shown, monitor, -1, id);
    }
}

/// What is collected for a transition, and what is recorded before one, is of what the
/// active workspaces place: a visible window that is placed once on screen is among both,
/// and one that no active workspace places is in neither.
pub proof fn law_transitions_go_by_the_active_workspaces(
    state: &AppState,
    targets: HashMap<u64, TransitionTarget>,
    taken: HashMap<u64, Rect>,
    id: WindowId,
    a: int,
    k: int,
)
    requires
        call_ensures(AppState::collect_transition_targets, (state,), targets),
        call_ensures(AppState::snapshot_layout, (state,), taken),
    ensures
        shows(*state, a, k, id) && (forall|b: int, l: int|
            #[trigger] is_on_screen(*state, b, l) && placement_on(*state, b, l).window_id == id
                ==> b == a && l == k) ==> {
            &&& targets@.contains_key(id)
            &&& targets@[id].rect == placement_on(*state, a, k).rect
            &&& targets@[id].monitor == state.workspaces@[a].monitor
            &&& taken@.contains_key(id)
            &&& taken@[id] == placement_on(*state, a, k).rect
        },
        (forall|b: int, l: int|
            #[trigger] is_on_screen(*state, b, l) ==> placement_on(*state, b, l).window_id != id)
            ==> !targets@.contains_key(id) && !taken@.contains_key(id),
{
    law_snapshot_is_of_what_is_on_screen(*state, id);
    law_targets_are_of_what_is_visible(*state, id);
    if shows(*state, a, k, id) && forall|b: int, l: int|
        #[trigger] is_on_screen(*state, b, l) && placement_on(*state, b, l).window_id == id ==> b
            == a && l == k {
        assert(is_on_screen(*state, a, k));
        assert forall|b: int, l: int| #[trigger] shows(*state, b, l, id) implies b == a && l
            == k by {
            assert(is_on_screen(*state, b, l));
        }
    }
}

} // verus!
