//! Window rules: what a rule makes of a window, how a changed rule moves windows
//! between tiled, floating and ignored, and which windows are taken in.
use vstd::prelude::*;
use vstd::std_specs::hash::*;
use crate::config::{CompiledWindowRule, WindowAction};
use crate::geometry::{MonitorId, Rect, WindowId};
use crate::state;
use crate::state::{
    AppState, Column, MonitorWorkspaces, Workspace, FALLBACK_VIEWPORT_HEIGHT, FALLBACK_VIEWPORT_WIDTH,
};
use crate::text;
use crate::ui_sync;
use crate::window_identity::WindowEventIdentity;

verus! {

broadcast use group_hash_axioms;

/// The incarnation of a window that a decision was made on.
pub type WindowIncarnation = WindowEventIdentity;

/// Width of a window that floats without a width of its own.
pub const DEFAULT_FLOAT_WIDTH: i32 = 800;

/// Height of a window that floats without a height of its own.
pub const DEFAULT_FLOAT_HEIGHT: i32 = 600;

/// The steps by which a window is released before it is ignored.
#[derive(Clone, Copy, Debug, PartialEq, Eq, Structural)]
pub enum ReleaseStage {
    /// Nothing was done yet.
    Begin,
    /// The window is uncloaked.
    Uncloak,
    /// The window is restored to the screen.
    Restore,
    /// The window is shown.
    Show,
    /// The window is released.
    Done,
}

/// Why a window was not released.
#[derive(Clone, Copy, Debug, PartialEq, Eq, Structural)]
pub enum ReleaseError {
    /// The window changed incarnation before the release.
    ChangedBeforeRelease,
    /// The window could not be uncloaked.
    UncloakFailed,
    /// The window changed incarnation after it was uncloaked.
    ChangedAfterUncloak,
    /// The window could not be restored.
    RestoreFailed,
    /// The window changed incarnation after it was restored.
    ChangedAfterRestore,
    /// The window could not be shown.
    ShowFailed,
    /// The window changed incarnation after it was shown.
    ChangedAfterShow,
}

/// What follows a stage of a release: a failed action or another incarnation
/// ends it, otherwise the next action is due.
pub open spec fn release_next(stage: ReleaseStage, acted: bool, same_window: bool) -> Result<
    ReleaseStage,
    ReleaseError,
> {
    match stage {
        ReleaseStage::Begin => if same_window {
            Ok(ReleaseStage::Uncloak)
        } else {
            Err(ReleaseError::ChangedBeforeRelease)
        },
        ReleaseStage::Uncloak => if !acted {
            Err(ReleaseError::UncloakFailed)
        } else if same_window {
            Ok(ReleaseStage::Restore)
        } else {
            Err(ReleaseError::ChangedAfterUncloak)
        },
        ReleaseStage::Restore => if !acted {
            Err(ReleaseError::RestoreFailed)
        } else if same_window {
            Ok(ReleaseStage::Show)
        } else {
            Err(ReleaseError::ChangedAfterRestore)
        },
        ReleaseStage::Show => if !acted {
            Err(ReleaseError::ShowFailed)
        } else if same_window {
            Ok(ReleaseStage::Done)
        } else {
            Err(ReleaseError::ChangedAfterShow)
        },
        ReleaseStage::Done => Ok(ReleaseStage::Done),
    }
}

/// `current` is the incarnation that was expected.
pub open spec fn is_expected(
    expected: WindowIncarnation,
    current: Option<&WindowIncarnation>,
) -> bool {
    current matches Some(current) && current@ == expected@
}

/// Whether `current` is the incarnation that was expected.
pub fn same_incarnation(
    expected: &WindowIncarnation,
    current: Option<&WindowIncarnation>,
) -> (r: bool)
    ensures
        r == is_expected(*expected, current),
{
    match current {
        Some(current) => {
            let same = current.token == expected.token && current.process_id
                == expected.process_id && current.thread_id == expected.thread_id
                && text::same_text(current.class_name.as_str(), expected.class_name.as_str());
            assert(same ==> current@ =~= expected@);
            same
        },
        None => false,
    }
}

/// One step of a release: `stage` was carried out, with success if `acted`, and
/// the handle now belongs to `current`. Gives the stage to carry out next.
pub fn release_window_for_ignore_with(
    expected: &WindowIncarnation,
    stage: ReleaseStage,
    acted: bool,
    current: Option<&WindowIncarnation>,
) -> (r: Result<ReleaseStage, ReleaseError>)
    ensures
        r == release_next(stage, acted, is_expected(*expected, current)),
{
    let same_window = same_incarnation(expected, current);
    match stage {
        ReleaseStage::Begin => if same_window {
            Ok(ReleaseStage::Uncloak)
        } else {
            Err(ReleaseError::ChangedBeforeRelease)
        },
        ReleaseStage::Uncloak => if !acted {
            Err(ReleaseError::UncloakFailed)
        } else if same_window {
            Ok(ReleaseStage::Restore)
        } else {
            Err(ReleaseError::ChangedAfterUncloak)
        },
        ReleaseStage::Restore => if !acted {
            Err(ReleaseError::RestoreFailed)
        } else if same_window {
            Ok(ReleaseStage::Show)
        } else {
            Err(ReleaseError::ChangedAfterRestore)
        },
        ReleaseStage::Show => if !acted {
            Err(ReleaseError::ShowFailed)
        } else if same_window {
            Ok(ReleaseStage::Done)
        } else {
            Err(ReleaseError::ChangedAfterShow)
        },
        ReleaseStage::Done => Ok(ReleaseStage::Done),
    }
}

/// What was seen at one step of a release.
pub struct ReleaseObservation {
    pub acted: bool,
    pub same_window: bool,
}

/// The stage that a release reaches by a list of observations, or how it ended.
pub open spec fn release_run(observed: Seq<ReleaseObservation>) -> Result<
    ReleaseStage,
    ReleaseError,
>
    decreases observed.len(),
{
    if observed.len() == 0 {
        Ok(ReleaseStage::Begin)
    } else {
        match release_run(observed.drop_last()) {
            Ok(stage) => release_next(
                stage,
                observed.last().acted,
                observed.last().same_window,
            ),
            Err(error) => Err(error),
        }
    }
}

/// A window counts as released only if every action succeeded and it was the
/// expected incarnation before, between and after them.
pub proof fn law_release_is_fenced_at_every_step(observed: Seq<ReleaseObservation>)
    requires
        observed.len() == 4,
        release_run(observed) == Ok::<ReleaseStage, ReleaseError>(ReleaseStage::Done),
    ensures
        forall|k: int| 0 <= k < 4 ==> (#[trigger] observed[k]).same_window,
        forall|k: int| 1 <= k < 4 ==> (#[trigger] observed[k]).acted,
{
    reveal_with_fuel(release_run, 5);
    let d3 = observed.drop_last();
    let d2 = d3.drop_last();
    let d1 = d2.drop_last();
    assert(d3.last() == observed[2]);
    assert(d2.last() == observed[1]);
    assert(d1.last() == observed[0]);
    assert(d1.drop_last().len() == 0);
}

/// A recycled handle is not touched: where the first look shows another window,
/// no action follows.
pub proof fn law_recycled_handle_is_not_touched(acted: bool)
    ensures
        release_next(ReleaseStage::Begin, acted, false) is Err,
{
}

/// Whether a release went through all its steps.
fn is_released(released: Result<ReleaseStage, ReleaseError>) -> (r: bool)
    ensures
        r == (released == Ok::<ReleaseStage, ReleaseError>(ReleaseStage::Done)),
{
    match released {
        Ok(stage) => stage == ReleaseStage::Done,
        Err(_) => false,
    }
}

/// The first rule that matches.
pub open spec fn first_match(matched: Seq<bool>) -> Option<int>
    decreases matched.len(),
{
    if matched.len() == 0 {
        None
    } else {
        match first_match(matched.drop_last()) {
            Some(i) => Some(i),
            None => if matched.last() {
                Some(matched.len() - 1)
            } else {
                None
            },
        }
    }
}

/// What the rules make of a window: the action of the first one that matches,
/// tiling where none does.
pub open spec fn action_of(rules: Seq<CompiledWindowRule>, matched: Seq<bool>) -> WindowAction {
    match first_match(matched) {
        Some(i) => rules[i].action,
        None => WindowAction::Tile,
    }
}

/// The first match is the one that no match precedes.
pub proof fn law_first_match_wins(matched: Seq<bool>)
    ensures
        match first_match(matched) {
            Some(i) => 0 <= i < matched.len() && matched[i] && forall|k: int|
                0 <= k < i ==> !#[trigger] matched[k],
            None => forall|k: int| 0 <= k < matched.len() ==> !#[trigger] matched[k],
        },
    decreases matched.len(),
{
    if matched.len() > 0 {
        law_first_match_wins(matched.drop_last());
        assert forall|k: int| 0 <= k < matched.len() - 1 implies matched.drop_last()[k]
            == #[trigger] matched[k] by {}
    }
}

/// The size that a rule asks for, in physical pixels. A dimension that the rule
/// leaves open is ignored.
#[derive(Clone, Copy, Debug, PartialEq, Eq, Structural)]
pub struct RuleSize {
    pub width: i32,
    pub height: i32,
}

/// `n` halved, rounded towards zero.
pub open spec fn half(n: int) -> int {
    if n >= 0 {
        n / 2
    } else {
        -((-n) / 2)
    }
}

/// A rectangle of the default floating size in the middle of `viewport`.
pub open spec fn centred_float(viewport: Rect) -> Rect {
    Rect {
        x: (viewport.x + half(viewport.width - DEFAULT_FLOAT_WIDTH)) as i32,
        y: (viewport.y + half(viewport.height - DEFAULT_FLOAT_HEIGHT)) as i32,
        width: DEFAULT_FLOAT_WIDTH,
        height: DEFAULT_FLOAT_HEIGHT,
    }
}

/// The corner of the centred rectangle is representable.
pub open spec fn can_centre(viewport: Rect) -> bool {
    &&& i32::MIN <= viewport.width - DEFAULT_FLOAT_WIDTH
    &&& i32::MIN <= viewport.height - DEFAULT_FLOAT_HEIGHT
    &&& i32::MIN <= viewport.x + half(viewport.width - DEFAULT_FLOAT_WIDTH) <= i32::MAX
    &&& i32::MIN <= viewport.y + half(viewport.height - DEFAULT_FLOAT_HEIGHT) <= i32::MAX
}

pub(crate) fn halved(n: i32) -> (r: i32)
    ensures
        r == half(n as int),
{
    if n >= 0 {
        n / 2
    } else {
        let size: i64 = -(n as i64);
        (-(size / 2)) as i32
    }
}

/// Whether the corner of the centred rectangle is representable.
pub fn centre_fits(viewport: Rect) -> (r: bool)
    ensures
        r == can_centre(viewport),
{
    let dx: i64 = viewport.width as i64 - DEFAULT_FLOAT_WIDTH as i64;
    let dy: i64 = viewport.height as i64 - DEFAULT_FLOAT_HEIGHT as i64;
    if dx < i32::MIN as i64 || dy < i32::MIN as i64 {
        return false;
    }
    let x: i64 = viewport.x as i64 + halved(dx as i32) as i64;
    let y: i64 = viewport.y as i64 + halved(dy as i32) as i64;
    i32::MIN as i64 <= x && x <= i32::MAX as i64 && i32::MIN as i64 <= y && y <= i32::MAX as i64
}

/// A rectangle of the default floating size in the middle of `viewport`.
pub fn default_float_rect(viewport: Rect) -> (r: Rect)
    requires
        can_centre(viewport),
    ensures
        r == centred_float(viewport),
{
    let dx: i32 = halved(viewport.width - DEFAULT_FLOAT_WIDTH);
    let dy: i32 = halved(viewport.height - DEFAULT_FLOAT_HEIGHT);
    Rect::new(viewport.x + dx, viewport.y + dy, DEFAULT_FLOAT_WIDTH, DEFAULT_FLOAT_HEIGHT)
}

/// What a rule change does to a window.
#[derive(Clone, Copy, Debug, PartialEq, Eq, Structural)]
pub enum RuleStep {
    /// The window starts to float.
    ToFloat,
    /// The window is tiled again.
    ToTile,
    /// The window is released and no longer managed.
    Release,
    /// The window stays as it is.
    Keep,
}

/// What an action does to a window that floats or is tiled.
pub open spec fn step_of(action: WindowAction, floating: bool) -> RuleStep {
    match action {
        WindowAction::Float => if floating {
            RuleStep::Keep
        } else {
            RuleStep::ToFloat
        },
        WindowAction::Tile => if floating {
            RuleStep::ToTile
        } else {
            RuleStep::Keep
        },
        WindowAction::Ignore => RuleStep::Release,
    }
}

/// What an action does to a window that floats or is tiled.
pub fn rule_step(action: WindowAction, floating: bool) -> (r: RuleStep)
    ensures
        r == step_of(action, floating),
{
    match action {
        WindowAction::Float => if floating {
            RuleStep::Keep
        } else {
            RuleStep::ToFloat
        },
        WindowAction::Tile => if floating {
            RuleStep::ToTile
        } else {
            RuleStep::Keep
        },
        WindowAction::Ignore => RuleStep::Release,
    }
}

/// Applying the same rules again changes nothing more: a window that was moved
/// to where the rules want it stays.
pub proof fn law_rule_steps_settle(action: WindowAction, floating: bool)
    ensures
        step_of(action, floating) == RuleStep::ToFloat ==> step_of(action, true)
            == RuleStep::Keep,
        step_of(action, floating) == RuleStep::ToTile ==> step_of(action, false)
            == RuleStep::Keep,
{
}

/// A managed window: where it is, and whether it floats there.
#[derive(Clone, Copy, Debug, PartialEq, Eq, Structural)]
pub struct RuleSubject {
    pub window_id: WindowId,
    pub monitor: MonitorId,
    pub workspace: usize,
    pub floating: bool,
}

/// The windows of the first `n` columns, in order.
pub open spec fn column_windows(columns: Seq<Column>, n: int) -> Seq<WindowId>
    decreases n,
{
    if n <= 0 {
        Seq::empty()
    } else {
        column_windows(columns, n - 1) + columns[n - 1].windows@
    }
}

/// The windows of a workspace: the tiled ones, column by column, then the floating
/// ones.
pub open spec fn workspace_windows(workspace: Workspace) -> Seq<WindowId> {
    column_windows(workspace.columns@, workspace.columns@.len() as int) + workspace.floating@
}

/// A window of a workspace as a subject of the rules.
pub open spec fn subject_of(
    monitor: MonitorId,
    idx: usize,
    workspace: Workspace,
    id: WindowId,
) -> RuleSubject {
    RuleSubject {
        window_id: id,
        monitor,
        workspace: idx,
        floating: workspace.floating@.contains(id),
    }
}

/// The windows of the first `n` workspaces of a monitor.
pub open spec fn group_subjects(group: MonitorWorkspaces, n: int) -> Seq<RuleSubject>
    decreases n,
{
    if n <= 0 {
        Seq::empty()
    } else {
        let workspace = group.workspaces@[n - 1];
        group_subjects(group, n - 1) + workspace_windows(workspace).map_values(
            |id: WindowId| subject_of(group.monitor, (n - 1) as usize, workspace, id),
        )
    }
}

/// The windows of the first `n` monitors.
pub open spec fn subjects_of(groups: Seq<MonitorWorkspaces>, n: int) -> Seq<RuleSubject>
    decreases n,
{
    if n <= 0 {
        Seq::empty()
    } else {
        subjects_of(groups, n - 1) + group_subjects(
            groups[n - 1],
            groups[n - 1].workspaces@.len() as int,
        )
    }
}

/// A planned change of one window.
#[derive(Clone, Copy, Debug, PartialEq, Eq, Structural)]
pub struct RuleChange {
    pub window_id: WindowId,
    pub monitor: MonitorId,
    pub workspace: usize,
    pub floating: bool,
    pub step: RuleStep,
}

/// What changed rules do to the managed windows, and to a scratchpad that is
/// hidden outside every workspace.
#[derive(Clone, Debug)]
pub struct RulePlan {
    pub changes: Vec<RuleChange>,
    pub release_scratchpad: Option<WindowId>,
}

/// The changes of the first `n` windows; windows without a description, and those
/// that are where the rules want them, have none.
pub open spec fn changes_of(
    rules: Seq<CompiledWindowRule>,
    subjects: Seq<RuleSubject>,
    verdicts: Seq<Option<Vec<bool>>>,
    n: int,
) -> Seq<RuleChange>
    decreases n,
{
    if n <= 0 {
        Seq::empty()
    } else {
        let before = changes_of(rules, subjects, verdicts, n - 1);
        let subject = subjects[n - 1];
        match verdicts[n - 1] {
            Some(matched) => {
                let step = step_of(action_of(rules, matched@), subject.floating);
                if step == RuleStep::Keep {
                    before
                } else {
                    before.push(
                        RuleChange {
                            window_id: subject.window_id,
                            monitor: subject.monitor,
                            workspace: subject.workspace,
                            floating: subject.floating,
                            step,
                        },
                    )
                }
            },
            None => before,
        }
    }
}

/// The window is among those that the system described.
pub open spec fn is_described(
    subjects: Seq<RuleSubject>,
    verdicts: Seq<Option<Vec<bool>>>,
    window_id: WindowId,
) -> bool {
    exists|i: int|
        0 <= i < subjects.len() && (#[trigger] subjects[i]).window_id == window_id
            && verdicts[i] is Some
}

/// What a rule change leaves to be done outside the model.
#[derive(Clone, Copy, Debug, PartialEq, Eq, Structural)]
pub struct RuleEffects {
    /// The model changed.
    pub committed: bool,
    /// The window may be snapped by the system again.
    pub restore_snap: bool,
    /// The window may no longer be snapped by the system.
    pub disable_snap: bool,
    /// The window's taskbar button is to be shown.
    pub show_in_taskbar: bool,
}

/// What taking in a window leaves to be done outside the model.
#[derive(Clone, Copy, Debug, PartialEq, Eq, Structural)]
pub struct AdmissionEffects {
    /// The window was taken in.
    pub added: bool,
    /// The window may no longer be snapped by the system.
    pub disable_snap: bool,
}

/// A window that may be taken in. `monitor` is the one that its place is on, if
/// any; `sizes` holds what each rule asks for in that monitor's pixels.
#[derive(Clone, Debug)]
pub struct NewWindow {
    pub window_id: WindowId,
    pub rect: Rect,
    pub matched: Vec<bool>,
    pub sizes: Vec<RuleSize>,
    pub monitor: Option<MonitorId>,
    pub elevation_blocked: bool,
    pub dialog_like: bool,
}

/// What becomes of a window that may be taken in.
#[derive(Clone, Copy, Debug, PartialEq, Eq, Structural)]
pub enum Admission {
    /// A rule says to ignore it.
    IgnoredByRule,
    /// Some workspace holds it already.
    AlreadyManaged,
    /// It runs with more privileges and cannot be placed.
    ElevationBlocked,
    /// It looks like a dialog and no rule speaks of it.
    DialogLike,
    /// It floats at this place.
    Float { monitor: MonitorId, workspace: usize, rect: Rect },
    /// It is tiled.
    Tile { monitor: MonitorId, workspace: usize },
}

/// Group `g` is the first one of `monitor` and has a workspace `idx`.
pub open spec fn is_slot(
    groups: Seq<MonitorWorkspaces>,
    monitor: MonitorId,
    idx: usize,
    g: int,
) -> bool {
    &&& 0 <= g < groups.len()
    &&& groups[g].monitor == monitor
    &&& idx < groups[g].workspaces@.len()
    &&& forall|k: int| 0 <= k < g ==> (#[trigger] groups[k]).monitor != monitor
}

/// The monitor has a workspace `idx`.
pub open spec fn has_slot(
    groups: Seq<MonitorWorkspaces>,
    monitor: MonitorId,
    idx: usize,
) -> bool {
    exists|g: int| is_slot(groups, monitor, idx, g)
}

/// `after` is `before` with workspace `idx` of the monitor replaced and nothing
/// else changed.
pub open spec fn replaced(
    before: Seq<MonitorWorkspaces>,
    after: Seq<MonitorWorkspaces>,
    monitor: MonitorId,
    idx: usize,
    workspace: Workspace,
) -> bool {
    &&& after.len() == before.len()
    &&& exists|g: int|
        {
            &&& #[trigger] is_slot(before, monitor, idx, g)
            &&& after[g].monitor == before[g].monitor
            &&& after[g].active == before[g].active
            &&& after[g].workspaces@ == before[g].workspaces@.update(idx as int, workspace)
            &&& forall|k: int|
                0 <= k < before.len() && k != g ==> #[trigger] after[k] == before[k]
        }
}

/// Workspace `idx` of a monitor.
pub open spec fn workspace_of(
    groups: Seq<MonitorWorkspaces>,
    monitor: MonitorId,
    idx: usize,
) -> Option<Workspace> {
    match ui_sync::group_of(groups, monitor) {
        Some(group) if idx < group.workspaces@.len() => Some(group.workspaces@[idx as int]),
        _ => None,
    }
}

proof fn lemma_slot_is_first(
    groups: Seq<MonitorWorkspaces>,
    monitor: MonitorId,
    idx: usize,
    g: int,
)
    requires
        is_slot(groups, monitor, idx, g),
    ensures
        ui_sync::group_of(groups, monitor) == Some(groups[g]),
        workspace_of(groups, monitor, idx) == Some(groups[g].workspaces@[idx as int]),
    decreases groups.len(),
{
    if g > 0 {
        assert(groups[0].monitor != monitor);
        let rest = groups.drop_first();
        assert forall|k: int| 0 <= k < g - 1 implies (#[trigger] rest[k]).monitor != monitor by {
            assert(rest[k] == groups[k + 1]);
        }
        lemma_slot_is_first(rest, monitor, idx, g - 1);
    }
}

proof fn lemma_replaced_slot(
    before: Seq<MonitorWorkspaces>,
    after: Seq<MonitorWorkspaces>,
    monitor: MonitorId,
    idx: usize,
    workspace: Workspace,
)
    requires
        replaced(before, after, monitor, idx, workspace),
    ensures
        workspace_of(before, monitor, idx) is Some,
        workspace_of(after, monitor, idx) == Some(workspace),
{
    let g = choose|g: int|
        {
            &&& #[trigger] is_slot(before, monitor, idx, g)
            &&& after[g].monitor == before[g].monitor
            &&& after[g].active == before[g].active
            &&& after[g].workspaces@ == before[g].workspaces@.update(idx as int, workspace)
            &&& forall|k: int|
                0 <= k < before.len() && k != g ==> #[trigger] after[k] == before[k]
        };
    lemma_slot_is_first(before, monitor, idx, g);
    assert forall|k: int| 0 <= k < g implies (#[trigger] after[k]).monitor != monitor by {
        assert(after[k] == before[k]);
    }
    assert(is_slot(after, monitor, idx, g));
    lemma_slot_is_first(after, monitor, idx, g);
}

/// The workspaces hold the same windows, and the same of them float.
pub open spec fn same_windows(a: Workspace, b: Workspace) -> bool {
    forall|id: WindowId|
        (#[trigger] b.holds(id) == a.holds(id)) && b.floating@.contains(id)
            == a.floating@.contains(id)
}

/// `after` is `before` with the window floating or tiled, and no other window moved.
pub open spec fn moved(
    before: Workspace,
    after: Workspace,
    wid: WindowId,
    floating: bool,
) -> bool {
    forall|id: WindowId|
        (#[trigger] after.holds(id) == before.holds(id)) && after.floating@.contains(id) == (
        if id == wid {
            floating
        } else {
            before.floating@.contains(id)
        })
}

/// `after` is `before` without the window, and no other window moved.
pub open spec fn removed(before: Workspace, after: Workspace, wid: WindowId) -> bool {
    forall|id: WindowId|
        (#[trigger] after.holds(id) == (before.holds(id) && id != wid))
            && after.floating@.contains(id) == (before.floating@.contains(id) && id != wid)
}

/// What the layout engine made of a copy of a workspace on which it was to move one
/// window: whether it moved just that, the copy, and the copy with the focus moved on
/// to where it was before, `None` where that failed or was not asked for.
#[derive(Clone, Debug)]
pub struct EngineAnswer {
    pub moved: bool,
    pub candidate: Workspace,
    pub refocused: Option<Workspace>,
}

/// The focus to go back to after a rule moved `wid`.
pub open spec fn restored_focus(prior_focus: Option<WindowId>, wid: WindowId) -> Option<WindowId> {
    if prior_focus == Some(wid) {
        None
    } else {
        prior_focus
    }
}

impl EngineAnswer {
    /// The copy that a rule keeps: the one with the focus back where it was, if it was
    /// on another window and the engine could move it there.
    pub open spec fn kept(self, before: Workspace, wid: WindowId) -> Workspace {
        match (restored_focus(before.focused_visible, wid), self.refocused) {
            (Some(_), Some(refocused)) => refocused,
            _ => self.candidate,
        }
    }

    /// The engine did what it says: it moved just the window, and moving the focus
    /// moved nothing else.
    pub open spec fn is_faithful(self, before: Workspace, wid: WindowId, floating: bool) -> bool {
        &&& self.moved ==> moved(before, self.candidate, wid, floating)
        &&& self.refocused matches Some(refocused) ==> {
            &&& same_windows(self.candidate, refocused)
            &&& restored_focus(before.focused_visible, wid) is Some ==> refocused.focused_visible
                == before.focused_visible
        }
    }
}

/// Group `g` is the first one of `monitor`.
pub open spec fn is_first_group(
    groups: Seq<MonitorWorkspaces>,
    monitor: MonitorId,
    g: int,
) -> bool {
    &&& 0 <= g < groups.len()
    &&& groups[g].monitor == monitor
    &&& forall|k: int| 0 <= k < g ==> (#[trigger] groups[k]).monitor != monitor
}

/// `after` is the list `before`, made longer by new workspaces up to `idx`.
pub open spec fn grown(
    before: Seq<Workspace>,
    after: Seq<Workspace>,
    idx: usize,
    reduce_motion: bool,
) -> bool {
    &&& after.len() == idx + 1
    &&& forall|k: int| 0 <= k < before.len() ==> #[trigger] after[k] == before[k]
    &&& forall|k: int|
        before.len() <= k < after.len() ==> (#[trigger] after[k]).is_new(reduce_motion)
}

/// `after` is `before` with a workspace `idx` on the monitor: nothing changed where it
/// is there, else new workspaces up to it, on a group of their own if the monitor has
/// none yet.
pub open spec fn slot_made(
    before: Seq<MonitorWorkspaces>,
    after: Seq<MonitorWorkspaces>,
    monitor: MonitorId,
    idx: usize,
    reduce_motion: bool,
) -> bool {
    if has_slot(before, monitor, idx) {
        after == before
    } else if exists|g: int| is_first_group(before, monitor, g) {
        &&& after.len() == before.len()
        &&& exists|g: int|
            {
                &&& #[trigger] is_first_group(before, monitor, g)
                &&& after[g].monitor == monitor
                &&& after[g].active == before[g].active
                &&& grown(before[g].workspaces@, after[g].workspaces@, idx, reduce_motion)
                &&& forall|k: int|
                    0 <= k < before.len() && k != g ==> #[trigger] after[k] == before[k]
            }
    } else {
        &&& after.len() == before.len() + 1
        &&& forall|k: int| 0 <= k < before.len() ==> #[trigger] after[k] == before[k]
        &&& after.last().monitor == monitor
        &&& after.last().active == 0
        &&& grown(Seq::empty(), after.last().workspaces@, idx, reduce_motion)
    }
}

proof fn lemma_slot_made(
    before: Seq<MonitorWorkspaces>,
    after: Seq<MonitorWorkspaces>,
    monitor: MonitorId,
    idx: usize,
    reduce_motion: bool,
)
    requires
        slot_made(before, after, monitor, idx, reduce_motion),
    ensures
        has_slot(after, monitor, idx),
        state::groups_are_distinct(before) ==> state::groups_are_distinct(after),
{
    if has_slot(before, monitor, idx) {
    } else if exists|g: int| is_first_group(before, monitor, g) {
        let g = choose|g: int|
            {
                &&& #[trigger] is_first_group(before, monitor, g)
                &&& after[g].monitor == monitor
                &&& after[g].active == before[g].active
                &&& grown(before[g].workspaces@, after[g].workspaces@, idx, reduce_motion)
                &&& forall|k: int|
                    0 <= k < before.len() && k != g ==> #[trigger] after[k] == before[k]
            };
        assert forall|k: int| 0 <= k < g implies (#[trigger] after[k]).monitor != monitor by {
            assert(before[k].monitor != monitor);
        }
        assert(is_slot(after, monitor, idx, g));
        assert(forall|k: int|
            0 <= k < before.len() ==> (#[trigger] after[k]).monitor == before[k].monitor);
    } else {
        let last = before.len() as int;
        lemma_group_is_missing(before, monitor, last);
        assert(is_slot(after, monitor, idx, last));
    }
}

proof fn lemma_group_is_missing(groups: Seq<MonitorWorkspaces>, monitor: MonitorId, n: int)
    requires
        0 <= n <= groups.len(),
        forall|g: int| !is_first_group(groups, monitor, g),
    ensures
        forall|k: int| 0 <= k < n ==> (#[trigger] groups[k]).monitor != monitor,
    decreases n,
{
    if n > 0 {
        lemma_group_is_missing(groups, monitor, n - 1);
        assert(!is_first_group(groups, monitor, n - 1));
    }
}

fn all_windows(workspace: &Workspace) -> (r: Vec<WindowId>)
    ensures
        r@ == workspace_windows(*workspace),
{
    let mut r: Vec<WindowId> = Vec::new();
    let mut c: usize = 0;
    while c < workspace.columns.len()
        invariant
            c <= workspace.columns.len(),
            r@ == column_windows(workspace.columns@, c as int),
        decreases workspace.columns.len() - c,
    {
        extend_ids(&mut r, &workspace.columns[c].windows);
        c = c + 1;
    }
    extend_ids(&mut r, &workspace.floating);
    r
}

fn extend_ids(ids: &mut Vec<WindowId>, more: &Vec<WindowId>)
    ensures
        final(ids)@ == old(ids)@ + more@,
{
    let mut i: usize = 0;
    while i < more.len()
        invariant
            i <= more.len(),
            ids@ == old(ids)@ + more@.take(i as int),
        decreases more.len() - i,
    {
        assert(more@.take(i + 1) =~= more@.take(i as int).push(more@[i as int]));
        ids.push(more[i]);
        i = i + 1;
    }
    assert(more@.take(i as int) =~= more@);
}

impl AppState {
    /// Every managed window, monitor by monitor and workspace by workspace.
    pub open spec fn managed(self) -> Seq<RuleSubject> {
        subjects_of(self.workspaces@, self.workspaces@.len() as int)
    }

    /// Every managed window, with where it is and whether it floats there.
    pub fn managed_windows(&self) -> (r: Vec<RuleSubject>)
        ensures
            r@ == self.managed(),
    {
        let mut r: Vec<RuleSubject> = Vec::new();
        let mut i: usize = 0;
        while i < self.workspaces.len()
            invariant
                i <= self.workspaces.len(),
                r@ == subjects_of(self.workspaces@, i as int),
            decreases self.workspaces.len() - i,
        {
            let group = &self.workspaces[i];
            let ghost base = r@;
            let mut j: usize = 0;
            assert(base + Seq::<RuleSubject>::empty() =~= base);
            while j < group.workspaces.len()
                invariant
                    j <= group.workspaces.len(),
                    r@ == base + group_subjects(*group, j as int),
                decreases group.workspaces.len() - j,
            {
                let workspace = &group.workspaces[j];
                let ids = all_windows(workspace);
                let ghost before = r@;
                let ghost listed = ids@.map_values(
                    |id: WindowId| subject_of(group.monitor, j, *workspace, id),
                );
                let mut k: usize = 0;
                while k < ids.len()
                    invariant
                        k <= ids.len(),
                        listed == ids@.map_values(
                            |id: WindowId| subject_of(group.monitor, j, *workspace, id),
                        ),
                        r@ == before + listed.take(k as int),
                    decreases ids.len() - k,
                {
                    let id: WindowId = ids[k];
                    assert(listed.take(k + 1) =~= listed.take(k as int).push(listed[k as int]));
                    r.push(
                        RuleSubject {
                            window_id: id,
                            monitor: group.monitor,
                            workspace: j,
                            floating: workspace.is_floating(id),
                        },
                    );
                    k = k + 1;
                }
                assert(listed.take(k as int) =~= listed);
                j = j + 1;
                assert(r@ =~= base + group_subjects(*group, j as int));
            }
            i = i + 1;
        }
        r
    }

    /// There is a verdict for each rule.
    pub open spec fn judged(self, matched: Seq<bool>) -> bool {
        matched.len() == self.compiled_rules@.len()
    }

    /// The first rule that matches, by its position.
    pub fn matched_rule(&self, matched: &Vec<bool>) -> (r: Option<usize>)
        requires
            self.judged(matched@),
        ensures
            match (r, first_match(matched@)) {
                (Some(i), Some(k)) => i == k && i < self.compiled_rules@.len(),
                (None, None) => true,
                _ => false,
            },
    {
        let mut i: usize = 0;
        while i < matched.len()
            invariant
                i <= matched.len(),
                self.judged(matched@),
                forall|k: int| 0 <= k < i ==> !#[trigger] matched@[k],
            decreases matched.len() - i,
        {
            if matched[i] {
                proof {
                    law_first_match_wins(matched@);
                }
                return Some(i);
            }
            i = i + 1;
        }
        proof {
            law_first_match_wins(matched@);
        }
        None
    }

    /// What the rules make of a window; `matched` says which of them match it.
    pub fn evaluate_window_rules(&self, matched: &Vec<bool>) -> (r: WindowAction)
        requires
            self.judged(matched@),
        ensures
            r == action_of(self.compiled_rules@, matched@),
    {
        match self.matched_rule(matched) {
            Some(i) => self.compiled_rules[i].action,
            None => WindowAction::Tile,
        }
    }

    /// The place of a window that floats by rule: its corner, with the size of
    /// the first matching rule where that gives one.
    pub open spec fn floating_rect(
        self,
        matched: Seq<bool>,
        sizes: Seq<RuleSize>,
        original: Rect,
    ) -> Rect {
        match first_match(matched) {
            Some(i) => Rect {
                x: original.x,
                y: original.y,
                width: if self.compiled_rules@[i].width is Some {
                    sizes[i].width
                } else {
                    original.width
                },
                height: if self.compiled_rules@[i].height is Some {
                    sizes[i].height
                } else {
                    original.height
                },
            },
            None => original,
        }
    }

    /// The place of a window that floats by rule. `sizes` holds what each rule
    /// asks for in physical pixels.
    pub fn get_floating_rect_from_rules(
        &self,
        matched: &Vec<bool>,
        sizes: &Vec<RuleSize>,
        original: Rect,
    ) -> (r: Rect)
        requires
            self.judged(matched@),
            sizes@.len() == self.compiled_rules@.len(),
        ensures
            r == self.floating_rect(matched@, sizes@, original),
    {
        match self.matched_rule(matched) {
            Some(i) => {
                let rule = self.compiled_rules[i];
                Rect::new(
                    original.x,
                    original.y,
                    if rule.width.is_some() {
                        sizes[i].width
                    } else {
                        original.width
                    },
                    if rule.height.is_some() {
                        sizes[i].height
                    } else {
                        original.height
                    },
                )
            },
            None => original,
        }
    }

    /// The area of a monitor that windows may use, or the fallback viewport.
    pub open spec fn work_area(self, monitor: MonitorId) -> Rect {
        match ui_sync::monitor_of(self.monitors@, monitor) {
            Some(info) => info.work_area,
            None => Rect {
                x: 0,
                y: 0,
                width: FALLBACK_VIEWPORT_WIDTH,
                height: FALLBACK_VIEWPORT_HEIGHT,
            },
        }
    }

    /// The area of a monitor that windows may use, or the fallback viewport.
    pub fn monitor_viewport(&self, monitor: MonitorId) -> (r: Rect)
        ensures
            r == self.work_area(monitor),
    {
        match ui_sync::monitor_info(&self.monitors, monitor) {
            Some(info) => info.work_area,
            None => Rect::new(0, 0, FALLBACK_VIEWPORT_WIDTH, FALLBACK_VIEWPORT_HEIGHT),
        }
    }

    /// The viewport of the focused monitor.
    pub fn focused_viewport(&self) -> (r: Rect)
        ensures
            r == self.work_area(self.focused_monitor),
    {
        self.monitor_viewport(self.focused_monitor)
    }

    /// The place of a tiled window that a rule makes float: as the rules say, or
    /// in the middle of its monitor if the window could not be described again.
    pub fn rule_float_rect(&self, monitor: MonitorId, from_rules: Option<Rect>) -> (r: Rect)
        requires
            from_rules is None ==> can_centre(self.work_area(monitor)),
        ensures
            r == (match from_rules {
                Some(rect) => rect,
                None => centred_float(self.work_area(monitor)),
            }),
    {
        match from_rules {
            Some(rect) => rect,
            None => default_float_rect(self.monitor_viewport(monitor)),
        }
    }

    /// The hidden scratchpad that the rules say to ignore: it is outside every
    /// workspace, and the first matching rule ignores it.
    pub open spec fn scratchpad_to_release(
        self,
        verdicts: Seq<Option<Vec<bool>>>,
        scratchpad_matched: Option<&Vec<bool>>,
    ) -> Option<WindowId> {
        match (self.scratchpad, scratchpad_matched) {
            (Some(scratchpad), Some(matched)) => if !is_described(
                self.managed(),
                verdicts,
                scratchpad.window_id,
            ) && action_of(self.compiled_rules@, matched@) == WindowAction::Ignore {
                Some(scratchpad.window_id)
            } else {
                None
            },
            _ => None,
        }
    }

    /// Works out what the rules change. `verdicts` says of each of
    /// [`Self::managed_windows`] which rules match it, `None` where the system would
    /// not describe the window; `scratchpad_matched` says it of the scratchpad's
    /// window. `ownership_ready` says that no frame of a transition can still place
    /// windows by the old model; where it could, nothing changes yet.
    pub fn reapply_window_rules(
        &self,
        ownership_ready: bool,
        verdicts: &Vec<Option<Vec<bool>>>,
        scratchpad_matched: Option<&Vec<bool>>,
    ) -> (r: RulePlan)
        requires
            ownership_ready ==> {
                &&& verdicts@.len() == self.managed().len()
                &&& forall|i: int|
                    0 <= i < verdicts@.len() ==> ((#[trigger] verdicts@[i]) matches Some(matched)
                        ==> self.judged(matched@))
                &&& scratchpad_matched matches Some(matched) ==> self.judged(matched@)
            },
        ensures
            r.changes@ == (if ownership_ready {
                changes_of(
                    self.compiled_rules@,
                    self.managed(),
                    verdicts@,
                    self.managed().len() as int,
                )
            } else {
                Seq::empty()
            }),
            r.release_scratchpad == (if ownership_ready {
                self.scratchpad_to_release(verdicts@, scratchpad_matched)
            } else {
                None
            }),
    {
        let mut changes: Vec<RuleChange> = Vec::new();
        if !ownership_ready {
            return RulePlan { changes, release_scratchpad: None };
        }
        let subjects = self.managed_windows();
        let mut scratchpad_seen = false;
        let mut i: usize = 0;
        while i < subjects.len()
            invariant
                i <= subjects.len(),
                subjects@ == self.managed(),
                verdicts@.len() == subjects@.len(),
                forall|k: int|
                    0 <= k < verdicts@.len() ==> ((#[trigger] verdicts@[k]) matches Some(matched)
                        ==> self.judged(matched@)),
                changes@ == changes_of(self.compiled_rules@, subjects@, verdicts@, i as int),
                scratchpad_seen <==> exists|k: int|
                    0 <= k < i && (self.scratchpad matches Some(scratchpad) && (
                    #[trigger] subjects@[k]).window_id == scratchpad.window_id)
                        && verdicts@[k] is Some,
            decreases subjects.len() - i,
        {
            let subject = subjects[i];
            if let Some(matched) = &verdicts[i] {
                let step = rule_step(self.evaluate_window_rules(matched), subject.floating);
                if step != RuleStep::Keep {
                    changes.push(
                        RuleChange {
                            window_id: subject.window_id,
                            monitor: subject.monitor,
                            workspace: subject.workspace,
                            floating: subject.floating,
                            step,
                        },
                    );
                }
                if let Some(scratchpad) = self.scratchpad {
                    if scratchpad.window_id == subject.window_id {
                        scratchpad_seen = true;
                    }
                }
            }
            i = i + 1;
        }
        let mut release_scratchpad: Option<WindowId> = None;
        if let Some(scratchpad) = self.scratchpad {
            if let Some(matched) = scratchpad_matched {
                if !scratchpad_seen && self.evaluate_window_rules(matched) == WindowAction::Ignore {
                    release_scratchpad = Some(scratchpad.window_id);
                }
            }
        }
        RulePlan { changes, release_scratchpad }
    }

    /// `after` is `before` with nothing left of the window in the bookkeeping.
    pub open spec fn forgot(before: AppState, after: AppState, wid: WindowId) -> bool {
        &&& after.last_placed_layout_rects@ == before.last_placed_layout_rects@.remove(wid)
        &&& after.hidden_column_widths@ == before.hidden_column_widths@.remove(wid)
        &&& after.tab_title_overrides@ == before.tab_title_overrides@.remove(wid)
        &&& after.window_managed_at@ == before.window_managed_at@.remove(wid)
        &&& after.window_incarnations@ == before.window_incarnations@.remove(wid)
        &&& after.window_last_maximized_at@ == before.window_last_maximized_at@.remove(wid)
        &&& after.recently_hidden_hwnds@ == before.recently_hidden_hwnds@.remove(wid)
        &&& after.moved_or_resized_suppression@ == before.moved_or_resized_suppression@.remove(wid)
        &&& after.settled_geometry_mismatches@ == before.settled_geometry_mismatches@.remove(wid)
        &&& after == (AppState {
            last_placed_layout_rects: after.last_placed_layout_rects,
            hidden_column_widths: after.hidden_column_widths,
            tab_title_overrides: after.tab_title_overrides,
            window_managed_at: after.window_managed_at,
            window_incarnations: after.window_incarnations,
            window_last_maximized_at: after.window_last_maximized_at,
            recently_hidden_hwnds: after.recently_hidden_hwnds,
            moved_or_resized_suppression: after.moved_or_resized_suppression,
            settled_geometry_mismatches: after.settled_geometry_mismatches,
            previous_focused_hwnd: if before.previous_focused_hwnd == Some(wid) {
                None
            } else {
                before.previous_focused_hwnd
            },
            scratchpad: match before.scratchpad {
                Some(scratchpad) if scratchpad.window_id == wid => None,
                other => other,
            },
            ..before
        })
    }

    /// Forgets everything that is kept of a window that is no longer managed.
    pub fn forget_ignored_window_metadata(&mut self, wid: WindowId)
        ensures
            old(self).wf() ==> final(self).wf(),
            Self::forgot(*old(self), *final(self), wid),
    {
        self.last_placed_layout_rects.remove(&wid);
        self.hidden_column_widths.remove(&wid);
        self.tab_title_overrides.remove(&wid);
        self.window_managed_at.remove(&wid);
        self.window_incarnations.remove(&wid);
        self.window_last_maximized_at.remove(&wid);
        self.recently_hidden_hwnds.remove(&wid);
        self.moved_or_resized_suppression.remove(&wid);
        self.settled_geometry_mismatches.remove(&wid);
        if self.previous_focused_hwnd == Some(wid) {
            self.previous_focused_hwnd = None;
        }
        if let Some(scratchpad) = self.scratchpad {
            if scratchpad.window_id == wid {
                self.scratchpad = None;
            }
        }
    }

    /// `after` is `before` with one workspace replaced.
    pub open spec fn workspace_replaced(
        before: AppState,
        after: AppState,
        monitor: MonitorId,
        idx: usize,
        workspace: Workspace,
    ) -> bool {
        &&& after == (AppState { workspaces: after.workspaces, ..before })
        &&& replaced(before.workspaces@, after.workspaces@, monitor, idx, workspace)
    }

    /// Replaces a workspace by what the layout engine made of it. False, with
    /// nothing changed, where the monitor has no such workspace.
    fn replace_workspace(&mut self, monitor: MonitorId, idx: usize, workspace: Workspace) -> (r:
        bool)
        ensures
            old(self).wf() ==> final(self).wf(),
            r == has_slot(old(self).workspaces@, monitor, idx),
            !r ==> *final(self) == *old(self),
            r ==> Self::workspace_replaced(*old(self), *final(self), monitor, idx, workspace),
    {
        let mut i: usize = 0;
        while i < self.workspaces.len()
            invariant
                i <= self.workspaces.len(),
                *self == *old(self),
                forall|k: int| 0 <= k < i ==> (#[trigger] self.workspaces@[k]).monitor != monitor,
            decreases self.workspaces.len() - i,
        {
            if self.workspaces[i].monitor == monitor {
                if idx < self.workspaces[i].workspaces.len() {
                    let group = &mut self.workspaces[i];
                    group.workspaces[idx] = workspace;
                    assert(is_slot(old(self).workspaces@, monitor, idx, i as int));
                    return true;
                }
                assert forall|g: int| !is_slot(old(self).workspaces@, monitor, idx, g) by {
                    if is_slot(old(self).workspaces@, monitor, idx, g) {
                        assert(old(self).workspaces@[g].monitor == monitor);
                        assert(old(self).workspaces@[i as int].monitor == monitor);
                    }
                }
                return false;
            }
            i = i + 1;
        }
        assert forall|g: int| !is_slot(old(self).workspaces@, monitor, idx, g) by {
            if is_slot(old(self).workspaces@, monitor, idx, g) {
                assert(old(self).workspaces@[g].monitor == monitor);
            }
        }
        false
    }

    /// Workspace `idx` of a monitor.
    pub fn workspace_at(&self, monitor: MonitorId, idx: usize) -> (r: Option<&Workspace>)
        ensures
            r is Some <==> has_slot(self.workspaces@, monitor, idx),
            match (r, workspace_of(self.workspaces@, monitor, idx)) {
                (Some(found), Some(workspace)) => *found == workspace,
                (None, None) => true,
                _ => false,
            },
    {
        let mut i: usize = 0;
        assert(self.workspaces@.subrange(0, self.workspaces@.len() as int) =~= self.workspaces@);
        while i < self.workspaces.len()
            invariant
                i <= self.workspaces.len(),
                forall|k: int| 0 <= k < i ==> (#[trigger] self.workspaces@[k]).monitor != monitor,
                ui_sync::group_of(self.workspaces@, monitor) == ui_sync::group_of(
                    self.workspaces@.subrange(i as int, self.workspaces@.len() as int),
                    monitor,
                ),
            decreases self.workspaces.len() - i,
        {
            assert(self.workspaces@.subrange(i as int, self.workspaces@.len() as int).drop_first()
                =~= self.workspaces@.subrange(i + 1, self.workspaces@.len() as int));
            let group = &self.workspaces[i];
            if group.monitor == monitor {
                if idx < group.workspaces.len() {
                    assert(is_slot(self.workspaces@, monitor, idx, i as int));
                    return Some(&group.workspaces[idx]);
                }
                assert forall|g: int| !is_slot(self.workspaces@, monitor, idx, g) by {
                    if is_slot(self.workspaces@, monitor, idx, g) {
                        assert(self.workspaces@[g].monitor == monitor);
                        assert(self.workspaces@[i as int].monitor == monitor);
                    }
                }
                return None;
            }
            i = i + 1;
        }
        assert forall|g: int| !is_slot(self.workspaces@, monitor, idx, g) by {
            if is_slot(self.workspaces@, monitor, idx, g) {
                assert(self.workspaces@[g].monitor == monitor);
            }
        }
        None
    }

    /// A change of the rules was carried out: the workspace that it names was replaced
    /// by one on which just its window was moved or taken away, and a window that was
    /// released is no scratchpad any more.
    pub open spec fn carried_out(before: AppState, after: AppState, change: RuleChange) -> bool {
        let old_one = workspace_of(before.workspaces@, change.monitor, change.workspace);
        let new_one = workspace_of(after.workspaces@, change.monitor, change.workspace);
        &&& after.compiled_rules == before.compiled_rules
        &&& after.scratchpad == (match before.scratchpad {
            Some(scratchpad) if change.step == RuleStep::Release && scratchpad.window_id
                == change.window_id => None,
            other => other,
        })
        &&& old_one is Some
        &&& new_one is Some
        &&& replaced(
            before.workspaces@,
            after.workspaces@,
            change.monitor,
            change.workspace,
            new_one->0,
        )
        &&& match change.step {
            RuleStep::ToFloat => moved(old_one->0, new_one->0, change.window_id, true),
            RuleStep::ToTile => moved(old_one->0, new_one->0, change.window_id, false),
            RuleStep::Release => removed(old_one->0, new_one->0, change.window_id),
            RuleStep::Keep => new_one == old_one,
        }
    }

    /// `after` is `before` with what the engine made of a workspace in its place. Where
    /// the engine did what it says, just the window was moved, and the focus is where
    /// it was if that was another window and the engine could move it there.
    pub open spec fn move_committed(
        before: AppState,
        after: AppState,
        change: RuleChange,
        answer: EngineAnswer,
    ) -> bool {
        let old_one = workspace_of(before.workspaces@, change.monitor, change.workspace)->0;
        let new_one = workspace_of(after.workspaces@, change.monitor, change.workspace)->0;
        &&& Self::workspace_replaced(
            before,
            after,
            change.monitor,
            change.workspace,
            answer.kept(old_one, change.window_id),
        )
        &&& answer.is_faithful(old_one, change.window_id, change.step == RuleStep::ToFloat) ==> {
            &&& Self::carried_out(before, after, change)
            &&& new_one.floating@.contains(change.window_id) <==> change.step == RuleStep::ToFloat
            &&& new_one.holds(change.window_id) == old_one.holds(change.window_id)
            &&& answer.refocused is Some && restored_focus(
                old_one.focused_visible,
                change.window_id,
            ) is Some ==> new_one.focused_visible == old_one.focused_visible
        }
    }

    /// Commits what the engine made of a workspace if it moved the window there.
    fn commit_move(&mut self, change: RuleChange, answer: EngineAnswer) -> (committed: bool)
        requires
            change.step == RuleStep::ToFloat || change.step == RuleStep::ToTile,
        ensures
            old(self).wf() ==> final(self).wf(),
            committed == (answer.moved && has_slot(
                old(self).workspaces@,
                change.monitor,
                change.workspace,
            )),
            !committed ==> *final(self) == *old(self),
            committed ==> Self::move_committed(*old(self), *final(self), change, answer),
    {
        let prior_focus = match self.workspace_at(change.monitor, change.workspace) {
            Some(workspace) => workspace.focused_visible,
            None => {
                return false;
            },
        };
        if !answer.moved {
            return false;
        }
        let ghost before = workspace_of(self.workspaces@, change.monitor, change.workspace)->0;
        let ghost told = answer;
        let ghost kept = answer.kept(before, change.window_id);
        let workspace = match (focus_to_restore(prior_focus, change.window_id), answer.refocused) {
            (Some(_), Some(refocused)) => refocused,
            _ => answer.candidate,
        };
        assert(workspace == kept);
        let committed = self.replace_workspace(change.monitor, change.workspace, workspace);
        proof {
            lemma_replaced_slot(
                old(self).workspaces@,
                self.workspaces@,
                change.monitor,
                change.workspace,
                kept,
            );
            let floating = change.step == RuleStep::ToFloat;
            if told.is_faithful(before, change.window_id, floating) {
                assert(moved(before, kept, change.window_id, floating)) by {
                    assert(moved(before, told.candidate, change.window_id, floating));
                    if let Some(refocused) = told.refocused {
                        assert forall|id: WindowId|
                            (#[trigger] refocused.holds(id) == before.holds(id))
                                && refocused.floating@.contains(id) == (if id == change.window_id {
                                floating
                            } else {
                                before.floating@.contains(id)
                            }) by {
                            assert(told.candidate.holds(id) == before.holds(id));
                            assert(refocused.holds(id) == told.candidate.holds(id));
                        }
                    }
                }
                assert(kept.holds(change.window_id) == before.holds(change.window_id));
            }
        }
        committed
    }

    /// Makes a tiled window float. The layout engine tried that on a copy of the
    /// workspace: `focused` says that the copy took the focus to the window, `floated`
    /// which window it then floated, `candidate` is the copy, and `refocused` the copy
    /// with the focus back on the window that had it before. The copy replaces the
    /// workspace only if just that window was floated; else nothing changes. A window
    /// that floats may be snapped by the system again.
    pub fn rule_tile_to_float_transaction(
        &mut self,
        monitor: MonitorId,
        workspace_idx: usize,
        wid: WindowId,
        focused: bool,
        floated: Option<WindowId>,
        candidate: Workspace,
        refocused: Option<Workspace>,
    ) -> (r: RuleEffects)
        ensures
            old(self).wf() ==> final(self).wf(),
            r == (RuleEffects {
                committed: focused && floated == Some(wid) && has_slot(
                    old(self).workspaces@,
                    monitor,
                    workspace_idx,
                ),
                restore_snap: r.committed && old(self).snap_disabled_hwnds@.contains(wid),
                disable_snap: false,
                show_in_taskbar: false,
            }),
            !r.committed ==> *final(self) == *old(self),
            r.committed ==> Self::move_committed(
                *old(self),
                *final(self),
                (RuleChange {
                    window_id: wid,
                    monitor,
                    workspace: workspace_idx,
                    floating: false,
                    step: RuleStep::ToFloat,
                }),
                (EngineAnswer { moved: true, candidate, refocused }),
            ),
    {
        let change = RuleChange {
            window_id: wid,
            monitor,
            workspace: workspace_idx,
            floating: false,
            step: RuleStep::ToFloat,
        };
        let moved = focused && floated == Some(wid);
        let committed = self.commit_move(change, EngineAnswer { moved, candidate, refocused });
        RuleEffects {
            committed,
            restore_snap: committed && self.snap_disabled_hwnds.contains(&wid),
            disable_snap: false,
            show_in_taskbar: false,
        }
    }

    /// Tiles a floating window again. The layout engine tried that on a copy of the
    /// workspace: `unfloated` says that it worked, `candidate` is the copy, and
    /// `refocused` the copy with the focus back on the window that had it before. The
    /// copy replaces the workspace only if it worked. A tiled window may no longer be
    /// snapped by the system, where the settings say so.
    pub fn rule_float_to_tile_transaction(
        &mut self,
        monitor: MonitorId,
        workspace_idx: usize,
        wid: WindowId,
        unfloated: bool,
        candidate: Workspace,
        refocused: Option<Workspace>,
    ) -> (r: RuleEffects)
        ensures
            old(self).wf() ==> final(self).wf(),
            r == (RuleEffects {
                committed: unfloated && has_slot(old(self).workspaces@, monitor, workspace_idx),
                restore_snap: false,
                disable_snap: r.committed && old(self).config.behavior.disable_snap_layouts,
                show_in_taskbar: false,
            }),
            !r.committed ==> *final(self) == *old(self),
            r.committed ==> Self::move_committed(
                *old(self),
                *final(self),
                (RuleChange {
                    window_id: wid,
                    monitor,
                    workspace: workspace_idx,
                    floating: true,
                    step: RuleStep::ToTile,
                }),
                (EngineAnswer { moved: true, candidate, refocused }),
            ),
    {
        let change = RuleChange {
            window_id: wid,
            monitor,
            workspace: workspace_idx,
            floating: true,
            step: RuleStep::ToTile,
        };
        let answer = EngineAnswer { moved: unfloated, candidate, refocused };
        let committed = self.commit_move(change, answer);
        RuleEffects {
            committed,
            restore_snap: false,
            disable_snap: committed && self.config.behavior.disable_snap_layouts,
            show_in_taskbar: false,
        }
    }

    /// `after` is `before` with a workspace replaced and a window forgotten.
    pub open spec fn unmanaged(
        before: AppState,
        after: AppState,
        change: RuleChange,
        workspace: Workspace,
    ) -> bool {
        &&& replaced(
            before.workspaces@,
            after.workspaces@,
            change.monitor,
            change.workspace,
            workspace,
        )
        &&& Self::forgot(
            AppState { workspaces: after.workspaces, ..before },
            after,
            change.window_id,
        )
    }

    /// Ends the release of an ignored window. `remaining` is its workspace without
    /// it, `None` if the layout engine could not remove it. The window's records
    /// go only once it was physically released and removed; until then the model
    /// goes on owning it. A released window may be snapped by the system again and
    /// has its taskbar button back, removed or not.
    pub fn finish_ignore(
        &mut self,
        change: &RuleChange,
        released: Result<ReleaseStage, ReleaseError>,
        remaining: Option<Workspace>,
    ) -> (r: RuleEffects)
        ensures
            old(self).wf() ==> final(self).wf(),
            ({
                let gone = released == Ok::<ReleaseStage, ReleaseError>(ReleaseStage::Done);
                r == (RuleEffects {
                    committed: gone && remaining is Some && has_slot(
                        old(self).workspaces@,
                        change.monitor,
                        change.workspace,
                    ),
                    restore_snap: gone && old(self).snap_disabled_hwnds@.contains(
                        change.window_id,
                    ),
                    disable_snap: false,
                    show_in_taskbar: gone,
                })
            }),
            r.committed ==> Self::unmanaged(*old(self), *final(self), *change, remaining->0),
            r.committed && change.step == RuleStep::Release && removed(
                workspace_of(old(self).workspaces@, change.monitor, change.workspace)->0,
                remaining->0,
                change.window_id,
            ) ==> Self::carried_out(*old(self), *final(self), *change),
            !r.committed ==> *final(self) == *old(self),
    {
        let gone = is_released(released);
        let restore_snap = gone && self.snap_disabled_hwnds.contains(&change.window_id);
        let mut committed = false;
        if gone {
            let ghost left = remaining->0;
            if let Some(workspace) = remaining {
                if self.replace_workspace(change.monitor, change.workspace, workspace) {
                    self.forget_ignored_window_metadata(change.window_id);
                    committed = true;
                    proof {
                        lemma_replaced_slot(
                            old(self).workspaces@,
                            self.workspaces@,
                            change.monitor,
                            change.workspace,
                            left,
                        );
                    }
                }
            }
        }
        RuleEffects { committed, restore_snap, disable_snap: false, show_in_taskbar: gone }
    }

    /// `after` is `before`, as far as rules go, with the scratchpad that was to be
    /// released gone.
    pub open spec fn scratchpad_let_go(
        before: AppState,
        after: AppState,
        release: Option<WindowId>,
    ) -> bool {
        &&& after.compiled_rules == before.compiled_rules
        &&& after.workspaces == before.workspaces
        &&& after.scratchpad == (match before.scratchpad {
            Some(scratchpad) if release == Some(scratchpad.window_id) => None,
            other => other,
        })
    }

    /// Ends the release of a hidden scratchpad, which no workspace holds. Its
    /// records go only once it was physically released; it may be snapped by the
    /// system again then and has its taskbar button back.
    pub fn finish_scratchpad_ignore(
        &mut self,
        wid: WindowId,
        released: Result<ReleaseStage, ReleaseError>,
    ) -> (r: RuleEffects)
        ensures
            old(self).wf() ==> final(self).wf(),
            ({
                let gone = released == Ok::<ReleaseStage, ReleaseError>(ReleaseStage::Done);
                r == (RuleEffects {
                    committed: gone,
                    restore_snap: gone && old(self).snap_disabled_hwnds@.contains(wid),
                    disable_snap: false,
                    show_in_taskbar: gone,
                })
            }),
            r.committed ==> Self::forgot(*old(self), *final(self), wid),
            r.committed ==> Self::scratchpad_let_go(*old(self), *final(self), Some(wid)),
            !r.committed ==> *final(self) == *old(self),
    {
        let gone = is_released(released);
        let restore_snap = gone && self.snap_disabled_hwnds.contains(&wid);
        if gone {
            self.forget_ignored_window_metadata(wid);
        }
        RuleEffects { committed: gone, restore_snap, disable_snap: false, show_in_taskbar: gone }
    }

    /// Takes note of the attempt to keep the system from snapping a tiled window;
    /// `frame_changed` says that it worked. Nothing is noted where the settings leave
    /// snapping on.
    pub fn disable_snap_for_window(&mut self, wid: WindowId, frame_changed: bool)
        ensures
            old(self).wf() ==> final(self).wf(),
            final(self).snap_disabled_hwnds@ == (if frame_changed
                && old(self).config.behavior.disable_snap_layouts {
                old(self).snap_disabled_hwnds@.insert(wid)
            } else {
                old(self).snap_disabled_hwnds@
            }),
            *final(self) == (AppState {
                snap_disabled_hwnds: final(self).snap_disabled_hwnds,
                ..*old(self)
            }),
    {
        if frame_changed && self.config.behavior.disable_snap_layouts {
            self.snap_disabled_hwnds.insert(wid);
        }
    }

    /// Takes note of the attempt to let the system snap a window again; `restored`
    /// says that it worked or that the window is gone. Else the record stays, so that
    /// it is tried again.
    pub fn restore_snap_for_window(&mut self, wid: WindowId, restored: bool)
        ensures
            old(self).wf() ==> final(self).wf(),
            final(self).snap_disabled_hwnds@ == (if restored {
                old(self).snap_disabled_hwnds@.remove(wid)
            } else {
                old(self).snap_disabled_hwnds@
            }),
            *final(self) == (AppState {
                snap_disabled_hwnds: final(self).snap_disabled_hwnds,
                ..*old(self)
            }),
    {
        if restored {
            self.snap_disabled_hwnds.remove(&wid);
        }
    }

    /// The workspace that new windows of a monitor go to.
    pub open spec fn landing_workspace(self, monitor: MonitorId) -> usize {
        match ui_sync::group_of(self.workspaces@, monitor) {
            Some(group) => group.active,
            None => 0,
        }
    }

    /// The workspace that new windows of a monitor go to.
    pub fn active_workspace_idx(&self, monitor: MonitorId) -> (r: usize)
        ensures
            r == self.landing_workspace(monitor),
    {
        let mut i: usize = 0;
        assert(self.workspaces@.subrange(0, self.workspaces@.len() as int) =~= self.workspaces@);
        while i < self.workspaces.len()
            invariant
                i <= self.workspaces.len(),
                ui_sync::group_of(self.workspaces@, monitor) == ui_sync::group_of(
                    self.workspaces@.subrange(i as int, self.workspaces@.len() as int),
                    monitor,
                ),
            decreases self.workspaces.len() - i,
        {
            assert(self.workspaces@.subrange(i as int, self.workspaces@.len() as int).drop_first()
                =~= self.workspaces@.subrange(i + 1, self.workspaces@.len() as int));
            if self.workspaces[i].monitor == monitor {
                return self.workspaces[i].active;
            }
            i = i + 1;
        }
        0
    }

    /// What becomes of a window that may be taken in: the first reason against it
    /// that holds, else where it goes.
    pub open spec fn admission(self, w: NewWindow) -> Admission {
        let action = action_of(self.compiled_rules@, w.matched@);
        let monitor = match w.monitor {
            Some(monitor) => monitor,
            None => self.focused_monitor,
        };
        let workspace = self.landing_workspace(monitor);
        if action == WindowAction::Ignore {
            Admission::IgnoredByRule
        } else if ui_sync::is_managed(self.workspaces@, w.window_id) {
            Admission::AlreadyManaged
        } else if w.elevation_blocked {
            Admission::ElevationBlocked
        } else if first_match(w.matched@) is None && w.dialog_like {
            Admission::DialogLike
        } else if action == WindowAction::Float {
            Admission::Float {
                monitor,
                workspace,
                rect: self.floating_rect(w.matched@, w.sizes@, w.rect),
            }
        } else {
            Admission::Tile { monitor, workspace }
        }
    }

    /// Decides what becomes of a window that may be taken in.
    pub fn admit_window(&self, w: &NewWindow) -> (r: Admission)
        requires
            self.judged(w.matched@),
            w.sizes@.len() == self.compiled_rules@.len(),
        ensures
            r == self.admission(*w),
    {
        let action = self.evaluate_window_rules(&w.matched);
        let rule_matched = self.matched_rule(&w.matched).is_some();
        if action == WindowAction::Ignore {
            return Admission::IgnoredByRule;
        }
        let monitor = match w.monitor {
            Some(monitor) => monitor,
            None => self.focused_monitor,
        };
        if let Some(home) = self.locate(w.window_id) {
            assert(self.workspaces@[home.0 as int].workspaces@[home.1 as int].holds(w.window_id));
            return Admission::AlreadyManaged;
        }
        if w.elevation_blocked {
            return Admission::ElevationBlocked;
        }
        if !rule_matched && w.dialog_like {
            return Admission::DialogLike;
        }
        let workspace: usize = self.active_workspace_idx(monitor);
        if action == WindowAction::Float {
            let rect = self.get_floating_rect_from_rules(&w.matched, &w.sizes, w.rect);
            Admission::Float { monitor, workspace, rect }
        } else {
            Admission::Tile { monitor, workspace }
        }
    }

    /// Decides on every window of an enumeration, in order. Each handle occurs
    /// once in an enumeration, so the decisions do not depend on each other.
    pub fn enumerate_and_add_windows(&self, windows: &Vec<NewWindow>) -> (r: Vec<Admission>)
        requires
            forall|i: int, j: int|
                0 <= i < j < windows@.len() ==> (#[trigger] windows@[i]).window_id != (
                #[trigger] windows@[j]).window_id,
            forall|i: int|
                0 <= i < windows@.len() ==> self.judged((#[trigger] windows@[i]).matched@)
                    && windows@[i].sizes@.len() == self.compiled_rules@.len(),
        ensures
            r@ == windows@.map_values(|w: NewWindow| self.admission(w)),
    {
        let mut r: Vec<Admission> = Vec::new();
        let mut i: usize = 0;
        while i < windows.len()
            invariant
                i <= windows.len(),
                forall|k: int|
                    0 <= k < windows@.len() ==> self.judged((#[trigger] windows@[k]).matched@)
                        && windows@[k].sizes@.len() == self.compiled_rules@.len(),
                r@.len() == i,
                forall|k: int| 0 <= k < i ==> #[trigger] r@[k] == self.admission(windows@[k]),
            decreases windows.len() - i,
        {
            assert(self.judged(windows@[i as int].matched@));
            r.push(self.admit_window(&windows[i]));
            i = i + 1;
        }
        assert(r@ =~= windows@.map_values(|w: NewWindow| self.admission(w)));
        r
    }

    /// Where an admission puts its window, `None` where the window is not taken in.
    pub open spec fn admitted_to(admission: Admission) -> Option<(MonitorId, usize)> {
        match admission {
            Admission::Float { monitor, workspace, .. } => Some((monitor, workspace)),
            Admission::Tile { monitor, workspace } => Some((monitor, workspace)),
            _ => None,
        }
    }

    /// Makes sure that the monitor has a workspace `idx`.
    pub fn ensure_workspace_exists(&mut self, monitor: MonitorId, idx: usize)
        requires
            idx < usize::MAX,
        ensures
            old(self).wf() ==> final(self).wf(),
            *final(self) == (AppState { workspaces: final(self).workspaces, ..*old(self) }),
            slot_made(
                old(self).workspaces@,
                final(self).workspaces@,
                monitor,
                idx,
                old(self).reduce_motion,
            ),
    {
        let reduce_motion = self.reduce_motion;
        let mut i: usize = 0;
        while i < self.workspaces.len() && self.workspaces[i].monitor != monitor
            invariant
                i <= self.workspaces.len(),
                *self == *old(self),
                forall|k: int| 0 <= k < i ==> (#[trigger] self.workspaces@[k]).monitor != monitor,
            decreases self.workspaces.len() - i,
        {
            i = i + 1;
        }
        if i < self.workspaces.len() {
            assert(is_first_group(old(self).workspaces@, monitor, i as int));
            if idx < self.workspaces[i].workspaces.len() {
                assert(is_slot(old(self).workspaces@, monitor, idx, i as int));
                return;
            }
            let group = &mut self.workspaces[i];
            grow_to(&mut group.workspaces, idx, reduce_motion);
        } else {
            let mut workspaces: Vec<Workspace> = Vec::new();
            grow_to(&mut workspaces, idx, reduce_motion);
            self.workspaces.push(MonitorWorkspaces { monitor, active: 0, workspaces });
        }
        proof {
            let before = old(self).workspaces@;
            assert forall|g: int| !is_slot(before, monitor, idx, g) by {
                if is_slot(before, monitor, idx, g) {
                    assert(before[g].monitor == monitor);
                }
            }
            assert forall|g: int| i == before.len() implies !is_first_group(
                before,
                monitor,
                g,
            ) by {}
            lemma_slot_made(before, self.workspaces@, monitor, idx, reduce_motion);
        }
    }

    /// `after` is `before` with a window taken in at `now_ms`, on a workspace that
    /// was made for it where there was none.
    pub open spec fn taken_in(
        before: AppState,
        after: AppState,
        wid: WindowId,
        home: (MonitorId, usize),
        workspace: Workspace,
        incarnation: Option<WindowIncarnation>,
        now_ms: u64,
    ) -> bool {
        &&& exists|made: Seq<MonitorWorkspaces>|
            #[trigger] slot_made(
                before.workspaces@,
                made,
                home.0,
                home.1,
                before.reduce_motion,
            ) && replaced(made, after.workspaces@, home.0, home.1, workspace)
        &&& after.window_managed_at@ == before.window_managed_at@.insert(wid, now_ms)
        &&& after.window_incarnations@ == (match incarnation {
            Some(incarnation) => before.window_incarnations@.insert(wid, incarnation),
            None => before.window_incarnations@,
        })
        &&& after == (AppState {
            workspaces: after.workspaces,
            window_managed_at: after.window_managed_at,
            window_incarnations: after.window_incarnations,
            ..before
        })
    }

    /// What taking in a window comes to: it is taken in if it was admitted and the
    /// layout engine placed it, and a tiled one may no longer be snapped by the
    /// system, where the settings say so.
    pub open spec fn admission_effects(
        self,
        admission: Admission,
        placed: bool,
    ) -> AdmissionEffects {
        AdmissionEffects {
            added: placed && Self::admitted_to(admission) is Some,
            disable_snap: placed && admission is Tile && self.config.behavior.disable_snap_layouts,
        }
    }

    /// Takes in a window that was admitted, on a workspace that is made for it where
    /// there is none. `placed` is the workspace with the window, `None` if the layout
    /// engine would not place it; the window is recorded only if it did, with the
    /// incarnation that was seen of it.
    pub fn finish_admission(
        &mut self,
        wid: WindowId,
        admission: Admission,
        placed: Option<Workspace>,
        incarnation: Option<WindowIncarnation>,
        now_ms: u64,
    ) -> (r: AdmissionEffects)
        requires
            Self::admitted_to(admission) matches Some(home) ==> home.1 < usize::MAX,
        ensures
            old(self).wf() ==> final(self).wf(),
            r == old(self).admission_effects(admission, placed is Some),
            match (Self::admitted_to(admission), placed) {
                (None, _) => *final(self) == *old(self),
                (Some(home), None) => {
                    &&& *final(self) == (AppState {
                        workspaces: final(self).workspaces,
                        ..*old(self)
                    })
                    &&& slot_made(
                        old(self).workspaces@,
                        final(self).workspaces@,
                        home.0,
                        home.1,
                        old(self).reduce_motion,
                    )
                },
                (Some(home), Some(workspace)) => Self::taken_in(
                    *old(self),
                    *final(self),
                    wid,
                    home,
                    workspace,
                    incarnation,
                    now_ms,
                ),
            },
    {
        let (monitor, idx, tiled) = match admission {
            Admission::Float { monitor, workspace, .. } => (monitor, workspace, false),
            Admission::Tile { monitor, workspace } => (monitor, workspace, true),
            _ => {
                return AdmissionEffects { added: false, disable_snap: false };
            },
        };
        let ghost home = (monitor, idx);
        assert(Self::admitted_to(admission) == Some(home));
        self.ensure_workspace_exists(monitor, idx);
        proof {
            lemma_slot_made(
                old(self).workspaces@,
                self.workspaces@,
                monitor,
                idx,
                old(self).reduce_motion,
            );
        }
        match placed {
            Some(workspace) => {
                let ghost made = self.workspaces@;
                let _ = self.replace_workspace(monitor, idx, workspace);
                self.window_managed_at.insert(wid, now_ms);
                if let Some(incarnation) = incarnation {
                    self.window_incarnations.insert(wid, incarnation);
                }
                assert(slot_made(
                    old(self).workspaces@,
                    made,
                    home.0,
                    home.1,
                    old(self).reduce_motion,
                ) && replaced(made, self.workspaces@, home.0, home.1, workspace));
                AdmissionEffects {
                    added: true,
                    disable_snap: tiled && self.config.behavior.disable_snap_layouts,
                }
            },
            None => AdmissionEffects { added: false, disable_snap: false },
        }
    }
}

/// How many windows were taken in.
pub open spec fn added_count(effects: Seq<AdmissionEffects>) -> nat
    decreases effects.len(),
{
    if effects.len() == 0 {
        0
    } else {
        added_count(effects.drop_last()) + (if effects.last().added {
            1nat
        } else {
            0nat
        })
    }
}

/// How many windows of an enumeration were taken in.
pub fn windows_taken_in(effects: &Vec<AdmissionEffects>) -> (r: usize)
    ensures
        r == added_count(effects@),
        r <= effects@.len(),
{
    let mut added: usize = 0;
    let mut i: usize = 0;
    while i < effects.len()
        invariant
            i <= effects.len(),
            added <= i,
            added == added_count(effects@.take(i as int)),
        decreases effects.len() - i,
    {
        assert(effects@.take(i + 1).drop_last() =~= effects@.take(i as int));
        if effects[i].added {
            added = added + 1;
        }
        i = i + 1;
    }
    assert(effects@.take(i as int) =~= effects@);
    added
}

/// The windows that count as taken in are those that were admitted and that the layout
/// engine placed.
pub proof fn law_admitted_and_placed_windows_count(
    state: AppState,
    admissions: Seq<Admission>,
    placed: Seq<bool>,
    effects: Seq<AdmissionEffects>,
)
    requires
        admissions.len() == effects.len(),
        placed.len() == effects.len(),
        forall|i: int|
            0 <= i < effects.len() ==> #[trigger] effects[i] == state.admission_effects(
                admissions[i],
                placed[i],
            ),
    ensures
        added_count(effects) == Set::new(
            |i: int|
                0 <= i < effects.len() && placed[i] && AppState::admitted_to(
                    admissions[i],
                ) is Some,
        ).len(),
        Set::new(
            |i: int|
                0 <= i < effects.len() && placed[i] && AppState::admitted_to(
                    admissions[i],
                ) is Some,
        ).finite(),
    decreases effects.len(),
{
    let taken = Set::new(
        |i: int|
            0 <= i < effects.len() && placed[i] && AppState::admitted_to(admissions[i]) is Some,
    );
    if effects.len() == 0 {
        assert(taken =~= Set::<int>::empty());
    } else {
        let last = effects.len() - 1;
        let rest = Set::new(
            |i: int|
                0 <= i < effects.drop_last().len() && placed.drop_last()[i]
                    && AppState::admitted_to(admissions.drop_last()[i]) is Some,
        );
        law_admitted_and_placed_windows_count(
            state,
            admissions.drop_last(),
            placed.drop_last(),
            effects.drop_last(),
        );
        assert(effects[last] == state.admission_effects(admissions[last], placed[last]));
        if effects.last().added {
            assert(taken =~= rest.insert(last));
        } else {
            assert(taken =~= rest);
        }
    }
}

fn grow_to(workspaces: &mut Vec<Workspace>, idx: usize, reduce_motion: bool)
    requires
        old(workspaces)@.len() <= idx < usize::MAX,
    ensures
        grown(old(workspaces)@, final(workspaces)@, idx, reduce_motion),
{
    let ghost before = workspaces@;
    while workspaces.len() <= idx
        invariant
            before.len() <= workspaces@.len() <= idx + 1,
            idx < usize::MAX,
            forall|k: int| 0 <= k < before.len() ==> #[trigger] workspaces@[k] == before[k],
            forall|k: int|
                before.len() <= k < workspaces@.len() ==> (#[trigger] workspaces@[k]).is_new(
                    reduce_motion,
                ),
        decreases idx + 1 - workspaces.len(),
    {
        let mut workspace = Workspace::blank();
        workspace.reduce_motion = reduce_motion;
        workspaces.push(workspace);
    }
}

/// The focus to go back to after a rule moved `wid`: the one before, unless it
/// was on the moved window.
pub fn focus_to_restore(prior_focus: Option<WindowId>, wid: WindowId) -> (r: Option<WindowId>)
    ensures
        r == restored_focus(prior_focus, wid),
{
    if prior_focus == Some(wid) {
        None
    } else {
        prior_focus
    }
}

/// A window that a rule says to ignore is never taken in, and one that a rule
/// speaks of is never taken for a dialog.
pub proof fn law_rules_override_the_dialog_shape(state: AppState, w: NewWindow)
    ensures
        action_of(state.compiled_rules@, w.matched@) == WindowAction::Ignore ==> state.admission(w)
            == Admission::IgnoredByRule,
        first_match(w.matched@) is Some ==> state.admission(w) != Admission::DialogLike,
{
}

/// No window is taken in twice.
pub proof fn law_managed_windows_are_not_taken_in_again(state: AppState, w: NewWindow)
    requires
        ui_sync::is_managed(state.workspaces@, w.window_id),
    ensures
        !(state.admission(w) is Float),
        !(state.admission(w) is Tile),
{
}

/// A window that was taken in is not taken in again by the next enumeration.
pub proof fn law_taking_in_is_idempotent(
    before: AppState,
    after: AppState,
    w: NewWindow,
    home: (MonitorId, usize),
    workspace: Workspace,
    incarnation: Option<WindowIncarnation>,
    now_ms: u64,
)
    requires
        AppState::taken_in(before, after, w.window_id, home, workspace, incarnation, now_ms),
        workspace.holds(w.window_id),
    ensures
        !(after.admission(w) is Float),
        !(after.admission(w) is Tile),
{
    let made = choose|made: Seq<MonitorWorkspaces>|
        #[trigger] slot_made(before.workspaces@, made, home.0, home.1, before.reduce_motion)
            && replaced(made, after.workspaces@, home.0, home.1, workspace);
    let g = choose|g: int|
        {
            &&& #[trigger] is_slot(made, home.0, home.1, g)
            &&& after.workspaces@[g].workspaces@ == made[g].workspaces@.update(
                home.1 as int,
                workspace,
            )
        };
    assert(after.workspaces@[g].workspaces@[home.1 as int].holds(w.window_id));
}

/// Nothing is kept of a window that was forgotten, so that a later window under
/// the same handle inherits nothing.
pub proof fn law_nothing_is_kept_of_a_forgotten_window(
    before: AppState,
    after: AppState,
    wid: WindowId,
)
    requires
        AppState::forgot(before, after, wid),
    ensures
        !after.last_placed_layout_rects@.contains_key(wid),
        !after.hidden_column_widths@.contains_key(wid),
        !after.tab_title_overrides@.contains_key(wid),
        !after.window_managed_at@.contains_key(wid),
        !after.window_incarnations@.contains_key(wid),
        !after.window_last_maximized_at@.contains_key(wid),
        !after.recently_hidden_hwnds@.contains_key(wid),
        !after.moved_or_resized_suppression@.contains_key(wid),
        !after.settled_geometry_mismatches@.contains_key(wid),
        after.previous_focused_hwnd != Some(wid),
        after.scratchpad matches Some(scratchpad) ==> scratchpad.window_id != wid,
{
}

/// A rule that moves or releases one window leaves every other workspace as it was.
pub proof fn law_other_workspaces_are_left_alone(
    before: Seq<MonitorWorkspaces>,
    after: Seq<MonitorWorkspaces>,
    monitor: MonitorId,
    idx: usize,
    workspace: Workspace,
    a: int,
    b: int,
)
    requires
        replaced(before, after, monitor, idx, workspace),
        0 <= a < before.len(),
        0 <= b < before[a].workspaces@.len(),
        before[a].monitor != monitor || b != idx,
    ensures
        after[a].monitor == before[a].monitor,
        after[a].active == before[a].active,
        after[a].workspaces@.len() == before[a].workspaces@.len(),
        after[a].workspaces@[b] == before[a].workspaces@[b],
{
}

proof fn lemma_column_windows(columns: Seq<Column>, n: int, id: WindowId)
    requires
        0 <= n <= columns.len(),
    ensures
        column_windows(columns, n).contains(id) <==> exists|c: int|
            0 <= c < n && (#[trigger] columns[c]).windows@.contains(id),
    decreases n,
{
    if n > 0 {
        lemma_column_windows(columns, n - 1, id);
        ui_sync::lemma_concat_contains(
            column_windows(columns, n - 1),
            columns[n - 1].windows@,
            id,
        );
        if columns[n - 1].windows@.contains(id) {
            assert(exists|c: int| 0 <= c < n && (#[trigger] columns[c]).windows@.contains(id));
        }
    }
}

proof fn lemma_workspace_windows(workspace: Workspace, id: WindowId)
    ensures
        workspace_windows(workspace).contains(id) <==> workspace.holds(id),
{
    let n = workspace.columns@.len() as int;
    lemma_column_windows(workspace.columns@, n, id);
    ui_sync::lemma_concat_contains(
        column_windows(workspace.columns@, n),
        workspace.floating@,
        id,
    );
}

/// The subject is a window of the first `n` workspaces of the group.
pub open spec fn is_group_subject(group: MonitorWorkspaces, n: int, subject: RuleSubject) -> bool {
    &&& subject.monitor == group.monitor
    &&& subject.workspace < n
    &&& group.workspaces@[subject.workspace as int].holds(subject.window_id)
    &&& subject.floating == group.workspaces@[subject.workspace as int].floating@.contains(
        subject.window_id,
    )
}

proof fn lemma_group_subjects(group: MonitorWorkspaces, n: int, subject: RuleSubject)
    requires
        0 <= n <= group.workspaces@.len(),
    ensures
        group_subjects(group, n).contains(subject) <==> is_group_subject(group, n, subject),
    decreases n,
{
    if n > 0 {
        lemma_group_subjects(group, n - 1, subject);
        assert(group.workspaces.len() == group.workspaces@.len());
        let workspace = group.workspaces@[n - 1];
        let before = group_subjects(group, n - 1);
        let ids = workspace_windows(workspace);
        let added = ids.map_values(
            |id: WindowId| subject_of(group.monitor, (n - 1) as usize, workspace, id),
        );
        let all = group_subjects(group, n);
        assert(all == before + added);
        lemma_workspace_windows(workspace, subject.window_id);
        if is_group_subject(group, n, subject) {
            if subject.workspace == n - 1 {
                let k = choose|k: int| 0 <= k < ids.len() && ids[k] == subject.window_id;
                assert(added[k] == subject);
                assert(all[before.len() + k] == subject);
            } else {
                let k = choose|k: int| 0 <= k < before.len() && before[k] == subject;
                assert(all[k] == subject);
            }
        }
        if all.contains(subject) {
            let k = choose|k: int| 0 <= k < all.len() && all[k] == subject;
            if k < before.len() {
                assert(before[k] == subject);
            } else {
                assert(added[k - before.len()] == subject);
                assert(ids[k - before.len()] == subject.window_id);
            }
        }
    }
}

proof fn lemma_subjects(groups: Seq<MonitorWorkspaces>, n: int, subject: RuleSubject)
    requires
        0 <= n <= groups.len(),
    ensures
        subjects_of(groups, n).contains(subject) <==> exists|g: int|
            0 <= g < n && is_group_subject(
                #[trigger] groups[g],
                groups[g].workspaces@.len() as int,
                subject,
            ),
    decreases n,
{
    if n > 0 {
        lemma_subjects(groups, n - 1, subject);
        let group = groups[n - 1];
        let before = subjects_of(groups, n - 1);
        let added = group_subjects(group, group.workspaces@.len() as int);
        let all = subjects_of(groups, n);
        assert(all == before + added);
        lemma_group_subjects(group, group.workspaces@.len() as int, subject);
        if before.contains(subject) {
            let k = choose|k: int| 0 <= k < before.len() && before[k] == subject;
            assert(all[k] == subject);
        }
        if added.contains(subject) {
            let k = choose|k: int| 0 <= k < added.len() && added[k] == subject;
            assert(all[before.len() + k] == subject);
            assert(groups[n - 1] == group);
        }
        if all.contains(subject) {
            let k = choose|k: int| 0 <= k < all.len() && all[k] == subject;
            if k < before.len() {
                assert(before[k] == subject);
            } else {
                assert(added[k - before.len()] == subject);
            }
        }
    }
}

/// The rules are applied to exactly the windows that some workspace holds, each with
/// the monitor and workspace that hold it and whether it floats there.
pub proof fn law_rules_reach_every_managed_window(state: AppState, subject: RuleSubject)
    ensures
        state.managed().contains(subject) <==> exists|g: int|
            0 <= g < state.workspaces@.len() && is_group_subject(
                #[trigger] state.workspaces@[g],
                state.workspaces@[g].workspaces@.len() as int,
                subject,
            ),
{
    lemma_subjects(state.workspaces@, state.workspaces@.len() as int, subject);
}

/// Where the settings ask for it, a window that is taken in tiled loses the system's
/// snap layouts; one that floats keeps them.
pub proof fn law_tiled_windows_lose_snap_layouts(state: AppState, admission: Admission, placed: bool)
    ensures
        state.admission_effects(admission, placed).disable_snap <==> {
            &&& state.admission_effects(admission, placed).added
            &&& admission is Tile
            &&& state.config.behavior.disable_snap_layouts
        },
{
}

/// The place that rules give keeps the window's corner.
pub proof fn law_floating_rect_keeps_the_corner(
    state: AppState,
    matched: Seq<bool>,
    sizes: Seq<RuleSize>,
    original: Rect,
)
    ensures
        state.floating_rect(matched, sizes, original).x == original.x,
        state.floating_rect(matched, sizes, original).y == original.y,
        first_match(matched) is None ==> state.floating_rect(matched, sizes, original) == original,
{
}

/// What the rules do to a window of a workspace, by the verdicts on its window.
spec fn wanted_step(
    rules: Seq<CompiledWindowRule>,
    verdict: spec_fn(WindowId) -> Option<Seq<bool>>,
    workspace: Workspace,
    id: WindowId,
) -> RuleStep {
    match verdict(id) {
        Some(matched) => step_of(action_of(rules, matched), workspace.floating@.contains(id)),
        None => RuleStep::Keep,
    }
}

/// Which rules match, as a sequence.
pub open spec fn matched_seq(matched: Option<Vec<bool>>) -> Option<Seq<bool>> {
    match matched {
        Some(matched) => Some(matched@),
        None => None,
    }
}

/// The verdicts are those that `verdict` gives of the windows.
pub open spec fn judged_by(
    subjects: Seq<RuleSubject>,
    verdicts: Seq<Option<Vec<bool>>>,
    verdict: spec_fn(WindowId) -> Option<Seq<bool>>,
) -> bool {
    &&& verdicts.len() == subjects.len()
    &&& forall|i: int|
        0 <= i < subjects.len() ==> matched_seq(#[trigger] verdicts[i]) == verdict(
            subjects[i].window_id,
        )
}

/// One of the first `n` changes is about this window of this workspace.
spec fn is_named(
    changes: Seq<RuleChange>,
    n: int,
    monitor: MonitorId,
    idx: int,
    id: WindowId,
) -> bool {
    exists|c: int|
        0 <= c < n && (#[trigger] changes[c]).monitor == monitor && changes[c].workspace == idx
            && changes[c].window_id == id
}

/// The change is what the rules do to a window of the subject's workspace.
spec fn is_due(
    rules: Seq<CompiledWindowRule>,
    verdict: spec_fn(WindowId) -> Option<Seq<bool>>,
    subject: RuleSubject,
    change: RuleChange,
) -> bool {
    &&& verdict(subject.window_id) matches Some(matched)
    &&& change.step == step_of(action_of(rules, matched), subject.floating)
    &&& change.step != RuleStep::Keep
    &&& change.window_id == subject.window_id
    &&& change.monitor == subject.monitor
    &&& change.workspace == subject.workspace
}

proof fn lemma_changes(
    rules: Seq<CompiledWindowRule>,
    subjects: Seq<RuleSubject>,
    verdicts: Seq<Option<Vec<bool>>>,
    verdict: spec_fn(WindowId) -> Option<Seq<bool>>,
    n: int,
)
    requires
        0 <= n <= subjects.len(),
        judged_by(subjects, verdicts, verdict),
    ensures
        ({
            let changes = changes_of(rules, subjects, verdicts, n);
            &&& forall|c: int|
                0 <= c < changes.len() ==> exists|i: int|
                    0 <= i < n && is_due(
                        rules,
                        verdict,
                        #[trigger] subjects[i],
                        #[trigger] changes[c],
                    )
            &&& forall|i: int|
                0 <= i < n && verdict((#[trigger] subjects[i]).window_id) is Some && step_of(
                    action_of(rules, verdict(subjects[i].window_id)->0),
                    subjects[i].floating,
                ) != RuleStep::Keep ==> exists|c: int|
                    0 <= c < changes.len() && is_due(
                        rules,
                        verdict,
                        subjects[i],
                        #[trigger] changes[c],
                    )
        }),
    decreases n,
{
    if n > 0 {
        lemma_changes(rules, subjects, verdicts, verdict, n - 1);
        let before = changes_of(rules, subjects, verdicts, n - 1);
        let changes = changes_of(rules, subjects, verdicts, n);
        let subject = subjects[n - 1];
        assert(matched_seq(verdicts[n - 1]) == verdict(subject.window_id));
        assert forall|c: int| 0 <= c < before.len() implies changes[c] == #[trigger] before[c] by {}
        assert forall|c: int| 0 <= c < changes.len() implies exists|i: int|
            0 <= i < n && is_due(rules, verdict, #[trigger] subjects[i], #[trigger] changes[c]) by {
            if c < before.len() {
                let i = choose|i: int|
                    0 <= i < n - 1 && is_due(
                        rules,
                        verdict,
                        #[trigger] subjects[i],
                        #[trigger] before[c],
                    );
                assert(is_due(rules, verdict, subjects[i], changes[c]));
            } else {
                assert(is_due(rules, verdict, subjects[n - 1], changes[c]));
            }
        }
        assert forall|i: int|
            0 <= i < n && verdict((#[trigger] subjects[i]).window_id) is Some && step_of(
                action_of(rules, verdict(subjects[i].window_id)->0),
                subjects[i].floating,
            ) != RuleStep::Keep implies exists|c: int|
            0 <= c < changes.len() && is_due(rules, verdict, subjects[i], #[trigger] changes[c]) by {
            if i < n - 1 {
                let c = choose|c: int|
                    0 <= c < before.len() && is_due(
                        rules,
                        verdict,
                        subjects[i],
                        #[trigger] before[c],
                    );
                assert(is_due(rules, verdict, subjects[i], changes[c]));
            } else {
                let c = before.len() as int;
                assert(is_due(rules, verdict, subjects[i], changes[c]));
            }
        }
    }
}

proof fn lemma_nothing_due(
    rules: Seq<CompiledWindowRule>,
    subjects: Seq<RuleSubject>,
    verdicts: Seq<Option<Vec<bool>>>,
    verdict: spec_fn(WindowId) -> Option<Seq<bool>>,
    n: int,
)
    requires
        0 <= n <= subjects.len(),
        judged_by(subjects, verdicts, verdict),
        forall|i: int|
            0 <= i < n && verdict((#[trigger] subjects[i]).window_id) is Some ==> step_of(
                action_of(rules, verdict(subjects[i].window_id)->0),
                subjects[i].floating,
            ) == RuleStep::Keep,
    ensures
        changes_of(rules, subjects, verdicts, n) == Seq::<RuleChange>::empty(),
    decreases n,
{
    if n > 0 {
        lemma_nothing_due(rules, subjects, verdicts, verdict, n - 1);
        assert(matched_seq(verdicts[n - 1]) == verdict(subjects[n - 1].window_id));
    }
}

/// The groups are of the same monitors and have as many workspaces each.
spec fn same_shape(a: Seq<MonitorWorkspaces>, b: Seq<MonitorWorkspaces>) -> bool {
    &&& a.len() == b.len()
    &&& forall|g: int|
        0 <= g < a.len() ==> (#[trigger] b[g]).monitor == a[g].monitor && b[g].workspaces@.len()
            == a[g].workspaces@.len()
}

/// After the first `n` changes a window of workspace `j` of group `g` is where the rules
/// want it if one of them was about it, else where it was at the start.
spec fn is_tracked_to(
    start: AppState,
    now: AppState,
    changes: Seq<RuleChange>,
    n: int,
    verdict: spec_fn(WindowId) -> Option<Seq<bool>>,
    g: int,
    j: int,
    id: WindowId,
) -> bool {
    let was = start.workspaces@[g].workspaces@[j];
    let is = now.workspaces@[g].workspaces@[j];
    let named = is_named(changes, n, start.workspaces@[g].monitor, j, id);
    let step = wanted_step(start.compiled_rules@, verdict, was, id);
    &&& is.holds(id) == (was.holds(id) && !(named && step == RuleStep::Release))
    &&& is.floating@.contains(id) == (if named {
        step == RuleStep::ToFloat
    } else {
        was.floating@.contains(id)
    })
}

spec fn all_tracked_to(
    start: AppState,
    now: AppState,
    changes: Seq<RuleChange>,
    n: int,
    verdict: spec_fn(WindowId) -> Option<Seq<bool>>,
) -> bool {
    &&& now.compiled_rules == start.compiled_rules
    &&& same_shape(start.workspaces@, now.workspaces@)
    &&& forall|g: int, j: int, id: WindowId|
        0 <= g < start.workspaces@.len() && 0 <= j < start.workspaces@[g].workspaces@.len()
            ==> #[trigger] is_tracked_to(start, now, changes, n, verdict, g, j, id)
}

/// The plan's changes are what the rules do to windows of the start.
spec fn is_plan(
    start: AppState,
    changes: Seq<RuleChange>,
    verdict: spec_fn(WindowId) -> Option<Seq<bool>>,
) -> bool {
    forall|c: int| 0 <= c < changes.len() ==> #[trigger] is_planned(start, changes[c], verdict)
}

spec fn is_planned(
    start: AppState,
    change: RuleChange,
    verdict: spec_fn(WindowId) -> Option<Seq<bool>>,
) -> bool {
    exists|g: int|
        {
            &&& 0 <= g < start.workspaces@.len()
            &&& (#[trigger] start.workspaces@[g]).monitor == change.monitor
            &&& change.workspace < start.workspaces@[g].workspaces@.len()
            &&& change.step == wanted_step(
                start.compiled_rules@,
                verdict,
                start.workspaces@[g].workspaces@[change.workspace as int],
                change.window_id,
            )
            &&& change.step != RuleStep::Keep
        }
}

proof fn lemma_change_is_tracked(
    start: AppState,
    now: AppState,
    then: AppState,
    changes: Seq<RuleChange>,
    n: int,
    verdict: spec_fn(WindowId) -> Option<Seq<bool>>,
)
    requires
        start.wf(),
        is_plan(start, changes, verdict),
        0 <= n < changes.len(),
        all_tracked_to(start, now, changes, n, verdict),
        AppState::carried_out(now, then, changes[n]),
    ensures
        all_tracked_to(start, then, changes, n + 1, verdict),
{
    let change = changes[n];
    let workspace = workspace_of(then.workspaces@, change.monitor, change.workspace)->0;
    let h = choose|h: int|
        {
            &&& #[trigger] is_slot(now.workspaces@, change.monitor, change.workspace, h)
            &&& then.workspaces@[h].monitor == now.workspaces@[h].monitor
            &&& then.workspaces@[h].active == now.workspaces@[h].active
            &&& then.workspaces@[h].workspaces@ == now.workspaces@[h].workspaces@.update(
                change.workspace as int,
                workspace,
            )
            &&& forall|k: int|
                0 <= k < now.workspaces@.len() && k != h ==> #[trigger] then.workspaces@[k]
                    == now.workspaces@[k]
        };
    lemma_slot_is_first(now.workspaces@, change.monitor, change.workspace, h);
    assert(start.workspaces@[h].monitor == change.monitor) by {
        assert(now.workspaces@[h].monitor == start.workspaces@[h].monitor);
    }
    assert(is_planned(start, changes[n], verdict));
    assert(change.step == wanted_step(
        start.compiled_rules@,
        verdict,
        start.workspaces@[h].workspaces@[change.workspace as int],
        change.window_id,
    ));
    assert(same_shape(start.workspaces@, then.workspaces@)) by {
        assert forall|g: int| 0 <= g < start.workspaces@.len() implies (
        #[trigger] then.workspaces@[g]).monitor == start.workspaces@[g].monitor
            && then.workspaces@[g].workspaces@.len() == start.workspaces@[g].workspaces@.len() by {
            assert(now.workspaces@[g].monitor == start.workspaces@[g].monitor);
        }
    }
    assert forall|g: int, j: int, id: WindowId|
        0 <= g < start.workspaces@.len() && 0 <= j
            < start.workspaces@[g].workspaces@.len() implies #[trigger] is_tracked_to(
        start,
        then,
        changes,
        n + 1,
        verdict,
        g,
        j,
        id,
    ) by {
        assert(is_tracked_to(start, now, changes, n, verdict, g, j, id));
        assert(now.workspaces@[g].workspaces@.len() == start.workspaces@[g].workspaces@.len());
        let monitor = start.workspaces@[g].monitor;
        let here = g == h && j == change.workspace && id == change.window_id;
        if g != h {
            assert(start.workspaces@[g].monitor != start.workspaces@[h].monitor);
        }
        if is_named(changes, n, monitor, j, id) {
            let c = choose|c: int|
                0 <= c < n && (#[trigger] changes[c]).monitor == monitor && changes[c].workspace
                    == j && changes[c].window_id == id;
            assert(changes[c].monitor == monitor);
            assert(is_named(changes, n + 1, monitor, j, id));
        }
        if here {
            assert(changes[n].monitor == monitor);
            assert(is_named(changes, n + 1, monitor, j, id));
        } else if is_named(changes, n + 1, monitor, j, id) {
            let c = choose|c: int|
                0 <= c < n + 1 && (#[trigger] changes[c]).monitor == monitor && changes[c].workspace
                    == j && changes[c].window_id == id;
            assert(c != n);
            assert(is_named(changes, n, monitor, j, id));
        }
        if g == h && j == change.workspace {
            assert(then.workspaces@[g].workspaces@[j] == workspace);
            let before = now.workspaces@[g].workspaces@[j];
            if change.step == RuleStep::Release {
                assert(workspace.holds(id) == (before.holds(id) && id != change.window_id));
            } else {
                assert(workspace.holds(id) == before.holds(id));
            }
        } else {
            assert(then.workspaces@[g].workspaces@[j] == now.workspaces@[g].workspaces@[j]);
        }
    }
}

proof fn lemma_run_is_tracked(
    states: Seq<AppState>,
    changes: Seq<RuleChange>,
    n: int,
    verdict: spec_fn(WindowId) -> Option<Seq<bool>>,
)
    requires
        states.len() == changes.len() + 1,
        states[0].wf(),
        is_plan(states[0], changes, verdict),
        0 <= n <= changes.len(),
        forall|k: int|
            0 <= k < changes.len() ==> AppState::carried_out(
                states[k],
                states[k + 1],
                #[trigger] changes[k],
            ),
    ensures
        all_tracked_to(states[0], states[n], changes, n, verdict),
        states[n].scratchpad is None || states[n].scratchpad == states[0].scratchpad,
        states[n].scratchpad matches Some(scratchpad) ==> forall|c: int|
            0 <= c < n ==> !((#[trigger] changes[c]).step == RuleStep::Release
                && changes[c].window_id == scratchpad.window_id),
    decreases n,
{
    if n == 0 {
        assert forall|g: int, j: int, id: WindowId|
            0 <= g < states[0].workspaces@.len() && 0 <= j
                < states[0].workspaces@[g].workspaces@.len() implies #[trigger] is_tracked_to(
            states[0],
            states[0],
            changes,
            0,
            verdict,
            g,
            j,
            id,
        ) by {}
    } else {
        lemma_run_is_tracked(states, changes, n - 1, verdict);
        assert(AppState::carried_out(states[n - 1], states[n - 1 + 1], changes[n - 1]));
        lemma_change_is_tracked(
            states[0],
            states[n - 1],
            states[n],
            changes,
            n - 1,
            verdict,
        );
    }
}

/// Rules settle: once every change of a plan was carried out, and the scratchpad let go
/// if the plan says so, the same rules with the same verdicts change nothing more. No
/// window is moved, none enters or leaves management, and the scratchpad stays.
///
/// `states` are the states between the changes, `last` the one after all of them;
/// `verdict` says which rules match a window.
pub proof fn law_reapplied_rules_settle(
    states: Seq<AppState>,
    last: AppState,
    verdict: spec_fn(WindowId) -> Option<Seq<bool>>,
    verdicts: Seq<Option<Vec<bool>>>,
    scratchpad_matched: Option<&Vec<bool>>,
    verdicts_again: Seq<Option<Vec<bool>>>,
    scratchpad_matched_again: Option<&Vec<bool>>,
)
    requires
        states.len() > 0,
        states[0].wf(),
        judged_by(states[0].managed(), verdicts, verdict),
        states[0].scratchpad matches Some(scratchpad) ==> (match scratchpad_matched {
            Some(matched) => verdict(scratchpad.window_id) == Some(matched@),
            None => verdict(scratchpad.window_id) is None,
        }),
        ({
            let changes = changes_of(
                states[0].compiled_rules@,
                states[0].managed(),
                verdicts,
                states[0].managed().len() as int,
            );
            &&& states.len() == changes.len() + 1
            &&& forall|k: int|
                0 <= k < changes.len() ==> AppState::carried_out(
                    states[k],
                    states[k + 1],
                    #[trigger] changes[k],
                )
        }),
        AppState::scratchpad_let_go(
            states.last(),
            last,
            states[0].scratchpad_to_release(verdicts, scratchpad_matched),
        ),
        judged_by(last.managed(), verdicts_again, verdict),
        last.scratchpad matches Some(scratchpad) ==> (match scratchpad_matched_again {
            Some(matched) => verdict(scratchpad.window_id) == Some(matched@),
            None => verdict(scratchpad.window_id) is None,
        }),
    ensures
        changes_of(
            last.compiled_rules@,
            last.managed(),
            verdicts_again,
            last.managed().len() as int,
        ) == Seq::<RuleChange>::empty(),
        last.scratchpad_to_release(verdicts_again, scratchpad_matched_again) is None,
{
    let start = states[0];
    let rules = start.compiled_rules@;
    let subjects = start.managed();
    let changes = changes_of(rules, subjects, verdicts, subjects.len() as int);
    lemma_changes(rules, subjects, verdicts, verdict, subjects.len() as int);
    assert forall|c: int| 0 <= c < changes.len() implies #[trigger] is_planned(
        start,
        changes[c],
        verdict,
    ) by {
        let i = choose|i: int|
            0 <= i < subjects.len() && is_due(
                rules,
                verdict,
                #[trigger] subjects[i],
                #[trigger] changes[c],
            );
        lemma_subjects(start.workspaces@, start.workspaces@.len() as int, subjects[i]);
        assert(subjects.contains(subjects[i]));
    }
    lemma_run_is_tracked(states, changes, changes.len() as int, verdict);
    assert(states[changes.len() as int] == states.last());
    let end = last.managed();
    assert forall|i: int|
        0 <= i < end.len() && verdict((#[trigger] end[i]).window_id) is Some implies step_of(
        action_of(rules, verdict(end[i].window_id)->0),
        end[i].floating,
    ) == RuleStep::Keep by {
        let subject = end[i];
        let id = subject.window_id;
        assert(end.contains(subject));
        lemma_subjects(last.workspaces@, last.workspaces@.len() as int, subject);
        let g = choose|g: int|
            0 <= g < last.workspaces@.len() && is_group_subject(
                #[trigger] last.workspaces@[g],
                last.workspaces@[g].workspaces@.len() as int,
                subject,
            );
        let j = subject.workspace as int;
        let was = start.workspaces@[g].workspaces@[j];
        assert(last.workspaces@[g].workspaces@.len() == start.workspaces@[g].workspaces@.len());
        assert(is_tracked_to(
            start,
            states.last(),
            changes,
            changes.len() as int,
            verdict,
            g,
            j,
            id,
        ));
        let first = RuleSubject { floating: was.floating@.contains(id), ..subject };
        assert(is_group_subject(
            start.workspaces@[g],
            start.workspaces@[g].workspaces@.len() as int,
            first,
        ));
        lemma_subjects(start.workspaces@, start.workspaces@.len() as int, first);
        let k = choose|k: int| 0 <= k < subjects.len() && subjects[k] == first;
        let step = wanted_step(rules, verdict, was, id);
        if step != RuleStep::Keep {
            assert(verdict(subjects[k].window_id) is Some);
            let c = choose|c: int|
                0 <= c < changes.len() && is_due(
                    rules,
                    verdict,
                    subjects[k],
                    #[trigger] changes[c],
                );
            assert(changes[c].monitor == start.workspaces@[g].monitor);
            assert(is_named(
                changes,
                changes.len() as int,
                start.workspaces@[g].monitor,
                j,
                id,
            ));
        } else if is_named(changes, changes.len() as int, start.workspaces@[g].monitor, j, id) {
            let c = choose|c: int|
                0 <= c < changes.len() && (#[trigger] changes[c]).monitor
                    == start.workspaces@[g].monitor && changes[c].workspace == j
                    && changes[c].window_id == id;
            assert(is_planned(start, changes[c], verdict));
            let h = choose|h: int|
                {
                    &&& 0 <= h < start.workspaces@.len()
                    &&& (#[trigger] start.workspaces@[h]).monitor == changes[c].monitor
                    &&& changes[c].workspace < start.workspaces@[h].workspaces@.len()
                    &&& changes[c].step == wanted_step(
                        rules,
                        verdict,
                        start.workspaces@[h].workspaces@[changes[c].workspace as int],
                        changes[c].window_id,
                    )
                    &&& changes[c].step != RuleStep::Keep
                };
            assert(h == g);
        }
    }
    lemma_nothing_due(rules, end, verdicts_again, verdict, end.len() as int);
    if let Some(scratchpad) = last.scratchpad {
        let id = scratchpad.window_id;
        if let Some(matched) = verdict(id) {
            if action_of(rules, matched) == WindowAction::Ignore {
                assert(start.scratchpad == last.scratchpad);
                if is_described(subjects, verdicts, id) {
                    let i = choose|i: int|
                        0 <= i < subjects.len() && (#[trigger] subjects[i]).window_id == id
                            && verdicts[i] is Some;
                    let c = choose|c: int|
                        0 <= c < changes.len() && is_due(
                            rules,
                            verdict,
                            subjects[i],
                            #[trigger] changes[c],
                        );
                    assert(changes[c].step == RuleStep::Release);
                }
            }
        }
    }
}

/// The rules ask for an action: it is that of a rule that matches and that no matching one
/// precedes, or it is to tile and no rule matches.
pub open spec fn rules_ask_for(
    rules: Seq<CompiledWindowRule>,
    matched: Seq<bool>,
    action: WindowAction,
) -> bool {
    ||| exists|i: int|
        0 <= i < matched.len() && #[trigger] matched[i] && rules[i].action == action && forall|
            k: int,
        |
            0 <= k < i ==> !#[trigger] matched[k]
    ||| action == WindowAction::Tile && forall|k: int|
        0 <= k < matched.len() ==> !#[trigger] matched[k]
}

/// The first rule that matches decides; without one the window is tiled.
pub proof fn law_first_matching_rule_decides(
    rules: Seq<CompiledWindowRule>,
    matched: Seq<bool>,
    action: WindowAction,
)
    ensures
        action_of(rules, matched) == action <==> rules_ask_for(rules, matched, action),
{
    law_first_match_wins(matched);
    if let Some(i) = first_match(matched) {
        assert(matched[i]);
    }
}

/// The window is to land there: on its own monitor, or on the focused one if it is on
/// none, and there on the active workspace, or on the first one where the monitor has no
/// workspaces yet.
pub open spec fn lands_at(
    state: AppState,
    w: NewWindow,
    monitor: MonitorId,
    workspace: usize,
) -> bool {
    &&& w.monitor matches Some(own) ==> monitor == own
    &&& w.monitor is None ==> monitor == state.focused_monitor
    &&& {
        ||| exists|a: int|
            0 <= a < state.workspaces@.len() && (#[trigger] state.workspaces@[a]).monitor
                == monitor && workspace == state.workspaces@[a].active && forall|b: int|
                0 <= b < a ==> (#[trigger] state.workspaces@[b]).monitor != monitor
        ||| workspace == 0 && forall|a: int|
            0 <= a < state.workspaces@.len() ==> (#[trigger] state.workspaces@[a]).monitor
                != monitor
    }
}

/// A window that is taken in, floating or tiled, lands on the monitor that it is on, and
/// on the focused one only where it is on none; the workspace is the active one of the
/// monitor that is named.
pub proof fn law_windows_land_on_their_own_monitor(state: AppState, w: NewWindow)
    ensures
        match state.admission(w) {
            Admission::Float { monitor, workspace, .. } => lands_at(state, w, monitor, workspace),
            Admission::Tile { monitor, workspace } => lands_at(state, w, monitor, workspace),
            _ => true,
        },
{
    let monitor = match w.monitor {
        Some(monitor) => monitor,
        None => state.focused_monitor,
    };
    ui_sync::law_first_group_counts(state.workspaces@, monitor);
}

/// Where no two groups are of the same monitor, a window of a monitor that has one lands
/// on the workspace that is active there.
pub proof fn law_windows_land_on_the_active_workspace(state: AppState, w: NewWindow, a: int)
    requires
        state.wf(),
        0 <= a < state.workspaces@.len(),
        w.monitor == Some(state.workspaces@[a].monitor) || w.monitor is None
            && state.focused_monitor == state.workspaces@[a].monitor,
    ensures
        match state.admission(w) {
            Admission::Float { monitor, workspace, .. } => monitor == state.workspaces@[a].monitor
                && workspace == state.workspaces@[a].active,
            Admission::Tile { monitor, workspace } => monitor == state.workspaces@[a].monitor
                && workspace == state.workspaces@[a].active,
            _ => true,
        },
{
    law_windows_land_on_their_own_monitor(state, w);
    assert(forall|b: int|
        0 <= b < state.workspaces@.len() && (#[trigger] state.workspaces@[b]).monitor
            == state.workspaces@[a].monitor ==> b == a);
}

/// Where a window goes does not depend on the focused monitor, unless the window is on
/// none.
pub proof fn law_focus_does_not_move_new_windows(
    state: AppState,
    w: NewWindow,
    focused_monitor: MonitorId,
)
    requires
        w.monitor is Some,
    ensures
        (AppState { focused_monitor, ..state }).admission(w) == state.admission(w),
{
}

/// A window is refused because a rule ignores it, else because some workspace has it,
/// else because it runs with more privileges, else because it looks like a dialog and no
/// rule matches it; every other one is taken in, and floats just where the rules ask for
/// that.
pub proof fn law_windows_are_refused_for_a_reason(state: AppState, w: NewWindow)
    requires
        state.judged(w.matched@),
    ensures
        ({
            let ignored = rules_ask_for(
                state.compiled_rules@,
                w.matched@,
                WindowAction::Ignore,
            );
            let floats = rules_ask_for(state.compiled_rules@, w.matched@, WindowAction::Float);
            let held = exists|i: int, j: int| ui_sync::has_window(state, i, j, w.window_id);
            let matches_none = forall|k: int|
                0 <= k < w.matched@.len() ==> !#[trigger] w.matched@[k];
            let dialog = w.dialog_like && matches_none;
            let admission = state.admission(w);
            &&& admission is IgnoredByRule <==> ignored
            &&& admission is AlreadyManaged <==> !ignored && held
            &&& admission is ElevationBlocked <==> !ignored && !held && w.elevation_blocked
            &&& admission is DialogLike <==> !ignored && !held && !w.elevation_blocked && dialog
            &&& admission is Float <==> !ignored && !held && !w.elevation_blocked && !dialog
                && floats
            &&& admission is Tile <==> !ignored && !held && !w.elevation_blocked && !dialog
                && !floats
        }),
{
    law_first_matching_rule_decides(state.compiled_rules@, w.matched@, WindowAction::Ignore);
    law_first_matching_rule_decides(state.compiled_rules@, w.matched@, WindowAction::Float);
    law_first_match_wins(w.matched@);
    if exists|i: int, j: int| ui_sync::has_window(state, i, j, w.window_id) {
        let (i, j) = choose|i: int, j: int| ui_sync::has_window(state, i, j, w.window_id);
        assert(state.workspaces@[i].workspaces@[j].holds(w.window_id));
    }
    if ui_sync::is_managed(state.workspaces@, w.window_id) {
        let (i, j) = choose|i: int, j: int|
            0 <= i < state.workspaces@.len() && 0 <= j < state.workspaces@[i].workspaces@.len() && (
            #[trigger] state.workspaces@[i].workspaces@[j]).holds(w.window_id);
        assert(ui_sync::has_window(state, i, j, w.window_id));
    }
}

/// A window that floats by rule keeps its corner, and in each dimension has the size that
/// the first matching rule asks for, or its own where that rule asks for none.
pub proof fn law_first_matching_rule_gives_the_size(
    state: AppState,
    matched: Seq<bool>,
    sizes: Seq<RuleSize>,
    original: Rect,
    i: int,
)
    requires
        0 <= i < matched.len(),
        matched[i],
        forall|k: int| 0 <= k < i ==> !#[trigger] matched[k],
    ensures
        ({
            let r = state.floating_rect(matched, sizes, original);
            let rule = state.compiled_rules@[i];
            &&& r.x == original.x
            &&& r.y == original.y
            &&& rule.width is Some ==> r.width == sizes[i].width
            &&& rule.width is None ==> r.width == original.width
            &&& rule.height is Some ==> r.height == sizes[i].height
            &&& rule.height is None ==> r.height == original.height
        }),
{
    law_first_match_wins(matched);
}

/// A window that is taken in floating has the place that the rules give it.
pub proof fn law_floating_windows_are_sized_by_rule(state: AppState, w: NewWindow, i: int)
    requires
        0 <= i < w.matched@.len(),
        w.matched@[i],
        forall|k: int| 0 <= k < i ==> !#[trigger] w.matched@[k],
    ensures
        state.admission(w) matches Admission::Float { rect, .. } ==> {
            let rule = state.compiled_rules@[i];
            &&& rule.action == WindowAction::Float
            &&& rect.x == w.rect.x
            &&& rect.y == w.rect.y
            &&& rect.width == (if rule.width is Some {
                w.sizes@[i].width
            } else {
                w.rect.width
            })
            &&& rect.height == (if rule.height is Some {
                w.sizes@[i].height
            } else {
                w.rect.height
            })
        },
{
    law_first_match_wins(w.matched@);
}

/// The step is the one that a window needs: it starts to float where it is tiled and the
/// rules want it floating, is tiled where it floats and they want it tiled, and is
/// released just where they ignore it.
pub proof fn law_steps_lead_where_the_rules_want(action: WindowAction, floating: bool)
    ensures
        step_of(action, floating) == RuleStep::ToFloat <==> action == WindowAction::Float
            && !floating,
        step_of(action, floating) == RuleStep::ToTile <==> action == WindowAction::Tile
            && floating,
        step_of(action, floating) == RuleStep::Release <==> action == WindowAction::Ignore,
{
}

/// The change is one that the rules ask of a window: they match it by `matched`, and it
/// is not where they want it.
pub open spec fn rules_ask_of(
    rules: Seq<CompiledWindowRule>,
    matched: Seq<bool>,
    subject: RuleSubject,
    change: RuleChange,
) -> bool {
    &&& change.window_id == subject.window_id
    &&& change.monitor == subject.monitor
    &&& change.workspace == subject.workspace
    &&& change.floating == subject.floating
    &&& match change.step {
        RuleStep::ToFloat => !subject.floating && rules_ask_for(
            rules,
            matched,
            WindowAction::Float,
        ),
        RuleStep::ToTile => subject.floating && rules_ask_for(rules, matched, WindowAction::Tile),
        RuleStep::Release => rules_ask_for(rules, matched, WindowAction::Ignore),
        RuleStep::Keep => false,
    }
}

/// The changes are just those that the rules ask of the windows that were described.
pub proof fn law_changes_are_those_that_rules_ask_for(
    rules: Seq<CompiledWindowRule>,
    subjects: Seq<RuleSubject>,
    verdicts: Seq<Option<Vec<bool>>>,
    n: int,
    change: RuleChange,
)
    requires
        0 <= n <= subjects.len(),
        verdicts.len() == subjects.len(),
    ensures
        changes_of(rules, subjects, verdicts, n).contains(change) <==> exists|i: int|
            0 <= i < n && (#[trigger] verdicts[i]) is Some && rules_ask_of(
                rules,
                verdicts[i]->0@,
                subjects[i],
                change,
            ),
    decreases n,
{
    if n > 0 {
        law_changes_are_those_that_rules_ask_for(rules, subjects, verdicts, n - 1, change);
        let before = changes_of(rules, subjects, verdicts, n - 1);
        let all = changes_of(rules, subjects, verdicts, n);
        if before.contains(change) {
            let c = choose|c: int| 0 <= c < before.len() && before[c] == change;
            assert(all[c] == change);
        }
        if let Some(matched) = verdicts[n - 1] {
            law_first_matching_rule_decides(rules, matched@, WindowAction::Float);
            law_first_matching_rule_decides(rules, matched@, WindowAction::Tile);
            law_first_matching_rule_decides(rules, matched@, WindowAction::Ignore);
            if rules_ask_of(rules, matched@, subjects[n - 1], change) {
                assert(all[before.len() as int] == change);
            }
            if all.contains(change) && !before.contains(change) {
                let c = choose|c: int| 0 <= c < all.len() && all[c] == change;
                assert(c < before.len() ==> before[c] == change);
                assert(rules_ask_of(rules, matched@, subjects[n - 1], change));
                assert(verdicts[n - 1] is Some);
            }
        }
    }
}

/// A scratchpad is released just where it was matched, the rules ignore it, and it is
/// none of the managed windows that were described.
pub proof fn law_hidden_scratchpads_are_released(
    state: AppState,
    verdicts: Seq<Option<Vec<bool>>>,
    matched: &Vec<bool>,
)
    ensures
        state.scratchpad_to_release(verdicts, None) is None,
        state.scratchpad is None ==> state.scratchpad_to_release(verdicts, Some(matched)) is None,
        state.scratchpad matches Some(scratchpad) ==> ({
            let seen = exists|i: int|
                0 <= i < state.managed().len() && (#[trigger] state.managed()[i]).window_id
                    == scratchpad.window_id && verdicts[i] is Some;
            state.scratchpad_to_release(verdicts, Some(matched)) == (if !seen && rules_ask_for(
                state.compiled_rules@,
                matched@,
                WindowAction::Ignore,
            ) {
                Some(scratchpad.window_id)
            } else {
                None
            })
        }),
{
    law_first_matching_rule_decides(state.compiled_rules@, matched@, WindowAction::Ignore);
}

/// A window without a place of its own floats with the default size in the middle: the
/// margins on both sides have the same size, but for one pixel that goes to the right and
/// to the bottom.
pub proof fn law_default_place_is_in_the_middle(viewport: Rect)
    requires
        can_centre(viewport),
    ensures
        ({
            let r = centred_float(viewport);
            let left = r.x - viewport.x;
            let right = viewport.x + viewport.width - (r.x + r.width);
            let top = r.y - viewport.y;
            let bottom = viewport.y + viewport.height - (r.y + r.height);
            &&& r.width == 800
            &&& r.height == 600
            &&& viewport.width >= 800 ==> 0 <= left <= right <= left + 1
            &&& viewport.width < 800 ==> 0 >= left >= right >= left - 1
            &&& viewport.height >= 600 ==> 0 <= top <= bottom <= top + 1
            &&& viewport.height < 600 ==> 0 >= top >= bottom >= top - 1
        }),
{
}

/// Every viewport of a size from nothing to the largest, at a corner that leaves room for
/// it, has a middle.
pub proof fn law_ordinary_viewports_have_a_middle(viewport: Rect)
    requires
        viewport.width >= 0,
        viewport.height >= 0,
        i32::MIN + 400 <= viewport.x,
        i32::MIN + 300 <= viewport.y,
        viewport.x + viewport.width <= i32::MAX,
        viewport.y + viewport.height <= i32::MAX,
    ensures
        can_centre(viewport),
{
}

/// The viewport of a monitor is the area of the first one with its identifier that
/// windows may use; without one it is that of a common screen.
pub proof fn law_viewport_is_the_work_area(state: AppState, monitor: MonitorId, a: int)
    ensures
        0 <= a < state.monitors@.len() && state.monitors@[a].id == monitor && (forall|b: int|
            0 <= b < a ==> (#[trigger] state.monitors@[b]).id != monitor) ==> state.work_area(
            monitor,
        ) == state.monitors@[a].work_area,
        (forall|b: int|
            0 <= b < state.monitors@.len() ==> (#[trigger] state.monitors@[b]).id != monitor)
            ==> state.work_area(monitor).x == 0 && state.work_area(monitor).y == 0
            && state.work_area(monitor).width == 1920 && state.work_area(monitor).height == 1080,
{
    ui_sync::law_first_monitor_counts(state.monitors@, monitor);
}

/// A release goes on just where the handle still belongs to the window and the action, if
/// there was one, succeeded.
pub proof fn law_release_goes_on_only_for_the_same_window(
    stage: ReleaseStage,
    acted: bool,
    same_window: bool,
)
    requires
        stage != ReleaseStage::Done,
    ensures
        release_next(stage, acted, same_window) is Ok <==> same_window && (acted || stage
            == ReleaseStage::Begin),
        release_next(ReleaseStage::Begin, acted, true) == Ok::<ReleaseStage, ReleaseError>(
            ReleaseStage::Uncloak,
        ),
        release_next(ReleaseStage::Uncloak, true, true) == Ok::<ReleaseStage, ReleaseError>(
            ReleaseStage::Restore,
        ),
        release_next(ReleaseStage::Restore, true, true) == Ok::<ReleaseStage, ReleaseError>(
            ReleaseStage::Show,
        ),
        release_next(ReleaseStage::Show, true, true) == Ok::<ReleaseStage, ReleaseError>(
            ReleaseStage::Done,
        ),
{
}

/// A failed action ends a release with the error of that action, and another window under
/// the handle with the error of the moment at which it was seen.
pub proof fn law_release_errors_name_the_step(acted: bool, same_window: bool)
    ensures
        release_next(ReleaseStage::Begin, acted, false) == Err::<ReleaseStage, ReleaseError>(
            ReleaseError::ChangedBeforeRelease,
        ),
        release_next(ReleaseStage::Uncloak, false, same_window) == Err::<
            ReleaseStage,
            ReleaseError,
        >(ReleaseError::UncloakFailed),
        release_next(ReleaseStage::Uncloak, true, false) == Err::<ReleaseStage, ReleaseError>(
            ReleaseError::ChangedAfterUncloak,
        ),
        release_next(ReleaseStage::Restore, false, same_window) == Err::<
            ReleaseStage,
            ReleaseError,
        >(ReleaseError::RestoreFailed),
        release_next(ReleaseStage::Restore, true, false) == Err::<ReleaseStage, ReleaseError>(
            ReleaseError::ChangedAfterRestore,
        ),
        release_next(ReleaseStage::Show, false, same_window) == Err::<ReleaseStage, ReleaseError>(
            ReleaseError::ShowFailed,
        ),
        release_next(ReleaseStage::Show, true, false) == Err::<ReleaseStage, ReleaseError>(
            ReleaseError::ChangedAfterShow,
        ),
        release_next(ReleaseStage::Done, acted, same_window) == Ok::<ReleaseStage, ReleaseError>(
            ReleaseStage::Done,
        ),
{
}

/// A release whose every action succeeds on the expected window is done after four looks.
pub proof fn law_undisturbed_release_is_done(observed: Seq<ReleaseObservation>)
    requires
        observed.len() == 4,
        forall|k: int| 0 <= k < 4 ==> (#[trigger] observed[k]).same_window && observed[k].acted,
    ensures
        release_run(observed) == Ok::<ReleaseStage, ReleaseError>(ReleaseStage::Done),
{
    reveal_with_fuel(release_run, 5);
    let d3 = observed.drop_last();
    let d2 = d3.drop_last();
    let d1 = d2.drop_last();
    assert(observed.last() == observed[3]);
    assert(d3.last() == observed[2]);
    assert(d2.last() == observed[1]);
    assert(d1.last() == observed[0]);
    assert(d1.drop_last().len() == 0);
}

/// A window is the expected one just where its token, process, thread and class are.
pub proof fn law_expected_window_agrees_in_everything(
    expected: WindowIncarnation,
    current: &WindowIncarnation,
)
    ensures
        !is_expected(expected, None),
        is_expected(expected, Some(current)) <==> {
            &&& current.token == expected.token
            &&& current.process_id == expected.process_id
            &&& current.thread_id == expected.thread_id
            &&& current.class_name@ == expected.class_name@
        },
{
}

/// The focus goes back to any window but the one that was moved.
pub proof fn law_focus_goes_back_to_other_windows(focused: WindowId, wid: WindowId)
    ensures
        restored_focus(None, wid) is None,
        restored_focus(Some(wid), wid) is None,
        focused != wid ==> restored_focus(Some(focused), wid) == Some(focused),
{
}

/// What is kept of every other window stays as it was when one is forgotten.
pub proof fn law_other_windows_are_not_forgotten(
    before: AppState,
    after: AppState,
    wid: WindowId,
    other: WindowId,
)
    requires
        AppState::forgot(before, after, wid),
        other != wid,
    ensures
        after.window_managed_at@.contains_key(other) == before.window_managed_at@.contains_key(
            other,
        ),
        after.window_managed_at@[other] == before.window_managed_at@[other],
        after.window_incarnations@.contains_key(other)
            == before.window_incarnations@.contains_key(other),
        after.window_incarnations@[other] == before.window_incarnations@[other],
        after.last_placed_layout_rects@.contains_key(other)
            == before.last_placed_layout_rects@.contains_key(other),
        after.last_placed_layout_rects@[other] == before.last_placed_layout_rects@[other],
        after.hidden_column_widths@.contains_key(other)
            == before.hidden_column_widths@.contains_key(other),
        after.tab_title_overrides@.contains_key(other)
            == before.tab_title_overrides@.contains_key(other),
        before.previous_focused_hwnd == Some(other) ==> after.previous_focused_hwnd == Some(other),
        before.scratchpad matches Some(scratchpad) && scratchpad.window_id == other
            ==> after.scratchpad == before.scratchpad,
        after.workspaces == before.workspaces,
        after.snap_disabled_hwnds == before.snap_disabled_hwnds,
        after.layout_transition == before.layout_transition,
        after.focused_monitor == before.focused_monitor,
{
}

/// Workspace `b` of group `a` is empty and at rest.
pub open spec fn is_empty_at(groups: Seq<MonitorWorkspaces>, a: int, b: int) -> bool {
    let workspace = groups[a].workspaces@[b];
    &&& workspace.columns@.len() == 0
    &&& workspace.floating@.len() == 0
    &&& workspace.minimized@.len() == 0
    &&& workspace.placements@.len() == 0
    &&& workspace.focused_visible is None
    &&& !workspace.animating
    &&& !workspace.fullscreen
    &&& workspace.scroll_offset == 0
    &&& workspace.scroll_target == 0
    &&& workspace.shown_offset == 0
}

/// Making a workspace leaves every workspace that there was, and which one is active, as
/// it was; what is added is empty and at rest, and the monitor has the workspace then.
pub proof fn law_new_workspaces_disturb_nothing(
    before: Seq<MonitorWorkspaces>,
    after: Seq<MonitorWorkspaces>,
    monitor: MonitorId,
    idx: usize,
    reduce_motion: bool,
    a: int,
    b: int,
)
    requires
        slot_made(before, after, monitor, idx, reduce_motion),
        0 <= a < after.len(),
        0 <= b < after[a].workspaces@.len(),
    ensures
        before.len() <= after.len() <= before.len() + 1,
        exists|g: int|
            0 <= g < after.len() && (#[trigger] after[g]).monitor == monitor && idx
                < after[g].workspaces@.len(),
        a < before.len() ==> after[a].monitor == before[a].monitor && after[a].active
            == before[a].active && before[a].workspaces@.len() <= after[a].workspaces@.len(),
        a == before.len() ==> after[a].monitor == monitor && after[a].active == 0,
        if a < before.len() && b < before[a].workspaces@.len() {
            after[a].workspaces@[b] == before[a].workspaces@[b]
        } else {
            is_empty_at(after, a, b) && after[a].workspaces@[b].reduce_motion == reduce_motion
                && after[a].monitor == monitor && b <= idx
        },
{
    lemma_slot_made(before, after, monitor, idx, reduce_motion);
    let g = choose|g: int| is_slot(after, monitor, idx, g);
    assert(after[g].monitor == monitor);
    if !has_slot(before, monitor, idx) && exists|g: int| is_first_group(before, monitor, g) {
        let h = choose|h: int|
            {
                &&& #[trigger] is_first_group(before, monitor, h)
                &&& after[h].monitor == monitor
                &&& after[h].active == before[h].active
                &&& grown(before[h].workspaces@, after[h].workspaces@, idx, reduce_motion)
                &&& forall|k: int|
                    0 <= k < before.len() && k != h ==> #[trigger] after[k] == before[k]
            };
        assert(!is_slot(before, monitor, idx, h));
        if a != h {
            assert(after[a] == before[a]);
        } else if b >= before[h].workspaces@.len() {
            assert(after[h].workspaces@[b].is_new(reduce_motion));
        }
    } else if !has_slot(before, monitor, idx) {
        if a < before.len() {
            assert(after[a] == before[a]);
        } else {
            assert(after[a].workspaces@[b].is_new(reduce_motion));
        }
    }
}

/// A window that was taken in is recorded with the time and the incarnation, and the
/// monitor has the workspace that holds it; nothing is recorded anew of other windows.
pub proof fn law_windows_taken_in_are_recorded(
    before: AppState,
    after: AppState,
    wid: WindowId,
    home: (MonitorId, usize),
    workspace: Workspace,
    incarnation: Option<WindowIncarnation>,
    now_ms: u64,
    other: WindowId,
)
    requires
        AppState::taken_in(before, after, wid, home, workspace, incarnation, now_ms),
        other != wid,
    ensures
        after.window_managed_at@.contains_key(wid),
        after.window_managed_at@[wid] == now_ms,
        after.window_managed_at@.contains_key(other) == before.window_managed_at@.contains_key(
            other,
        ),
        after.window_managed_at@[other] == before.window_managed_at@[other],
        incarnation matches Some(incarnation) ==> after.window_incarnations@.contains_key(wid)
            && after.window_incarnations@[wid] == incarnation,
        incarnation is None ==> after.window_incarnations@ == before.window_incarnations@,
        after.window_incarnations@.contains_key(other)
            == before.window_incarnations@.contains_key(other),
        exists|g: int|
            0 <= g < after.workspaces@.len() && (#[trigger] after.workspaces@[g]).monitor == home.0
                && home.1 < after.workspaces@[g].workspaces@.len()
                && after.workspaces@[g].workspaces@[home.1 as int] == workspace,
        after.layout_transition == before.layout_transition,
        after.focused_monitor == before.focused_monitor,
        after.snap_disabled_hwnds == before.snap_disabled_hwnds,
{
    let made = choose|made: Seq<MonitorWorkspaces>|
        #[trigger] slot_made(before.workspaces@, made, home.0, home.1, before.reduce_motion)
            && replaced(made, after.workspaces@, home.0, home.1, workspace);
    let g = choose|g: int|
        {
            &&& #[trigger] is_slot(made, home.0, home.1, g)
            &&& after.workspaces@[g].monitor == made[g].monitor
            &&& after.workspaces@[g].workspaces@ == made[g].workspaces@.update(
                home.1 as int,
                workspace,
            )
        };
    assert(after.workspaces@[g].workspaces@[home.1 as int] == workspace);
}

/// A window counts as taken in just where it was admitted, floating or tiled, and was
/// placed.
pub proof fn law_placed_windows_are_taken_in(state: AppState, admission: Admission, placed: bool)
    ensures
        state.admission_effects(admission, placed).added <==> placed && (admission is Float
            || admission is Tile),
{
}

/// A window that is admitted goes where the admission says.
pub proof fn law_admissions_say_where(monitor: MonitorId, workspace: usize, rect: Rect)
    ensures
        AppState::admitted_to(Admission::Float { monitor, workspace, rect }) == Some(
            (monitor, workspace),
        ),
        AppState::admitted_to(Admission::Tile { monitor, workspace }) == Some(
            (monitor, workspace),
        ),
        AppState::admitted_to(Admission::IgnoredByRule) is None,
        AppState::admitted_to(Admission::AlreadyManaged) is None,
        AppState::admitted_to(Admission::ElevationBlocked) is None,
        AppState::admitted_to(Admission::DialogLike) is None,
{
}

/// A change that was carried out leaves the window in its workspace, floating or tiled as
/// was asked, or takes it away, and touches no other window there.
pub proof fn law_carried_out_changes_touch_one_window(
    before: AppState,
    after: AppState,
    change: RuleChange,
    a: int,
    b: int,
    id: WindowId,
)
    requires
        before.wf(),
        AppState::carried_out(before, after, change),
        0 <= a < before.workspaces@.len(),
        0 <= b < before.workspaces@[a].workspaces@.len(),
        ui_sync::has_window(before, a, b, id),
        before.workspaces@[a].monitor != change.monitor || b != change.workspace || id
            != change.window_id,
    ensures
        ui_sync::has_window(after, a, b, id),
        after.workspaces@[a].workspaces@[b].floating@.contains(id)
            == before.workspaces@[a].workspaces@[b].floating@.contains(id),
{
    let old_one = workspace_of(before.workspaces@, change.monitor, change.workspace)->0;
    let new_one = workspace_of(after.workspaces@, change.monitor, change.workspace)->0;
    let g = choose|g: int|
        {
            &&& #[trigger] is_slot(before.workspaces@, change.monitor, change.workspace, g)
            &&& after.workspaces@[g].workspaces@ == before.workspaces@[g].workspaces@.update(
                change.workspace as int,
                new_one,
            )
            &&& forall|k: int|
                0 <= k < before.workspaces@.len() && k != g ==> #[trigger] after.workspaces@[k]
                    == before.workspaces@[k]
        };
    lemma_slot_is_first(before.workspaces@, change.monitor, change.workspace, g);
    assert(before.workspaces@[a].workspaces@[b].holds(id));
    if a == g {
        if b == change.workspace {
            assert(old_one.holds(id));
            assert(new_one.holds(id));
        }
    } else {
        assert(after.workspaces@[a] == before.workspaces@[a]);
    }
    assert(after.workspaces@[a].workspaces@[b].holds(id));
}

/// The windows of a workspace come column by column, each from top to bottom, and the
/// floating ones behind them.
pub proof fn law_windows_come_column_by_column(workspace: Workspace)
    ensures
        workspace_windows(workspace) == workspace.columns@.map_values(
            |c: Column| c.windows@,
        ).flatten_alt() + workspace.floating@,
{
    lemma_columns_flatten(workspace.columns@, workspace.columns@.len() as int);
    assert(workspace.columns@.take(workspace.columns@.len() as int) =~= workspace.columns@);
}

proof fn lemma_columns_flatten(columns: Seq<Column>, n: int)
    requires
        0 <= n <= columns.len(),
    ensures
        column_windows(columns, n) == columns.take(n).map_values(
            |c: Column| c.windows@,
        ).flatten_alt(),
    decreases n,
{
    let windows_of = |c: Column| c.windows@;
    let lists = columns.take(n).map_values(windows_of);
    if n > 0 {
        lemma_columns_flatten(columns, n - 1);
        assert(lists.drop_last() =~= columns.take(n - 1).map_values(windows_of));
        assert(lists.last() == columns[n - 1].windows@);
    }
}

/// The managed windows come monitor by monitor, and on each workspace by workspace.
pub proof fn law_managed_windows_come_in_order(state: AppState)
    ensures
        state.managed() == Seq::new(
            state.workspaces@.len(),
            |a: int|
                Seq::new(
                    state.workspaces@[a].workspaces@.len(),
                    |b: int|
                        workspace_windows(state.workspaces@[a].workspaces@[b]).map_values(
                            |id: WindowId|
                                (RuleSubject {
                                    window_id: id,
                                    monitor: state.workspaces@[a].monitor,
                                    workspace: b as usize,
                                    floating: state.workspaces@[a].workspaces@[b].floating@.contains(
                                        id,
                                    ),
                                }),
                        ),
                ).flatten_alt(),
        ).flatten_alt(),
{
    let lists = Seq::new(
        state.workspaces@.len(),
        |a: int| listed_subjects(state.workspaces@[a], state.workspaces@[a].workspaces@.len()),
    );
    lemma_subjects_flatten(state.workspaces@, state.workspaces@.len() as int);
    assert(lists =~= Seq::new(
        state.workspaces@.len(),
        |a: int|
            Seq::new(
                state.workspaces@[a].workspaces@.len(),
                |b: int|
                    workspace_windows(state.workspaces@[a].workspaces@[b]).map_values(
                        |id: WindowId|
                            (RuleSubject {
                                window_id: id,
                                monitor: state.workspaces@[a].monitor,
                                workspace: b as usize,
                                floating: state.workspaces@[a].workspaces@[b].floating@.contains(id),
                            }),
                    ),
            ).flatten_alt(),
    ));
}

spec fn listed_subjects(group: MonitorWorkspaces, n: nat) -> Seq<RuleSubject> {
    Seq::new(
        n,
        |b: int|
            workspace_windows(group.workspaces@[b]).map_values(
                |id: WindowId|
                    (RuleSubject {
                        window_id: id,
                        monitor: group.monitor,
                        workspace: b as usize,
                        floating: group.workspaces@[b].floating@.contains(id),
                    }),
            ),
    ).flatten_alt()
}

proof fn lemma_group_subjects_flatten(group: MonitorWorkspaces, n: nat)
    requires
        n <= group.workspaces@.len(),
    ensures
        group_subjects(group, n as int) == listed_subjects(group, n),
    decreases n,
{
    let list = |b: int|
        workspace_windows(group.workspaces@[b]).map_values(
            |id: WindowId|
                (RuleSubject {
                    window_id: id,
                    monitor: group.monitor,
                    workspace: b as usize,
                    floating: group.workspaces@[b].floating@.contains(id),
                }),
        );
    if n > 0 {
        let last = (n - 1) as nat;
        lemma_group_subjects_flatten(group, last);
        let lists = Seq::new(n, list);
        assert(lists.drop_last() =~= Seq::new(last, list));
        let workspace = group.workspaces@[n - 1];
        assert(lists.last() =~= workspace_windows(workspace).map_values(
            |id: WindowId| subject_of(group.monitor, (n - 1) as usize, workspace, id),
        ));
    }
}

proof fn lemma_subjects_flatten(groups: Seq<MonitorWorkspaces>, n: int)
    requires
        0 <= n <= groups.len(),
    ensures
        subjects_of(groups, n) == Seq::new(
            n as nat,
            |a: int| listed_subjects(groups[a], groups[a].workspaces@.len()),
        ).flatten_alt(),
    decreases n,
{
    let list = |a: int| listed_subjects(groups[a], groups[a].workspaces@.len());
    if n > 0 {
        lemma_subjects_flatten(groups, n - 1);
        lemma_group_subjects_flatten(groups[n - 1], groups[n - 1].workspaces@.len());
        let lists = Seq::new(n as nat, list);
        assert(lists.drop_last() =~= Seq::new((n - 1) as nat, list));
        assert(lists.last() == list(n - 1));
    }
}

/// A workspace that was replaced is what it was replaced by, at its place on the first group
/// of its monitor; every other workspace is what it was, and so is all that is kept beside
/// the workspaces.
pub proof fn law_one_workspace_is_replaced(
    before: AppState,
    after: AppState,
    monitor: MonitorId,
    idx: usize,
    workspace: Workspace,
    a: int,
    b: int,
)
    requires
        before.wf(),
        AppState::workspace_replaced(before, after, monitor, idx, workspace),
        0 <= a < before.workspaces@.len(),
        0 <= b < before.workspaces@[a].workspaces@.len(),
    ensures
        after.workspaces@.len() == before.workspaces@.len(),
        after.workspaces@[a].monitor == before.workspaces@[a].monitor,
        after.workspaces@[a].active == before.workspaces@[a].active,
        after.workspaces@[a].workspaces@.len() == before.workspaces@[a].workspaces@.len(),
        after.workspaces@[a].workspaces@[b] == (if before.workspaces@[a].monitor == monitor && b
            == idx {
            workspace
        } else {
            before.workspaces@[a].workspaces@[b]
        }),
        after.window_managed_at == before.window_managed_at,
        after.window_incarnations == before.window_incarnations,
        after.snap_disabled_hwnds == before.snap_disabled_hwnds,
        after.scratchpad == before.scratchpad,
        after.layout_transition == before.layout_transition,
        after.focused_monitor == before.focused_monitor,
{
    let g = choose|g: int|
        {
            &&& #[trigger] is_slot(before.workspaces@, monitor, idx, g)
            &&& after.workspaces@[g].monitor == before.workspaces@[g].monitor
            &&& after.workspaces@[g].active == before.workspaces@[g].active
            &&& after.workspaces@[g].workspaces@ == before.workspaces@[g].workspaces@.update(
                idx as int,
                workspace,
            )
            &&& forall|k: int|
                0 <= k < before.workspaces@.len() && k != g ==> #[trigger] after.workspaces@[k]
                    == before.workspaces@[k]
        };
    if a != g {
        assert(before.workspaces@[a].monitor != before.workspaces@[g].monitor);
    }
}

/// A move that was committed leaves in the workspace's place what the engine made of it:
/// the copy with the focus back on another window that had it, where the engine could do
/// that, else the plain copy.
pub proof fn law_committed_moves_keep_the_engines_copy(
    before: AppState,
    after: AppState,
    change: RuleChange,
    answer: EngineAnswer,
    a: int,
)
    requires
        before.wf(),
        AppState::move_committed(before, after, change, answer),
        0 <= a < before.workspaces@.len(),
        before.workspaces@[a].monitor == change.monitor,
        change.workspace < before.workspaces@[a].workspaces@.len(),
    ensures
        ({
            let prior = before.workspaces@[a].workspaces@[change.workspace as int].focused_visible;
            let kept = after.workspaces@[a].workspaces@[change.workspace as int];
            &&& prior is None || prior == Some(change.window_id) || answer.refocused is None
                ==> kept == answer.candidate
            &&& prior is Some && prior != Some(change.window_id) ==> (
            answer.refocused matches Some(refocused) ==> kept == refocused)
        }),
{
    assert(forall|k: int|
        0 <= k < a ==> (#[trigger] before.workspaces@[k]).monitor != before.workspaces@[a].monitor);
    assert(is_slot(before.workspaces@, change.monitor, change.workspace, a));
    lemma_slot_is_first(before.workspaces@, change.monitor, change.workspace, a);
    let old_one = before.workspaces@[a].workspaces@[change.workspace as int];
    law_one_workspace_is_replaced(
        before,
        after,
        change.monitor,
        change.workspace,
        answer.kept(old_one, change.window_id),
        a,
        change.workspace as int,
    );
}

/// A window that was released leaves its workspace with what remains there, and nothing is
/// kept of it.
pub proof fn law_unmanaged_windows_leave_the_rest(
    before: AppState,
    after: AppState,
    change: RuleChange,
    workspace: Workspace,
    a: int,
    b: int,
)
    requires
        before.wf(),
        AppState::unmanaged(before, after, change, workspace),
        0 <= a < before.workspaces@.len(),
        0 <= b < before.workspaces@[a].workspaces@.len(),
    ensures
        after.workspaces@[a].monitor == before.workspaces@[a].monitor,
        after.workspaces@[a].active == before.workspaces@[a].active,
        after.workspaces@[a].workspaces@[b] == (if before.workspaces@[a].monitor == change.monitor
            && b == change.workspace {
            workspace
        } else {
            before.workspaces@[a].workspaces@[b]
        }),
        !after.window_managed_at@.contains_key(change.window_id),
        !after.window_incarnations@.contains_key(change.window_id),
        !after.last_placed_layout_rects@.contains_key(change.window_id),
        after.snap_disabled_hwnds == before.snap_disabled_hwnds,
        after.layout_transition == before.layout_transition,
{
    let changed = AppState { workspaces: after.workspaces, ..before };
    assert(AppState::workspace_replaced(
        before,
        changed,
        change.monitor,
        change.workspace,
        workspace,
    ));
    law_one_workspace_is_replaced(
        before,
        changed,
        change.monitor,
        change.workspace,
        workspace,
        a,
        b,
    );
}

/// A scratchpad goes just where it was the one to be released.
pub proof fn law_only_the_released_scratchpad_goes(
    before: AppState,
    after: AppState,
    release: Option<WindowId>,
)
    requires
        AppState::scratchpad_let_go(before, after, release),
    ensures
        before.scratchpad matches Some(scratchpad) ==> (if release == Some(scratchpad.window_id) {
            after.scratchpad is None
        } else {
            after.scratchpad == before.scratchpad
        }),
        before.scratchpad is None ==> after.scratchpad is None,
        after.workspaces == before.workspaces,
{
}

/// Where a decision takes a window in, it lands on the window's own monitor, or on the
/// focused one where it is on none, and there on the active workspace.
pub proof fn law_decisions_respect_the_windows_monitor(
    state: &AppState,
    w: &NewWindow,
    decision: Admission,
)
    requires
        call_ensures(AppState::admit_window, (state, w), decision),
    ensures
        match decision {
            Admission::Float { monitor, workspace, .. } => lands_at(
                *state,
                *w,
                monitor,
                workspace,
            ),
            Admission::Tile { monitor, workspace } => lands_at(*state, *w, monitor, workspace),
            _ => true,
        },
{
    law_windows_land_on_their_own_monitor(*state, *w);
}

} // verus!
