//! The border and the tab strips: where they show, and how they follow focus.
use vstd::prelude::*;
use vstd::std_specs::hash::*;
use std::collections::HashMap;
use crate::config::{CompiledWindowRule, CornerStyle, TabCloseAction};
use crate::geometry::{MonitorId, Rect, WindowId};
use crate::state::{
    AppState, Column, MonitorInfo, MonitorWorkspaces, WindowPlacement, Workspace,
    DRAG_PLACEHOLDER_HWND,
};
use crate::state;
use crate::text;
use crate::transitions;

verus! {

broadcast use group_hash_axioms;

/// The corner radius of a window that says nothing about its corners.
pub const DEFAULT_CORNER_RADIUS: u32 = 8;

/// Which side of a window's edge the border is drawn on.
#[derive(Clone, Copy, Debug, PartialEq, Eq, Structural)]
pub enum BorderPosition {
    Inside,
    Outside,
}

/// What becomes of the border.
#[derive(Clone, Copy, Debug, PartialEq, Eq, Structural)]
pub enum BorderAction {
    /// It goes away.
    Hide,
    /// It shows around a rectangle.
    ShowAt { rect: Rect, position: BorderPosition, bgr: u32, corner_radius: u32 },
    /// It shows around a window, wherever that is.
    Track { position: BorderPosition, bgr: u32, corner_radius: u32 },
}

/// The colours of a tab strip, blue-green-red.
#[derive(Clone, Copy, Debug, PartialEq, Eq, Structural)]
pub struct TabStripColors {
    pub bg: u32,
    pub active_bg: u32,
    pub active_text: u32,
    pub inactive_text: u32,
    pub opacity: u8,
}

/// The column that a tab strip belongs to.
#[derive(Clone, Copy, Debug, PartialEq, Eq, Structural)]
pub struct StripKey {
    pub monitor: MonitorId,
    pub workspace: usize,
    pub column: usize,
}

/// A tab strip to be shown.
#[derive(Clone, Debug)]
pub struct StripShow {
    pub key: StripKey,
    pub rect: Rect,
    pub tabs: Vec<WindowId>,
    pub active_idx: usize,
}

/// What a [`StripShow`] says.
#[verifier::ext_equal]
pub struct StripView {
    pub key: StripKey,
    pub rect: Rect,
    pub tabs: Seq<WindowId>,
    pub active_idx: usize,
}

impl View for StripShow {
    type V = StripView;

    open spec fn view(&self) -> StripView {
        StripView {
            key: self.key,
            rect: self.rect,
            tabs: self.tabs@,
            active_idx: self.active_idx,
        }
    }
}

/// The tab strips to be shown, with what they have in common.
#[derive(Clone, Debug)]
pub struct TabStrips {
    pub strips: Vec<StripShow>,
    pub colors: TabStripColors,
    pub close_action: TabCloseAction,
}

/// What moving the foreground leaves to be done.
#[derive(Clone, Copy, Debug, PartialEq, Eq, Structural)]
pub enum FocusFollowUp {
    /// The window has the foreground: show its border and announce it.
    Announce(WindowId),
    /// The system kept the foreground where it was.
    Nothing,
    /// Nothing is focused: hide border and strips and announce that.
    Clear,
}

/// The value of a hexadecimal digit.
pub open spec fn hex_digit(c: char) -> Option<int> {
    if '0' <= c <= '9' {
        Some(c as int - '0' as int)
    } else if 'a' <= c <= 'f' {
        Some(c as int - 'a' as int + 10)
    } else if 'A' <= c <= 'F' {
        Some(c as int - 'A' as int + 10)
    } else {
        None
    }
}

/// `s` without one leading `#`.
pub open spec fn without_hash(s: Seq<char>) -> Seq<char> {
    text::without_prefix(s, '#')
}

/// `s` is six hexadecimal digits.
pub open spec fn is_hex_colour(s: Seq<char>) -> bool {
    s.len() == 6 && forall|i: int| 0 <= i < 6 ==> hex_digit(#[trigger] s[i]) is Some
}

/// The byte that two hexadecimal digits stand for.
pub open spec fn hex_byte(high: char, low: char) -> int {
    hex_digit(high)->0 * 16 + hex_digit(low)->0
}

/// The colour of six hexadecimal digits, red first, in blue-green-red order.
pub open spec fn bgr_of(s: Seq<char>) -> int {
    hex_byte(s[4], s[5]) * 0x1_0000 + hex_byte(s[2], s[3]) * 0x100 + hex_byte(s[0], s[1])
}

fn digit(c: char) -> (r: Option<u32>)
    ensures
        match hex_digit(c) {
            Some(value) => r == Some(value as u32) && 0 <= value < 16,
            None => r is None,
        },
{
    if '0' <= c && c <= '9' {
        Some(c as u32 - '0' as u32)
    } else if 'a' <= c && c <= 'f' {
        Some(c as u32 - 'a' as u32 + 10)
    } else if 'A' <= c && c <= 'F' {
        Some(c as u32 - 'A' as u32 + 10)
    } else {
        None
    }
}

/// Reads a colour such as `4285F4` or `#4285F4`: six hexadecimal digits, red
/// first, with an optional leading `#`. Gives it in blue-green-red order, `None`
/// for anything else.
pub fn hex_rgb_to_bgr(hex: &str) -> (r: Option<u32>)
    ensures
        r == (if is_hex_colour(without_hash(hex@)) {
            Some(bgr_of(without_hash(hex@)) as u32)
        } else {
            None
        }),
        r matches Some(bgr) ==> bgr == bgr_of(without_hash(hex@)) && bgr <= 0xff_ffff,
{
    let chars = text::characters(hex);
    let start: usize = if chars.len() > 0 && chars[0] == '#' {
        1
    } else {
        0
    };
    let ghost s = without_hash(hex@);
    if chars.len() - start != 6 {
        return None;
    }
    let mut values: Vec<u32> = Vec::new();
    let mut i: usize = 0;
    while i < 6
        invariant
            i <= 6,
            start <= 1,
            chars@ == hex@,
            chars.len() == start + 6,
            s.len() == 6,
            forall|k: int| 0 <= k < 6 ==> #[trigger] s[k] == chars@[start + k],
            values@.len() == i,
            forall|k: int|
                0 <= k < i ==> hex_digit(#[trigger] s[k]) == Some(values@[k] as int) && values@[k]
                    < 16,
            s == without_hash(hex@),
        decreases 6 - i,
    {
        assert(s[i as int] == chars@[start + i]);
        match digit(chars[start + i]) {
            Some(value) => {
                values.push(value);
            },
            None => {
                return None;
            },
        }
        i = i + 1;
    }
    let r: u32 = values[0] * 16 + values[1];
    let g: u32 = values[2] * 16 + values[3];
    let b: u32 = values[4] * 16 + values[5];
    assert(hex_digit(s[0]) is Some && hex_digit(s[1]) is Some && hex_digit(s[2]) is Some
        && hex_digit(s[3]) is Some && hex_digit(s[4]) is Some && hex_digit(s[5]) is Some);
    Some(b * 0x1_0000 + g * 0x100 + r)
}

/// A column's strip lies within the monitor's left and right edges.
pub open spec fn fits_between_edges(column_rect: Rect, monitor: Rect) -> bool {
    column_rect.x >= monitor.x && column_rect.right_edge() <= monitor.right_edge()
}

/// Whether a tabbed column's strip can be shown without leaving its monitor. The
/// strip spans the column, so one that reaches past an edge would paint on the
/// neighbouring monitor. A monitor of unknown geometry keeps its strips.
pub fn tab_strip_fits_owner(column_rect: Rect, owner: Option<&MonitorInfo>) -> (r: bool)
    requires
        owner matches Some(owner) ==> column_rect.edges_fit() && owner.rect.edges_fit(),
    ensures
        r == (owner matches Some(owner) ==> fits_between_edges(column_rect, owner.rect)),
{
    match owner {
        Some(owner) => column_rect.x >= owner.rect.x && column_rect.right() <= owner.rect.right(),
        None => true,
    }
}

/// The place of the first placement of a window.
pub open spec fn place_of(placements: Seq<WindowPlacement>, window_id: WindowId) -> Option<Rect>
    decreases placements.len(),
{
    if placements.len() == 0 {
        None
    } else if placements[0].window_id == window_id {
        Some(placements[0].rect)
    } else {
        place_of(placements.drop_first(), window_id)
    }
}

/// The place of the first placement of a window.
pub fn placed_rect(placements: &Vec<WindowPlacement>, window_id: WindowId) -> (r: Option<Rect>)
    ensures
        r == place_of(placements@, window_id),
{
    let mut i: usize = 0;
    assert(placements@.subrange(0, placements@.len() as int) =~= placements@);
    while i < placements.len()
        invariant
            i <= placements.len(),
            place_of(placements@, window_id) == place_of(
                placements@.subrange(i as int, placements@.len() as int),
                window_id,
            ),
        decreases placements.len() - i,
    {
        assert(placements@.subrange(i as int, placements@.len() as int).drop_first()
            =~= placements@.subrange(i + 1, placements@.len() as int));
        if placements[i].window_id == window_id {
            return Some(placements[i].rect);
        }
        i = i + 1;
    }
    None
}

/// The first rule that matches and asks for a corner style.
pub open spec fn corner_style_of(
    rules: Seq<CompiledWindowRule>,
    matched: Seq<bool>,
) -> Option<CornerStyle>
    decreases rules.len(),
{
    if rules.len() == 0 {
        None
    } else if matched[0] && rules[0].corner_style is Some {
        rules[0].corner_style
    } else {
        corner_style_of(rules.drop_first(), matched.drop_first())
    }
}

impl Workspace {
    /// The window belongs to this workspace.
    pub open spec fn holds(self, window_id: WindowId) -> bool {
        ||| self.floating@.contains(window_id)
        ||| exists|i: int|
            0 <= i < self.columns@.len() && (#[trigger] self.columns@[i]).windows@.contains(
                window_id,
            )
    }

    /// Whether the window belongs to this workspace.
    pub fn contains_window(&self, window_id: WindowId) -> (r: bool)
        ensures
            r == self.holds(window_id),
    {
        if transitions::lists(&self.floating, window_id) {
            return true;
        }
        let mut i: usize = 0;
        while i < self.columns.len()
            invariant
                i <= self.columns.len(),
                !self.floating@.contains(window_id),
                forall|k: int|
                    0 <= k < i ==> !(#[trigger] self.columns@[k]).windows@.contains(window_id),
            decreases self.columns.len() - i,
        {
            if transitions::lists(&self.columns[i].windows, window_id) {
                return true;
            }
            i = i + 1;
        }
        false
    }

    /// Whether the workspace keeps the window floating.
    pub fn is_floating(&self, window_id: WindowId) -> (r: bool)
        ensures
            r == self.floating@.contains(window_id),
    {
        transitions::lists(&self.floating, window_id)
    }

    /// Whether the window is minimized.
    pub fn is_minimized(&self, window_id: WindowId) -> (r: bool)
        ensures
            r == self.minimized@.contains(window_id),
    {
        transitions::lists(&self.minimized, window_id)
    }
}

/// The workspaces of a monitor.
pub open spec fn group_of(
    groups: Seq<MonitorWorkspaces>,
    monitor: MonitorId,
) -> Option<MonitorWorkspaces>
    decreases groups.len(),
{
    if groups.len() == 0 {
        None
    } else if groups[0].monitor == monitor {
        Some(groups[0])
    } else {
        group_of(groups.drop_first(), monitor)
    }
}

/// The active workspace of a monitor.
pub open spec fn active_workspace_of(
    groups: Seq<MonitorWorkspaces>,
    monitor: MonitorId,
) -> Option<Workspace> {
    match group_of(groups, monitor) {
        Some(group) if group.active < group.workspaces@.len() => Some(
            group.workspaces@[group.active as int],
        ),
        _ => None,
    }
}

/// The monitor's geometry, where it is known.
pub open spec fn monitor_of(monitors: Seq<MonitorInfo>, id: MonitorId) -> Option<MonitorInfo>
    decreases monitors.len(),
{
    if monitors.len() == 0 {
        None
    } else if monitors[0].id == id {
        Some(monitors[0])
    } else {
        monitor_of(monitors.drop_first(), id)
    }
}

/// Workspace `j` of group `i` holds the window, and none before it does.
pub open spec fn first_home(
    groups: Seq<MonitorWorkspaces>,
    window_id: WindowId,
    i: int,
    j: int,
) -> bool {
    &&& 0 <= i < groups.len()
    &&& 0 <= j < groups[i].workspaces@.len()
    &&& groups[i].workspaces@[j].holds(window_id)
    &&& forall|a: int, b: int|
        0 <= a < groups.len() && 0 <= b < groups[a].workspaces@.len() && (a < i || (a == i && b
            < j)) ==> !(#[trigger] groups[a].workspaces@[b]).holds(window_id)
}

/// Some workspace holds the window.
pub open spec fn is_managed(groups: Seq<MonitorWorkspaces>, window_id: WindowId) -> bool {
    exists|i: int, j: int|
        0 <= i < groups.len() && 0 <= j < groups[i].workspaces@.len() && (
        #[trigger] groups[i].workspaces@[j]).holds(window_id)
}

/// The monitor, where it is known.
pub(crate) fn monitor_info(monitors: &Vec<MonitorInfo>, id: MonitorId) -> (r: Option<&MonitorInfo>)
    ensures
        match (r, monitor_of(monitors@, id)) {
            (Some(found), Some(info)) => *found == info,
            (None, None) => true,
            _ => false,
        },
{
    let mut i: usize = 0;
    assert(monitors@.subrange(0, monitors@.len() as int) =~= monitors@);
    while i < monitors.len()
        invariant
            i <= monitors.len(),
            monitor_of(monitors@, id) == monitor_of(
                monitors@.subrange(i as int, monitors@.len() as int),
                id,
            ),
        decreases monitors.len() - i,
    {
        assert(monitors@.subrange(i as int, monitors@.len() as int).drop_first()
            =~= monitors@.subrange(i + 1, monitors@.len() as int));
        if monitors[i].id == id {
            return Some(&monitors[i]);
        }
        i = i + 1;
    }
    None
}

impl AppState {
    /// The workspace that has the focus.
    pub fn focused_workspace(&self) -> (r: Option<&Workspace>)
        ensures
            match (r, active_workspace_of(self.workspaces@, self.focused_monitor)) {
                (Some(found), Some(workspace)) => *found == workspace,
                (None, None) => true,
                _ => false,
            },
    {
        let mut i: usize = 0;
        assert(self.workspaces@.subrange(0, self.workspaces@.len() as int) =~= self.workspaces@);
        while i < self.workspaces.len()
            invariant
                i <= self.workspaces.len(),
                group_of(self.workspaces@, self.focused_monitor) == group_of(
                    self.workspaces@.subrange(i as int, self.workspaces@.len() as int),
                    self.focused_monitor,
                ),
            decreases self.workspaces.len() - i,
        {
            assert(self.workspaces@.subrange(i as int, self.workspaces@.len() as int).drop_first()
                =~= self.workspaces@.subrange(i + 1, self.workspaces@.len() as int));
            let group = &self.workspaces[i];
            if group.monitor == self.focused_monitor {
                if group.active < group.workspaces.len() {
                    return Some(&group.workspaces[group.active]);
                }
                return None;
            }
            i = i + 1;
        }
        None
    }

    /// Where the window is: the first workspace that holds it, by the position of
    /// its monitor's group and its own in that.
    pub fn locate(&self, window_id: WindowId) -> (r: Option<(usize, usize)>)
        ensures
            match r {
                Some(home) => first_home(
                    self.workspaces@,
                    window_id,
                    home.0 as int,
                    home.1 as int,
                ),
                None => !is_managed(self.workspaces@, window_id),
            },
    {
        let mut i: usize = 0;
        while i < self.workspaces.len()
            invariant
                i <= self.workspaces.len(),
                forall|a: int, b: int|
                    0 <= a < i && 0 <= b < self.workspaces@[a].workspaces@.len() ==> !(
                    #[trigger] self.workspaces@[a].workspaces@[b]).holds(window_id),
            decreases self.workspaces.len() - i,
        {
            let mut j: usize = 0;
            while j < self.workspaces[i].workspaces.len()
                invariant
                    i < self.workspaces.len(),
                    j <= self.workspaces@[i as int].workspaces@.len(),
                    forall|a: int, b: int|
                        0 <= a < i && 0 <= b < self.workspaces@[a].workspaces@.len() ==> !(
                        #[trigger] self.workspaces@[a].workspaces@[b]).holds(window_id),
                    forall|b: int|
                        0 <= b < j ==> !(
                        #[trigger] self.workspaces@[i as int].workspaces@[b]).holds(window_id),
                decreases self.workspaces@[i as int].workspaces@.len() - j,
            {
                if self.workspaces[i].workspaces[j].contains_window(window_id) {
                    return Some((i, j));
                }
                j = j + 1;
            }
            i = i + 1;
        }
        None
    }

    /// The border's colour: that of the system under high contrast, else the
    /// configured one, where that is well formed.
    pub open spec fn border_color(self, highlight_bgr: u32) -> Option<u32> {
        let digits = without_hash(self.config.appearance.active_border_color@);
        if self.high_contrast {
            Some(highlight_bgr)
        } else if is_hex_colour(digits) {
            Some(bgr_of(digits) as u32)
        } else {
            None
        }
    }

    /// The border's colour; `highlight_bgr` is the system's highlight colour.
    pub fn border_color_bgr(&self, highlight_bgr: u32) -> (r: Option<u32>)
        ensures
            r == self.border_color(highlight_bgr),
    {
        if self.high_contrast {
            return Some(highlight_bgr);
        }
        hex_rgb_to_bgr(self.config.appearance.active_border_color.as_str())
    }

    /// Takes over the system's high-contrast setting. True if it changed.
    pub fn refresh_high_contrast(&mut self, now: bool) -> (changed: bool)
        ensures
            old(self).wf() ==> final(self).wf(),
            changed == (now != old(self).high_contrast),
            *final(self) == (AppState { high_contrast: now, ..*old(self) }),
    {
        let changed = now != self.high_contrast;
        self.high_contrast = now;
        changed
    }

    /// Only the word `inside` puts the border inside.
    pub open spec fn border_side(self) -> BorderPosition {
        if self.config.appearance.active_border_position@ == "inside"@ {
            BorderPosition::Inside
        } else {
            BorderPosition::Outside
        }
    }

    /// Which side of a window's edge the border is drawn on.
    pub fn border_position(&self) -> (r: BorderPosition)
        ensures
            r == self.border_side(),
    {
        if text::same_text(self.config.appearance.active_border_position.as_str(), "inside") {
            BorderPosition::Inside
        } else {
            BorderPosition::Outside
        }
    }

    /// The focused workspace shows one window only.
    pub open spec fn focus_is_fullscreen(self) -> bool {
        active_workspace_of(self.workspaces@, self.focused_monitor) matches Some(workspace)
            && workspace.fullscreen
    }

    /// The first workspace that holds the window keeps it floating.
    pub open spec fn floats_at_home(self, window_id: WindowId) -> bool {
        exists|i: int, j: int|
            #[trigger] first_home(self.workspaces@, window_id, i, j)
                && self.workspaces@[i].workspaces@[j].floating@.contains(window_id)
    }

    /// What becomes of the border when `window_id` has the focus: it goes with a
    /// window that is managed and shown, unless borders are off or have no
    /// colour. A resize preview has it at the preview. Else it is hidden while a
    /// tiled window is dragged, so that it does not follow the window off its
    /// slot; a tiled window has it at the place that the layout gives, and loses
    /// it with the place; a floating window is followed.
    pub open spec fn border_action(
        self,
        window_id: WindowId,
        layout_rect: Option<Rect>,
        highlight_bgr: u32,
        corner_radius: u32,
    ) -> BorderAction {
        let position = self.border_side();
        if self.paused || self.focus_is_fullscreen() || !is_managed(self.workspaces@, window_id)
            || !self.config.appearance.active_border {
            BorderAction::Hide
        } else {
            match self.border_color(highlight_bgr) {
                None => BorderAction::Hide,
                Some(bgr) => match self.resize_preview_display_rect {
                    Some(rect) => BorderAction::ShowAt { rect, position, bgr, corner_radius },
                    None => if self.tiled_drag {
                        BorderAction::Hide
                    } else if !self.floats_at_home(window_id) {
                        match layout_rect {
                            Some(rect) => BorderAction::ShowAt {
                                rect,
                                position,
                                bgr,
                                corner_radius,
                            },
                            None => BorderAction::Hide,
                        }
                    } else {
                        BorderAction::Track { position, bgr, corner_radius }
                    },
                },
            }
        }
    }

    /// Decides what becomes of the border when `window_id` has the focus.
    /// `layout_rect` is the place that the layout gives the window at this
    /// moment, `highlight_bgr` the system's highlight colour; `matched` and
    /// `window_radius` are as in [`Self::corner_radius_for_window`].
    pub fn show_border(
        &self,
        window_id: WindowId,
        layout_rect: Option<Rect>,
        highlight_bgr: u32,
        matched: Option<&Vec<bool>>,
        window_radius: Option<u32>,
    ) -> (r: BorderAction)
        requires
            matched matches Some(matched) ==> matched@.len() == self.compiled_rules@.len(),
        ensures
            r == self.border_action(
                window_id,
                layout_rect,
                highlight_bgr,
                self.corner_radius(matched, window_radius),
            ),
    {
        let fullscreen = match self.focused_workspace() {
            Some(workspace) => workspace.fullscreen,
            None => false,
        };
        if self.paused || fullscreen {
            return BorderAction::Hide;
        }
        let home = match self.locate(window_id) {
            Some(home) => home,
            None => {
                return BorderAction::Hide;
            },
        };
        proof {
            let (i, j) = (home.0 as int, home.1 as int);
            assert(self.workspaces@[i].workspaces@[j].holds(window_id));
            assert(is_managed(self.workspaces@, window_id));
            assert forall|a: int, b: int|
                #[trigger] first_home(self.workspaces@, window_id, a, b) implies a == i && b
                == j by {
                assert(self.workspaces@[a].workspaces@[b].holds(window_id));
            }
        }
        if !self.config.appearance.active_border {
            return BorderAction::Hide;
        }
        let bgr: u32 = match self.border_color_bgr(highlight_bgr) {
            Some(bgr) => bgr,
            None => {
                return BorderAction::Hide;
            },
        };
        let position = self.border_position();
        let corner_radius: u32 = self.corner_radius_for_window(matched, window_radius);
        if let Some(rect) = self.resize_preview_display_rect {
            return BorderAction::ShowAt { rect, position, bgr, corner_radius };
        }
        if self.tiled_drag {
            return BorderAction::Hide;
        }
        if !self.workspaces[home.0].workspaces[home.1].is_floating(window_id) {
            match layout_rect {
                Some(rect) => BorderAction::ShowAt { rect, position, bgr, corner_radius },
                None => BorderAction::Hide,
            }
        } else {
            BorderAction::Track { position, bgr, corner_radius }
        }
    }

    /// The placements of the workspace that holds the window, if its monitor is
    /// known.
    pub open spec fn home_placements(self, window_id: WindowId) -> Option<Seq<WindowPlacement>> {
        if exists|i: int, j: int|
            #[trigger] first_home(self.workspaces@, window_id, i, j)
                && transitions::is_known_monitor(self.monitors@, self.workspaces@[i].monitor) {
            let (i, j) = choose|i: int, j: int|
                #[trigger] first_home(self.workspaces@, window_id, i, j)
                    && transitions::is_known_monitor(self.monitors@, self.workspaces@[i].monitor);
            Some(self.workspaces@[i].workspaces@[j].placements@)
        } else {
            None
        }
    }

    /// The placements of the workspace that holds the window, if its monitor is
    /// known.
    pub fn placements_around(&self, window_id: WindowId) -> (r: Option<&Vec<WindowPlacement>>)
        ensures
            match (r, self.home_placements(window_id)) {
                (Some(found), Some(placements)) => found@ == placements,
                (None, None) => true,
                _ => false,
            },
    {
        let home = match self.locate(window_id) {
            Some(home) => home,
            None => {
                assert forall|i: int, j: int| !#[trigger] first_home(
                    self.workspaces@,
                    window_id,
                    i,
                    j,
                ) by {
                    if first_home(self.workspaces@, window_id, i, j) {
                        assert(self.workspaces@[i].workspaces@[j].holds(window_id));
                    }
                }
                return None;
            },
        };
        proof {
            let (i, j) = (home.0 as int, home.1 as int);
            assert forall|a: int, b: int|
                #[trigger] first_home(self.workspaces@, window_id, a, b) implies a == i && b
                == j by {
                assert(self.workspaces@[a].workspaces@[b].holds(window_id));
                assert(self.workspaces@[i].workspaces@[j].holds(window_id));
            }
        }
        let group = &self.workspaces[home.0];
        if !transitions::known_monitor(&self.monitors, group.monitor) {
            return None;
        }
        Some(&group.workspaces[home.1].placements)
    }

    /// The place that the layout gives a window at this moment: where a transition
    /// has brought it, else where it belongs. `morphed` and `exited` are the places
    /// on the way of the placements around the window and of the exit windows.
    pub fn compute_window_layout_rect(
        &self,
        window_id: WindowId,
        morphed: &Vec<Rect>,
        exited: &Vec<Rect>,
    ) -> (r: Option<Rect>)
        requires
            self.layout_transition is Some && self.home_placements(window_id) is Some ==> {
                &&& morphed@.len() == self.home_placements(window_id)->0.len()
                &&& exited@.len() == self.layout_transition->0.exits@.len()
            },
        ensures
            r == (match self.home_placements(window_id) {
                None => None,
                Some(placements) => match self.layout_transition {
                    None => place_of(placements, window_id),
                    Some(transition) => place_of(
                        transitions::in_transition(transition, placements, morphed@, exited@),
                        window_id,
                    ),
                },
            }),
    {
        let placements = match self.placements_around(window_id) {
            Some(placements) => placements,
            None => {
                return None;
            },
        };
        match &self.layout_transition {
            None => placed_rect(placements, window_id),
            Some(transition) => {
                let mut moved: Vec<WindowPlacement> = Vec::new();
                let mut i: usize = 0;
                while i < placements.len()
                    invariant
                        i <= placements.len(),
                        moved@ == placements@.take(i as int),
                    decreases placements.len() - i,
                {
                    assert(placements@.take(i + 1) =~= placements@.take(i as int).push(
                        placements@[i as int],
                    ));
                    moved.push(placements[i]);
                    i = i + 1;
                }
                assert(placements@.take(i as int) =~= placements@);
                transitions::apply_transition_interpolation(
                    transition,
                    &mut moved,
                    morphed,
                    exited,
                );
                placed_rect(&moved, window_id)
            },
        }
    }

    /// Some rule asks for a corner style, so that the window has to be matched
    /// against the rules.
    pub fn corner_rules_exist(&self) -> (r: bool)
        ensures
            r == exists|i: int|
                0 <= i < self.compiled_rules@.len() && (
                #[trigger] self.compiled_rules@[i]).corner_style is Some,
    {
        let mut i: usize = 0;
        while i < self.compiled_rules.len()
            invariant
                i <= self.compiled_rules.len(),
                forall|k: int|
                    0 <= k < i ==> (#[trigger] self.compiled_rules@[k]).corner_style is None,
            decreases self.compiled_rules.len() - i,
        {
            if self.compiled_rules[i].corner_style.is_some() {
                return true;
            }
            i = i + 1;
        }
        false
    }

    /// The corner radius of a window: that of the first matching rule with a
    /// corner style, else what the window itself asks for, else the default.
    pub open spec fn corner_radius(
        self,
        matched: Option<&Vec<bool>>,
        window_radius: Option<u32>,
    ) -> u32 {
        match matched {
            Some(matched) if corner_style_of(self.compiled_rules@, matched@) is Some =>
                corner_style_of(self.compiled_rules@, matched@)->0.radius(),
            _ => match window_radius {
                Some(radius) => radius,
                None => DEFAULT_CORNER_RADIUS,
            },
        }
    }

    /// The corner radius of a window: that of the first matching rule with a
    /// corner style, else what the window itself asks for, else the default.
    /// `matched` says which rules match; it is `None` for a window that the
    /// system would not describe.
    pub fn corner_radius_for_window(
        &self,
        matched: Option<&Vec<bool>>,
        window_radius: Option<u32>,
    ) -> (r: u32)
        requires
            matched matches Some(matched) ==> matched@.len() == self.compiled_rules@.len(),
        ensures
            r == self.corner_radius(matched, window_radius),
    {
        if let Some(verdicts) = matched {
            let rules = &self.compiled_rules;
            let mut i: usize = 0;
            assert(rules@.subrange(0, rules@.len() as int) =~= rules@);
            assert(verdicts@.subrange(0, verdicts@.len() as int) =~= verdicts@);
            while i < rules.len()
                invariant
                    i <= rules.len(),
                    verdicts@.len() == rules@.len(),
                    corner_style_of(rules@, verdicts@) == corner_style_of(
                        rules@.subrange(i as int, rules@.len() as int),
                        verdicts@.subrange(i as int, verdicts@.len() as int),
                    ),
                    *rules == self.compiled_rules,
                    matched == Some(verdicts),
                decreases rules.len() - i,
            {
                assert(rules@.subrange(i as int, rules@.len() as int).drop_first()
                    =~= rules@.subrange(i + 1, rules@.len() as int));
                assert(verdicts@.subrange(i as int, verdicts@.len() as int).drop_first()
                    =~= verdicts@.subrange(i + 1, verdicts@.len() as int));
                if verdicts[i] {
                    if let Some(style) = rules[i].corner_style {
                        assert(verdicts@.subrange(i as int, verdicts@.len() as int)[0]);
                        assert(rules@.subrange(i as int, rules@.len() as int)[0]
                            == rules@[i as int]);
                        return style.radius_px();
                    }
                }
                i = i + 1;
            }
        }
        match window_radius {
            Some(radius) => radius,
            None => DEFAULT_CORNER_RADIUS,
        }
    }

    /// The window that the foreground should go to: the floating window that has
    /// it already, if the focused workspace keeps it, else that workspace's
    /// focused window.
    pub open spec fn focus_goal(self) -> Option<WindowId> {
        match active_workspace_of(self.workspaces@, self.focused_monitor) {
            None => None,
            Some(workspace) => match self.previous_focused_hwnd {
                Some(id) if workspace.floating@.contains(id) => Some(id),
                _ => workspace.focused_visible,
            },
        }
    }

    /// The window that the foreground should go to.
    pub fn focus_target(&self) -> (r: Option<WindowId>)
        ensures
            r == self.focus_goal(),
    {
        match self.focused_workspace() {
            None => None,
            Some(workspace) => {
                if let Some(id) = self.previous_focused_hwnd {
                    if workspace.is_floating(id) {
                        return Some(id);
                    }
                }
                workspace.focused_visible
            },
        }
    }

    /// Takes note of an attempt to give [`Self::focus_target`] the foreground;
    /// `transferred` says that the system did. Only an observed transfer is
    /// recorded; without a target nothing is focused any more.
    pub fn sync_foreground_window(&mut self, transferred: bool) -> (r: FocusFollowUp)
        ensures
            old(self).wf() ==> final(self).wf(),
            r == (match old(self).focus_goal() {
                Some(id) => if transferred {
                    FocusFollowUp::Announce(id)
                } else {
                    FocusFollowUp::Nothing
                },
                None => FocusFollowUp::Clear,
            }),
            *final(self) == (AppState {
                previous_focused_hwnd: match old(self).focus_goal() {
                    Some(id) => if transferred {
                        Some(id)
                    } else {
                        old(self).previous_focused_hwnd
                    },
                    None => None,
                },
                ..*old(self)
            }),
    {
        match self.focus_target() {
            Some(id) => if transferred {
                self.previous_focused_hwnd = Some(id);
                FocusFollowUp::Announce(id)
            } else {
                FocusFollowUp::Nothing
            },
            None => {
                self.previous_focused_hwnd = None;
                FocusFollowUp::Clear
            },
        }
    }
}

/// A handoff counts only if the target was not hidden by the placement engine,
/// so that it was tried at all, and the system confirmed it.
pub fn foreground_transferred(target_cloaked: bool, handoff: Option<bool>) -> (r: bool)
    ensures
        r == (!target_cloaked && handoff == Some(true)),
{
    !target_cloaked && (match handoff {
        Some(confirmed) => confirmed,
        None => false,
    })
}

/// The windows without the stand-in for a dragged one.
pub open spec fn real_windows(windows: Seq<WindowId>) -> Seq<WindowId>
    decreases windows.len(),
{
    if windows.len() == 0 {
        Seq::empty()
    } else if windows.last() == DRAG_PLACEHOLDER_HWND {
        real_windows(windows.drop_last())
    } else {
        real_windows(windows.drop_last()).push(windows.last())
    }
}

/// The tab that a strip highlights: the one that the column remembers, unless it
/// is gone or minimized, else the one that shows.
pub open spec fn highlighted_tab(
    column: Column,
    minimized: Seq<WindowId>,
    visible_tab: usize,
) -> usize {
    let stored = match column.active_tab {
        Some(tab) => tab,
        None => visible_tab,
    };
    if stored < column.windows@.len() && !minimized.contains(column.windows@[stored as int]) {
        stored
    } else {
        visible_tab
    }
}

/// The strip of a column: a tabbed column with a visible tab that has a place
/// within its monitor has one.
pub open spec fn strip_of(
    monitor: MonitorId,
    workspace_idx: usize,
    workspace: Workspace,
    c: int,
    rects: Map<u64, Rect>,
    owner: Option<MonitorInfo>,
) -> Option<StripView> {
    let column = workspace.columns@[c];
    match column.visible_tab {
        Some(tab) if column.tabbed && tab < column.windows@.len() => {
            let window_id = column.windows@[tab as int];
            if rects.contains_key(window_id) && (owner matches Some(owner) ==> fits_between_edges(
                rects[window_id],
                owner.rect,
            )) {
                Some(
                    StripView {
                        key: StripKey { monitor, workspace: workspace_idx, column: c as usize },
                        rect: rects[window_id],
                        tabs: real_windows(column.windows@),
                        active_idx: highlighted_tab(column, workspace.minimized@, tab),
                    },
                )
            } else {
                None
            }
        },
        _ => None,
    }
}

/// The strips of the first `n` columns of a workspace.
pub open spec fn strips_of_columns(
    monitor: MonitorId,
    workspace_idx: usize,
    workspace: Workspace,
    n: int,
    rects: Map<u64, Rect>,
    owner: Option<MonitorInfo>,
) -> Seq<StripView>
    decreases n,
{
    if n <= 0 {
        Seq::empty()
    } else {
        let before = strips_of_columns(monitor, workspace_idx, workspace, n - 1, rects, owner);
        match strip_of(monitor, workspace_idx, workspace, n - 1, rects, owner) {
            Some(strip) => before.push(strip),
            None => before,
        }
    }
}

/// The strips of a monitor: those of its active workspace, unless that shows one
/// window only.
pub open spec fn strips_of_group(
    group: MonitorWorkspaces,
    rects: Map<u64, Rect>,
    monitors: Seq<MonitorInfo>,
) -> Seq<StripView> {
    if group.active < group.workspaces@.len()
        && !group.workspaces@[group.active as int].fullscreen {
        let workspace = group.workspaces@[group.active as int];
        strips_of_columns(
            group.monitor,
            group.active,
            workspace,
            workspace.columns@.len() as int,
            rects,
            monitor_of(monitors, group.monitor),
        )
    } else {
        Seq::empty()
    }
}

/// The strips of the first `n` monitors.
pub open spec fn strips_of(
    groups: Seq<MonitorWorkspaces>,
    n: int,
    rects: Map<u64, Rect>,
    monitors: Seq<MonitorInfo>,
) -> Seq<StripView>
    decreases n,
{
    if n <= 0 {
        Seq::empty()
    } else {
        strips_of(groups, n - 1, rects, monitors) + strips_of_group(
            groups[n - 1],
            rects,
            monitors,
        )
    }
}

/// The columns of a monitor's active workspace.
pub open spec fn shown_columns(group: MonitorWorkspaces) -> Seq<Column> {
    group.workspaces@[group.active as int].columns@
}

/// The column is tabbed, on an active workspace that does not show one window only.
pub open spec fn is_tab_column(group: MonitorWorkspaces, c: int) -> bool {
    &&& group.active < group.workspaces@.len()
    &&& !group.workspaces@[group.active as int].fullscreen
    &&& 0 <= c < shown_columns(group).len()
    &&& shown_columns(group)[c].tabbed
}

proof fn lemma_real_windows(windows: Seq<WindowId>)
    ensures
        forall|id: WindowId| #[trigger]
            real_windows(windows).contains(id) <==> windows.contains(id) && id
                != DRAG_PLACEHOLDER_HWND,
    decreases windows.len(),
{
    if windows.len() > 0 {
        let rest = windows.drop_last();
        lemma_real_windows(rest);
        assert(windows =~= rest.push(windows.last()));
        assert forall|id: WindowId| #[trigger] real_windows(windows).contains(id)
            <==> windows.contains(id) && id != DRAG_PLACEHOLDER_HWND by {
            lemma_concat_contains(rest, seq![windows.last()], id);
            assert(rest + seq![windows.last()] =~= windows);
            assert(seq![windows.last()].contains(id) <==> id == windows.last()) by {
                assert(seq![windows.last()][0] == windows.last());
            }
            lemma_concat_contains(real_windows(rest), seq![windows.last()], id);
            assert(real_windows(rest) + seq![windows.last()] =~= real_windows(rest).push(
                windows.last(),
            ));
        }
    }
}

pub(crate) proof fn lemma_concat_contains(a: Seq<WindowId>, b: Seq<WindowId>, id: WindowId)
    ensures
        (a + b).contains(id) <==> a.contains(id) || b.contains(id),
{
    if a.contains(id) {
        let k = choose|k: int| 0 <= k < a.len() && a[k] == id;
        assert((a + b)[k] == id);
    }
    if b.contains(id) {
        let k = choose|k: int| 0 <= k < b.len() && b[k] == id;
        assert((a + b)[a.len() + k] == id);
    }
    if (a + b).contains(id) {
        let k = choose|k: int| 0 <= k < (a + b).len() && (a + b)[k] == id;
        if k < a.len() {
            assert(a[k] == id);
        } else {
            assert(b[k - a.len()] == id);
        }
    }
}

/// What the strips of a list say.
pub open spec fn strip_views(strips: Seq<StripShow>) -> Seq<StripView> {
    strips.map_values(|strip: StripShow| strip@)
}

fn keep_real_windows(windows: &Vec<WindowId>) -> (r: Vec<WindowId>)
    ensures
        r@ == real_windows(windows@),
{
    let mut r: Vec<WindowId> = Vec::new();
    let mut i: usize = 0;
    while i < windows.len()
        invariant
            i <= windows.len(),
            r@ == real_windows(windows@.take(i as int)),
        decreases windows.len() - i,
    {
        assert(windows@.take(i + 1).drop_last() =~= windows@.take(i as int));
        if windows[i] != DRAG_PLACEHOLDER_HWND {
            r.push(windows[i]);
        }
        i = i + 1;
    }
    assert(windows@.take(i as int) =~= windows@);
    r
}

fn column_strip(
    state: &AppState,
    monitor: MonitorId,
    workspace_idx: usize,
    workspace: &Workspace,
    c: usize,
    on_the_way: &HashMap<u64, Rect>,
    owner: Option<&MonitorInfo>,
) -> (r: Option<StripShow>)
    requires
        c < workspace.columns@.len(),
        state.tab_edges_fit(on_the_way@),
        owner matches Some(owner) ==> owner.rect.edges_fit(),
    ensures
        match (
            r,
            strip_of(
                monitor,
                workspace_idx,
                *workspace,
                c as int,
                state.tab_places(on_the_way@),
                match owner {
                    Some(owner) => Some(*owner),
                    None => None,
                },
            ),
        ) {
            (Some(shown), Some(strip)) => shown@ == strip,
            (None, None) => true,
            _ => false,
        },
{
    let column = &workspace.columns[c];
    if !column.tabbed {
        return None;
    }
    let visible_tab: usize = match column.visible_tab {
        Some(tab) => tab,
        None => {
            return None;
        },
    };
    if visible_tab >= column.windows.len() {
        return None;
    }
    let rect = match state.tab_place(column.windows[visible_tab], on_the_way) {
        Some(rect) => rect,
        None => {
            return None;
        },
    };
    assert(state.tab_places(on_the_way@).contains_key(column.windows@[visible_tab as int]));
    if !tab_strip_fits_owner(rect, owner) {
        return None;
    }
    let stored: usize = match column.active_tab {
        Some(tab) => tab,
        None => visible_tab,
    };
    let active_idx: usize = if stored < column.windows.len() && !workspace.is_minimized(
        column.windows[stored],
    ) {
        stored
    } else {
        visible_tab
    };
    Some(
        StripShow {
            key: StripKey { monitor, workspace: workspace_idx, column: c },
            rect,
            tabs: keep_real_windows(&column.windows),
            active_idx,
        },
    )
}

impl AppState {
    /// The place of a tab at this moment: where the layout puts it, except for a tab
    /// that a transition moves, whose place `on_the_way` says.
    pub open spec fn place_now(self, id: WindowId, on_the_way: Map<u64, Rect>) -> Option<Rect> {
        match self.home_placements(id) {
            None => None,
            Some(placements) => match (self.layout_transition, place_of(placements, id)) {
                (None, place) => place,
                (Some(transition), Some(rect)) if !transition.start_rects@.contains_key(
                    id,
                ) => Some(rect),
                _ => if on_the_way.contains_key(id) {
                    Some(on_the_way[id])
                } else {
                    None
                },
            },
        }
    }

    /// The places of all tabs at this moment.
    pub open spec fn tab_places(self, on_the_way: Map<u64, Rect>) -> Map<u64, Rect> {
        Map::new(
            |id: u64| self.place_now(id, on_the_way) is Some,
            |id: u64| self.place_now(id, on_the_way)->0,
        )
    }

    /// The right edges of all tabs can be computed.
    pub open spec fn tab_edges_fit(self, on_the_way: Map<u64, Rect>) -> bool {
        forall|id: u64| #[trigger]
            self.tab_places(on_the_way).contains_key(id) ==> self.tab_places(
                on_the_way,
            )[id].edges_fit()
    }

    fn tab_place(&self, id: WindowId, on_the_way: &HashMap<u64, Rect>) -> (r: Option<Rect>)
        ensures
            r == self.place_now(id, on_the_way@),
    {
        let place = match self.placements_around(id) {
            Some(placements) => placed_rect(placements, id),
            None => {
                return None;
            },
        };
        match &self.layout_transition {
            None => place,
            Some(transition) => {
                if place.is_some() && !transition.start_rects.contains_key(&id) {
                    return place;
                }
                match on_the_way.get(&id) {
                    Some(rect) => Some(*rect),
                    None => None,
                }
            },
        }
    }

    /// The tab strips that should show; none while tiling is paused.
    pub open spec fn wanted_strips(self, on_the_way: Map<u64, Rect>) -> Seq<StripView> {
        if self.paused {
            Seq::empty()
        } else {
            strips_of(
                self.workspaces@,
                self.workspaces@.len() as int,
                self.tab_places(on_the_way),
                self.monitors@,
            )
        }
    }

    /// Works out the tab strips that should show, column by column, each at the
    /// place of its visible tab; and what closing a tab does. `on_the_way` holds the
    /// places of the tabs that a transition moves. `None`, so that nothing is shown or
    /// dropped, where nobody takes what the user does with tabs.
    pub fn update_tab_strip(
        &self,
        actions_are_taken: bool,
        on_the_way: &HashMap<u64, Rect>,
    ) -> (r: Option<TabStrips>)
        requires
            actions_are_taken ==> self.tab_edges_fit(on_the_way@),
            forall|i: int|
                0 <= i < self.monitors@.len() ==> (#[trigger] self.monitors@[i]).rect.edges_fit(),
        ensures
            match r {
                Some(update) => {
                    &&& actions_are_taken
                    &&& strip_views(update.strips@) == self.wanted_strips(on_the_way@)
                    &&& update.colors == self.strip_colors()
                    &&& update.close_action == self.config.behavior.tab_close_action
                },
                None => !actions_are_taken,
            },
    {
        if !actions_are_taken {
            return None;
        }
        Some(
            TabStrips {
                strips: self.strips_to_show(on_the_way),
                colors: self.tab_strip_colors(),
                close_action: self.config.behavior.tab_close_action,
            },
        )
    }

    fn strips_to_show(&self, on_the_way: &HashMap<u64, Rect>) -> (r: Vec<StripShow>)
        requires
            self.tab_edges_fit(on_the_way@),
            forall|i: int|
                0 <= i < self.monitors@.len() ==> (#[trigger] self.monitors@[i]).rect.edges_fit(),
        ensures
            strip_views(r@) == self.wanted_strips(on_the_way@),
    {
        let ghost rects = self.tab_places(on_the_way@);
        let mut r: Vec<StripShow> = Vec::new();
        if self.paused {
            assert(strip_views(r@) =~= self.wanted_strips(on_the_way@));
            return r;
        }
        assert(strip_views(r@) =~= Seq::empty());
        let mut i: usize = 0;
        while i < self.workspaces.len()
            invariant
                i <= self.workspaces.len(),
                !self.paused,
                self.tab_edges_fit(on_the_way@),
                rects == self.tab_places(on_the_way@),
                forall|k: int|
                    0 <= k < self.monitors@.len() ==> (
                    #[trigger] self.monitors@[k]).rect.edges_fit(),
                strip_views(r@) == strips_of(self.workspaces@, i as int, rects, self.monitors@),
            decreases self.workspaces.len() - i,
        {
            let group = &self.workspaces[i];
            let ghost base = strip_views(r@);
            if group.active < group.workspaces.len() && !group.workspaces[group.active].fullscreen {
                let workspace = &group.workspaces[group.active];
                let owner = monitor_info(&self.monitors, group.monitor);
                proof {
                    lemma_monitor_is_listed(self.monitors@, group.monitor);
                }
                let ghost spec_owner = monitor_of(self.monitors@, group.monitor);
                let mut c: usize = 0;
                assert(base + Seq::<StripView>::empty() =~= base);
                while c < workspace.columns.len()
                    invariant
                        c <= workspace.columns.len(),
                        self.tab_edges_fit(on_the_way@),
                        rects == self.tab_places(on_the_way@),
                        owner matches Some(owner) ==> owner.rect.edges_fit(),
                        spec_owner == (match owner {
                            Some(owner) => Some(*owner),
                            None => None,
                        }),
                        strip_views(r@) == base + strips_of_columns(
                            group.monitor,
                            group.active,
                            *workspace,
                            c as int,
                            rects,
                            spec_owner,
                        ),
                    decreases workspace.columns.len() - c,
                {
                    let ghost before = r@;
                    match column_strip(
                        self,
                        group.monitor,
                        group.active,
                        workspace,
                        c,
                        on_the_way,
                        owner,
                    ) {
                        Some(strip) => {
                            r.push(strip);
                            assert(strip_views(r@) =~= strip_views(before).push(strip@));
                        },
                        None => {},
                    }
                    c = c + 1;
                    assert(strip_views(r@) =~= base + strips_of_columns(
                        group.monitor,
                        group.active,
                        *workspace,
                        c as int,
                        rects,
                        spec_owner,
                    ));
                }
            }
            i = i + 1;
            assert(strip_views(r@) =~= strips_of(
                self.workspaces@,
                i as int,
                rects,
                self.monitors@,
            ));
        }
        r
    }

    /// The window is a tab of a column that may have a strip: on an active workspace
    /// that does not show one window only.
    pub open spec fn is_tab(self, window_id: WindowId) -> bool {
        window_id != DRAG_PLACEHOLDER_HWND && exists|a: int, c: int|
            0 <= a < self.workspaces@.len() && is_tab_column(self.workspaces@[a], c)
                && #[trigger] shown_columns(self.workspaces@[a])[c].windows@.contains(window_id)
    }

    /// The windows whose icons the strips need.
    pub fn tab_windows(&self) -> (r: Vec<WindowId>)
        ensures
            forall|id: WindowId| #[trigger] r@.contains(id) <==> self.is_tab(id),
    {
        let mut r: Vec<WindowId> = Vec::new();
        let mut a: usize = 0;
        while a < self.workspaces.len()
            invariant
                a <= self.workspaces.len(),
                forall|id: WindowId| #[trigger]
                    r@.contains(id) <==> id != DRAG_PLACEHOLDER_HWND && exists|x: int, c: int|
                        0 <= x < a && is_tab_column(self.workspaces@[x], c)
                            && #[trigger] shown_columns(
                            self.workspaces@[x],
                        )[c].windows@.contains(id),
            decreases self.workspaces.len() - a,
        {
            let group = &self.workspaces[a];
            if group.active < group.workspaces.len() && !group.workspaces[group.active].fullscreen {
                let columns = &group.workspaces[group.active].columns;
                let ghost base = r@;
                let mut c: usize = 0;
                while c < columns.len()
                    invariant
                        c <= columns.len(),
                        a < self.workspaces.len(),
                        *group == self.workspaces@[a as int],
                        columns@ == shown_columns(*group),
                        forall|id: WindowId| #[trigger]
                            r@.contains(id) <==> base.contains(id) || (id != DRAG_PLACEHOLDER_HWND
                                && exists|y: int|
                                0 <= y < c && (#[trigger] columns@[y]).tabbed
                                    && columns@[y].windows@.contains(id)),
                    decreases columns.len() - c,
                {
                    if columns[c].tabbed {
                        let mut added = keep_real_windows(&columns[c].windows);
                        let ghost before = r@;
                        let ghost extra = added@;
                        r.append(&mut added);
                        proof {
                            lemma_real_windows(columns@[c as int].windows@);
                            assert forall|id: WindowId| #[trigger] r@.contains(id)
                                <==> before.contains(id) || extra.contains(id) by {
                                lemma_concat_contains(before, extra, id);
                            }
                        }
                    }
                    c = c + 1;
                }
                proof {
                    assert forall|id: WindowId| #[trigger] r@.contains(id) <==> id
                        != DRAG_PLACEHOLDER_HWND && exists|x: int, y: int|
                        0 <= x < a + 1 && is_tab_column(self.workspaces@[x], y)
                            && #[trigger] shown_columns(
                            self.workspaces@[x],
                        )[y].windows@.contains(id) by {
                        if base.contains(id) {
                            let (x, y) = choose|x: int, y: int|
                                0 <= x < a && is_tab_column(self.workspaces@[x], y)
                                    && #[trigger] shown_columns(
                                    self.workspaces@[x],
                                )[y].windows@.contains(id);
                            assert(0 <= x < a + 1);
                        } else if r@.contains(id) {
                            let y = choose|y: int|
                                0 <= y < columns@.len() && (#[trigger] columns@[y]).tabbed
                                    && columns@[y].windows@.contains(id);
                            assert(is_tab_column(self.workspaces@[a as int], y));
                            assert(shown_columns(
                                self.workspaces@[a as int],
                            )[y].windows@.contains(id));
                        }
                        if id != DRAG_PLACEHOLDER_HWND && exists|x: int, y: int|
                            0 <= x < a + 1 && is_tab_column(self.workspaces@[x], y)
                                && #[trigger] shown_columns(
                                self.workspaces@[x],
                            )[y].windows@.contains(id) {
                            let (x, y) = choose|x: int, y: int|
                                0 <= x < a + 1 && is_tab_column(self.workspaces@[x], y)
                                    && #[trigger] shown_columns(
                                    self.workspaces@[x],
                                )[y].windows@.contains(id);
                            if x == a {
                                assert(columns@[y].tabbed);
                            } else {
                                assert(base.contains(id));
                            }
                        }
                    }
                }
            } else {
                assert(forall|c: int| !is_tab_column(self.workspaces@[a as int], c));
            }
            a = a + 1;
        }
        r
    }

    /// The title of a tab: the user's, else the window's own, else none.
    pub fn tab_title(&self, window_id: WindowId, live_title: Option<&String>) -> (r: String)
        ensures
            r@ == (if self.tab_title_overrides@.contains_key(window_id) {
                self.tab_title_overrides@[window_id]@
            } else {
                match live_title {
                    Some(title) => title@,
                    None => Seq::empty(),
                }
            }),
    {
        match self.tab_title_overrides.get(&window_id) {
            Some(title) => title.clone(),
            None => match live_title {
                Some(title) => title.clone(),
                None => String::new(),
            },
        }
    }

    /// A configured colour, or the given one where it is not well formed.
    pub open spec fn colour_or(setting: Seq<char>, fallback: u32) -> u32 {
        if is_hex_colour(without_hash(setting)) {
            bgr_of(without_hash(setting)) as u32
        } else {
            fallback
        }
    }

    /// The colours of the tab strips.
    pub open spec fn strip_colors(self) -> TabStripColors {
        TabStripColors {
            bg: Self::colour_or(self.config.appearance.tab_strip_bg@, 0x1F1F1F),
            active_bg: Self::colour_or(self.config.appearance.tab_strip_active_bg@, 0x303030),
            active_text: Self::colour_or(self.config.appearance.tab_strip_active_text@, 0xFFFFFF),
            inactive_text: Self::colour_or(
                self.config.appearance.tab_strip_inactive_text@,
                0xA0A0A0,
            ),
            opacity: self.config.appearance.tab_strip_opacity,
        }
    }

    /// The colours of the tab strips.
    pub fn tab_strip_colors(&self) -> (r: TabStripColors)
        ensures
            r == self.strip_colors(),
    {
        let app = &self.config.appearance;
        TabStripColors {
            bg: hex_rgb_to_bgr(app.tab_strip_bg.as_str()).unwrap_or(0x1F1F1F),
            active_bg: hex_rgb_to_bgr(app.tab_strip_active_bg.as_str()).unwrap_or(0x303030),
            active_text: hex_rgb_to_bgr(app.tab_strip_active_text.as_str()).unwrap_or(0xFFFFFF),
            inactive_text: hex_rgb_to_bgr(app.tab_strip_inactive_text.as_str()).unwrap_or(
                0xA0A0A0,
            ),
            opacity: app.tab_strip_opacity,
        }
    }
}

proof fn lemma_monitor_is_listed(monitors: Seq<MonitorInfo>, id: MonitorId)
    ensures
        monitor_of(monitors, id) matches Some(info) ==> exists|k: int|
            0 <= k < monitors.len() && #[trigger] monitors[k] == info,
    decreases monitors.len(),
{
    if monitors.len() > 0 && monitors[0].id != id {
        lemma_monitor_is_listed(monitors.drop_first(), id);
        if let Some(info) = monitor_of(monitors, id) {
            let k = choose|k: int|
                0 <= k < monitors.drop_first().len() && #[trigger] monitors.drop_first()[k] == info;
            assert(monitors[k + 1] == info);
        }
    }
}

/// A strip is among the desired ones.
pub open spec fn is_wanted(strips: Seq<StripShow>, key: StripKey) -> bool {
    exists|i: int| 0 <= i < strips.len() && (#[trigger] strips[i]).key == key
}

/// Whether a strip is among the desired ones.
pub fn strip_is_wanted(strips: &Vec<StripShow>, key: StripKey) -> (r: bool)
    ensures
        r == is_wanted(strips@, key),
{
    let mut i: usize = 0;
    while i < strips.len()
        invariant
            i <= strips.len(),
            forall|k: int| 0 <= k < i ==> (#[trigger] strips@[k]).key != key,
        decreases strips.len() - i,
    {
        if strips[i].key == key {
            return true;
        }
        i = i + 1;
    }
    false
}

/// The overlays among `existing` to drop: their column has no strip any more.
pub fn stale_overlays(existing: &Vec<StripKey>, strips: &Vec<StripShow>) -> (r: Vec<StripKey>)
    ensures
        forall|key: StripKey| #[trigger]
            r@.contains(key) <==> existing@.contains(key) && !is_wanted(strips@, key),
{
    let mut r: Vec<StripKey> = Vec::new();
    let mut i: usize = 0;
    while i < existing.len()
        invariant
            i <= existing.len(),
            forall|key: StripKey| #[trigger]
                r@.contains(key) <==> existing@.take(i as int).contains(key) && !is_wanted(
                    strips@,
                    key,
                ),
        decreases existing.len() - i,
    {
        let key = existing[i];
        proof {
            assert(existing@.take(i + 1) =~= existing@.take(i as int).push(key));
            lemma_pushed_key(existing@.take(i as int), key);
            lemma_pushed_key(r@, key);
        }
        if !strip_is_wanted(strips, key) {
            r.push(key);
        }
        i = i + 1;
    }
    assert(existing@.take(i as int) =~= existing@);
    r
}

proof fn lemma_pushed_key(s: Seq<StripKey>, x: StripKey)
    ensures
        forall|key: StripKey| #[trigger] s.push(x).contains(key) <==> s.contains(key) || key == x,
{
    assert forall|key: StripKey| s.contains(key) || key == x implies #[trigger] s.push(
        x,
    ).contains(key) by {
        if key == x {
            assert(s.push(x)[s.len() as int] == key);
        } else {
            let k = choose|k: int| 0 <= k < s.len() && s[k] == key;
            assert(s.push(x)[k] == key);
        }
    }
}

proof fn lemma_column_strips(
    monitor: MonitorId,
    workspace_idx: usize,
    workspace: Workspace,
    n: int,
    rects: Map<u64, Rect>,
    owner: Option<MonitorInfo>,
)
    requires
        n <= workspace.columns@.len(),
    ensures
        ({
            let strips = strips_of_columns(monitor, workspace_idx, workspace, n, rects, owner);
            &&& forall|k: int|
                0 <= k < strips.len() ==> {
                    let strip = #[trigger] strips[k];
                    &&& strip.key.monitor == monitor
                    &&& strip.key.workspace == workspace_idx
                    &&& strip.key.column < n
                    &&& owner matches Some(owner) ==> fits_between_edges(strip.rect, owner.rect)
                }
            &&& forall|k: int, l: int|
                0 <= k < l < strips.len() ==> (#[trigger] strips[k]).key != (
                #[trigger] strips[l]).key
        }),
    decreases n,
{
    if n > 0 {
        lemma_column_strips(monitor, workspace_idx, workspace, n - 1, rects, owner);
        assert(workspace.columns.len() == workspace.columns@.len());
        let before = strips_of_columns(monitor, workspace_idx, workspace, n - 1, rects, owner);
        let strips = strips_of_columns(monitor, workspace_idx, workspace, n, rects, owner);
        if let Some(strip) = strip_of(monitor, workspace_idx, workspace, n - 1, rects, owner) {
            assert(strips == before.push(strip));
            assert(strip.key.column == n - 1);
            assert forall|k: int, l: int| 0 <= k < l < strips.len() implies (
            #[trigger] strips[k]).key != (#[trigger] strips[l]).key by {
                assert(strips[k] == before[k]);
            }
        }
    }
}

proof fn lemma_strips(
    groups: Seq<MonitorWorkspaces>,
    n: int,
    rects: Map<u64, Rect>,
    monitors: Seq<MonitorInfo>,
)
    requires
        n <= groups.len(),
    ensures
        ({
            let strips = strips_of(groups, n, rects, monitors);
            &&& forall|k: int|
                0 <= k < strips.len() ==> {
                    let strip = #[trigger] strips[k];
                    &&& monitor_of(monitors, strip.key.monitor) matches Some(owner)
                        ==> fits_between_edges(strip.rect, owner.rect)
                    &&& exists|a: int|
                        0 <= a < n && (#[trigger] groups[a]).monitor == strip.key.monitor
                            && groups[a].active == strip.key.workspace && groups[a].active
                            < groups[a].workspaces@.len()
                            && !groups[a].workspaces@[groups[a].active as int].fullscreen
                }
            &&& state::groups_are_distinct(groups) ==> forall|k: int, l: int|
                0 <= k < l < strips.len() ==> (#[trigger] strips[k]).key != (
                #[trigger] strips[l]).key
        }),
    decreases n,
{
    if n > 0 {
        lemma_strips(groups, n - 1, rects, monitors);
        let group = groups[n - 1];
        let before = strips_of(groups, n - 1, rects, monitors);
        let added = strips_of_group(group, rects, monitors);
        let strips = strips_of(groups, n, rects, monitors);
        assert(strips == before + added);
        if group.active < group.workspaces@.len()
            && !group.workspaces@[group.active as int].fullscreen {
            let workspace = group.workspaces@[group.active as int];
            lemma_column_strips(
                group.monitor,
                group.active,
                workspace,
                workspace.columns@.len() as int,
                rects,
                monitor_of(monitors, group.monitor),
            );
        }
        assert forall|k: int| 0 <= k < strips.len() implies {
            let strip = #[trigger] strips[k];
            &&& monitor_of(monitors, strip.key.monitor) matches Some(owner) ==> fits_between_edges(
                strip.rect,
                owner.rect,
            )
            &&& exists|a: int|
                0 <= a < n && (#[trigger] groups[a]).monitor == strip.key.monitor
                    && groups[a].active == strip.key.workspace && groups[a].active
                    < groups[a].workspaces@.len()
                    && !groups[a].workspaces@[groups[a].active as int].fullscreen
        } by {
            if k < before.len() {
                assert(strips[k] == before[k]);
            } else {
                assert(strips[k] == added[k - before.len()]);
                assert(groups[n - 1].monitor == strips[k].key.monitor);
            }
        }
        if state::groups_are_distinct(groups) {
            assert forall|k: int, l: int| 0 <= k < l < strips.len() implies (
            #[trigger] strips[k]).key != (#[trigger] strips[l]).key by {
                if l < before.len() {
                    assert(strips[k] == before[k] && strips[l] == before[l]);
                } else if k < before.len() {
                    assert(strips[k] == before[k]);
                    assert(strips[l] == added[l - before.len()]);
                    let a = choose|a: int|
                        0 <= a < n - 1 && (#[trigger] groups[a]).monitor == before[k].key.monitor
                            && groups[a].active == before[k].key.workspace && groups[a].active
                            < groups[a].workspaces@.len()
                            && !groups[a].workspaces@[groups[a].active as int].fullscreen;
                    assert(groups[a].monitor != groups[n - 1].monitor);
                } else {
                    assert(strips[k] == added[k - before.len()]);
                    assert(strips[l] == added[l - before.len()]);
                }
            }
        }
    }
}

/// No strip leaves the left or right edge of a monitor whose geometry is known.
pub proof fn law_strips_stay_on_their_monitor(state: AppState, on_the_way: Map<u64, Rect>, k: int)
    requires
        0 <= k < state.wanted_strips(on_the_way).len(),
    ensures
        monitor_of(
            state.monitors@,
            state.wanted_strips(on_the_way)[k].key.monitor,
        ) matches Some(owner) ==> fits_between_edges(
            state.wanted_strips(on_the_way)[k].rect,
            owner.rect,
        ),
{
    lemma_strips(state.workspaces@, state.workspaces@.len() as int, state.tab_places(on_the_way), state.monitors@);
    let strip = state.wanted_strips(on_the_way)[k];
    assert(strip == strips_of(
        state.workspaces@,
        state.workspaces@.len() as int,
        state.tab_places(on_the_way),
        state.monitors@,
    )[k]);
}

/// Strips show only on active workspaces that do not show one window only, and
/// never while tiling is paused.
pub proof fn law_strips_are_of_shown_workspaces(state: AppState, on_the_way: Map<u64, Rect>, k: int)
    requires
        0 <= k < state.wanted_strips(on_the_way).len(),
    ensures
        !state.paused,
        exists|a: int|
            0 <= a < state.workspaces@.len() && (#[trigger] state.workspaces@[a]).monitor
                == state.wanted_strips(on_the_way)[k].key.monitor && state.workspaces@[a].active
                == state.wanted_strips(on_the_way)[k].key.workspace && state.workspaces@[a].active
                < state.workspaces@[a].workspaces@.len()
                && !state.workspaces@[a].workspaces@[state.workspaces@[a].active as int].fullscreen,
{
    lemma_strips(state.workspaces@, state.workspaces@.len() as int, state.tab_places(on_the_way), state.monitors@);
    let strip = state.wanted_strips(on_the_way)[k];
    assert(strip == strips_of(
        state.workspaces@,
        state.workspaces@.len() as int,
        state.tab_places(on_the_way),
        state.monitors@,
    )[k]);
}

proof fn lemma_column_strip_is_listed(
    monitor: MonitorId,
    workspace_idx: usize,
    workspace: Workspace,
    n: int,
    rects: Map<u64, Rect>,
    owner: Option<MonitorInfo>,
    c: int,
)
    requires
        0 <= c < n,
        strip_of(monitor, workspace_idx, workspace, c, rects, owner) is Some,
    ensures
        strips_of_columns(monitor, workspace_idx, workspace, n, rects, owner).contains(
            strip_of(monitor, workspace_idx, workspace, c, rects, owner)->0,
        ),
    decreases n,
{
    let strip = strip_of(monitor, workspace_idx, workspace, c, rects, owner)->0;
    let before = strips_of_columns(monitor, workspace_idx, workspace, n - 1, rects, owner);
    let strips = strips_of_columns(monitor, workspace_idx, workspace, n, rects, owner);
    if c == n - 1 {
        assert(strips[before.len() as int] == strip);
    } else {
        lemma_column_strip_is_listed(monitor, workspace_idx, workspace, n - 1, rects, owner, c);
        let k = choose|k: int| 0 <= k < before.len() && before[k] == strip;
        assert(strips[k] == strip);
    }
}

proof fn lemma_group_strip_is_listed(
    groups: Seq<MonitorWorkspaces>,
    n: int,
    rects: Map<u64, Rect>,
    monitors: Seq<MonitorInfo>,
    a: int,
    strip: StripView,
)
    requires
        0 <= a < n,
        strips_of_group(groups[a], rects, monitors).contains(strip),
    ensures
        strips_of(groups, n, rects, monitors).contains(strip),
    decreases n,
{
    let before = strips_of(groups, n - 1, rects, monitors);
    let added = strips_of_group(groups[n - 1], rects, monitors);
    let strips = strips_of(groups, n, rects, monitors);
    assert(strips == before + added);
    if a == n - 1 {
        let k = choose|k: int| 0 <= k < added.len() && added[k] == strip;
        assert(strips[before.len() + k] == strip);
    } else {
        lemma_group_strip_is_listed(groups, n - 1, rects, monitors, a, strip);
        let k = choose|k: int| 0 <= k < before.len() && before[k] == strip;
        assert(strips[k] == strip);
    }
}

/// Every tabbed column of a shown workspace has a strip, wherever the focus is, as
/// long as its visible tab has a place within its monitor and tiling is not paused.
pub proof fn law_every_tabbed_column_has_its_strip(
    state: AppState,
    on_the_way: Map<u64, Rect>,
    a: int,
    c: int,
)
    requires
        !state.paused,
        0 <= a < state.workspaces@.len(),
        is_tab_column(state.workspaces@[a], c),
        ({
            let column = shown_columns(state.workspaces@[a])[c];
            let owner = monitor_of(state.monitors@, state.workspaces@[a].monitor);
            &&& column.visible_tab matches Some(tab)
            &&& tab < column.windows@.len()
            &&& state.place_now(column.windows@[tab as int], on_the_way) matches Some(rect)
            &&& owner matches Some(owner) ==> fits_between_edges(rect, owner.rect)
        }),
    ensures
        exists|k: int|
            0 <= k < state.wanted_strips(on_the_way).len() && (#[trigger] state.wanted_strips(
                on_the_way,
            )[k]).key == (StripKey {
                monitor: state.workspaces@[a].monitor,
                workspace: state.workspaces@[a].active,
                column: c as usize,
            }),
{
    let group = state.workspaces@[a];
    let workspace = group.workspaces@[group.active as int];
    let owner = monitor_of(state.monitors@, group.monitor);
    let rects = state.tab_places(on_the_way);
    let strip = strip_of(group.monitor, group.active, workspace, c, rects, owner)->0;
    lemma_column_strip_is_listed(
        group.monitor,
        group.active,
        workspace,
        workspace.columns@.len() as int,
        rects,
        owner,
        c,
    );
    lemma_group_strip_is_listed(
        state.workspaces@,
        state.workspaces@.len() as int,
        state.tab_places(on_the_way),
        state.monitors@,
        a,
        strip,
    );
    let strips = state.wanted_strips(on_the_way);
    let k = choose|k: int| 0 <= k < strips.len() && strips[k] == strip;
    assert(strips[k].key == strip.key);
}

proof fn lemma_home_is_unique(
    groups: Seq<MonitorWorkspaces>,
    window_id: WindowId,
    i: int,
    j: int,
    a: int,
    b: int,
)
    requires
        first_home(groups, window_id, i, j),
        first_home(groups, window_id, a, b),
    ensures
        i == a,
        j == b,
{
    assert(groups[i].workspaces@[j].holds(window_id));
    assert(groups[a].workspaces@[b].holds(window_id));
}

proof fn lemma_home_placements(state: AppState, other: AppState, id: WindowId)
    requires
        state.workspaces == other.workspaces,
        state.monitors == other.monitors,
    ensures
        state.home_placements(id) == other.home_placements(id),
{
    if state.home_placements(id) is Some {
        let (i, j) = choose|i: int, j: int|
            #[trigger] first_home(state.workspaces@, id, i, j) && transitions::is_known_monitor(
                state.monitors@,
                state.workspaces@[i].monitor,
            );
        assert(first_home(other.workspaces@, id, i, j));
        let (a, b) = choose|a: int, b: int|
            #[trigger] first_home(other.workspaces@, id, a, b) && transitions::is_known_monitor(
                other.monitors@,
                other.workspaces@[a].monitor,
            );
        lemma_home_is_unique(state.workspaces@, id, i, j, a, b);
    }
}

/// Moving the focus changes no strip.
pub proof fn law_strips_outlast_the_focus(
    state: AppState,
    on_the_way: Map<u64, Rect>,
    focused_monitor: MonitorId,
    previous_focused_hwnd: Option<WindowId>,
)
    ensures
        (AppState { focused_monitor, previous_focused_hwnd, ..state }).wanted_strips(on_the_way)
            == state.wanted_strips(on_the_way),
{
    let moved = AppState { focused_monitor, previous_focused_hwnd, ..state };
    assert forall|id: WindowId| #[trigger] moved.place_now(id, on_the_way) == state.place_now(
        id,
        on_the_way,
    ) by {
        lemma_home_placements(state, moved, id);
    }
    assert(moved.tab_places(on_the_way) =~= state.tab_places(on_the_way));
}

/// A column has at most one strip.
pub proof fn law_one_strip_per_column(state: AppState, on_the_way: Map<u64, Rect>, k: int, l: int)
    requires
        state.wf(),
        0 <= k < l < state.wanted_strips(on_the_way).len(),
    ensures
        state.wanted_strips(on_the_way)[k].key != state.wanted_strips(on_the_way)[l].key,
{
    lemma_strips(state.workspaces@, state.workspaces@.len() as int, state.tab_places(on_the_way), state.monitors@);
}

/// Once the foreground followed the focus it stays there: the window that was
/// announced is the one that the next look asks for.
pub proof fn law_focus_settles(before: AppState, after: AppState, window_id: WindowId)
    requires
        before.focus_goal() == Some(window_id),
        after == (AppState { previous_focused_hwnd: Some(window_id), ..before }),
    ensures
        after.focus_goal() == Some(window_id),
{
}

/// The leading `#` of a colour makes no difference.
pub proof fn law_hash_is_optional(s: Seq<char>)
    requires
        s.len() > 0 ==> s[0] != '#',
    ensures
        without_hash(seq!['#'] + s) == without_hash(s),
{
    assert((seq!['#'] + s).subrange(1, (seq!['#'] + s).len() as int) =~= s);
}

/// The border never shows on a window that no workspace holds, while tiling is
/// paused, or over a workspace that shows one window only.
pub proof fn law_border_needs_a_shown_managed_window(
    state: AppState,
    window_id: WindowId,
    layout_rect: Option<Rect>,
    highlight_bgr: u32,
    corner_radius: u32,
)
    requires
        state.border_action(window_id, layout_rect, highlight_bgr, corner_radius)
            != BorderAction::Hide,
    ensures
        is_managed(state.workspaces@, window_id),
        !state.paused,
        !state.focus_is_fullscreen(),
        state.config.appearance.active_border,
{
}

/// While a tiled window is dragged and no resize is previewed the border is hidden,
/// whatever window has the focus and wherever the layout would put it.
pub proof fn law_border_hides_during_a_tiled_drag(
    state: AppState,
    window_id: WindowId,
    layout_rect: Option<Rect>,
    highlight_bgr: u32,
    corner_radius: u32,
)
    requires
        state.tiled_drag,
        state.resize_preview_display_rect is None,
    ensures
        state.border_action(window_id, layout_rect, highlight_bgr, corner_radius)
            == BorderAction::Hide,
{
}

/// Strip `k` of a list is that of column `c` of the workspace that group `a` shows.
spec fn is_strip_of_column(
    groups: Seq<MonitorWorkspaces>,
    strip: StripView,
    rects: Map<u64, Rect>,
    monitors: Seq<MonitorInfo>,
    a: int,
    c: int,
) -> bool {
    &&& 0 <= a < groups.len()
    &&& groups[a].active < groups[a].workspaces@.len()
    &&& !groups[a].workspaces@[groups[a].active as int].fullscreen
    &&& 0 <= c < groups[a].workspaces@[groups[a].active as int].columns@.len()
    &&& Some(strip) == strip_of(
        groups[a].monitor,
        groups[a].active,
        groups[a].workspaces@[groups[a].active as int],
        c,
        rects,
        monitor_of(monitors, groups[a].monitor),
    )
}

proof fn lemma_column_strip_origin(
    monitor: MonitorId,
    workspace_idx: usize,
    workspace: Workspace,
    n: int,
    rects: Map<u64, Rect>,
    owner: Option<MonitorInfo>,
    k: int,
) -> (c: int)
    requires
        n <= workspace.columns@.len(),
        0 <= k < strips_of_columns(monitor, workspace_idx, workspace, n, rects, owner).len(),
    ensures
        0 <= c < n,
        Some(strips_of_columns(monitor, workspace_idx, workspace, n, rects, owner)[k]) == strip_of(
            monitor,
            workspace_idx,
            workspace,
            c,
            rects,
            owner,
        ),
    decreases n,
{
    let before = strips_of_columns(monitor, workspace_idx, workspace, n - 1, rects, owner);
    if n > 0 && k < before.len() {
        lemma_column_strip_origin(monitor, workspace_idx, workspace, n - 1, rects, owner, k)
    } else {
        n - 1
    }
}

proof fn lemma_strip_origin(
    groups: Seq<MonitorWorkspaces>,
    n: int,
    rects: Map<u64, Rect>,
    monitors: Seq<MonitorInfo>,
    k: int,
) -> (at: (int, int))
    requires
        n <= groups.len(),
        0 <= k < strips_of(groups, n, rects, monitors).len(),
    ensures
        is_strip_of_column(
            groups,
            strips_of(groups, n, rects, monitors)[k],
            rects,
            monitors,
            at.0,
            at.1,
        ),
    decreases n,
{
    let before = strips_of(groups, n - 1, rects, monitors);
    if n > 0 && k < before.len() {
        lemma_strip_origin(groups, n - 1, rects, monitors, k)
    } else {
        let group = groups[n - 1];
        let workspace = group.workspaces@[group.active as int];
        let c = lemma_column_strip_origin(
            group.monitor,
            group.active,
            workspace,
            workspace.columns@.len() as int,
            rects,
            monitor_of(monitors, group.monitor),
            k - before.len(),
        );
        (n - 1, c)
    }
}

/// A strip says what its column is: it is that of a tabbed column of an active workspace,
/// at the place of the tab that shows. Its tabs are the windows of the column, in order,
/// without the stand-in for a dragged one. The tab that the column remembers is
/// highlighted whenever it is there and not minimized, else the one that shows; where
/// both are the same tab, that is the one.
pub proof fn law_strips_tell_of_their_columns(
    state: AppState,
    on_the_way: Map<u64, Rect>,
    k: int,
) -> (at: (int, int))
    requires
        0 <= k < state.wanted_strips(on_the_way).len(),
    ensures
        ({
            let (a, c) = at;
            let strip = state.wanted_strips(on_the_way)[k];
            let group = state.workspaces@[a];
            let workspace = group.workspaces@[group.active as int];
            let column = workspace.columns@[c];
            &&& !state.paused
            &&& 0 <= a < state.workspaces@.len()
            &&& group.active < group.workspaces@.len()
            &&& !workspace.fullscreen
            &&& 0 <= c < workspace.columns@.len()
            &&& strip.key.monitor == group.monitor
            &&& strip.key.workspace == group.active
            &&& strip.key.column == c
            &&& column.tabbed
            &&& column.visible_tab matches Some(visible)
            &&& visible < column.windows@.len()
            &&& state.place_now(column.windows@[visible as int], on_the_way) == Some(strip.rect)
            &&& strip.tabs == column.windows@.filter(|id: WindowId| id != u64::MAX)
            &&& (column.active_tab matches Some(remembered) && remembered < column.windows@.len()
                && !workspace.minimized@.contains(column.windows@[remembered as int]))
                ==> strip.active_idx == column.active_tab->0
            &&& !(column.active_tab matches Some(remembered) && remembered < column.windows@.len()
                && !workspace.minimized@.contains(column.windows@[remembered as int]))
                ==> strip.active_idx == visible
            &&& column.active_tab == column.visible_tab ==> strip.active_idx == visible
        }),
{
    let rects = state.tab_places(on_the_way);
    let n = state.workspaces@.len() as int;
    let (a, c) = lemma_strip_origin(state.workspaces@, n, rects, state.monitors@, k);
    let group = state.workspaces@[a];
    let workspace = group.workspaces@[group.active as int];
    let column = workspace.columns@[c];
    assert(workspace.columns.len() == workspace.columns@.len());
    lemma_real_windows_filter(column.windows@);
    let visible = column.visible_tab->0;
    assert(rects.contains_key(column.windows@[visible as int]));
    (a, c)
}

proof fn lemma_real_windows_filter(windows: Seq<WindowId>)
    ensures
        real_windows(windows) == windows.filter(|id: WindowId| id != u64::MAX),
    decreases windows.len(),
{
    reveal(Seq::filter);
    if windows.len() > 0 {
        lemma_real_windows_filter(windows.drop_last());
    }
}

/// The placement that is found is the first one of the window.
pub proof fn law_first_placement_counts(placements: Seq<WindowPlacement>, id: WindowId)
    ensures
        match place_of(placements, id) {
            Some(rect) => exists|k: int|
                0 <= k < placements.len() && (#[trigger] placements[k]).window_id == id
                    && placements[k].rect == rect && forall|l: int|
                    0 <= l < k ==> (#[trigger] placements[l]).window_id != id,
            None => forall|k: int|
                0 <= k < placements.len() ==> (#[trigger] placements[k]).window_id != id,
        },
    decreases placements.len(),
{
    if placements.len() > 0 && placements[0].window_id != id {
        let rest = placements.drop_first();
        law_first_placement_counts(rest, id);
        assert forall|k: int| 0 <= k < rest.len() implies #[trigger] rest[k] == placements[k
            + 1] by {}
        if let Some(rect) = place_of(placements, id) {
            let k = choose|k: int|
                0 <= k < rest.len() && (#[trigger] rest[k]).window_id == id && rest[k].rect == rect
                    && forall|l: int| 0 <= l < k ==> (#[trigger] rest[l]).window_id != id;
            assert(placements[k + 1].window_id == id && placements[k + 1].rect == rect);
            assert forall|l: int| 0 <= l < k + 1 implies (#[trigger] placements[l]).window_id
                != id by {
                if l > 0 {
                    assert(rest[l - 1] == placements[l]);
                }
            }
        } else {
            assert forall|k: int| 0 <= k < placements.len() implies (
            #[trigger] placements[k]).window_id != id by {
                if k > 0 {
                    assert(rest[k - 1] == placements[k]);
                }
            }
        }
    } else if placements.len() > 0 {
        assert(placements[0].window_id == id);
    }
}

/// The first group of a monitor is the one that counts.
pub proof fn law_first_group_counts(groups: Seq<MonitorWorkspaces>, monitor: MonitorId)
    ensures
        match group_of(groups, monitor) {
            Some(group) => exists|a: int|
                0 <= a < groups.len() && #[trigger] groups[a] == group && group.monitor == monitor
                    && forall|b: int| 0 <= b < a ==> (#[trigger] groups[b]).monitor != monitor,
            None => forall|a: int|
                0 <= a < groups.len() ==> (#[trigger] groups[a]).monitor != monitor,
        },
    decreases groups.len(),
{
    if groups.len() > 0 && groups[0].monitor != monitor {
        let rest = groups.drop_first();
        law_first_group_counts(rest, monitor);
        if let Some(group) = group_of(groups, monitor) {
            let a = choose|a: int|
                0 <= a < rest.len() && #[trigger] rest[a] == group && group.monitor == monitor
                    && forall|b: int| 0 <= b < a ==> (#[trigger] rest[b]).monitor != monitor;
            assert(groups[a + 1] == group);
            assert forall|b: int| 0 <= b < a + 1 implies (#[trigger] groups[b]).monitor
                != monitor by {
                if b > 0 {
                    assert(rest[b - 1] == groups[b]);
                }
            }
        } else {
            assert forall|a: int| 0 <= a < groups.len() implies (#[trigger] groups[a]).monitor
                != monitor by {
                if a > 0 {
                    assert(rest[a - 1] == groups[a]);
                }
            }
        }
    } else if groups.len() > 0 {
        assert(groups[0].monitor == monitor);
    }
}

/// The geometry that is found is that of the first monitor with the identifier.
pub proof fn law_first_monitor_counts(monitors: Seq<MonitorInfo>, id: MonitorId)
    ensures
        match monitor_of(monitors, id) {
            Some(info) => exists|a: int|
                0 <= a < monitors.len() && #[trigger] monitors[a] == info && info.id == id
                    && forall|b: int| 0 <= b < a ==> (#[trigger] monitors[b]).id != id,
            None => forall|a: int| 0 <= a < monitors.len() ==> (#[trigger] monitors[a]).id != id,
        },
    decreases monitors.len(),
{
    if monitors.len() > 0 && monitors[0].id != id {
        let rest = monitors.drop_first();
        law_first_monitor_counts(rest, id);
        if let Some(info) = monitor_of(monitors, id) {
            let a = choose|a: int|
                0 <= a < rest.len() && #[trigger] rest[a] == info && info.id == id && forall|b: int|
                    0 <= b < a ==> (#[trigger] rest[b]).id != id;
            assert(monitors[a + 1] == info);
            assert forall|b: int| 0 <= b < a + 1 implies (#[trigger] monitors[b]).id != id by {
                if b > 0 {
                    assert(rest[b - 1] == monitors[b]);
                }
            }
        } else {
            assert forall|a: int| 0 <= a < monitors.len() implies (#[trigger] monitors[a]).id
                != id by {
                if a > 0 {
                    assert(rest[a - 1] == monitors[a]);
                }
            }
        }
    } else if monitors.len() > 0 {
        assert(monitors[0].id == id);
    }
}

/// Workspace `j` of group `i` has the window in a column or floating.
pub open spec fn has_window(state: AppState, i: int, j: int, id: WindowId) -> bool {
    &&& 0 <= i < state.workspaces@.len()
    &&& 0 <= j < state.workspaces@[i].workspaces@.len()
    &&& {
        ||| state.workspaces@[i].workspaces@[j].floating@.contains(id)
        ||| exists|c: int|
            0 <= c < state.workspaces@[i].workspaces@[j].columns@.len() && (
            #[trigger] state.workspaces@[i].workspaces@[j].columns@[c]).windows@.contains(id)
    }
}

/// The place of a window is the one that the first workspace that has it gives it, where
/// nothing moves and the monitor is known; a window that no workspace has, or whose
/// monitor is not known, has none. While a transition runs, a window that it recorded a
/// start of, or that has no place of its own, is where it is said to be on its way.
pub proof fn law_windows_are_where_their_workspace_puts_them(
    state: AppState,
    on_the_way: Map<u64, Rect>,
    id: WindowId,
    i: int,
    j: int,
)
    requires
        has_window(state, i, j, id),
        forall|a: int, b: int| #[trigger]
            has_window(state, a, b, id) ==> i < a || (i == a && j <= b),
    ensures
        ({
            let known = exists|m: int|
                0 <= m < state.monitors@.len() && (#[trigger] state.monitors@[m]).id
                    == state.workspaces@[i].monitor;
            let own = place_of(state.workspaces@[i].workspaces@[j].placements@, id);
            &&& !known ==> state.place_now(id, on_the_way) is None
            &&& known && state.layout_transition is None ==> state.place_now(id, on_the_way) == own
            &&& known && (state.layout_transition matches Some(transition)
                && !transition.start_rects@.contains_key(id)) && own is Some ==> state.place_now(
                id,
                on_the_way,
            ) == own
            &&& known && (state.layout_transition matches Some(transition) && (
            transition.start_rects@.contains_key(id) || own is None)) ==> state.place_now(
                id,
                on_the_way,
            ) == (if on_the_way.contains_key(id) {
                Some(on_the_way[id])
            } else {
                None
            })
            &&& state.floats_at_home(id)
                <==> state.workspaces@[i].workspaces@[j].floating@.contains(id)
            &&& is_managed(state.workspaces@, id)
        }),
{
    let groups = state.workspaces@;
    assert(groups[i].workspaces@[j].holds(id));
    assert forall|a: int, b: int|
        0 <= a < groups.len() && 0 <= b < groups[a].workspaces@.len() && (a < i || (a == i && b
            < j)) implies !(#[trigger] groups[a].workspaces@[b]).holds(id) by {
        if groups[a].workspaces@[b].holds(id) {
            assert(has_window(state, a, b, id));
        }
    }
    assert(first_home(groups, id, i, j));
    assert forall|a: int, b: int| #[trigger] first_home(groups, id, a, b) implies a == i && b
        == j by {
        lemma_home_is_unique(groups, id, i, j, a, b);
    }
    if exists|m: int|
        0 <= m < state.monitors@.len() && (#[trigger] state.monitors@[m]).id == groups[i].monitor {
        assert(transitions::is_known_monitor(state.monitors@, groups[i].monitor));
    }
}

/// A window that no workspace has is not managed and has no place.
pub proof fn law_unmanaged_windows_have_no_place(
    state: AppState,
    on_the_way: Map<u64, Rect>,
    id: WindowId,
)
    requires
        forall|i: int, j: int| !#[trigger] has_window(state, i, j, id),
    ensures
        !is_managed(state.workspaces@, id),
        state.place_now(id, on_the_way) is None,
{
    assert forall|i: int, j: int|
        0 <= i < state.workspaces@.len() && 0 <= j
            < state.workspaces@[i].workspaces@.len() implies !(
    #[trigger] state.workspaces@[i].workspaces@[j]).holds(id) by {
        assert(!has_window(state, i, j, id));
    }
}

/// Where the border goes: nowhere while tiling is paused, while the focused monitor shows
/// one window only, for a window that is not managed, where borders are off, or where
/// there is no colour; else to a resize preview; else nowhere while a tiled window is
/// dragged; else around a floating window, wherever that is; else to the place that the
/// layout gives, if it gives one.
pub proof fn law_border_goes_where_it_belongs(
    state: AppState,
    id: WindowId,
    layout_rect: Option<Rect>,
    highlight_bgr: u32,
    corner_radius: u32,
    i: int,
    j: int,
)
    requires
        has_window(state, i, j, id),
        forall|a: int, b: int| #[trigger]
            has_window(state, a, b, id) ==> i < a || (i == a && j <= b),
        !state.paused,
        forall|a: int|
            0 <= a < state.workspaces@.len() && (#[trigger] state.workspaces@[a]).monitor
                == state.focused_monitor && state.workspaces@[a].active
                < state.workspaces@[a].workspaces@.len() ==> !state.workspaces@[a].workspaces@[
            state.workspaces@[a].active as int].fullscreen,
        state.config.appearance.active_border,
        state.border_color(highlight_bgr) is Some,
    ensures
        ({
            let action = state.border_action(id, layout_rect, highlight_bgr, corner_radius);
            let position = if state.config.appearance.active_border_position@ == "inside"@ {
                BorderPosition::Inside
            } else {
                BorderPosition::Outside
            };
            let bgr = state.border_color(highlight_bgr)->0;
            &&& state.resize_preview_display_rect matches Some(rect) ==> action == (
            BorderAction::ShowAt { rect, position, bgr, corner_radius })
            &&& state.resize_preview_display_rect is None && state.tiled_drag ==> action
                == BorderAction::Hide
            &&& state.resize_preview_display_rect is None && !state.tiled_drag
                && state.workspaces@[i].workspaces@[j].floating@.contains(id) ==> action
                == (BorderAction::Track { position, bgr, corner_radius })
            &&& state.resize_preview_display_rect is None && !state.tiled_drag
                && !state.workspaces@[i].workspaces@[j].floating@.contains(id) ==> action == (
            match layout_rect {
                Some(rect) => (BorderAction::ShowAt { rect, position, bgr, corner_radius }),
                None => BorderAction::Hide,
            })
        }),
{
    law_windows_are_where_their_workspace_puts_them(state, Map::empty(), id, i, j);
    law_first_group_counts(state.workspaces@, state.focused_monitor);
}

/// The border hides while tiling is paused, where borders are off, where the colour is not
/// well formed and contrast is not high, for a window that no workspace has, and while
/// the active workspace of the focused monitor shows one window only.
pub proof fn law_border_hides_without_a_place(
    state: AppState,
    id: WindowId,
    layout_rect: Option<Rect>,
    highlight_bgr: u32,
    corner_radius: u32,
)
    requires
        ({
            ||| state.paused
            ||| !state.config.appearance.active_border
            ||| state.border_color(highlight_bgr) is None
            ||| forall|i: int, j: int| !#[trigger] has_window(state, i, j, id)
            ||| exists|a: int|
                0 <= a < state.workspaces@.len() && (#[trigger] state.workspaces@[a]).monitor
                    == state.focused_monitor && state.workspaces@[a].active
                    < state.workspaces@[a].workspaces@.len() && state.workspaces@[a].workspaces@[
                state.workspaces@[a].active as int].fullscreen && state.wf()
        }),
    ensures
        state.border_action(id, layout_rect, highlight_bgr, corner_radius) == BorderAction::Hide,
{
    if forall|i: int, j: int| !#[trigger] has_window(state, i, j, id) {
        law_unmanaged_windows_have_no_place(state, Map::empty(), id);
    } else if !state.paused && state.config.appearance.active_border && state.border_color(
        highlight_bgr,
    ) is Some {
        let a = choose|a: int|
            0 <= a < state.workspaces@.len() && (#[trigger] state.workspaces@[a]).monitor
                == state.focused_monitor && state.workspaces@[a].active
                < state.workspaces@[a].workspaces@.len() && state.workspaces@[a].workspaces@[
            state.workspaces@[a].active as int].fullscreen;
        law_first_group_counts(state.workspaces@, state.focused_monitor);
    }
}

/// Under high contrast the border has the system's colour; else the configured one, byte
/// for byte: the first two digits are red and end up lowest. Anything but six hexadecimal
/// digits, after a leading `#` or without one, is no colour.
pub proof fn law_colours_are_read_digit_by_digit(state: AppState, digits: Seq<char>, hash: bool)
    requires
        state.config.appearance.active_border_color@ == (if hash {
            seq!['#'] + digits
        } else {
            digits
        }),
        digits.len() > 0 ==> digits[0] != '#',
    ensures
        forall|highlight: u32|
            state.high_contrast ==> #[trigger] state.border_color(highlight) == Some(highlight),
        forall|highlight: u32|
            !state.high_contrast && digits.len() != 6 ==> (#[trigger] state.border_color(
                highlight,
            )) is None,
        forall|highlight: u32, k: int|
            !state.high_contrast && 0 <= k < digits.len() && !('0' <= #[trigger] digits[k] <= '9')
                && !('a' <= digits[k] <= 'f') && !('A' <= digits[k] <= 'F') ==> (
            #[trigger] state.border_color(highlight)) is None,
        forall|highlight: u32|
            !state.high_contrast && digits.len() == 6 && (forall|k: int|
                0 <= k < 6 ==> digit_value(#[trigger] digits[k]) is Some) ==> #[trigger]
            state.border_color(highlight) == Some(
                (digit_value(digits[0])->0 * 16 + digit_value(digits[1])->0 + 256 * (digit_value(
                    digits[2],
                )->0 * 16 + digit_value(digits[3])->0) + 65536 * (digit_value(digits[4])->0 * 16
                    + digit_value(digits[5])->0)) as u32,
            ),
{
    law_hash_is_optional(digits);
    assert(without_hash(state.config.appearance.active_border_color@) =~= digits);
    assert forall|k: int| 0 <= k < digits.len() implies digit_value(#[trigger] digits[k])
        == hex_digit(digits[k]) by {}
}

/// The number that a hexadecimal digit stands for.
pub open spec fn digit_value(c: char) -> Option<int> {
    if '0' <= c <= '9' {
        Some(c as int - 48)
    } else if 'a' <= c <= 'f' {
        Some(c as int - 87)
    } else if 'A' <= c <= 'F' {
        Some(c as int - 55)
    } else {
        None
    }
}

/// The first rule that matches and has a corner style decides, with a radius of 0, 4 or 8;
/// else the window's own radius, else 8.
pub proof fn law_corners_come_from_the_first_style(
    rules: Seq<CompiledWindowRule>,
    matched: Seq<bool>,
)
    requires
        rules.len() == matched.len(),
    ensures
        match corner_style_of(rules, matched) {
            Some(style) => exists|k: int|
                0 <= k < rules.len() && (#[trigger] rules[k]).corner_style == Some(style)
                    && matched[k] && forall|l: int|
                    0 <= l < k ==> !(matched[l] && (#[trigger] rules[l]).corner_style is Some),
            None => forall|k: int|
                0 <= k < rules.len() ==> !(matched[k] && (
                #[trigger] rules[k]).corner_style is Some),
        },
    decreases rules.len(),
{
    if rules.len() > 0 && !(matched[0] && rules[0].corner_style is Some) {
        let rest = rules.drop_first();
        let others = matched.drop_first();
        law_corners_come_from_the_first_style(rest, others);
        if let Some(style) = corner_style_of(rules, matched) {
            let k = choose|k: int|
                0 <= k < rest.len() && (#[trigger] rest[k]).corner_style == Some(style)
                    && others[k] && forall|l: int|
                    0 <= l < k ==> !(others[l] && (#[trigger] rest[l]).corner_style is Some);
            assert(rules[k + 1].corner_style == Some(style) && matched[k + 1]);
            assert forall|l: int| 0 <= l < k + 1 implies !(matched[l] && (
            #[trigger] rules[l]).corner_style is Some) by {
                if l > 0 {
                    assert(rest[l - 1] == rules[l] && others[l - 1] == matched[l]);
                }
            }
        } else {
            assert forall|k: int| 0 <= k < rules.len() implies !(matched[k] && (
            #[trigger] rules[k]).corner_style is Some) by {
                if k > 0 {
                    assert(rest[k - 1] == rules[k] && others[k - 1] == matched[k]);
                }
            }
        }
    } else if rules.len() > 0 {
        assert(rules[0].corner_style is Some && matched[0]);
    }
}

/// A rule's style has its radius; without one the window's own radius counts, else 8.
pub proof fn law_corner_radius(
    state: AppState,
    matched: Option<&Vec<bool>>,
    window_radius: Option<u32>,
)
    ensures
        CornerStyle::Square.radius() == 0,
        CornerStyle::SmallRounded.radius() == 4,
        CornerStyle::Rounded.radius() == 8,
        matched is None && window_radius is None ==> state.corner_radius(matched, window_radius)
            == 8,
        (matched matches Some(matched) ==> corner_style_of(state.compiled_rules@, matched@) is None)
            && window_radius is Some ==> Some(state.corner_radius(matched, window_radius))
            == window_radius,
        (matched matches Some(matched) ==> corner_style_of(state.compiled_rules@, matched@) is None)
            && window_radius is None ==> state.corner_radius(matched, window_radius) == 8,
        matched matches Some(matched_by) ==> (corner_style_of(
            state.compiled_rules@,
            matched_by@,
        ) matches Some(style) ==> state.corner_radius(matched, window_radius) == style.radius()),
{
}

/// The foreground should go to the focused window of the active workspace of the focused
/// monitor, unless a window that floats there has it already; nowhere if the focused
/// monitor shows no workspace.
pub proof fn law_focus_goes_to_the_active_workspace(state: AppState, a: int)
    requires
        state.wf(),
        0 <= a < state.workspaces@.len(),
        state.workspaces@[a].monitor == state.focused_monitor,
    ensures
        ({
            let group = state.workspaces@[a];
            let workspace = group.workspaces@[group.active as int];
            &&& group.active >= group.workspaces@.len() ==> state.focus_goal() is None
            &&& group.active < group.workspaces@.len() && (
            state.previous_focused_hwnd matches Some(id) && workspace.floating@.contains(id))
                ==> state.focus_goal() == state.previous_focused_hwnd
            &&& group.active < group.workspaces@.len() && !(
            state.previous_focused_hwnd matches Some(id) && workspace.floating@.contains(id))
                ==> state.focus_goal() == workspace.focused_visible
        }),
{
    law_first_group_counts(state.workspaces@, state.focused_monitor);
}

/// Without workspaces of the focused monitor the foreground goes nowhere.
pub proof fn law_no_workspace_has_no_focus(state: AppState)
    requires
        forall|a: int|
            0 <= a < state.workspaces@.len() ==> (#[trigger] state.workspaces@[a]).monitor
                != state.focused_monitor,
    ensures
        state.focus_goal() is None,
{
    law_first_group_counts(state.workspaces@, state.focused_monitor);
}

/// The colours of the strips are the configured ones where they are well formed, else
/// dark grey, a lighter grey, white and light grey.
pub proof fn law_strip_colours(state: AppState)
    ensures
        state.strip_colors().opacity == state.config.appearance.tab_strip_opacity,
        !is_hex_colour(without_hash(state.config.appearance.tab_strip_bg@))
            ==> state.strip_colors().bg == 0x1F1F1F,
        !is_hex_colour(without_hash(state.config.appearance.tab_strip_active_bg@))
            ==> state.strip_colors().active_bg == 0x303030,
        !is_hex_colour(without_hash(state.config.appearance.tab_strip_active_text@))
            ==> state.strip_colors().active_text == 0xFFFFFF,
        !is_hex_colour(without_hash(state.config.appearance.tab_strip_inactive_text@))
            ==> state.strip_colors().inactive_text == 0xA0A0A0,
        is_hex_colour(without_hash(state.config.appearance.tab_strip_bg@))
            ==> state.strip_colors().bg == bgr_of(
            without_hash(state.config.appearance.tab_strip_bg@),
        ),
        is_hex_colour(without_hash(state.config.appearance.tab_strip_active_bg@))
            ==> state.strip_colors().active_bg == bgr_of(
            without_hash(state.config.appearance.tab_strip_active_bg@),
        ),
        is_hex_colour(without_hash(state.config.appearance.tab_strip_active_text@))
            ==> state.strip_colors().active_text == bgr_of(
            without_hash(state.config.appearance.tab_strip_active_text@),
        ),
        is_hex_colour(without_hash(state.config.appearance.tab_strip_inactive_text@))
            ==> state.strip_colors().inactive_text == bgr_of(
            without_hash(state.config.appearance.tab_strip_inactive_text@),
        ),
{
    lemma_colour_is_small(without_hash(state.config.appearance.tab_strip_bg@));
    lemma_colour_is_small(without_hash(state.config.appearance.tab_strip_active_bg@));
    lemma_colour_is_small(without_hash(state.config.appearance.tab_strip_active_text@));
    lemma_colour_is_small(without_hash(state.config.appearance.tab_strip_inactive_text@));
}

proof fn lemma_colour_is_small(s: Seq<char>)
    ensures
        is_hex_colour(s) ==> 0 <= bgr_of(s) <= 0xff_ffff,
{
    if is_hex_colour(s) {
        assert(hex_digit(s[0]) is Some && hex_digit(s[1]) is Some && hex_digit(s[2]) is Some
            && hex_digit(s[3]) is Some && hex_digit(s[4]) is Some && hex_digit(s[5]) is Some);
    }
}

/// A strip fits its monitor just where it starts at the left edge or right of it and ends
/// at the right edge or left of it.
pub proof fn law_strips_fit_between_the_edges(column_rect: Rect, monitor: Rect)
    ensures
        fits_between_edges(column_rect, monitor) <==> column_rect.x >= monitor.x && column_rect.x
            + column_rect.width <= monitor.x + monitor.width,
{
}

/// Every tabbed column of an active workspace that does not show one window only has a
/// strip, at the place of the tab that shows, wherever that is within the monitor's left
/// and right edge; where the monitor is not known its edges do not matter.
pub proof fn law_tabbed_columns_have_strips_where_they_fit(
    state: AppState,
    on_the_way: Map<u64, Rect>,
    a: int,
    c: int,
    visible: usize,
    rect: Rect,
) -> (k: int)
    requires
        !state.paused,
        0 <= a < state.workspaces@.len(),
        state.workspaces@[a].active < state.workspaces@[a].workspaces@.len(),
        ({
            let group = state.workspaces@[a];
            let workspace = group.workspaces@[group.active as int];
            let column = workspace.columns@[c];
            &&& !workspace.fullscreen
            &&& 0 <= c < workspace.columns@.len()
            &&& column.tabbed
            &&& column.visible_tab == Some(visible)
            &&& visible < column.windows@.len()
            &&& state.place_now(column.windows@[visible as int], on_the_way) == Some(rect)
            &&& forall|m: int|
                0 <= m < state.monitors@.len() && (#[trigger] state.monitors@[m]).id
                    == group.monitor ==> state.monitors@[m].rect.x <= rect.x && rect.x + rect.width
                    <= state.monitors@[m].rect.x + state.monitors@[m].rect.width
        }),
    ensures
        0 <= k < state.wanted_strips(on_the_way).len(),
        state.wanted_strips(on_the_way)[k].rect == rect,
        state.wanted_strips(on_the_way)[k].key.monitor == state.workspaces@[a].monitor,
        state.wanted_strips(on_the_way)[k].key.workspace == state.workspaces@[a].active,
        state.wanted_strips(on_the_way)[k].key.column == c,
{
    let group = state.workspaces@[a];
    let workspace = group.workspaces@[group.active as int];
    let owner = monitor_of(state.monitors@, group.monitor);
    let rects = state.tab_places(on_the_way);
    law_first_monitor_counts(state.monitors@, group.monitor);
    assert(workspace.columns.len() == workspace.columns@.len());
    assert(rects.contains_key(workspace.columns@[c].windows@[visible as int]));
    let strip = strip_of(group.monitor, group.active, workspace, c, rects, owner)->0;
    lemma_column_strip_is_listed(
        group.monitor,
        group.active,
        workspace,
        workspace.columns@.len() as int,
        rects,
        owner,
        c,
    );
    lemma_group_strip_is_listed(
        state.workspaces@,
        state.workspaces@.len() as int,
        rects,
        state.monitors@,
        a,
        strip,
    );
    let strips = state.wanted_strips(on_the_way);
    choose|k: int| 0 <= k < strips.len() && strips[k] == strip
}

proof fn lemma_column_strips_in_order(
    monitor: MonitorId,
    workspace_idx: usize,
    workspace: Workspace,
    n: int,
    rects: Map<u64, Rect>,
    owner: Option<MonitorInfo>,
    k: int,
    l: int,
)
    requires
        n <= workspace.columns@.len(),
        0 <= k < l < strips_of_columns(monitor, workspace_idx, workspace, n, rects, owner).len(),
    ensures
        ({
            let strips = strips_of_columns(monitor, workspace_idx, workspace, n, rects, owner);
            strips[k].key.column < strips[l].key.column
        }),
    decreases n,
{
    let before = strips_of_columns(monitor, workspace_idx, workspace, n - 1, rects, owner);
    if n > 0 {
        assert(workspace.columns.len() == workspace.columns@.len());
        if l < before.len() {
            lemma_column_strips_in_order(
                monitor,
                workspace_idx,
                workspace,
                n - 1,
                rects,
                owner,
                k,
                l,
            );
        } else {
            lemma_column_strips(monitor, workspace_idx, workspace, n - 1, rects, owner);
            assert(before[k].key.column < n - 1);
        }
    }
}

proof fn lemma_strips_in_order(
    groups: Seq<MonitorWorkspaces>,
    n: int,
    rects: Map<u64, Rect>,
    monitors: Seq<MonitorInfo>,
    k: int,
    l: int,
) -> (at: (int, int))
    requires
        n <= groups.len(),
        0 <= k < l < strips_of(groups, n, rects, monitors).len(),
    ensures
        0 <= at.0 <= at.1 < n,
        groups[at.0].monitor == strips_of(groups, n, rects, monitors)[k].key.monitor,
        groups[at.1].monitor == strips_of(groups, n, rects, monitors)[l].key.monitor,
        at.0 == at.1 ==> strips_of(groups, n, rects, monitors)[k].key.column < strips_of(
            groups,
            n,
            rects,
            monitors,
        )[l].key.column,
    decreases n,
{
    let before = strips_of(groups, n - 1, rects, monitors);
    let group = groups[n - 1];
    let added = strips_of_group(group, rects, monitors);
    let strips = strips_of(groups, n, rects, monitors);
    assert(strips == before + added);
    let workspace = group.workspaces@[group.active as int];
    let owner = monitor_of(monitors, group.monitor);
    let count = workspace.columns@.len() as int;
    if l < before.len() {
        lemma_strips_in_order(groups, n - 1, rects, monitors, k, l)
    } else {
        lemma_column_strips(group.monitor, group.active, workspace, count, rects, owner);
        assert(strips[l] == added[l - before.len()]);
        if k < before.len() {
            lemma_strips(groups, n - 1, rects, monitors);
            let a = choose|a: int|
                0 <= a < n - 1 && (#[trigger] groups[a]).monitor == before[k].key.monitor
                    && groups[a].active == before[k].key.workspace && groups[a].active
                    < groups[a].workspaces@.len()
                    && !groups[a].workspaces@[groups[a].active as int].fullscreen;
            (a, n - 1)
        } else {
            assert(strips[k] == added[k - before.len()]);
            lemma_column_strips_in_order(
                group.monitor,
                group.active,
                workspace,
                count,
                rects,
                owner,
                k - before.len(),
                l - before.len(),
            );
            (n - 1, n - 1)
        }
    }
}

/// Strips come monitor by monitor, and on one monitor column by column.
pub proof fn law_strips_come_in_order(
    state: AppState,
    on_the_way: Map<u64, Rect>,
    k: int,
    l: int,
) -> (at: (int, int))
    requires
        0 <= k < l < state.wanted_strips(on_the_way).len(),
    ensures
        0 <= at.0 <= at.1 < state.workspaces@.len(),
        state.wanted_strips(on_the_way)[k].key.monitor == state.workspaces@[at.0].monitor,
        state.wanted_strips(on_the_way)[l].key.monitor == state.workspaces@[at.1].monitor,
        at.0 == at.1 ==> state.wanted_strips(on_the_way)[k].key.column < state.wanted_strips(
            on_the_way,
        )[l].key.column,
{
    lemma_strips_in_order(
        state.workspaces@,
        state.workspaces@.len() as int,
        state.tab_places(on_the_way),
        state.monitors@,
        k,
        l,
    )
}

/// The windows that need an icon are those of the tabbed columns of active workspaces that
/// do not show one window only, without the stand-in for a dragged one.
pub proof fn law_tabs_are_of_shown_tabbed_columns(state: AppState, id: WindowId)
    ensures
        state.is_tab(id) <==> id != 0xffff_ffff_ffff_ffff && exists|a: int, c: int|
            tab_stands_at(state, a, c, id),
{
    if state.is_tab(id) {
        let (a, c) = choose|a: int, c: int|
            0 <= a < state.workspaces@.len() && is_tab_column(state.workspaces@[a], c)
                && #[trigger] shown_columns(state.workspaces@[a])[c].windows@.contains(id);
        assert(tab_stands_at(state, a, c, id));
    }
    if id != 0xffff_ffff_ffff_ffff && exists|a: int, c: int| tab_stands_at(state, a, c, id) {
        let (a, c) = choose|a: int, c: int| tab_stands_at(state, a, c, id);
        assert(is_tab_column(state.workspaces@[a], c));
        assert(shown_columns(state.workspaces@[a])[c].windows@.contains(id));
    }
}

/// The window is in column `c` of the workspace that group `a` shows, which is tabbed.
pub open spec fn tab_stands_at(state: AppState, a: int, c: int, id: WindowId) -> bool {
    let group = state.workspaces@[a];
    let workspace = group.workspaces@[group.active as int];
    &&& 0 <= a < state.workspaces@.len()
    &&& group.active < group.workspaces@.len()
    &&& !workspace.fullscreen
    &&& 0 <= c < workspace.columns@.len()
    &&& workspace.columns@[c].tabbed
    &&& workspace.columns@[c].windows@.contains(id)
}

/// An overlay is wanted just where some strip is of its monitor, workspace and column.
pub proof fn law_wanted_overlays_have_a_strip(strips: Seq<StripShow>, key: StripKey)
    ensures
        is_wanted(strips, key) <==> exists|k: int|
            0 <= k < strips.len() && (#[trigger] strips[k]).key.monitor == key.monitor
                && strips[k].key.workspace == key.workspace && strips[k].key.column == key.column,
{
    if is_wanted(strips, key) {
        let k = choose|k: int| 0 <= k < strips.len() && (#[trigger] strips[k]).key == key;
        assert(strips[k].key.monitor == key.monitor);
    }
    if exists|k: int|
        0 <= k < strips.len() && (#[trigger] strips[k]).key.monitor == key.monitor
            && strips[k].key.workspace == key.workspace && strips[k].key.column == key.column {
        let k = choose|k: int|
            0 <= k < strips.len() && (#[trigger] strips[k]).key.monitor == key.monitor
                && strips[k].key.workspace == key.workspace && strips[k].key.column == key.column;
        assert(strips[k].key == key);
    }
}

/// A strip is seen as it is.
pub proof fn law_strips_are_seen_as_they_are(strips: Seq<StripShow>, k: int)
    requires
        0 <= k < strips.len(),
    ensures
        strip_views(strips).len() == strips.len(),
        strip_views(strips)[k].key == strips[k].key,
        strip_views(strips)[k].rect == strips[k].rect,
        strip_views(strips)[k].tabs == strips[k].tabs@,
        strip_views(strips)[k].active_idx == strips[k].active_idx,
{
}

} // verus!
