//! Window admission: why a window is or is not taken into the layout, under
//! each of the two admission paths.
//!
//! The startup path enumerates existing windows. The live-create path looks at
//! a window that was just created or shown; it admits transient popups, and so
//! asks neither for a title nor whether the window is cloaked.
use vstd::prelude::*;
use crate::geometry::{Rect, WindowId};
use crate::text;

verus! {

/// The style bit of a visible window.
pub const WS_VISIBLE: u32 = 0x1000_0000;

/// The extended style bit of a window that is never activated.
pub const WS_EX_NOACTIVATE: u32 = 0x0800_0000;

/// The style bit of a window that can be resized at its frame.
pub const WS_THICKFRAME: u32 = 0x0004_0000;

/// The extended style bit of a tool window.
pub const WS_EX_TOOLWINDOW: u32 = 0x0000_0080;

/// The extended style bit of a window that wants a taskbar button.
pub const WS_EX_APPWINDOW: u32 = 0x0004_0000;

/// The styles are those of a tool window that is left alone. A resizable one that
/// wants a taskbar button is a window like others.
pub open spec fn is_palette(style: u32, ex_style: u32) -> bool {
    &&& ex_style & WS_EX_TOOLWINDOW != 0
    &&& !(style & WS_THICKFRAME != 0 && ex_style & WS_EX_APPWINDOW != 0)
}

/// Whether the styles are those of a tool window that is left alone.
pub fn is_excluded_tool_window(style: u32, ex_style: u32) -> (r: bool)
    ensures
        r == is_palette(style, ex_style),
{
    ex_style & WS_EX_TOOLWINDOW != 0 && !(style & WS_THICKFRAME != 0 && ex_style & WS_EX_APPWINDOW
        != 0)
}

/// The style bits of a title bar.
pub const WS_CAPTION: u32 = 0x00C0_0000;

/// The style bit of a minimize button.
pub const WS_MINIMIZEBOX: u32 = 0x0002_0000;

/// The style bit of a maximize button.
pub const WS_MAXIMIZEBOX: u32 = 0x0001_0000;

/// Whether a window has the shape of a classic dialog: a title bar, but neither a
/// minimize nor a maximize button.
pub fn is_dialog_like_window(style: u32) -> (r: bool)
    ensures
        r == (style & WS_CAPTION == WS_CAPTION && style & WS_MINIMIZEBOX == 0 && style
            & WS_MAXIMIZEBOX == 0),
{
    style & WS_CAPTION == WS_CAPTION && style & WS_MINIMIZEBOX == 0 && style & WS_MAXIMIZEBOX == 0
}

/// Why a window is not admitted.
#[derive(Clone, Copy, Debug, PartialEq, Eq, Hash, Structural)]
pub enum SkipReason {
    NotVisible,
    Minimized,
    StyleNotVisible,
    ToolWindow,
    NoActivate,
    Owned,
    Cloaked,
    EmptyOrUnreadableTitle,
    SkipTitle,
    SkipClass,
    RectReadFailed,
    ZeroSize,
}

/// The edges of a window, as the system reports them.
#[derive(Clone, Copy, Debug, PartialEq, Eq, Structural)]
pub struct WindowBounds {
    pub left: i32,
    pub top: i32,
    pub right: i32,
    pub bottom: i32,
}

/// What the system says of a window. Title and class name are empty where they
/// could not be read.
#[derive(Clone, Debug)]
pub struct WindowFacts {
    pub hwnd: WindowId,
    pub visible: bool,
    pub minimized: bool,
    pub style: u32,
    pub ex_style: u32,
    pub owner_hwnd: Option<WindowId>,
    pub cloaked: bool,
    pub title: String,
    pub class_name: String,
    pub process_id: u32,
    pub bounds: Option<WindowBounds>,
}

/// A window together with what both admission paths make of it.
#[derive(Debug)]
pub struct WindowInspection {
    pub hwnd: WindowId,
    pub style: u32,
    pub ex_style: u32,
    pub owner_hwnd: Option<WindowId>,
    pub title: String,
    pub class_name: String,
    pub process_id: u32,
    pub rect: Option<Rect>,
    pub startup_verdict: Result<(), SkipReason>,
    pub live_create_verdict: Result<(), SkipReason>,
}

/// Windows of this class never enter the layout: the desktop, taskbars, system
/// windows, islands, remote projections, hung-window stand-ins, dialogs and
/// render widgets.
pub open spec fn is_skipped_class(class_name: Seq<char>) -> bool {
    ||| class_name == "Progman"@
    ||| class_name == "Shell_TrayWnd"@
    ||| class_name == "Shell_SecondaryTrayWnd"@
    ||| class_name == "WorkerW"@
    ||| class_name == "Windows.UI.Core.CoreWindow"@
    ||| class_name == "XamlExplorerHostIslandWindow"@
    ||| class_name == "TopLevelWindowForOverflowXamlIsland"@
    ||| class_name == "RAIL_WINDOW"@
    ||| class_name == "Ghost"@
    ||| class_name == "#32770"@
    ||| class_name == "Chrome_RenderWidgetHostHWND"@
}

/// The desktop's title.
pub open spec fn is_skipped_title(title: Seq<char>) -> bool {
    title == "Program Manager"@
}

/// Whether windows of this class never enter the layout.
pub fn should_skip_window_by_class(class_name: &str) -> (r: bool)
    ensures
        r == is_skipped_class(class_name@),
{
    text::same_text(class_name, "Progman") || text::same_text(class_name, "Shell_TrayWnd")
        || text::same_text(class_name, "Shell_SecondaryTrayWnd") || text::same_text(
        class_name,
        "WorkerW",
    ) || text::same_text(class_name, "Windows.UI.Core.CoreWindow") || text::same_text(
        class_name,
        "XamlExplorerHostIslandWindow",
    ) || text::same_text(class_name, "TopLevelWindowForOverflowXamlIsland") || text::same_text(
        class_name,
        "RAIL_WINDOW",
    ) || text::same_text(class_name, "Ghost") || text::same_text(class_name, "#32770")
        || text::same_text(class_name, "Chrome_RenderWidgetHostHWND")
}

/// Whether windows of this title never enter the layout.
pub fn should_skip_window_by_title(title: &str) -> (r: bool)
    ensures
        r == is_skipped_title(title@),
{
    text::same_text(title, "Program Manager")
}

impl WindowBounds {
    /// Width and height are representable.
    pub open spec fn fits(self) -> bool {
        &&& i32::MIN <= self.right - self.left <= i32::MAX
        &&& i32::MIN <= self.bottom - self.top <= i32::MAX
    }

    /// The bounds as a rectangle.
    pub open spec fn rect(self) -> Rect {
        Rect {
            x: self.left,
            y: self.top,
            width: (self.right - self.left) as i32,
            height: (self.bottom - self.top) as i32,
        }
    }

    /// The bounds as a rectangle.
    pub fn to_rect(&self) -> (r: Rect)
        requires
            self.fits(),
        ensures
            r == self.rect(),
    {
        Rect::new(self.left, self.top, self.right - self.left, self.bottom - self.top)
    }
}

impl WindowFacts {
    /// The window's size is representable.
    pub open spec fn fits(self) -> bool {
        self.bounds matches Some(bounds) ==> bounds.fits()
    }

    /// What is wrong with the window's rectangle, if anything.
    pub open spec fn rect_verdict(self) -> Result<(), SkipReason> {
        match self.bounds {
            None => Err(SkipReason::RectReadFailed),
            Some(bounds) => if bounds.rect().width == 0 || bounds.rect().height == 0 {
                Err(SkipReason::ZeroSize)
            } else {
                Ok(())
            },
        }
    }

    /// What the startup path says: the first of its reasons that holds.
    pub open spec fn startup_verdict(self) -> Result<(), SkipReason> {
        if !self.visible {
            Err(SkipReason::NotVisible)
        } else if self.minimized {
            Err(SkipReason::Minimized)
        } else if self.style & WS_VISIBLE == 0 {
            Err(SkipReason::StyleNotVisible)
        } else if is_palette(self.style, self.ex_style) {
            Err(SkipReason::ToolWindow)
        } else if self.ex_style & WS_EX_NOACTIVATE != 0 {
            Err(SkipReason::NoActivate)
        } else if self.owner_hwnd is Some {
            Err(SkipReason::Owned)
        } else if self.cloaked {
            Err(SkipReason::Cloaked)
        } else if self.title@.len() == 0 {
            Err(SkipReason::EmptyOrUnreadableTitle)
        } else if is_skipped_title(self.title@) {
            Err(SkipReason::SkipTitle)
        } else if is_skipped_class(self.class_name@) {
            Err(SkipReason::SkipClass)
        } else {
            self.rect_verdict()
        }
    }

    /// What the live-create path says: the first of its reasons that holds.
    pub open spec fn live_create_verdict(self) -> Result<(), SkipReason> {
        if !self.visible {
            Err(SkipReason::NotVisible)
        } else if self.style & WS_VISIBLE == 0 {
            Err(SkipReason::StyleNotVisible)
        } else if self.minimized {
            Err(SkipReason::Minimized)
        } else if is_palette(self.style, self.ex_style) {
            Err(SkipReason::ToolWindow)
        } else if self.ex_style & WS_EX_NOACTIVATE != 0 {
            Err(SkipReason::NoActivate)
        } else if self.owner_hwnd is Some {
            Err(SkipReason::Owned)
        } else if is_skipped_class(self.class_name@) {
            Err(SkipReason::SkipClass)
        } else {
            self.rect_verdict()
        }
    }

    /// The window's rectangle, or why there is no usable one.
    pub fn read_rect(&self) -> (r: Result<Rect, SkipReason>)
        requires
            self.fits(),
        ensures
            r is Ok == self.rect_verdict() is Ok,
            r matches Ok(rect) ==> rect == self.bounds->0.rect(),
            r matches Err(reason) ==> self.rect_verdict() == Err::<(), SkipReason>(reason),
    {
        match &self.bounds {
            None => Err(SkipReason::RectReadFailed),
            Some(bounds) => {
                let rect = bounds.to_rect();
                if rect.width == 0 || rect.height == 0 {
                    Err(SkipReason::ZeroSize)
                } else {
                    Ok(rect)
                }
            },
        }
    }

    /// Decides on the window as the enumeration at startup and on refresh does.
    pub fn classify_startup(&self) -> (r: Result<(), SkipReason>)
        requires
            self.fits(),
        ensures
            r == self.startup_verdict(),
    {
        if !self.visible {
            return Err(SkipReason::NotVisible);
        }
        if self.minimized {
            return Err(SkipReason::Minimized);
        }
        if self.style & WS_VISIBLE == 0 {
            return Err(SkipReason::StyleNotVisible);
        }
        if is_excluded_tool_window(self.style, self.ex_style) {
            return Err(SkipReason::ToolWindow);
        }
        if self.ex_style & WS_EX_NOACTIVATE != 0 {
            return Err(SkipReason::NoActivate);
        }
        if self.owner_hwnd.is_some() {
            return Err(SkipReason::Owned);
        }
        if self.cloaked {
            return Err(SkipReason::Cloaked);
        }
        if self.title.as_str().is_empty() {
            return Err(SkipReason::EmptyOrUnreadableTitle);
        }
        if should_skip_window_by_title(self.title.as_str()) {
            return Err(SkipReason::SkipTitle);
        }
        if should_skip_window_by_class(self.class_name.as_str()) {
            return Err(SkipReason::SkipClass);
        }
        match self.read_rect() {
            Ok(_) => Ok(()),
            Err(reason) => Err(reason),
        }
    }

    /// Decides on the window as a create or show event does.
    pub fn classify_live_create(&self) -> (r: Result<(), SkipReason>)
        requires
            self.fits(),
        ensures
            r == self.live_create_verdict(),
    {
        if !self.visible {
            return Err(SkipReason::NotVisible);
        }
        if self.style & WS_VISIBLE == 0 {
            return Err(SkipReason::StyleNotVisible);
        }
        if self.minimized {
            return Err(SkipReason::Minimized);
        }
        if is_excluded_tool_window(self.style, self.ex_style) {
            return Err(SkipReason::ToolWindow);
        }
        if self.ex_style & WS_EX_NOACTIVATE != 0 {
            return Err(SkipReason::NoActivate);
        }
        if self.owner_hwnd.is_some() {
            return Err(SkipReason::Owned);
        }
        if should_skip_window_by_class(self.class_name.as_str()) {
            return Err(SkipReason::SkipClass);
        }
        match self.read_rect() {
            Ok(_) => Ok(()),
            Err(reason) => Err(reason),
        }
    }

    /// `w` reports these facts with both verdicts.
    pub open spec fn inspected_as(self, w: WindowInspection) -> bool {
        &&& w.hwnd == self.hwnd
        &&& w.style == self.style
        &&& w.ex_style == self.ex_style
        &&& w.owner_hwnd == self.owner_hwnd
        &&& w.title@ == self.title@
        &&& w.class_name@ == self.class_name@
        &&& w.process_id == self.process_id
        &&& w.rect == (match self.bounds {
            Some(bounds) => Some(bounds.rect()),
            None => None,
        })
        &&& w.startup_verdict == self.startup_verdict()
        &&& w.live_create_verdict == self.live_create_verdict()
    }

    /// Reports the window with both verdicts.
    pub fn inspect_one(&self) -> (w: WindowInspection)
        requires
            self.fits(),
        ensures
            self.inspected_as(w),
    {
        let live_create_verdict = self.classify_live_create();
        let startup_verdict = self.classify_startup();
        let rect = match &self.bounds {
            Some(bounds) => Some(bounds.to_rect()),
            None => None,
        };
        WindowInspection {
            hwnd: self.hwnd,
            style: self.style,
            ex_style: self.ex_style,
            owner_hwnd: self.owner_hwnd,
            title: self.title.clone(),
            class_name: self.class_name.clone(),
            process_id: self.process_id,
            rect,
            startup_verdict,
            live_create_verdict,
        }
    }
}

/// Reports every window, in order, with both verdicts.
pub fn inspect_windows(facts: &Vec<WindowFacts>) -> (r: Vec<WindowInspection>)
    requires
        forall|i: int| 0 <= i < facts@.len() ==> (#[trigger] facts@[i]).fits(),
    ensures
        r@.len() == facts@.len(),
        forall|i: int| 0 <= i < r@.len() ==> facts@[i].inspected_as(#[trigger] r@[i]),
{
    let mut r: Vec<WindowInspection> = Vec::new();
    let mut i: usize = 0;
    while i < facts.len()
        invariant
            i <= facts.len(),
            r@.len() == i,
            forall|k: int| 0 <= k < facts@.len() ==> (#[trigger] facts@[k]).fits(),
            forall|k: int| 0 <= k < i ==> facts@[k].inspected_as(#[trigger] r@[k]),
        decreases facts.len() - i,
    {
        assert(facts@[i as int].fits());
        r.push(facts[i].inspect_one());
        i = i + 1;
    }
    r
}

/// The live-create path admits every window that the startup path admits.
pub proof fn law_live_create_admits_what_startup_admits(facts: WindowFacts)
    requires
        facts.startup_verdict() is Ok,
    ensures
        facts.live_create_verdict() is Ok,
{
}

/// Where live-create admits a window that startup does not, the only reasons
/// are that it is cloaked, or its title is missing or skipped.
pub proof fn law_paths_differ_only_on_cloak_and_title(facts: WindowFacts)
    requires
        facts.live_create_verdict() is Ok,
        facts.startup_verdict() is Err,
    ensures
        ({
            let reason = facts.startup_verdict()->Err_0;
            ||| reason == SkipReason::Cloaked
            ||| reason == SkipReason::EmptyOrUnreadableTitle
            ||| reason == SkipReason::SkipTitle
        }),
{
}

/// The live-create path never looks at cloak or title.
pub proof fn law_live_create_ignores_cloak_and_title(a: WindowFacts, b: WindowFacts)
    requires
        a == (WindowFacts { cloaked: a.cloaked, title: a.title, ..b }),
    ensures
        a.live_create_verdict() == b.live_create_verdict(),
{
}

/// The window has a tool window's style and not both of a sizing frame and the wish for a
/// taskbar button.
pub open spec fn looks_like_a_palette(facts: WindowFacts) -> bool {
    &&& facts.ex_style & 0x80 != 0
    &&& facts.style & 0x0004_0000 == 0 || facts.ex_style & 0x0004_0000 == 0
}

/// The window has edges that were read and enclose something.
pub open spec fn has_area(facts: WindowFacts) -> bool {
    facts.bounds matches Some(bounds) && bounds.left != bounds.right && bounds.top != bounds.bottom
}

/// A window is admitted when it is created just where it is visible, by itself and by its
/// style whatever other bits that has, is not minimized, is no palette, may be activated,
/// has no owner, is of no skipped class and has an area; and at startup just where it is
/// also not cloaked and has a title that is not skipped.
pub proof fn law_ordinary_windows_are_admitted(facts: WindowFacts)
    requires
        facts.fits(),
    ensures
        facts.live_create_verdict() is Ok <==> {
            &&& facts.visible
            &&& facts.style & 0x1000_0000 != 0
            &&& !facts.minimized
            &&& !looks_like_a_palette(facts)
            &&& facts.ex_style & 0x0800_0000 == 0
            &&& facts.owner_hwnd is None
            &&& !is_skipped_class(facts.class_name@)
            &&& has_area(facts)
        },
        facts.startup_verdict() is Ok <==> {
            &&& facts.live_create_verdict() is Ok
            &&& !facts.cloaked
            &&& facts.title@.len() > 0
            &&& facts.title@ != "Program Manager"@
        },
{
}

/// No style bit but those of visibility and of the sizing frame changes a verdict, and no
/// extended one but those of tool windows, of taskbar buttons and of windows that are
/// never activated.
pub proof fn law_other_style_bits_do_not_matter(facts: WindowFacts, style: u32, ex_style: u32)
    requires
        style & 0x1000_0000 == facts.style & 0x1000_0000,
        style & 0x0004_0000 == facts.style & 0x0004_0000,
        ex_style & 0x80 == facts.ex_style & 0x80,
        ex_style & 0x0004_0000 == facts.ex_style & 0x0004_0000,
        ex_style & 0x0800_0000 == facts.ex_style & 0x0800_0000,
    ensures
        (WindowFacts { style, ex_style, ..facts }).startup_verdict() == facts.startup_verdict(),
        (WindowFacts { style, ex_style, ..facts }).live_create_verdict()
            == facts.live_create_verdict(),
{
}

/// Handle, process and the place of the window do not matter, only that it has an area.
pub proof fn law_place_and_process_do_not_matter(
    facts: WindowFacts,
    hwnd: WindowId,
    process_id: u32,
    bounds: WindowBounds,
)
    requires
        facts.fits(),
        bounds.fits(),
        bounds.left != bounds.right,
        bounds.top != bounds.bottom,
        has_area(facts),
    ensures
        (WindowFacts { hwnd, process_id, bounds: Some(bounds), ..facts }).startup_verdict()
            == facts.startup_verdict(),
        (WindowFacts { hwnd, process_id, bounds: Some(bounds), ..facts }).live_create_verdict()
            == facts.live_create_verdict(),
{
}

/// What a reason says of a window.
pub open spec fn reason_holds(facts: WindowFacts, reason: SkipReason) -> bool {
    match reason {
        SkipReason::NotVisible => !facts.visible,
        SkipReason::Minimized => facts.minimized,
        SkipReason::StyleNotVisible => facts.style & 0x1000_0000 == 0,
        SkipReason::ToolWindow => looks_like_a_palette(facts),
        SkipReason::NoActivate => facts.ex_style & 0x0800_0000 != 0,
        SkipReason::Owned => facts.owner_hwnd is Some,
        SkipReason::Cloaked => facts.cloaked,
        SkipReason::EmptyOrUnreadableTitle => facts.title@.len() == 0,
        SkipReason::SkipTitle => facts.title@ == "Program Manager"@,
        SkipReason::SkipClass => is_skipped_class(facts.class_name@),
        SkipReason::RectReadFailed => facts.bounds is None,
        SkipReason::ZeroSize => facts.bounds matches Some(bounds) && (bounds.left == bounds.right
            || bounds.top == bounds.bottom),
    }
}

/// A reason that is given holds of the window.
pub proof fn law_given_reasons_hold(facts: WindowFacts)
    requires
        facts.fits(),
    ensures
        facts.startup_verdict() matches Err(reason) ==> reason_holds(facts, reason),
        facts.live_create_verdict() matches Err(reason) ==> reason_holds(facts, reason),
{
}

/// How early a reason is looked at, at startup and when a window is created.
pub open spec fn rank_of(reason: SkipReason, startup: bool) -> int {
    match reason {
        SkipReason::NotVisible => 0,
        SkipReason::Minimized => if startup {
            1
        } else {
            2
        },
        SkipReason::StyleNotVisible => if startup {
            2
        } else {
            1
        },
        SkipReason::ToolWindow => 3,
        SkipReason::NoActivate => 4,
        SkipReason::Owned => 5,
        SkipReason::Cloaked => 6,
        SkipReason::EmptyOrUnreadableTitle => 7,
        SkipReason::SkipTitle => 8,
        SkipReason::SkipClass => 9,
        SkipReason::RectReadFailed => 10,
        SkipReason::ZeroSize => 11,
    }
}

/// The reason that is given is the earliest that holds; the paths look at the same ones,
/// but for the order of minimized and style, and for cloak and title.
pub proof fn law_earliest_reason_is_given(facts: WindowFacts, other: SkipReason)
    requires
        facts.fits(),
        reason_holds(facts, other),
    ensures
        facts.startup_verdict() matches Err(reason) && rank_of(reason, true) <= rank_of(
            other,
            true,
        ),
        other != SkipReason::Cloaked && other != SkipReason::EmptyOrUnreadableTitle && other
            != SkipReason::SkipTitle ==> (facts.live_create_verdict() matches Err(reason)
            && rank_of(reason, false) <= rank_of(other, false)),
{
}

/// Desktop, taskbars, dialogs and the like are skipped by their class; a class that is
/// none of them, such as the empty one, is not.
pub proof fn law_system_classes_are_skipped(class_name: Seq<char>)
    ensures
        class_name == "Progman"@ || class_name == "WorkerW"@ || class_name == "Shell_TrayWnd"@
            || class_name == "Shell_SecondaryTrayWnd"@ || class_name == "#32770"@ || class_name
            == "Windows.UI.Core.CoreWindow"@ || class_name == "XamlExplorerHostIslandWindow"@
            || class_name == "TopLevelWindowForOverflowXamlIsland"@ || class_name
            == "RAIL_WINDOW"@ || class_name == "Ghost"@ || class_name
            == "Chrome_RenderWidgetHostHWND"@ <==> is_skipped_class(class_name),
{
}

/// A rectangle has the corner and the size of the edges that it was made from.
pub proof fn law_rectangles_keep_their_edges(bounds: WindowBounds)
    requires
        bounds.fits(),
    ensures
        bounds.rect().x == bounds.left,
        bounds.rect().y == bounds.top,
        bounds.rect().x + bounds.rect().width == bounds.right,
        bounds.rect().y + bounds.rect().height == bounds.bottom,
{
}

/// A window is taken for a dialog just where its style has both bits of a title bar and
/// neither that of a minimize button nor that of a maximize button, whatever else it has.
pub proof fn law_dialogs_have_a_title_bar_and_no_buttons(style: u32, r: bool)
    requires
        call_ensures(is_dialog_like_window, (style,), r),
    ensures
        r <==> style & 0x0080_0000 != 0 && style & 0x0040_0000 != 0 && style & 0x0002_0000 == 0
            && style & 0x0001_0000 == 0,
{
    assert(style & 0x00C0_0000 == 0x00C0_0000 <==> style & 0x0080_0000 != 0 && style & 0x0040_0000
        != 0) by (bit_vector);
}

/// Both decisions let an ordinary window through: one that is visible, by itself and by
/// that bit of its style whatever other bits are set, is not minimized, is no palette, may
/// be activated, has no owner, is of no skipped class and has an area; at startup also not
/// cloaked and with a title of its own.
pub proof fn law_ordinary_windows_pass_both_decisions(
    facts: &WindowFacts,
    created: Result<(), SkipReason>,
    started: Result<(), SkipReason>,
)
    requires
        facts.fits(),
        call_ensures(WindowFacts::classify_live_create, (facts,), created),
        call_ensures(WindowFacts::classify_startup, (facts,), started),
    ensures
        created is Ok <==> {
            &&& facts.visible
            &&& facts.style & 0x1000_0000 != 0
            &&& !facts.minimized
            &&& !looks_like_a_palette(*facts)
            &&& facts.ex_style & 0x0800_0000 == 0
            &&& facts.owner_hwnd is None
            &&& !is_skipped_class(facts.class_name@)
            &&& has_area(*facts)
        },
        started is Ok <==> created is Ok && !facts.cloaked && facts.title@.len() > 0
            && facts.title@ != "Program Manager"@,
{
    law_ordinary_windows_are_admitted(*facts);
}

} // verus!
