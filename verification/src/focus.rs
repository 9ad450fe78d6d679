//! Handing over the foreground, and the pointer that follows it.
use vstd::prelude::*;
use crate::geometry::WindowId;
use crate::inspect::WindowBounds;
use crate::window_rules;

verus! {

/// Why a window could not be brought to the foreground, or closed.
#[derive(Clone, Copy, Debug, PartialEq, Eq, Structural)]
pub enum FocusError {
    /// There is no such window.
    WindowNotFound(WindowId),
    /// A minimized window could not be restored first.
    RestoreFailed(WindowId),
    /// The system knows no thread of the window.
    NoThread(WindowId),
    /// The system refused, and some call on the way failed.
    Refused(WindowId),
    /// The close request could not be posted.
    CloseFailed(WindowId),
}

/// A call on the way to the foreground that failed.
#[derive(Clone, Copy, Debug, PartialEq, Eq, Structural)]
pub enum HandoffDiagnostic {
    /// The input of this thread could not be attached.
    AttachFailed(u32),
    /// The window could not be raised.
    RaiseFailed,
    /// The window was raised and the system still refused.
    StillRefused,
    /// The input of this thread could not be detached.
    DetachFailed(u32),
}

/// How far a handover is.
#[derive(Clone, Copy, Debug, PartialEq, Eq, Structural)]
pub enum HandoffStage {
    /// The input of the thread that has the foreground is to be attached.
    AttachForeground,
    /// The input of the window's thread is to be attached.
    AttachTarget,
    /// The foreground is to be asked for.
    Request,
    /// The window is to be raised.
    Raise,
    /// The foreground is to be asked for once more.
    RequestAgain,
    /// The attached thread at this position is to be detached.
    Detach(usize),
    /// Nothing is left to be done.
    Done,
}

/// The call that a handover asks for next.
#[derive(Clone, Copy, Debug, PartialEq, Eq, Structural)]
pub enum HandoffAction {
    /// Attach the input of this thread.
    Attach(u32),
    /// Ask for the foreground.
    Request,
    /// Raise the window.
    Raise,
    /// Detach the input of this thread.
    Detach(u32),
    /// Nothing more.
    Finish,
}

/// The handover of the foreground to one window, as it goes on.
pub struct Handoff {
    pub window_id: WindowId,
    pub current_thread: u32,
    pub foreground_thread: u32,
    pub target_thread: u32,
    pub stage: HandoffStage,
    pub attached: Vec<u32>,
    pub diagnostics: Vec<HandoffDiagnostic>,
    pub foreground_set: bool,
}

/// What a [`Handoff`] says.
#[verifier::ext_equal]
pub struct HandoffView {
    pub window_id: WindowId,
    pub current_thread: u32,
    pub foreground_thread: u32,
    pub target_thread: u32,
    pub stage: HandoffStage,
    pub attached: Seq<u32>,
    pub diagnostics: Seq<HandoffDiagnostic>,
    pub foreground_set: bool,
}

impl View for Handoff {
    type V = HandoffView;

    open spec fn view(&self) -> HandoffView {
        HandoffView {
            window_id: self.window_id,
            current_thread: self.current_thread,
            foreground_thread: self.foreground_thread,
            target_thread: self.target_thread,
            stage: self.stage,
            attached: self.attached@,
            diagnostics: self.diagnostics@,
            foreground_set: self.foreground_set,
        }
    }
}

impl HandoffView {
    /// The input of a thread is to be attached: it is a real thread, not this one,
    /// and not attached yet.
    pub open spec fn wants(self, thread: u32) -> bool {
        thread != 0 && thread != self.current_thread && !self.attached.contains(thread)
    }

    /// Only what the stage has reached was attached, each thread once, and the stage
    /// asks for something that can be done.
    pub open spec fn wf(self) -> bool {
        &&& self.attached.no_duplicates()
        &&& forall|k: int|
            0 <= k < self.attached.len() ==> (#[trigger] self.attached[k]) != 0
                && self.attached[k] != self.current_thread
        &&& self.attached.len() <= 2
        &&& match self.stage {
            HandoffStage::AttachForeground => self.attached.len() == 0 && self.wants(
                self.foreground_thread,
            ),
            HandoffStage::AttachTarget => self.attached.len() <= 1 && self.wants(
                self.target_thread,
            ),
            HandoffStage::Detach(i) => i < self.attached.len(),
            _ => true,
        }
    }

    /// The call that is asked for next.
    pub open spec fn action(self) -> HandoffAction {
        match self.stage {
            HandoffStage::AttachForeground => HandoffAction::Attach(self.foreground_thread),
            HandoffStage::AttachTarget => HandoffAction::Attach(self.target_thread),
            HandoffStage::Request => HandoffAction::Request,
            HandoffStage::Raise => HandoffAction::Raise,
            HandoffStage::RequestAgain => HandoffAction::Request,
            HandoffStage::Detach(i) => HandoffAction::Detach(self.attached[i as int]),
            HandoffStage::Done => HandoffAction::Finish,
        }
    }

    /// The stage that follows once the foreground was asked for.
    pub open spec fn clean_up(self) -> HandoffStage {
        if self.attached.len() == 0 {
            HandoffStage::Done
        } else {
            HandoffStage::Detach(0)
        }
    }

    /// The handover with an attempt to attach a thread noted.
    pub open spec fn noted_attach(self, thread: u32, succeeded: bool) -> HandoffView {
        if succeeded {
            HandoffView { attached: self.attached.push(thread), ..self }
        } else {
            self.noted(HandoffDiagnostic::AttachFailed(thread))
        }
    }

    /// The handover with a failed call noted.
    pub open spec fn noted(self, diagnostic: HandoffDiagnostic) -> HandoffView {
        HandoffView { diagnostics: self.diagnostics.push(diagnostic), ..self }
    }

    /// The handover after the call that it asked for succeeded or failed.
    pub open spec fn next(self, succeeded: bool) -> HandoffView {
        match self.stage {
            HandoffStage::AttachForeground => {
                let noted = self.noted_attach(self.foreground_thread, succeeded);
                HandoffView {
                    stage: if noted.wants(self.target_thread) {
                        HandoffStage::AttachTarget
                    } else {
                        HandoffStage::Request
                    },
                    ..noted
                }
            },
            HandoffStage::AttachTarget => HandoffView {
                stage: HandoffStage::Request,
                ..self.noted_attach(self.target_thread, succeeded)
            },
            HandoffStage::Request => HandoffView {
                foreground_set: succeeded,
                stage: if succeeded {
                    self.clean_up()
                } else {
                    HandoffStage::Raise
                },
                ..self
            },
            HandoffStage::Raise => if succeeded {
                HandoffView { stage: HandoffStage::RequestAgain, ..self }
            } else {
                HandoffView {
                    stage: self.clean_up(),
                    ..self.noted(HandoffDiagnostic::RaiseFailed)
                }
            },
            HandoffStage::RequestAgain => if succeeded {
                HandoffView { foreground_set: true, stage: self.clean_up(), ..self }
            } else {
                HandoffView {
                    stage: self.clean_up(),
                    ..self.noted(HandoffDiagnostic::StillRefused)
                }
            },
            HandoffStage::Detach(i) => {
                let noted = if succeeded {
                    self
                } else {
                    self.noted(HandoffDiagnostic::DetachFailed(self.attached[i as int]))
                };
                HandoffView {
                    stage: if i + 1 < self.attached.len() {
                        HandoffStage::Detach((i + 1) as usize)
                    } else {
                        HandoffStage::Done
                    },
                    ..noted
                }
            },
            HandoffStage::Done => self,
        }
    }

    /// The handover as it begins.
    pub open spec fn begun(
        window_id: WindowId,
        current_thread: u32,
        foreground_thread: u32,
        target_thread: u32,
    ) -> HandoffView {
        let start = HandoffView {
            window_id,
            current_thread,
            foreground_thread,
            target_thread,
            stage: HandoffStage::Request,
            attached: Seq::empty(),
            diagnostics: Seq::empty(),
            foreground_set: false,
        };
        if start.wants(foreground_thread) {
            HandoffView { stage: HandoffStage::AttachForeground, ..start }
        } else if start.wants(target_thread) {
            HandoffView { stage: HandoffStage::AttachTarget, ..start }
        } else {
            start
        }
    }

    /// The handover after the calls that it asked for came out as `answers` says.
    pub open spec fn run(self, answers: Seq<bool>) -> HandoffView
        decreases answers.len(),
    {
        if answers.len() == 0 {
            self
        } else {
            self.run(answers.drop_last()).next(answers.last())
        }
    }

    /// The threads that were attached on the way, in order.
    pub open spec fn attached_on_the_way(self, answers: Seq<bool>) -> Seq<u32>
        decreases answers.len(),
    {
        if answers.len() == 0 {
            Seq::empty()
        } else {
            let before = self.attached_on_the_way(answers.drop_last());
            match self.run(answers.drop_last()).action() {
                HandoffAction::Attach(thread) if answers.last() => before.push(thread),
                _ => before,
            }
        }
    }

    /// The threads that were to be detached on the way, in order.
    pub open spec fn detached_on_the_way(self, answers: Seq<bool>) -> Seq<u32>
        decreases answers.len(),
    {
        if answers.len() == 0 {
            Seq::empty()
        } else {
            let before = self.detached_on_the_way(answers.drop_last());
            match self.run(answers.drop_last()).action() {
                HandoffAction::Detach(thread) => before.push(thread),
                _ => before,
            }
        }
    }

    /// How many calls may still follow.
    pub open spec fn calls_left(self) -> int {
        match self.stage {
            HandoffStage::AttachForeground => 7,
            HandoffStage::AttachTarget => 6,
            HandoffStage::Request => 5,
            HandoffStage::Raise => 4,
            HandoffStage::RequestAgain => 3,
            HandoffStage::Detach(i) => self.attached.len() - i,
            HandoffStage::Done => 0,
        }
    }
}

/// The foreground window, `None` where the system reports none.
pub fn get_foreground_window(handle: u64) -> (r: Option<WindowId>)
    ensures
        r == (if handle == 0 {
            None
        } else {
            Some(handle)
        }),
{
    if handle == 0 {
        None
    } else {
        Some(handle)
    }
}

/// Time from `last` to `now` on a millisecond clock that wraps around.
pub open spec fn ticks_since(now: u32, last: u32) -> int {
    if now >= last {
        now - last
    } else {
        now - last + 0x1_0000_0000
    }
}

/// Milliseconds since the last input of the user, on a clock that wraps around;
/// `None` where the system would not say when that was.
pub fn ms_since_last_user_input(now: u32, last_input: Option<u32>) -> (r: Option<u32>)
    ensures
        match (r, last_input) {
            (Some(ms), Some(last)) => ms == ticks_since(now, last),
            (None, None) => true,
            _ => false,
        },
{
    match last_input {
        Some(last) => Some(now.wrapping_sub(last)),
        None => None,
    }
}

/// The middle of a window, rounded towards its top left.
pub open spec fn middle(start: int, end: int) -> int {
    start + window_rules::half(end - start)
}

/// Where the pointer goes to be in the middle of a window: nowhere if the window is
/// gone, minimized, or of unknown place.
pub fn warp_cursor_to_window(
    is_window: bool,
    minimized: bool,
    bounds: Option<WindowBounds>,
) -> (r: Option<(i32, i32)>)
    requires
        bounds matches Some(bounds) ==> bounds.fits(),
    ensures
        match r {
            Some(point) => is_window && !minimized && (bounds matches Some(bounds) && point.0
                == middle(bounds.left as int, bounds.right as int) && point.1 == middle(
                bounds.top as int,
                bounds.bottom as int,
            )),
            None => !is_window || minimized || bounds is None,
        },
{
    if !is_window || minimized {
        return None;
    }
    match bounds {
        Some(bounds) => {
            let dx: i32 = window_rules::halved(bounds.right - bounds.left);
            let dy: i32 = window_rules::halved(bounds.bottom - bounds.top);
            Some((bounds.left + dx, bounds.top + dy))
        },
        None => None,
    }
}

/// Whether a close request reached its window. Zero is no window.
pub fn close_window(window_id: WindowId, posted: bool) -> (r: Result<(), FocusError>)
    ensures
        r == (if window_id == 0 {
            Err::<(), FocusError>(FocusError::WindowNotFound(window_id))
        } else if posted {
            Ok(())
        } else {
            Err(FocusError::CloseFailed(window_id))
        }),
{
    if window_id == 0 {
        Err(FocusError::WindowNotFound(window_id))
    } else if posted {
        Ok(())
    } else {
        Err(FocusError::CloseFailed(window_id))
    }
}

impl Handoff {
    /// Why the handover to a window cannot even begin.
    pub open spec fn obstacle(
        window_id: WindowId,
        is_window: bool,
        stays_minimized: bool,
        target_thread: u32,
    ) -> Option<FocusError> {
        if window_id == 0 || !is_window {
            Some(FocusError::WindowNotFound(window_id))
        } else if stays_minimized {
            Some(FocusError::RestoreFailed(window_id))
        } else if target_thread == 0 {
            Some(FocusError::NoThread(window_id))
        } else {
            None
        }
    }

    /// Begins the handover from the thread that has the foreground (zero if none
    /// has) to that of the window. `stays_minimized` says that the window was
    /// minimized and is so after an attempt to restore it.
    pub fn begin(
        window_id: WindowId,
        is_window: bool,
        stays_minimized: bool,
        target_thread: u32,
        current_thread: u32,
        foreground_thread: u32,
    ) -> (r: Result<Handoff, FocusError>)
        ensures
            match (r, Self::obstacle(window_id, is_window, stays_minimized, target_thread)) {
                (Err(error), Some(expected)) => error == expected,
                (Ok(handoff), None) => handoff@.wf() && handoff@ == HandoffView::begun(
                    window_id,
                    current_thread,
                    foreground_thread,
                    target_thread,
                ),
                _ => false,
            },
    {
        if window_id == 0 || !is_window {
            return Err(FocusError::WindowNotFound(window_id));
        }
        if stays_minimized {
            return Err(FocusError::RestoreFailed(window_id));
        }
        if target_thread == 0 {
            return Err(FocusError::NoThread(window_id));
        }
        let mut handoff = Handoff {
            window_id,
            current_thread,
            foreground_thread,
            target_thread,
            stage: HandoffStage::Request,
            attached: Vec::new(),
            diagnostics: Vec::new(),
            foreground_set: false,
        };
        if handoff.wants_attach(foreground_thread) {
            handoff.stage = HandoffStage::AttachForeground;
        } else if handoff.wants_attach(target_thread) {
            handoff.stage = HandoffStage::AttachTarget;
        }
        assert(handoff@.attached =~= Seq::<u32>::empty());
        assert(handoff@.diagnostics =~= Seq::<HandoffDiagnostic>::empty());
        Ok(handoff)
    }

    fn wants_attach(&self, thread: u32) -> (r: bool)
        ensures
            r == self@.wants(thread),
    {
        if thread == 0 || thread == self.current_thread {
            return false;
        }
        let mut i: usize = 0;
        while i < self.attached.len()
            invariant
                i <= self.attached.len(),
                forall|k: int| 0 <= k < i ==> #[trigger] self.attached@[k] != thread,
            decreases self.attached.len() - i,
        {
            if self.attached[i] == thread {
                return false;
            }
            i = i + 1;
        }
        true
    }

    fn note_attach(&mut self, thread: u32, succeeded: bool)
        ensures
            final(self)@ == old(self)@.noted_attach(thread, succeeded),
    {
        if succeeded {
            self.attached.push(thread);
        } else {
            self.diagnostics.push(HandoffDiagnostic::AttachFailed(thread));
        }
    }

    fn clean_up(&self) -> (r: HandoffStage)
        ensures
            r == self@.clean_up(),
    {
        if self.attached.len() == 0 {
            HandoffStage::Done
        } else {
            HandoffStage::Detach(0)
        }
    }

    /// The call that the handover asks for next.
    pub fn next_action(&self) -> (r: HandoffAction)
        requires
            self@.wf(),
        ensures
            r == self@.action(),
    {
        match self.stage {
            HandoffStage::AttachForeground => HandoffAction::Attach(self.foreground_thread),
            HandoffStage::AttachTarget => HandoffAction::Attach(self.target_thread),
            HandoffStage::Request => HandoffAction::Request,
            HandoffStage::Raise => HandoffAction::Raise,
            HandoffStage::RequestAgain => HandoffAction::Request,
            HandoffStage::Detach(i) => HandoffAction::Detach(self.attached[i]),
            HandoffStage::Done => HandoffAction::Finish,
        }
    }

    /// Takes note of whether the call that the handover asked for succeeded.
    pub fn step(&mut self, succeeded: bool)
        requires
            old(self)@.wf(),
        ensures
            final(self)@.wf(),
            final(self)@ == old(self)@.next(succeeded),
    {
        proof {
            lemma_next_is_wf(self@, succeeded);
        }
        match self.stage {
            HandoffStage::AttachForeground => {
                self.note_attach(self.foreground_thread, succeeded);
                self.stage = if self.wants_attach(self.target_thread) {
                    HandoffStage::AttachTarget
                } else {
                    HandoffStage::Request
                };
            },
            HandoffStage::AttachTarget => {
                self.note_attach(self.target_thread, succeeded);
                self.stage = HandoffStage::Request;
            },
            HandoffStage::Request => {
                self.foreground_set = succeeded;
                self.stage = if succeeded {
                    self.clean_up()
                } else {
                    HandoffStage::Raise
                };
            },
            HandoffStage::Raise => {
                if succeeded {
                    self.stage = HandoffStage::RequestAgain;
                } else {
                    self.diagnostics.push(HandoffDiagnostic::RaiseFailed);
                    self.stage = self.clean_up();
                }
            },
            HandoffStage::RequestAgain => {
                if succeeded {
                    self.foreground_set = true;
                } else {
                    self.diagnostics.push(HandoffDiagnostic::StillRefused);
                }
                self.stage = self.clean_up();
            },
            HandoffStage::Detach(i) => {
                if !succeeded {
                    let thread: u32 = self.attached[i];
                    self.diagnostics.push(HandoffDiagnostic::DetachFailed(thread));
                }
                self.stage = if i + 1 < self.attached.len() {
                    HandoffStage::Detach(i + 1)
                } else {
                    HandoffStage::Done
                };
            },
            HandoffStage::Done => {},
        }
    }

    /// What the handover came to: whether the window has the foreground, or that
    /// the system refused while some call failed.
    pub open spec fn result(handoff: HandoffView) -> Result<bool, FocusError> {
        if handoff.foreground_set {
            Ok(true)
        } else if handoff.diagnostics.len() == 0 {
            Ok(false)
        } else {
            Err(FocusError::Refused(handoff.window_id))
        }
    }

    /// What the handover came to, once nothing is left to be done.
    pub fn set_foreground_window(&self) -> (r: Result<bool, FocusError>)
        requires
            self@.stage is Done,
        ensures
            r == Self::result(self@),
    {
        if self.foreground_set {
            Ok(true)
        } else if self.diagnostics.len() == 0 {
            Ok(false)
        } else {
            Err(FocusError::Refused(self.window_id))
        }
    }
}

/// The middle of a window lies inside it.
pub proof fn law_pointer_lands_inside(start: int, end: int)
    requires
        start < end,
    ensures
        start <= middle(start, end) < end,
{
}

proof fn lemma_next_is_wf(handoff: HandoffView, succeeded: bool)
    requires
        handoff.wf(),
    ensures
        handoff.next(succeeded).wf(),
        handoff.next(succeeded).calls_left() <= handoff.calls_left(),
        !(handoff.stage is Done) ==> handoff.next(succeeded).calls_left() < handoff.calls_left(),
        handoff.stage is Done || handoff.stage is Detach ==> handoff.next(succeeded).stage is Done
            || handoff.next(succeeded).stage is Detach,
{
}

proof fn lemma_run(start: HandoffView, answers: Seq<bool>)
    requires
        start.wf(),
        start.attached.len() == 0,
    ensures
        ({
            let end = start.run(answers);
            &&& end.wf()
            &&& end.calls_left() <= start.calls_left()
            &&& end.stage is Done || end.calls_left() <= start.calls_left() - answers.len()
            &&& start.attached_on_the_way(answers) == end.attached
            &&& match end.stage {
                HandoffStage::Done => start.detached_on_the_way(answers) == end.attached,
                HandoffStage::Detach(i) => start.detached_on_the_way(answers)
                    == end.attached.take(i as int),
                _ => start.detached_on_the_way(answers) == Seq::<u32>::empty(),
            }
        }),
    decreases answers.len(),
{
    if answers.len() == 0 {
        assert(start.attached =~= Seq::empty());
        assert(start.attached.take(0) =~= Seq::empty());
    } else {
        lemma_run(start, answers.drop_last());
        let before = start.run(answers.drop_last());
        lemma_next_is_wf(before, answers.last());
        let end = start.run(answers);
        assert(end == before.next(answers.last()));
        if let HandoffStage::Detach(i) = before.stage {
            assert(before.attached.take(i as int).push(before.attached[i as int])
                =~= before.attached.take(i + 1));
            assert(before.attached.take(before.attached.len() as int) =~= before.attached);
        }
        assert(end.attached.take(0) =~= Seq::empty());
        if end.attached.len() == 0 {
            assert(end.attached =~= Seq::empty());
        }
    }
}

/// A handover that is over has detached every thread that it attached, in order and
/// each once, and nothing else, however its calls came out.
pub proof fn law_attached_threads_are_detached_once(
    window_id: WindowId,
    current_thread: u32,
    foreground_thread: u32,
    target_thread: u32,
    answers: Seq<bool>,
)
    requires
        HandoffView::begun(
            window_id,
            current_thread,
            foreground_thread,
            target_thread,
        ).run(answers).stage is Done,
    ensures
        ({
            let start = HandoffView::begun(
                window_id,
                current_thread,
                foreground_thread,
                target_thread,
            );
            &&& start.detached_on_the_way(answers) == start.attached_on_the_way(answers)
            &&& start.detached_on_the_way(answers).no_duplicates()
        }),
{
    let start = HandoffView::begun(window_id, current_thread, foreground_thread, target_thread);
    lemma_run(start, answers);
}

/// Every handover ends: it attaches two threads at most, asks twice, raises once and
/// detaches what it attached.
pub proof fn law_a_handover_ends(
    window_id: WindowId,
    current_thread: u32,
    foreground_thread: u32,
    target_thread: u32,
    answers: Seq<bool>,
)
    requires
        answers.len() >= 7,
    ensures
        HandoffView::begun(
            window_id,
            current_thread,
            foreground_thread,
            target_thread,
        ).run(answers).stage is Done,
{
    let start = HandoffView::begun(window_id, current_thread, foreground_thread, target_thread);
    lemma_run(start, answers);
}

/// A refusal after the window was raised, or after raising it failed, is never
/// silent: however the rest goes, the handover ends in an error.
pub proof fn law_refusal_is_reported(handoff: HandoffView, rest: Seq<bool>)
    requires
        handoff.wf(),
        !handoff.foreground_set,
        handoff.stage is Raise || handoff.stage is RequestAgain,
    ensures
        Handoff::result(handoff.next(false).run(rest)) == Err::<bool, FocusError>(
            FocusError::Refused(handoff.window_id),
        ),
{
    lemma_refusal_stays(handoff.next(false), rest);
}

proof fn lemma_refusal_stays(handoff: HandoffView, rest: Seq<bool>)
    requires
        !handoff.foreground_set,
        handoff.diagnostics.len() > 0,
        handoff.stage is Detach || handoff.stage is Done,
    ensures
        ({
            let end = handoff.run(rest);
            &&& !end.foreground_set
            &&& end.diagnostics.len() > 0
            &&& end.stage is Detach || end.stage is Done
            &&& end.window_id == handoff.window_id
        }),
    decreases rest.len(),
{
    if rest.len() > 0 {
        lemma_refusal_stays(handoff, rest.drop_last());
    }
}

/// A handover begins with nothing attached, noted or reached. It first attaches the
/// thread that has the foreground, unless there is none or it is this one; else the
/// window's, unless it is this one; else it asks at once.
pub proof fn law_handovers_begin_with_the_foreground_thread(
    window_id: WindowId,
    current_thread: u32,
    foreground_thread: u32,
    target_thread: u32,
)
    ensures
        ({
            let start = HandoffView::begun(
                window_id,
                current_thread,
                foreground_thread,
                target_thread,
            );
            &&& start.window_id == window_id
            &&& start.current_thread == current_thread
            &&& start.foreground_thread == foreground_thread
            &&& start.target_thread == target_thread
            &&& start.attached.len() == 0
            &&& start.diagnostics.len() == 0
            &&& !start.foreground_set
            &&& if foreground_thread != 0 && foreground_thread != current_thread {
                start.action() == HandoffAction::Attach(foreground_thread)
            } else if target_thread != 0 && target_thread != current_thread {
                start.action() == HandoffAction::Attach(target_thread)
            } else {
                start.action() == HandoffAction::Request
            }
        }),
{
}

/// A thread that was attached is among the attached ones from then on; one that could not
/// be is noted, and the handover goes on all the same. After the foreground thread comes
/// that of the window, unless it is this one or attached already, and then the request.
pub proof fn law_failed_attachments_do_not_stop_a_handover(
    handoff: HandoffView,
    thread: u32,
    succeeded: bool,
)
    requires
        handoff.wf(),
        handoff.action() == HandoffAction::Attach(thread),
    ensures
        ({
            let next = handoff.next(succeeded);
            &&& next.foreground_set == handoff.foreground_set
            &&& succeeded ==> next.attached == handoff.attached.push(thread) && next.diagnostics
                == handoff.diagnostics
            &&& !succeeded ==> next.attached == handoff.attached && next.diagnostics
                == handoff.diagnostics.push(HandoffDiagnostic::AttachFailed(thread))
            &&& handoff.stage is AttachTarget ==> next.action() == HandoffAction::Request
            &&& handoff.stage is AttachForeground ==> if handoff.target_thread != 0
                && handoff.target_thread != handoff.current_thread && !(succeeded
                && handoff.target_thread == thread) {
                next.action() == HandoffAction::Attach(handoff.target_thread)
            } else {
                next.action() == HandoffAction::Request
            }
        }),
{
    let next = handoff.next(succeeded);
    if handoff.stage is AttachForeground && succeeded {
        assert(next.attached[0] == thread);
    }
}

/// The foreground is asked for once; where that is refused the window is raised and it is
/// asked for again, and there is no third time. What could not be done is noted.
pub proof fn law_foreground_is_asked_for_twice_at_most(handoff: HandoffView, succeeded: bool)
    requires
        handoff.wf(),
    ensures
        ({
            let next = handoff.next(succeeded);
            let ends = if handoff.attached.len() == 0 {
                next.action() == HandoffAction::Finish
            } else {
                next.action() == HandoffAction::Detach(handoff.attached[0])
            };
            &&& handoff.stage is Request ==> {
                &&& handoff.action() == HandoffAction::Request
                &&& next.foreground_set == succeeded
                &&& next.diagnostics == handoff.diagnostics
                &&& succeeded ==> ends
                &&& !succeeded ==> next.stage is Raise && next.action() == HandoffAction::Raise
            }
            &&& handoff.stage is Raise ==> {
                &&& next.foreground_set == handoff.foreground_set
                &&& succeeded ==> next.stage is RequestAgain && next.action()
                    == HandoffAction::Request && next.diagnostics == handoff.diagnostics
                &&& !succeeded ==> ends && next.diagnostics == handoff.diagnostics.push(
                    HandoffDiagnostic::RaiseFailed,
                )
            }
            &&& handoff.stage is RequestAgain ==> {
                &&& ends
                &&& next.foreground_set == (handoff.foreground_set || succeeded)
                &&& succeeded ==> next.diagnostics == handoff.diagnostics
                &&& !succeeded ==> next.diagnostics == handoff.diagnostics.push(
                    HandoffDiagnostic::StillRefused,
                )
            }
            &&& handoff.stage is Done ==> next == handoff && next.action() == HandoffAction::Finish
        }),
{
}

/// The attached threads are detached one after the other, and one that could not be is
/// noted and does not keep the others attached.
pub proof fn law_threads_are_detached_in_turn(handoff: HandoffView, i: usize, succeeded: bool)
    requires
        handoff.wf(),
        handoff.stage == HandoffStage::Detach(i),
    ensures
        ({
            let next = handoff.next(succeeded);
            &&& handoff.action() == HandoffAction::Detach(handoff.attached[i as int])
            &&& next.foreground_set == handoff.foreground_set
            &&& next.diagnostics == (if succeeded {
                handoff.diagnostics
            } else {
                handoff.diagnostics.push(
                    HandoffDiagnostic::DetachFailed(handoff.attached[i as int]),
                )
            })
            &&& i + 1 < handoff.attached.len() ==> next.action() == HandoffAction::Detach(
                handoff.attached[i + 1],
            )
            &&& i + 1 == handoff.attached.len() ==> next.action() == HandoffAction::Finish
        }),
{
}

/// Some request for the foreground on the way was granted.
pub open spec fn was_granted(start: HandoffView, answers: Seq<bool>) -> bool {
    exists|k: int|
        0 <= k < answers.len() && #[trigger] answers[k] && start.run(answers.take(k)).action()
            == HandoffAction::Request
}

/// The window has the foreground just where some request on the way was granted, however
/// the other calls came out.
pub proof fn law_granted_requests_count(start: HandoffView, answers: Seq<bool>)
    requires
        start.wf(),
        start.attached.len() == 0,
        !start.foreground_set,
        start.stage is AttachForeground || start.stage is AttachTarget || start.stage is Request,
    ensures
        start.run(answers).foreground_set <==> was_granted(start, answers),
        start.run(answers).foreground_set ==> start.run(answers).stage is Detach || start.run(
            answers,
        ).stage is Done,
    decreases answers.len(),
{
    if answers.len() > 0 {
        let before = answers.drop_last();
        let last = answers.len() - 1;
        law_granted_requests_count(start, before);
        lemma_run(start, before);
        assert(answers.take(last) =~= before);
        assert(answers[last] == answers.last());
        if was_granted(start, before) {
            let k = choose|k: int|
                0 <= k < before.len() && #[trigger] before[k] && start.run(before.take(k)).action()
                    == HandoffAction::Request;
            assert(answers[k] && answers.take(k) =~= before.take(k));
            assert(was_granted(start, answers));
        }
        if was_granted(start, answers) {
            let k = choose|k: int|
                0 <= k < answers.len() && #[trigger] answers[k] && start.run(
                    answers.take(k),
                ).action() == HandoffAction::Request;
            if k < last {
                assert(before[k] && before.take(k) =~= answers.take(k));
                assert(was_granted(start, before));
            }
        }
        assert(start.run(answers) == start.run(before).next(answers.last()));
    }
}

/// A handover succeeds just where the window has the foreground; where the system refused
/// without any call failing that is no error, else it is one that names the window.
pub proof fn law_handovers_end_in_what_was_reached(handoff: HandoffView)
    ensures
        handoff.foreground_set ==> Handoff::result(handoff) == Ok::<bool, FocusError>(true),
        !handoff.foreground_set && handoff.diagnostics =~= Seq::empty() ==> Handoff::result(handoff)
            == Ok::<bool, FocusError>(false),
        !handoff.foreground_set && handoff.diagnostics.len() > 0 ==> Handoff::result(handoff)
            == Err::<bool, FocusError>(FocusError::Refused(handoff.window_id)),
{
}

/// A handover can begin just where the window exists, did not stay minimized, and has a
/// thread; what is in the way is told in this order.
pub proof fn law_obstacles_are_told_in_order(
    window_id: WindowId,
    is_window: bool,
    stays_minimized: bool,
    target_thread: u32,
)
    ensures
        match Handoff::obstacle(window_id, is_window, stays_minimized, target_thread) {
            None => window_id != 0 && is_window && !stays_minimized && target_thread != 0,
            Some(FocusError::WindowNotFound(id)) => id == window_id && (window_id == 0
                || !is_window),
            Some(FocusError::RestoreFailed(id)) => id == window_id && window_id != 0 && is_window
                && stays_minimized,
            Some(FocusError::NoThread(id)) => id == window_id && window_id != 0 && is_window
                && !stays_minimized && target_thread == 0,
            Some(_) => false,
        },
{
}

/// A clock that is moved on by some time, wrapping around, has moved on by that time.
pub proof fn law_time_passes_across_the_wrap(last: u32, passed: u32, now: u32)
    requires
        now == (last + passed) % 0x1_0000_0000,
    ensures
        ticks_since(now, last) == passed,
{
}

/// The middle is as far from both edges, but for one pixel that goes to the far side.
pub proof fn law_pointer_lands_in_the_middle(start: int, end: int)
    ensures
        start <= end ==> 0 <= (end - middle(start, end)) - (middle(start, end) - start) <= 1,
        start > end ==> 0 <= (middle(start, end) - end) - (start - middle(start, end)) <= 1,
{
}

/// The pointer goes to the middle of a window that is there, is not minimized and has a
/// place; zero is no foreground window, and every other handle is one.
pub proof fn law_pointer_goes_to_windows_that_show(
    is_window: bool,
    minimized: bool,
    bounds: Option<WindowBounds>,
    point: Option<(i32, i32)>,
    handle: u64,
    foreground: Option<WindowId>,
)
    requires
        call_ensures(warp_cursor_to_window, (is_window, minimized, bounds), point),
        call_ensures(get_foreground_window, (handle,), foreground),
    ensures
        point is Some <==> is_window && !minimized && bounds is Some,
        point matches Some(point) ==> ({
            let edges = bounds->0;
            &&& edges.left <= edges.right ==> 0 <= (edges.right - point.0) - (point.0 - edges.left)
                <= 1
            &&& edges.top <= edges.bottom ==> 0 <= (edges.bottom - point.1) - (point.1 - edges.top)
                <= 1
        }),
        foreground is None <==> handle == 0,
        foreground matches Some(id) ==> id == handle,
{
}

} // verus!
