//! Wheel gesture recognition: modifier-wheel navigation and touchpad swipes.
//!
//! The engine is a pure state machine over timestamped wheel messages.
//! Navigation (vertical wheel with the configured modifiers held) emits at most
//! one event per notch and per cooldown; swipes (injected wheel messages)
//! accumulate per axis until a threshold.
use vstd::prelude::*;

verus! {

/// Gesture events detected from touchpad or pointer input.
#[derive(Clone, Copy, Debug, PartialEq, Eq, Structural)]
pub enum GestureEvent {
    /// Three-finger swipe left.
    SwipeLeft,
    /// Three-finger swipe right.
    SwipeRight,
    /// Three-finger swipe up.
    SwipeUp,
    /// Three-finger swipe down.
    SwipeDown,
    /// Modifier and mouse wheel up.
    ScrollUp,
    /// Modifier and mouse wheel down.
    ScrollDown,
}

/// The hook flag that marks an injected message.
pub const LLMHF_INJECTED: u32 = 0x01;

/// Accumulated wheel delta at which a swipe fires: three notches.
pub const GESTURE_SCROLL_THRESHOLD: i32 = 360;

/// Wheel delta of one notch.
pub const WHEEL_DELTA: i32 = 120;

/// A pause longer than this ends a navigation stream.
pub const STREAM_END_MS: u128 = 80;

/// Minimum distance between two navigation events of one stream.
pub const NAVIGATION_COOLDOWN_MS: u128 = 150;

/// A pause longer than this discards partial swipe accumulation.
pub const GESTURE_TIMEOUT_MS: u128 = 300;

/// The axis of a wheel message.
#[derive(Clone, Copy, Debug, PartialEq, Eq, Structural)]
pub enum WheelAxis {
    Horizontal,
    Vertical,
}

/// Whether navigation input arrives as separate notches or as a stream.
#[derive(Clone, Copy, Debug, PartialEq, Eq, Structural)]
pub enum WheelMode {
    Discrete,
    Stream,
}

/// One wheel message, as the engine sees it.
#[derive(Clone, Copy, Debug)]
pub struct WheelGestureInput {
    pub now_ms: u128,
    pub axis: WheelAxis,
    pub delta: i32,
    pub flags: u32,
    pub mods_held: bool,
    pub swipe_candidate: bool,
}

/// What one navigation stream amounted to.
#[derive(Clone, Copy, Debug)]
pub struct StreamSummary {
    pub emitted: u32,
    pub suppressed: u32,
    pub duration_ms: u128,
    pub flags_seen: u32,
}

/// Diagnostics of one step.
#[derive(Clone, Copy, Debug)]
pub struct EngineTrace {
    pub mode_transition: Option<(WheelMode, WheelMode)>,
    pub stream_end: Option<StreamSummary>,
    pub cooldown_suppressed: bool,
    pub mode: Option<WheelMode>,
    pub accumulation: Option<i32>,
}

/// What one step decided.
#[derive(Clone, Copy, Debug)]
pub struct WheelGestureResult {
    pub event: Option<GestureEvent>,
    pub consume: bool,
    pub trace: EngineTrace,
}

/// The recogniser's state.
pub struct WheelGestureEngine {
    pub navigation_mode: WheelMode,
    pub navigation_burst_count: u32,
    pub navigation_last_event_ms: Option<u128>,
    pub navigation_stream_started_ms: Option<u128>,
    pub navigation_accum: i32,
    pub navigation_cooldown_until_ms: Option<u128>,
    pub navigation_stream_emitted: u32,
    pub navigation_stream_suppressed: u32,
    pub navigation_stream_flags: u32,
    pub swipe_accum_x: i32,
    pub swipe_accum_y: i32,
    pub swipe_last_event_ms: Option<u128>,
}

/// The absolute value of an integer.
pub open spec fn magnitude(n: int) -> int {
    if n < 0 {
        -n
    } else {
        n
    }
}

/// What is left of `total` once whole notches are taken away, with the sign of
/// `total`.
pub open spec fn partial_notch(total: int) -> int {
    if total < 0 {
        -((-total) % (WHEEL_DELTA as int))
    } else {
        total % (WHEEL_DELTA as int)
    }
}

/// Time from `then` to `now`, zero when the clock went backwards.
pub open spec fn elapsed_ms(now: u128, then: u128) -> int {
    if now >= then {
        now - then
    } else {
        0
    }
}

/// The navigation event for a positive or negative total.
pub open spec fn scroll_event_of(total: int) -> GestureEvent {
    if total > 0 {
        GestureEvent::ScrollUp
    } else {
        GestureEvent::ScrollDown
    }
}

/// The swipe event for a positive or negative total on an axis.
pub open spec fn swipe_event_of(axis: WheelAxis, total: int) -> GestureEvent {
    match (axis, total > 0) {
        (WheelAxis::Horizontal, true) => GestureEvent::SwipeRight,
        (WheelAxis::Horizontal, false) => GestureEvent::SwipeLeft,
        (WheelAxis::Vertical, true) => GestureEvent::SwipeDown,
        (WheelAxis::Vertical, false) => GestureEvent::SwipeUp,
    }
}

/// The trace of a step that had nothing to report.
pub open spec fn quiet_trace() -> EngineTrace {
    EngineTrace {
        mode_transition: None,
        stream_end: None,
        cooldown_suppressed: false,
        mode: None,
        accumulation: None,
    }
}

/// The result of a step that leaves the message to other programs.
pub open spec fn passed_through() -> WheelGestureResult {
    WheelGestureResult { event: None, consume: false, trace: quiet_trace() }
}

impl Default for EngineTrace {
    fn default() -> (t: EngineTrace)
        ensures
            t == quiet_trace(),
    {
        EngineTrace {
            mode_transition: None,
            stream_end: None,
            cooldown_suppressed: false,
            mode: None,
            accumulation: None,
        }
    }
}

impl WheelGestureEngine {
    /// Partial accumulation never reaches a notch or a swipe, and stream mode
    /// means that at least two messages arrived without a pause.
    pub open spec fn wf(self) -> bool {
        &&& magnitude(self.navigation_accum as int) < WHEEL_DELTA
        &&& magnitude(self.swipe_accum_x as int) < GESTURE_SCROLL_THRESHOLD
        &&& magnitude(self.swipe_accum_y as int) < GESTURE_SCROLL_THRESHOLD
        &&& self.navigation_mode == WheelMode::Stream <==> self.navigation_burst_count >= 2
        &&& self.navigation_last_event_ms is None <==> self.navigation_burst_count == 0
        &&& self.navigation_last_event_ms is None ==> self.navigation_cooldown_until_ms is None
    }

    /// The navigation stream, if there is one, ended before `now`.
    pub open spec fn paused_at(self, now: u128) -> bool {
        self.navigation_last_event_ms matches Some(last) && elapsed_ms(now, last) > STREAM_END_MS
    }

    /// Messages of the current burst, counting one that arrives at `now`.
    pub open spec fn burst_at(self, now: u128) -> int {
        if self.navigation_last_event_ms is Some && !self.paused_at(now) {
            self.navigation_burst_count + 1
        } else {
            1
        }
    }

    /// The navigation mode once a message at `now` is counted.
    pub open spec fn mode_at(self, now: u128) -> WheelMode {
        if self.burst_at(now) >= 2 {
            WheelMode::Stream
        } else {
            WheelMode::Discrete
        }
    }

    /// A message at `now` falls into the cooldown after an event.
    pub open spec fn cooling_at(self, now: u128) -> bool {
        !self.paused_at(now) && (self.navigation_cooldown_until_ms matches Some(until) && now
            < until)
    }

    /// The accumulated delta once `input` is added to what the stream holds.
    pub open spec fn navigation_total(self, input: WheelGestureInput) -> int {
        (if self.paused_at(input.now_ms) {
            0
        } else {
            self.navigation_accum as int
        }) + input.delta
    }

    /// `input` completes a navigation notch.
    pub open spec fn navigation_fires(self, input: WheelGestureInput) -> bool {
        &&& !self.cooling_at(input.now_ms)
        &&& magnitude(self.navigation_total(input)) >= WHEEL_DELTA
    }

    /// Navigation state after `input`; swipe state is untouched.
    pub open spec fn navigation_after(self, input: WheelGestureInput) -> WheelGestureEngine {
        let now = input.now_ms;
        let paused = self.paused_at(now);
        let stream = self.mode_at(now) == WheelMode::Stream;
        if input.delta == 0 {
            self
        } else {
            WheelGestureEngine {
                navigation_mode: self.mode_at(now),
                navigation_burst_count: self.burst_at(now) as u32,
                navigation_last_event_ms: Some(now),
                navigation_stream_started_ms: if paused {
                    None
                } else if stream && self.navigation_mode == WheelMode::Discrete {
                    Some(now)
                } else {
                    self.navigation_stream_started_ms
                },
                navigation_accum: if self.cooling_at(now) {
                    self.navigation_accum
                } else if self.navigation_fires(input) {
                    partial_notch(self.navigation_total(input)) as i32
                } else {
                    self.navigation_total(input) as i32
                },
                navigation_cooldown_until_ms: if self.navigation_fires(input) {
                    Some((now + NAVIGATION_COOLDOWN_MS) as u128)
                } else if paused {
                    None
                } else {
                    self.navigation_cooldown_until_ms
                },
                navigation_stream_emitted: if paused {
                    0
                } else if stream && self.navigation_fires(input) {
                    (self.navigation_stream_emitted + 1) as u32
                } else {
                    self.navigation_stream_emitted
                },
                navigation_stream_suppressed: if paused {
                    0
                } else if stream && self.cooling_at(now) {
                    (self.navigation_stream_suppressed + 1) as u32
                } else {
                    self.navigation_stream_suppressed
                },
                navigation_stream_flags: if paused {
                    0u32 | input.flags
                } else {
                    self.navigation_stream_flags | input.flags
                },
                ..self
            }
        }
    }

    /// What a pause before `now` has to report of the stream it ended.
    pub open spec fn ended_stream(self, now: u128) -> Option<StreamSummary> {
        if self.paused_at(now) && self.navigation_mode == WheelMode::Stream {
            let started = match self.navigation_stream_started_ms {
                Some(started) => started,
                None => self.navigation_last_event_ms->0,
            };
            Some(
                StreamSummary {
                    emitted: self.navigation_stream_emitted,
                    suppressed: self.navigation_stream_suppressed,
                    duration_ms: elapsed_ms(now, started) as u128,
                    flags_seen: self.navigation_stream_flags,
                },
            )
        } else {
            None
        }
    }

    /// The decision on a navigation message.
    pub open spec fn navigation_result(self, input: WheelGestureInput) -> WheelGestureResult {
        let now = input.now_ms;
        if input.delta == 0 {
            passed_through()
        } else {
            WheelGestureResult {
                event: if self.navigation_fires(input) {
                    Some(scroll_event_of(self.navigation_total(input)))
                } else {
                    None
                },
                consume: true,
                trace: EngineTrace {
                    mode_transition: if self.mode_at(now) != self.navigation_mode {
                        Some((self.navigation_mode, self.mode_at(now)))
                    } else {
                        None
                    },
                    stream_end: self.ended_stream(now),
                    cooldown_suppressed: self.cooling_at(now) && self.mode_at(now)
                        == WheelMode::Stream,
                    mode: Some(self.mode_at(now)),
                    accumulation: Some(self.navigation_after(input).navigation_accum),
                },
            }
        }
    }

    /// Every counter and sum of a navigation step is representable.
    pub open spec fn navigation_fits(self, input: WheelGestureInput) -> bool {
        &&& i32::MIN < self.navigation_total(input) <= i32::MAX
        &&& self.burst_at(input.now_ms) <= u32::MAX
        &&& self.navigation_stream_emitted < u32::MAX
        &&& self.navigation_stream_suppressed < u32::MAX
        &&& input.now_ms + NAVIGATION_COOLDOWN_MS <= u128::MAX
    }

    /// The swipe accumulators time out before `now`.
    pub open spec fn swipe_expired_at(self, now: u128) -> bool {
        self.swipe_last_event_ms matches Some(last) && elapsed_ms(now, last) > GESTURE_TIMEOUT_MS
    }

    /// The accumulated swipe delta on an axis when a message arrives at `now`.
    pub open spec fn swipe_held(self, axis: WheelAxis, now: u128) -> int {
        if self.swipe_expired_at(now) {
            0
        } else if axis == WheelAxis::Horizontal {
            self.swipe_accum_x as int
        } else {
            self.swipe_accum_y as int
        }
    }

    /// The accumulated swipe delta once `input` is added on its own axis.
    pub open spec fn swipe_total(self, input: WheelGestureInput) -> int {
        self.swipe_held(input.axis, input.now_ms) + input.delta
    }

    /// `input` completes a swipe.
    pub open spec fn swipe_fires(self, input: WheelGestureInput) -> bool {
        magnitude(self.swipe_total(input)) >= GESTURE_SCROLL_THRESHOLD
    }

    /// What the axis of `input` holds afterwards.
    pub open spec fn swipe_left_over(self, input: WheelGestureInput) -> int {
        if self.swipe_fires(input) {
            0
        } else {
            self.swipe_total(input)
        }
    }

    /// Swipe state after `input`; navigation state is untouched.
    pub open spec fn swipe_after(self, input: WheelGestureInput) -> WheelGestureEngine {
        let kept_x = self.swipe_held(WheelAxis::Horizontal, input.now_ms);
        let kept_y = self.swipe_held(WheelAxis::Vertical, input.now_ms);
        WheelGestureEngine {
            swipe_accum_x: if input.axis == WheelAxis::Horizontal {
                self.swipe_left_over(input) as i32
            } else {
                kept_x as i32
            },
            swipe_accum_y: if input.axis == WheelAxis::Vertical {
                self.swipe_left_over(input) as i32
            } else {
                kept_y as i32
            },
            swipe_last_event_ms: Some(input.now_ms),
            ..self
        }
    }

    /// The decision on a swipe message.
    pub open spec fn swipe_result(self, input: WheelGestureInput) -> WheelGestureResult {
        WheelGestureResult {
            event: if self.swipe_fires(input) {
                Some(swipe_event_of(input.axis, self.swipe_total(input)))
            } else {
                None
            },
            consume: false,
            trace: EngineTrace {
                accumulation: Some(self.swipe_left_over(input) as i32),
                ..quiet_trace()
            },
        }
    }

    /// The sum of a swipe step is representable.
    pub open spec fn swipe_fits(self, input: WheelGestureInput) -> bool {
        i32::MIN < self.swipe_total(input) <= i32::MAX
    }

    /// `input` is vertical with the modifiers held.
    pub open spec fn navigates(input: WheelGestureInput) -> bool {
        input.axis == WheelAxis::Vertical && input.mods_held
    }

    /// State after any message.
    pub open spec fn after(self, input: WheelGestureInput) -> WheelGestureEngine {
        if Self::navigates(input) {
            self.navigation_after(input)
        } else if input.swipe_candidate {
            self.swipe_after(input)
        } else {
            self
        }
    }

    /// The decision on any message.
    pub open spec fn result(self, input: WheelGestureInput) -> WheelGestureResult {
        if Self::navigates(input) {
            self.navigation_result(input)
        } else if input.swipe_candidate {
            self.swipe_result(input)
        } else {
            passed_through()
        }
    }

    /// No counter or sum that `input` touches leaves its machine type.
    pub open spec fn fits(self, input: WheelGestureInput) -> bool {
        if Self::navigates(input) {
            input.delta != 0 ==> self.navigation_fits(input)
        } else if input.swipe_candidate {
            self.swipe_fits(input)
        } else {
            true
        }
    }

    /// An engine that has seen nothing.
    pub open spec fn fresh() -> WheelGestureEngine {
        WheelGestureEngine {
            navigation_mode: WheelMode::Discrete,
            navigation_burst_count: 0,
            navigation_last_event_ms: None,
            navigation_stream_started_ms: None,
            navigation_accum: 0,
            navigation_cooldown_until_ms: None,
            navigation_stream_emitted: 0,
            navigation_stream_suppressed: 0,
            navigation_stream_flags: 0,
            swipe_accum_x: 0,
            swipe_accum_y: 0,
            swipe_last_event_ms: None,
        }
    }

    /// An engine that has seen nothing.
    pub fn new() -> (e: WheelGestureEngine)
        ensures
            e.wf(),
            e == Self::fresh(),
    {
        WheelGestureEngine {
            navigation_mode: WheelMode::Discrete,
            navigation_burst_count: 0,
            navigation_last_event_ms: None,
            navigation_stream_started_ms: None,
            navigation_accum: 0,
            navigation_cooldown_until_ms: None,
            navigation_stream_emitted: 0,
            navigation_stream_suppressed: 0,
            navigation_stream_flags: 0,
            swipe_accum_x: 0,
            swipe_accum_y: 0,
            swipe_last_event_ms: None,
        }
    }

    /// Feeds one wheel message to the engine.
    pub fn process(&mut self, input: WheelGestureInput) -> (r: WheelGestureResult)
        requires
            old(self).wf(),
            old(self).fits(input),
        ensures
            final(self).wf(),
            *final(self) == old(self).after(input),
            r == old(self).result(input),
    {
        if input.axis == WheelAxis::Vertical && input.mods_held {
            return self.process_navigation(input);
        }
        if input.swipe_candidate {
            return self.process_swipe(input);
        }
        WheelGestureResult { event: None, consume: false, trace: EngineTrace::default() }
    }

    /// Feeds one modifier-wheel message to the engine.
    pub fn process_navigation(&mut self, input: WheelGestureInput) -> (r: WheelGestureResult)
        requires
            old(self).wf(),
            input.delta != 0 ==> old(self).navigation_fits(input),
        ensures
            final(self).wf(),
            *final(self) == old(self).navigation_after(input),
            r == old(self).navigation_result(input),
    {
        if input.delta == 0 {
            return WheelGestureResult {
                event: None,
                consume: false,
                trace: EngineTrace::default(),
            };
        }
        let mut trace = EngineTrace::default();
        if let Some(last_event_ms) = self.navigation_last_event_ms {
            let gap_ms: u128 = input.now_ms.saturating_sub(last_event_ms);
            if gap_ms > STREAM_END_MS {
                if self.navigation_mode == WheelMode::Stream {
                    let started: u128 = self.navigation_stream_started_ms.unwrap_or(last_event_ms);
                    trace.stream_end = Some(
                        StreamSummary {
                            emitted: self.navigation_stream_emitted,
                            suppressed: self.navigation_stream_suppressed,
                            duration_ms: input.now_ms.saturating_sub(started),
                            flags_seen: self.navigation_stream_flags,
                        },
                    );
                    trace.mode_transition = Some((WheelMode::Stream, WheelMode::Discrete));
                }
                self.reset_navigation_stream();
                self.navigation_burst_count = 1;
            } else {
                self.navigation_burst_count = self.navigation_burst_count + 1;
            }
        } else {
            self.navigation_burst_count = 1;
        }
        self.navigation_last_event_ms = Some(input.now_ms);
        self.navigation_stream_flags = self.navigation_stream_flags | input.flags;

        if self.navigation_mode == WheelMode::Discrete && self.navigation_burst_count >= 2 {
            self.navigation_mode = WheelMode::Stream;
            self.navigation_stream_started_ms = Some(input.now_ms);
            trace.mode_transition = Some((WheelMode::Discrete, WheelMode::Stream));
        }
        let cooling = match self.navigation_cooldown_until_ms {
            Some(until_ms) => input.now_ms < until_ms,
            None => false,
        };
        let event = if cooling {
            if self.navigation_mode == WheelMode::Stream {
                self.navigation_stream_suppressed = self.navigation_stream_suppressed + 1;
                trace.cooldown_suppressed = true;
            }
            None
        } else {
            self.navigation_accum = self.navigation_accum + input.delta;
            let total: i32 = self.navigation_accum;
            let size: i32 = if total < 0 {
                -total
            } else {
                total
            };
            if size < WHEEL_DELTA {
                None
            } else {
                let event = scroll_event(total);
                let rest: i32 = size % WHEEL_DELTA;
                self.navigation_accum = if total < 0 {
                    -rest
                } else {
                    rest
                };
                self.navigation_cooldown_until_ms = Some(input.now_ms + NAVIGATION_COOLDOWN_MS);
                if self.navigation_mode == WheelMode::Stream {
                    self.navigation_stream_emitted = self.navigation_stream_emitted + 1;
                }
                Some(event)
            }
        };
        trace.mode = Some(self.navigation_mode);
        trace.accumulation = Some(self.navigation_accum);
        WheelGestureResult { event, consume: true, trace }
    }

    /// Feeds one swipe candidate to the engine.
    pub fn process_swipe(&mut self, input: WheelGestureInput) -> (r: WheelGestureResult)
        requires
            old(self).wf(),
            old(self).swipe_fits(input),
        ensures
            final(self).wf(),
            *final(self) == old(self).swipe_after(input),
            r == old(self).swipe_result(input),
    {
        let mut trace = EngineTrace::default();
        let expired = match self.swipe_last_event_ms {
            Some(last_event_ms) => input.now_ms.saturating_sub(last_event_ms)
                > GESTURE_TIMEOUT_MS,
            None => false,
        };
        if expired {
            self.swipe_accum_x = 0;
            self.swipe_accum_y = 0;
        }
        self.swipe_last_event_ms = Some(input.now_ms);
        let horizontal = input.axis == WheelAxis::Horizontal;
        let total: i32 = if horizontal {
            self.swipe_accum_x + input.delta
        } else {
            self.swipe_accum_y + input.delta
        };
        let size: i32 = if total < 0 {
            -total
        } else {
            total
        };
        let mut left_over: i32 = total;
        let event = if size >= GESTURE_SCROLL_THRESHOLD {
            left_over = 0;
            Some(
                match (input.axis, total > 0) {
                    (WheelAxis::Horizontal, true) => GestureEvent::SwipeRight,
                    (WheelAxis::Horizontal, false) => GestureEvent::SwipeLeft,
                    (WheelAxis::Vertical, true) => GestureEvent::SwipeDown,
                    (WheelAxis::Vertical, false) => GestureEvent::SwipeUp,
                },
            )
        } else {
            None
        };
        if horizontal {
            self.swipe_accum_x = left_over;
        } else {
            self.swipe_accum_y = left_over;
        }
        trace.accumulation = Some(left_over);
        WheelGestureResult { event, consume: false, trace }
    }

    /// The state after a navigation event that could not be delivered.
    pub open spec fn rearmed(self) -> WheelGestureEngine {
        WheelGestureEngine {
            navigation_cooldown_until_ms: None,
            navigation_stream_emitted: if self.navigation_mode == WheelMode::Stream
                && self.navigation_stream_emitted > 0 {
                (self.navigation_stream_emitted - 1) as u32
            } else {
                self.navigation_stream_emitted
            },
            ..self
        }
    }

    /// Takes a navigation event back that could not be delivered, so that the
    /// next notch is not held up by its cooldown.
    pub fn retry_navigation_after_failed_delivery(&mut self)
        ensures
            *final(self) == old(self).rearmed(),
            old(self).wf() ==> final(self).wf(),
    {
        self.navigation_cooldown_until_ms = None;
        if self.navigation_mode == WheelMode::Stream {
            self.navigation_stream_emitted = self.navigation_stream_emitted.saturating_sub(1);
        }
    }

    /// Forgets the current navigation stream.
    fn reset_navigation_stream(&mut self)
        ensures
            *final(self) == (WheelGestureEngine {
                navigation_mode: WheelMode::Discrete,
                navigation_accum: 0,
                navigation_cooldown_until_ms: None,
                navigation_stream_started_ms: None,
                navigation_stream_emitted: 0,
                navigation_stream_suppressed: 0,
                navigation_stream_flags: 0,
                ..*old(self)
            }),
    {
        self.navigation_mode = WheelMode::Discrete;
        self.navigation_accum = 0;
        self.navigation_cooldown_until_ms = None;
        self.navigation_stream_started_ms = None;
        self.navigation_stream_emitted = 0;
        self.navigation_stream_suppressed = 0;
        self.navigation_stream_flags = 0;
    }
}

/// The navigation event for an accumulated delta.
pub fn scroll_event(delta: i32) -> (e: GestureEvent)
    ensures
        e == scroll_event_of(delta as int),
{
    if delta > 0 {
        GestureEvent::ScrollUp
    } else {
        GestureEvent::ScrollDown
    }
}

/// `input` is a message of the navigation stream that the previous message at
/// `last` belongs to: it carries a delta, time did not run backwards, and the
/// gap does not end the stream.
pub open spec fn continues_stream(last: u128, input: WheelGestureInput) -> bool {
    &&& input.delta != 0
    &&& last <= input.now_ms
    &&& input.now_ms - last <= STREAM_END_MS
}

/// Message `k` continues the stream of the message before it.
pub open spec fn follows_on(inputs: Seq<WheelGestureInput>, k: int) -> bool {
    continues_stream(inputs[k - 1].now_ms, inputs[k])
}

/// `inputs` are navigation messages without a pause between neighbours.
pub open spec fn unbroken(inputs: Seq<WheelGestureInput>) -> bool {
    forall|k: int| 1 <= k < inputs.len() ==> #[trigger] follows_on(inputs, k)
}

/// The engine after the first `n` of `inputs`.
pub open spec fn engine_after(
    start: WheelGestureEngine,
    inputs: Seq<WheelGestureInput>,
    n: int,
) -> WheelGestureEngine
    decreases n,
{
    if n <= 0 {
        start
    } else {
        engine_after(start, inputs, n - 1).navigation_after(inputs[n - 1])
    }
}

/// Message `n` of `inputs` emits an event.
pub open spec fn emits(
    start: WheelGestureEngine,
    inputs: Seq<WheelGestureInput>,
    n: int,
) -> bool {
    engine_after(start, inputs, n).navigation_result(inputs[n]).event is Some
}

proof fn lemma_cooldown_holds(
    start: WheelGestureEngine,
    inputs: Seq<WheelGestureInput>,
    i: int,
    j: int,
)
    requires
        unbroken(inputs),
        0 <= i < j <= inputs.len(),
        inputs[i].delta != 0,
        emits(start, inputs, i),
        forall|k: int|
            0 <= k < inputs.len() ==> (#[trigger] inputs[k]).now_ms + NAVIGATION_COOLDOWN_MS
                <= u128::MAX,
    ensures
        engine_after(start, inputs, j).navigation_last_event_ms == Some(inputs[j - 1].now_ms),
        engine_after(start, inputs, j).navigation_cooldown_until_ms matches Some(until)
            && inputs[i].now_ms + NAVIGATION_COOLDOWN_MS <= until,
        inputs[i].now_ms <= inputs[j - 1].now_ms,
    decreases j,
{
    reveal_with_fuel(engine_after, 2);
    if j > i + 1 {
        lemma_cooldown_holds(start, inputs, i, j - 1);
        let before = engine_after(start, inputs, j - 1);
        assert(follows_on(inputs, j - 1));
        assert(!before.paused_at(inputs[j - 1].now_ms));
    }
}

/// Within one unbroken stream, two navigation events are at least the cooldown
/// apart, whatever deltas the messages carry.
pub proof fn law_stream_events_are_cooldown_apart(
    start: WheelGestureEngine,
    inputs: Seq<WheelGestureInput>,
    i: int,
    j: int,
)
    requires
        unbroken(inputs),
        0 <= i < j < inputs.len(),
        emits(start, inputs, i),
        emits(start, inputs, j),
        forall|k: int|
            0 <= k < inputs.len() ==> (#[trigger] inputs[k]).now_ms + NAVIGATION_COOLDOWN_MS
                <= u128::MAX,
    ensures
        inputs[i].now_ms + NAVIGATION_COOLDOWN_MS <= inputs[j].now_ms,
{
    assert(inputs[i].delta != 0);
    lemma_cooldown_holds(start, inputs, i, j);
    assert(follows_on(inputs, j));
}

/// A message that falls into the cooldown emits nothing, is swallowed, and
/// leaves the accumulated remainder as it was.
pub proof fn law_cooldown_keeps_only_the_remainder(
    engine: WheelGestureEngine,
    input: WheelGestureInput,
)
    requires
        input.delta != 0,
        engine.cooling_at(input.now_ms),
    ensures
        engine.navigation_result(input).event is None,
        engine.navigation_result(input).consume,
        engine.navigation_after(input).navigation_accum == engine.navigation_accum,
        engine.navigation_after(input).navigation_cooldown_until_ms
            == engine.navigation_cooldown_until_ms,
{
}

/// After an event one message emits at most one notch: the remainder is
/// smaller than a notch and differs from the total by whole notches.
pub proof fn law_event_keeps_the_partial_notch(
    engine: WheelGestureEngine,
    input: WheelGestureInput,
)
    requires
        engine.navigation_fires(input),
        input.delta != 0,
    ensures
        magnitude(engine.navigation_after(input).navigation_accum as int) < WHEEL_DELTA,
        (engine.navigation_total(input) - engine.navigation_after(input).navigation_accum)
            % (WHEEL_DELTA as int) == 0,
{
    let total = engine.navigation_total(input);
    assert(partial_notch(total) as i32 as int == partial_notch(total));
    if total < 0 {
        let t = -total;
        assert((t % 120) - t == -120 * (t / 120));
        assert((-120 * (t / 120)) % 120 == 0);
    } else {
        assert(total - total % 120 == 120 * (total / 120));
        assert((120 * (total / 120)) % 120 == 0);
    }
}

/// Two engines agree on everything but the hook flags that they have seen.
pub open spec fn same_but_flags(a: WheelGestureEngine, b: WheelGestureEngine) -> bool {
    a == (WheelGestureEngine { navigation_stream_flags: a.navigation_stream_flags, ..b })
}

/// The hook flags of a message, the injection flag among them, never change
/// what navigation does: same event, same mode, same state but for the record
/// of flags.
pub proof fn law_flags_do_not_change_navigation(
    a: WheelGestureEngine,
    b: WheelGestureEngine,
    input: WheelGestureInput,
    flags: u32,
)
    requires
        same_but_flags(a, b),
    ensures
        ({
            let other = WheelGestureInput { flags, ..input };
            &&& a.navigation_result(input).event == b.navigation_result(other).event
            &&& a.navigation_result(input).consume == b.navigation_result(other).consume
            &&& a.navigation_after(input).navigation_mode == b.navigation_after(
                other,
            ).navigation_mode
            &&& same_but_flags(a.navigation_after(input), b.navigation_after(other))
        }),
{
}

/// After a notch that could not be delivered, the next whole notch in the same
/// direction emits at once, whether or not the cooldown would still run.
pub proof fn law_failed_delivery_rearms_the_next_notch(
    engine: WheelGestureEngine,
    first: WheelGestureInput,
    next: WheelGestureInput,
)
    requires
        engine.navigation_fires(first),
        first.delta != 0,
        i32::MIN < engine.navigation_total(first) <= i32::MAX,
        engine.navigation_total(first) > 0 <==> next.delta > 0,
        magnitude(next.delta as int) >= WHEEL_DELTA,
    ensures
        engine.navigation_after(first).rearmed().navigation_result(next).event
            == engine.navigation_result(first).event,
{
    let total = engine.navigation_total(first);
    assert(partial_notch(total) as i32 as int == partial_notch(total));
}

/// A zero delta is not navigation: nothing changes and the message passes.
pub proof fn law_zero_delta_passes_through(engine: WheelGestureEngine, input: WheelGestureInput)
    requires
        input.delta == 0,
    ensures
        engine.navigation_after(input) == engine,
        engine.navigation_result(input) == passed_through(),
{
}

/// Opposite partial deltas of one stream cancel.
pub proof fn law_sign_reversal_cancels(
    engine: WheelGestureEngine,
    first: WheelGestureInput,
    next: WheelGestureInput,
)
    requires
        engine.wf(),
        first.delta != 0,
        !engine.paused_at(first.now_ms),
        !engine.cooling_at(first.now_ms),
        magnitude(engine.navigation_total(first)) < WHEEL_DELTA,
        continues_stream(first.now_ms, next),
        next.delta == -first.delta,
    ensures
        engine.navigation_after(first).navigation_after(next).navigation_accum
            == engine.navigation_accum,
        engine.navigation_after(first).navigation_result(next).event is None,
{
}

/// A pause starts over: the decision after one depends on the message alone.
pub proof fn law_pause_forgets_the_stream(engine: WheelGestureEngine, input: WheelGestureInput)
    requires
        input.delta != 0,
        engine.paused_at(input.now_ms),
    ensures
        engine.navigation_result(input).event == (if magnitude(input.delta as int)
            >= WHEEL_DELTA {
            Some(scroll_event_of(input.delta as int))
        } else {
            None
        }),
        engine.navigation_after(input).navigation_mode == WheelMode::Discrete,
{
}

/// Navigation and swipes do not disturb each other.
pub proof fn law_navigation_and_swipes_are_independent(
    engine: WheelGestureEngine,
    input: WheelGestureInput,
)
    ensures
        engine.navigation_after(input).swipe_accum_x == engine.swipe_accum_x,
        engine.navigation_after(input).swipe_accum_y == engine.swipe_accum_y,
        engine.navigation_after(input).swipe_last_event_ms == engine.swipe_last_event_ms,
        engine.swipe_after(input) == (WheelGestureEngine {
            swipe_accum_x: engine.swipe_after(input).swipe_accum_x,
            swipe_accum_y: engine.swipe_after(input).swipe_accum_y,
            swipe_last_event_ms: engine.swipe_after(input).swipe_last_event_ms,
            ..engine
        }),
{
}

/// A swipe message on one axis leaves the other axis as it was, unless the
/// pause before it discarded both.
pub proof fn law_swipe_axes_are_independent(engine: WheelGestureEngine, input: WheelGestureInput)
    requires
        !engine.swipe_expired_at(input.now_ms),
    ensures
        input.axis == WheelAxis::Horizontal ==> engine.swipe_after(input).swipe_accum_y
            == engine.swipe_accum_y,
        input.axis == WheelAxis::Vertical ==> engine.swipe_after(input).swipe_accum_x
            == engine.swipe_accum_x,
{
}

/// A completed swipe leaves nothing behind, so the next one needs the whole
/// threshold again: swipes in quick succession stay independent.
pub proof fn law_completed_swipe_starts_over(
    engine: WheelGestureEngine,
    first: WheelGestureInput,
    next: WheelGestureInput,
)
    requires
        engine.swipe_fires(first),
        next.axis == first.axis,
    ensures
        engine.swipe_after(first).swipe_fires(next) <==> magnitude(next.delta as int)
            >= GESTURE_SCROLL_THRESHOLD,
{
}

/// Only navigation ever swallows a wheel message.
pub proof fn law_only_navigation_consumes(engine: WheelGestureEngine, input: WheelGestureInput)
    ensures
        engine.result(input).consume <==> WheelGestureEngine::navigates(input) && input.delta
            != 0,
{
}

/// The deltas of the first `n` messages, added up.
pub open spec fn delta_sum(inputs: Seq<WheelGestureInput>, n: int) -> int
    decreases n,
{
    if n <= 0 {
        0
    } else {
        delta_sum(inputs, n - 1) + inputs[n - 1].delta
    }
}

/// The engine after the first `n` messages.
pub open spec fn fed(
    start: WheelGestureEngine,
    inputs: Seq<WheelGestureInput>,
    n: int,
) -> WheelGestureEngine
    decreases n,
{
    if n <= 0 {
        start
    } else {
        fed(start, inputs, n - 1).after(inputs[n - 1])
    }
}

/// The message is an injected one on the axis that is no modifier-wheel navigation.
pub open spec fn is_touchpad_message(input: WheelGestureInput, axis: WheelAxis) -> bool {
    &&& input.axis == axis
    &&& input.swipe_candidate
    &&& !(input.axis == WheelAxis::Vertical && input.mods_held)
}

/// Message `k` comes at most 300 ms after the one before it.
pub open spec fn comes_in_time(inputs: Seq<WheelGestureInput>, k: int) -> bool {
    inputs[k].now_ms <= inputs[k - 1].now_ms + 300
}

proof fn lemma_swipe_adds_up(
    start: WheelGestureEngine,
    inputs: Seq<WheelGestureInput>,
    axis: WheelAxis,
    n: int,
)
    requires
        0 <= n <= inputs.len(),
        forall|k: int| 0 <= k < inputs.len() ==> is_touchpad_message(#[trigger] inputs[k], axis),
        forall|k: int| 1 <= k < inputs.len() ==> #[trigger] comes_in_time(inputs, k),
        inputs.len() > 0 && (start.swipe_last_event_ms matches Some(last) ==> inputs[0].now_ms
            <= last + 300),
        axis == WheelAxis::Horizontal ==> start.swipe_accum_x == 0,
        axis == WheelAxis::Vertical ==> start.swipe_accum_y == 0,
        forall|k: int| 0 <= k <= n ==> -360 < #[trigger] delta_sum(inputs, k) < 360,
    ensures
        ({
            let engine = fed(start, inputs, n);
            let held = if axis == WheelAxis::Horizontal {
                engine.swipe_accum_x
            } else {
                engine.swipe_accum_y
            };
            &&& held == delta_sum(inputs, n)
            &&& n > 0 ==> engine.swipe_last_event_ms == Some(inputs[n - 1].now_ms)
            &&& n == 0 ==> engine.swipe_last_event_ms == start.swipe_last_event_ms
        }),
    decreases n,
{
    if n > 0 {
        lemma_swipe_adds_up(start, inputs, axis, n - 1);
        assert(is_touchpad_message(inputs[n - 1], axis));
        assert(-360 < delta_sum(inputs, n) < 360);
        if n > 1 {
            assert(comes_in_time(inputs, n - 1));
        }
    }
}

/// However a swipe is split into messages, it is their sum that counts: on an axis that
/// holds nothing, messages without a pause of more than 300 ms fire at the first one at
/// which the sum of the deltas is 360 or more either way, and none before it does. To
/// the right and down are positive.
pub proof fn law_swipe_fires_where_the_sum_reaches_the_threshold(
    start: WheelGestureEngine,
    inputs: Seq<WheelGestureInput>,
    axis: WheelAxis,
    n: int,
)
    requires
        0 <= n < inputs.len(),
        forall|k: int| 0 <= k < inputs.len() ==> is_touchpad_message(#[trigger] inputs[k], axis),
        forall|k: int| 1 <= k < inputs.len() ==> #[trigger] comes_in_time(inputs, k),
        start.swipe_last_event_ms matches Some(last) ==> inputs[0].now_ms <= last + 300,
        axis == WheelAxis::Horizontal ==> start.swipe_accum_x == 0,
        axis == WheelAxis::Vertical ==> start.swipe_accum_y == 0,
        forall|k: int| 0 <= k <= n ==> -360 < #[trigger] delta_sum(inputs, k) < 360,
    ensures
        fed(start, inputs, n).result(inputs[n]).event == (if delta_sum(inputs, n + 1) >= 360 {
            Some(
                if axis == WheelAxis::Horizontal {
                    GestureEvent::SwipeRight
                } else {
                    GestureEvent::SwipeDown
                },
            )
        } else if delta_sum(inputs, n + 1) <= -360 {
            Some(
                if axis == WheelAxis::Horizontal {
                    GestureEvent::SwipeLeft
                } else {
                    GestureEvent::SwipeUp
                },
            )
        } else {
            None
        }),
        // The message is left to other programs all the same.
        !fed(start, inputs, n).result(inputs[n]).consume,
{
    lemma_swipe_adds_up(start, inputs, axis, n);
    assert(is_touchpad_message(inputs[n], axis));
    if n > 0 {
        assert(comes_in_time(inputs, n));
    }
}

/// A swipe that fired, and a pause of more than 300 ms, leave nothing behind: what comes
/// next counts from zero on that axis, after a pause on both.
pub proof fn law_swipes_start_from_zero(
    engine: WheelGestureEngine,
    input: WheelGestureInput,
    axis: WheelAxis,
)
    requires
        is_touchpad_message(input, axis),
        -1_000_000 < input.delta < 1_000_000,
        engine.wf(),
    ensures
        engine.result(input).event is Some && axis == WheelAxis::Horizontal ==> engine.after(
            input,
        ).swipe_accum_x == 0,
        engine.result(input).event is Some && axis == WheelAxis::Vertical ==> engine.after(
            input,
        ).swipe_accum_y == 0,
        (engine.swipe_last_event_ms matches Some(last) && input.now_ms > last + 300) ==> {
            &&& engine.result(input).event is Some <==> input.delta >= 360 || input.delta <= -360
            &&& axis == WheelAxis::Horizontal ==> engine.after(input).swipe_accum_y == 0
            &&& axis == WheelAxis::Vertical ==> engine.after(input).swipe_accum_x == 0
        },
        // Within the time the other axis keeps what it holds.
        !(engine.swipe_last_event_ms matches Some(last) && input.now_ms > last + 300) ==> {
            &&& axis == WheelAxis::Horizontal ==> engine.after(input).swipe_accum_y
                == engine.swipe_accum_y
            &&& axis == WheelAxis::Vertical ==> engine.after(input).swipe_accum_x
                == engine.swipe_accum_x
        },
        engine.after(input).swipe_last_event_ms == Some(input.now_ms),
{
}

/// The message is a notch, or part of one, with the modifiers held.
pub open spec fn is_notch(input: WheelGestureInput) -> bool {
    input.axis == WheelAxis::Vertical && input.mods_held && input.delta != 0
}

/// Message `k` comes at most 80 ms after the one before it.
pub open spec fn keeps_the_stream(inputs: Seq<WheelGestureInput>, k: int) -> bool {
    inputs[k].now_ms <= inputs[k - 1].now_ms + 80
}

proof fn lemma_notches_add_up(start: WheelGestureEngine, inputs: Seq<WheelGestureInput>, n: int)
    requires
        0 <= n <= inputs.len(),
        inputs.len() > 0,
        forall|k: int| 0 <= k < inputs.len() ==> is_notch(#[trigger] inputs[k]),
        forall|k: int| 1 <= k < inputs.len() ==> #[trigger] keeps_the_stream(inputs, k),
        start.navigation_last_event_ms matches Some(last) ==> inputs[0].now_ms <= last + 80,
        start.navigation_accum == 0,
        start.navigation_cooldown_until_ms is None,
        forall|k: int| 0 <= k <= n ==> -120 < #[trigger] delta_sum(inputs, k) < 120,
    ensures
        fed(start, inputs, n).navigation_accum == delta_sum(inputs, n),
        fed(start, inputs, n).navigation_cooldown_until_ms is None,
        n > 0 ==> fed(start, inputs, n).navigation_last_event_ms == Some(inputs[n - 1].now_ms),
        n == 0 ==> fed(start, inputs, n).navigation_last_event_ms
            == start.navigation_last_event_ms,
    decreases n,
{
    if n > 0 {
        lemma_notches_add_up(start, inputs, n - 1);
        assert(is_notch(inputs[n - 1]));
        assert(-120 < delta_sum(inputs, n) < 120);
        if n > 1 {
            assert(keeps_the_stream(inputs, n - 1));
        }
    }
}

/// However a notch is split into messages, it is their sum that counts: where nothing is
/// held and no cooldown runs, messages without a pause of more than 80 ms scroll at the
/// first one at which the sum of the deltas is 120 or more either way, up if it is
/// positive, and none before it does. All of them are swallowed.
pub proof fn law_navigation_fires_where_the_sum_reaches_a_notch(
    start: WheelGestureEngine,
    inputs: Seq<WheelGestureInput>,
    n: int,
)
    requires
        0 <= n < inputs.len(),
        forall|k: int| 0 <= k < inputs.len() ==> is_notch(#[trigger] inputs[k]),
        forall|k: int| 1 <= k < inputs.len() ==> #[trigger] keeps_the_stream(inputs, k),
        start.navigation_last_event_ms matches Some(last) ==> inputs[0].now_ms <= last + 80,
        start.navigation_accum == 0,
        start.navigation_cooldown_until_ms is None,
        forall|k: int| 0 <= k <= n ==> -120 < #[trigger] delta_sum(inputs, k) < 120,
    ensures
        fed(start, inputs, n).result(inputs[n]).event == (if delta_sum(inputs, n + 1) >= 120 {
            Some(GestureEvent::ScrollUp)
        } else if delta_sum(inputs, n + 1) <= -120 {
            Some(GestureEvent::ScrollDown)
        } else {
            None
        }),
        fed(start, inputs, n).result(inputs[n]).consume,
{
    lemma_notches_add_up(start, inputs, n);
    assert(is_notch(inputs[n]));
    if n > 0 {
        assert(keeps_the_stream(inputs, n));
    }
}

/// A scroll holds back what follows in its stream: it sets the end of the cooldown 150 ms
/// after itself and keeps less than a notch, of the sign of what was added up, that differs
/// from it by whole notches. A message before that end does nothing but keep the stream
/// going; one at the end or later counts again. A pause of more than 80 ms forgets both.
pub proof fn law_navigation_cools_down(engine: WheelGestureEngine, input: WheelGestureInput)
    requires
        is_notch(input),
        engine.wf(),
        -1_000_000 < input.delta < 1_000_000,
        input.now_ms + 150 <= u128::MAX,
    ensures
        ({
            let paused = engine.navigation_last_event_ms matches Some(last) && input.now_ms > last
                + 80;
            let held = if paused {
                0
            } else {
                engine.navigation_accum as int
            };
            let cooling = !paused && (engine.navigation_cooldown_until_ms matches Some(end)
                && input.now_ms < end);
            let sum = held + input.delta;
            let after = engine.after(input);
            &&& cooling ==> engine.result(input).event is None && after.navigation_accum
                == engine.navigation_accum && after.navigation_cooldown_until_ms
                == engine.navigation_cooldown_until_ms
            &&& !cooling && -120 < sum < 120 ==> engine.result(input).event is None
                && after.navigation_accum == sum
            &&& !cooling && sum >= 120 ==> {
                &&& engine.result(input).event == Some(GestureEvent::ScrollUp)
                &&& 0 <= after.navigation_accum < 120
                &&& (sum - after.navigation_accum) % 120 == 0
                &&& after.navigation_cooldown_until_ms == Some((input.now_ms + 150) as u128)
            }
            &&& !cooling && sum <= -120 ==> {
                &&& engine.result(input).event == Some(GestureEvent::ScrollDown)
                &&& -120 < after.navigation_accum <= 0
                &&& (after.navigation_accum - sum) % 120 == 0
                &&& after.navigation_cooldown_until_ms == Some((input.now_ms + 150) as u128)
            }
            &&& paused && -120 < sum < 120 ==> after.navigation_cooldown_until_ms is None
            &&& after.navigation_last_event_ms == Some(input.now_ms)
            &&& engine.result(input).consume
        }),
{
    let paused = engine.navigation_last_event_ms matches Some(last) && input.now_ms > last + 80;
    let held = if paused {
        0
    } else {
        engine.navigation_accum as int
    };
    let sum = held + input.delta;
    if sum < 0 {
        let t = -sum;
        assert(t == 120 * (t / 120) + t % 120);
        assert((120 * (t / 120)) % 120 == 0);
    } else {
        assert(sum == 120 * (sum / 120) + sum % 120);
        assert((120 * (sum / 120)) % 120 == 0);
    }
}

/// Navigation is a stream from the second message on that follows another within 80 ms,
/// and discrete before; the record of a stream counts its scrolls and its messages in the
/// cooldown, and is handed out by the message that ends it.
pub proof fn law_streams_are_recorded(engine: WheelGestureEngine, input: WheelGestureInput)
    requires
        is_notch(input),
        engine.wf(),
        -1_000_000 < input.delta < 1_000_000,
        engine.navigation_burst_count < u32::MAX,
        engine.navigation_stream_emitted < u32::MAX,
        engine.navigation_stream_suppressed < u32::MAX,
        input.now_ms + 150 <= u128::MAX,
    ensures
        ({
            let follows = engine.navigation_last_event_ms matches Some(last) && input.now_ms
                <= last + 80;
            let after = engine.after(input);
            let trace = engine.result(input).trace;
            &&& after.navigation_mode == (if follows {
                WheelMode::Stream
            } else {
                WheelMode::Discrete
            })
            &&& trace.mode == Some(after.navigation_mode)
            &&& trace.accumulation == Some(after.navigation_accum)
            &&& trace.mode_transition is Some <==> after.navigation_mode != engine.navigation_mode
            &&& trace.mode_transition matches Some(turn) ==> turn == (
                engine.navigation_mode,
                after.navigation_mode,
            )
            &&& trace.stream_end is Some <==> !follows && engine.navigation_mode
                == WheelMode::Stream
            &&& trace.stream_end matches Some(summary) ==> {
                &&& summary.emitted == engine.navigation_stream_emitted
                &&& summary.suppressed == engine.navigation_stream_suppressed
                &&& summary.flags_seen == engine.navigation_stream_flags
                &&& engine.navigation_stream_started_ms matches Some(started) ==> (input.now_ms
                    >= started ==> summary.duration_ms == input.now_ms - started) && (input.now_ms
                    < started ==> summary.duration_ms == 0)
                &&& engine.navigation_stream_started_ms is None ==> summary.duration_ms
                    == input.now_ms - engine.navigation_last_event_ms->0
            }
            &&& follows ==> after.navigation_stream_emitted == engine.navigation_stream_emitted + (
            if engine.result(input).event is Some {
                1int
            } else {
                0int
            })
            &&& follows ==> after.navigation_stream_suppressed
                == engine.navigation_stream_suppressed + (if trace.cooldown_suppressed {
                1int
            } else {
                0int
            })
            &&& trace.cooldown_suppressed <==> follows && (
            engine.navigation_cooldown_until_ms matches Some(end) && input.now_ms < end)
            &&& after.navigation_burst_count == (if follows {
                engine.navigation_burst_count + 1
            } else {
                1
            })
            &&& follows ==> after.navigation_stream_flags == engine.navigation_stream_flags
                | input.flags
            &&& follows ==> after.navigation_stream_started_ms == (if engine.navigation_mode
                == WheelMode::Discrete {
                Some(input.now_ms)
            } else {
                engine.navigation_stream_started_ms
            })
            // A pause begins the record anew.
            &&& !follows && engine.navigation_last_event_ms is Some ==> {
                &&& after.navigation_stream_emitted == 0
                &&& after.navigation_stream_suppressed == 0
                &&& after.navigation_stream_started_ms is None
                &&& after.navigation_stream_flags == input.flags
            }
            &&& engine.navigation_last_event_ms is None ==> {
                &&& after.navigation_stream_emitted == engine.navigation_stream_emitted
                &&& after.navigation_stream_suppressed == engine.navigation_stream_suppressed
                &&& after.navigation_stream_started_ms == engine.navigation_stream_started_ms
                &&& after.navigation_stream_flags == engine.navigation_stream_flags | input.flags
            }
        }),
{
    let flags = input.flags;
    assert(0u32 | flags == flags) by (bit_vector);
}

/// A message goes to navigation if it is vertical with the modifiers held, else to the
/// swipes if it was injected, else nowhere. Each leaves what the other keeps alone, and
/// only a notch with the modifiers held is kept from other programs.
pub proof fn law_messages_go_where_they_belong(
    engine: WheelGestureEngine,
    input: WheelGestureInput,
)
    ensures
        ({
            let after = engine.after(input);
            let navigates = input.axis == WheelAxis::Vertical && input.mods_held;
            &&& engine.result(input).consume <==> navigates && input.delta != 0
            &&& !navigates ==> after == (WheelGestureEngine {
                swipe_accum_x: after.swipe_accum_x,
                swipe_accum_y: after.swipe_accum_y,
                swipe_last_event_ms: after.swipe_last_event_ms,
                ..engine
            })
            &&& !navigates ==> engine.result(input).event != Some(GestureEvent::ScrollUp)
                && engine.result(input).event != Some(GestureEvent::ScrollDown)
            &&& navigates ==> after.swipe_accum_x == engine.swipe_accum_x && after.swipe_accum_y
                == engine.swipe_accum_y && after.swipe_last_event_ms == engine.swipe_last_event_ms
            &&& navigates ==> (engine.result(input).event matches Some(event) ==> event
                == GestureEvent::ScrollUp || event == GestureEvent::ScrollDown)
            &&& !navigates && !input.swipe_candidate ==> after == engine && engine.result(
                input,
            ).event is None
            &&& navigates && input.delta == 0 ==> after == engine && engine.result(
                input,
            ).event is None
        }),
{
}

/// Taking a scroll back ends its cooldown and its count, and nothing else: what is held
/// stays, so that the next message counts at once.
pub proof fn law_rearming_keeps_what_is_held(engine: WheelGestureEngine)
    ensures
        engine.rearmed().navigation_cooldown_until_ms is None,
        engine.rearmed().navigation_accum == engine.navigation_accum,
        engine.rearmed().navigation_last_event_ms == engine.navigation_last_event_ms,
        engine.rearmed().navigation_mode == engine.navigation_mode,
        engine.rearmed().navigation_burst_count == engine.navigation_burst_count,
        engine.rearmed().navigation_stream_suppressed == engine.navigation_stream_suppressed,
        engine.rearmed().swipe_accum_x == engine.swipe_accum_x,
        engine.rearmed().swipe_accum_y == engine.swipe_accum_y,
        engine.rearmed().swipe_last_event_ms == engine.swipe_last_event_ms,
        engine.rearmed().navigation_stream_started_ms == engine.navigation_stream_started_ms,
        engine.rearmed().navigation_stream_flags == engine.navigation_stream_flags,
        engine.navigation_stream_emitted == 0 ==> engine.rearmed().navigation_stream_emitted == 0,
        engine.navigation_mode == WheelMode::Stream && engine.navigation_stream_emitted > 0
            ==> engine.rearmed().navigation_stream_emitted == engine.navigation_stream_emitted - 1,
        engine.navigation_mode == WheelMode::Discrete ==> engine.rearmed().navigation_stream_emitted
            == engine.navigation_stream_emitted,
{
}

/// A new engine holds nothing: the first message of a run counts alone.
pub proof fn law_a_new_engine_holds_nothing()
    ensures
        WheelGestureEngine::fresh().wf(),
        WheelGestureEngine::fresh().navigation_accum == 0,
        WheelGestureEngine::fresh().swipe_accum_x == 0,
        WheelGestureEngine::fresh().swipe_accum_y == 0,
        WheelGestureEngine::fresh().swipe_last_event_ms is None,
        WheelGestureEngine::fresh().navigation_last_event_ms is None,
        WheelGestureEngine::fresh().navigation_cooldown_until_ms is None,
        WheelGestureEngine::fresh().navigation_mode == WheelMode::Discrete,
        WheelGestureEngine::fresh().navigation_burst_count == 0,
        WheelGestureEngine::fresh().navigation_stream_started_ms is None,
        WheelGestureEngine::fresh().navigation_stream_emitted == 0,
        WheelGestureEngine::fresh().navigation_stream_suppressed == 0,
        WheelGestureEngine::fresh().navigation_stream_flags == 0,
{
}

} // verus!
