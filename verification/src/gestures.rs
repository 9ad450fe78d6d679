//! The gesture hook: configured modifiers, registration, delivery and the
//! decision on each wheel message.
use vstd::prelude::*;
use crate::hook_thread::HookInstallError;
use crate::text;
use crate::wheel;
use crate::wheel::{EngineTrace, GestureEvent, WheelAxis, WheelGestureEngine, WheelGestureInput};

verus! {

/// The default scroll modifier: Ctrl and Alt.
pub const DEFAULT_SCROLL_MODIFIER_FLAGS: u8 = 0x03;

/// What `str::to_lowercase` makes of a text.
pub uninterp spec fn lowercased(s: Seq<char>) -> Seq<char>;

/// Every character of `s` is ASCII.
pub open spec fn is_ascii_text(s: Seq<char>) -> bool {
    forall|i: int| 0 <= i < s.len() ==> (#[trigger] s[i]) <= '\u{7f}'
}

/// `c` with an ASCII capital made small.
pub open spec fn ascii_lowered(c: char) -> char {
    if 'A' <= c <= 'Z' {
        (c as u32 + 32) as char
    } else {
        c
    }
}

/// `str::to_lowercase`: the result is a function of the text alone, and on
/// ASCII text it makes the capitals small and changes nothing else. What it
/// makes of other characters is left to Unicode's tables.
#[verifier::external_body]
fn to_lowercase(s: &str) -> (r: String)
    ensures
        r@ == lowercased(s@),
        is_ascii_text(s@) ==> r@ == s@.map_values(|c: char| ascii_lowered(c)),
{
    s.to_lowercase()
}

/// The bit of a lower-case modifier name: Ctrl, Alt, Shift and Win are bits 0
/// to 3; any other word has none.
pub open spec fn modifier_bit(word: Seq<char>) -> u8 {
    if word == "ctrl"@ || word == "control"@ {
        0x01
    } else if word == "alt"@ || word == "menu"@ {
        0x02
    } else if word == "shift"@ {
        0x04
    } else if word == "win"@ || word == "super"@ {
        0x08
    } else {
        0
    }
}

/// The union of the bits that a list of lower-case words stands for.
pub open spec fn modifier_union(words: Seq<Seq<char>>) -> u8
    decreases words.len(),
{
    if words.len() == 0 {
        0
    } else {
        modifier_union(words.drop_last()) | modifier_bit(words.last())
    }
}

/// The flags of a list of lower-case words: their union, or the default when
/// none of them is known.
pub open spec fn flags_of_words(words: Seq<Seq<char>>) -> u8 {
    if modifier_union(words) == 0 {
        DEFAULT_SCROLL_MODIFIER_FLAGS
    } else {
        modifier_union(words)
    }
}

/// The words of a setting such as `Ctrl+Alt`: what stands between the plus
/// signs, trimmed and in lower case.
pub open spec fn modifier_words(setting: Seq<char>) -> Seq<Seq<char>> {
    text::pieces(setting, '+').map_values(|piece: Seq<char>| lowercased(text::trimmed(piece)))
}

/// The words of a setting in ASCII: what stands between the plus signs, trimmed and
/// with the capitals made small.
pub open spec fn ascii_words(setting: Seq<char>) -> Seq<Seq<char>> {
    text::pieces(setting, '+').map_values(
        |piece: Seq<char>| text::trimmed(piece).map_values(|c: char| ascii_lowered(c)),
    )
}

proof fn lemma_trimming_keeps_ascii(s: Seq<char>)
    requires
        is_ascii_text(s),
    ensures
        is_ascii_text(text::trimmed(s)),
{
    lemma_led_is_ascii(s);
    lemma_trailed_is_ascii(text::without_leading_space(s));
}

proof fn lemma_led_is_ascii(s: Seq<char>)
    requires
        is_ascii_text(s),
    ensures
        is_ascii_text(text::without_leading_space(s)),
    decreases s.len(),
{
    if s.len() > 0 && text::is_white_space(s[0]) {
        lemma_led_is_ascii(s.subrange(1, s.len() as int));
    }
}

proof fn lemma_trailed_is_ascii(s: Seq<char>)
    requires
        is_ascii_text(s),
    ensures
        is_ascii_text(text::without_trailing_space(s)),
    decreases s.len(),
{
    if s.len() > 0 && text::is_white_space(s.last()) {
        lemma_trailed_is_ascii(s.drop_last());
    }
}

/// The characters of each text of a list.
pub open spec fn views(words: Seq<String>) -> Seq<Seq<char>> {
    words.map_values(|word: String| word@)
}

/// The bit of a lower-case modifier name, zero for an unknown one.
pub fn modifier_flag(word: &str) -> (r: u8)
    ensures
        r == modifier_bit(word@),
{
    if text::same_text(word, "ctrl") || text::same_text(word, "control") {
        0x01
    } else if text::same_text(word, "alt") || text::same_text(word, "menu") {
        0x02
    } else if text::same_text(word, "shift") {
        0x04
    } else if text::same_text(word, "win") || text::same_text(word, "super") {
        0x08
    } else {
        0
    }
}

/// The flags of a list of lower-case words. Unrecognised words are ignored;
/// when none is recognised, the flags are those of the default.
pub fn modifier_flags(words: &Vec<String>) -> (r: u8)
    ensures
        r == flags_of_words(views(words@)),
{
    let mut union: u8 = 0;
    let mut i: usize = 0;
    while i < words.len()
        invariant
            i <= words.len(),
            union == modifier_union(views(words@).take(i as int)),
        decreases words.len() - i,
    {
        assert(views(words@).take(i + 1).drop_last() =~= views(words@).take(i as int));
        union = union | modifier_flag(words[i].as_str());
        i = i + 1;
    }
    assert(views(words@).take(i as int) =~= views(words@));
    if union == 0 {
        DEFAULT_SCROLL_MODIFIER_FLAGS
    } else {
        union
    }
}

/// Splits a setting such as `Ctrl+Alt` into trimmed lower-case words.
fn split_modifier_words(modifier_str: &str) -> (words: Vec<String>)
    ensures
        views(words@) == modifier_words(modifier_str@),
        is_ascii_text(modifier_str@) ==> views(words@) == ascii_words(modifier_str@),
{
    let chars = text::characters(modifier_str);
    let mut words: Vec<String> = Vec::new();
    let mut start: usize = 0;
    let mut i: usize = 0;
    let ghost mut done: Seq<Seq<char>> = Seq::empty();
    assert(chars@.take(0) =~= Seq::<char>::empty());
    assert(chars@.subrange(0, 0) =~= Seq::<char>::empty());
    assert(text::pieces(chars@.take(0), '+') =~= done.push(chars@.subrange(0, 0)));
    while i < chars.len()
        invariant
            start <= i <= chars.len(),
            chars@ == modifier_str@,
            text::pieces(chars@.take(i as int), '+') == done.push(
                chars@.subrange(start as int, i as int),
            ),
            words.len() == done.len(),
            forall|k: int|
                0 <= k < done.len() ==> (#[trigger] words@[k])@ == lowercased(
                    text::trimmed(done[k]),
                ),
            is_ascii_text(chars@) ==> forall|k: int|
                0 <= k < done.len() ==> (#[trigger] words@[k])@ == text::trimmed(
                    done[k],
                ).map_values(|c: char| ascii_lowered(c)),
        decreases chars.len() - i,
    {
        proof {
            let next = chars@.take(i + 1);
            assert(next.drop_last() =~= chars@.take(i as int));
            assert(next.last() == chars@[i as int]);
            assert(done.push(chars@.subrange(start as int, i as int)).drop_last() =~= done);
            assert(chars@.subrange(start as int, i as int).push(chars@[i as int])
                =~= chars@.subrange(start as int, i + 1));
        }
        proof {
            if is_ascii_text(chars@) {
                lemma_trimming_keeps_ascii(chars@.subrange(start as int, i as int));
            }
        }
        if chars[i] == '+' {
            words.push(to_lowercase(text::trim(modifier_str.substring_char(start, i))));
            proof {
                done = done.push(chars@.subrange(start as int, i as int));
                assert(chars@.subrange(i + 1, i + 1) =~= Seq::<char>::empty());
            }
            start = i + 1;
        }
        i = i + 1;
    }
    proof {
        if is_ascii_text(chars@) {
            lemma_trimming_keeps_ascii(chars@.subrange(start as int, i as int));
        }
    }
    words.push(to_lowercase(text::trim(modifier_str.substring_char(start, i))));
    proof {
        let piece = chars@.subrange(start as int, i as int);
        assert(chars@.take(i as int) =~= chars@);
        assert(views(words@) =~= modifier_words(modifier_str@));
        if is_ascii_text(chars@) {
            assert(views(words@) =~= ascii_words(modifier_str@));
        }
    }
    words
}

/// Reads a scroll-modifier setting such as `Ctrl+Alt` and stores its flags.
/// Unrecognised words are ignored; when none is recognised, the default is
/// stored. Capitals make no difference.
pub fn set_scroll_modifier(flags: &mut u8, modifier_str: &str)
    ensures
        *final(flags) == flags_of_words(modifier_words(modifier_str@)),
        is_ascii_text(modifier_str@) ==> *final(flags) == flags_of_words(
            ascii_words(modifier_str@),
        ),
{
    let words = split_modifier_words(modifier_str);
    *flags = modifier_flags(&words);
}

/// The stored flags always name at least one of the four modifiers and nothing
/// else.
pub proof fn law_some_modifier_is_always_required(words: Seq<Seq<char>>)
    ensures
        1 <= flags_of_words(words) <= 0x0f,
{
    lemma_union_is_a_nibble(words);
}

proof fn lemma_union_is_a_nibble(words: Seq<Seq<char>>)
    ensures
        modifier_union(words) <= 0x0f,
    decreases words.len(),
{
    if words.len() > 0 {
        lemma_union_is_a_nibble(words.drop_last());
        let a = modifier_union(words.drop_last());
        let b = modifier_bit(words.last());
        assert(a | b <= 0x0fu8) by (bit_vector)
            requires
                a <= 0x0fu8,
                b <= 0x0fu8,
        ;
    }
}

/// A word that is not recognised changes nothing.
pub proof fn law_unrecognised_words_are_ignored(words: Seq<Seq<char>>, word: Seq<char>)
    requires
        modifier_bit(word) == 0,
    ensures
        flags_of_words(words.push(word)) == flags_of_words(words),
{
    assert(words.push(word).drop_last() =~= words);
    let a = modifier_union(words);
    assert(a | 0u8 == a) by (bit_vector);
}

/// The vertical wheel message.
pub const WM_MOUSEWHEEL: u32 = 0x020A;

/// The horizontal wheel message.
pub const WM_MOUSEHWHEEL: u32 = 0x020E;

/// Room in the queue between the hook and its reader; when it is full, the
/// wheel passes through.
pub const GESTURE_QUEUE_CAPACITY: usize = 64;

/// Least distance of two diagnostics about missing modifiers, in milliseconds.
pub const MODIFIER_MISS_LOG_MS: u64 = 1000;

/// Which modifier keys are down.
#[derive(Clone, Copy, Debug)]
pub struct ModifierKeys {
    pub control: bool,
    pub menu: bool,
    pub shift: bool,
    pub left_win: bool,
    pub right_win: bool,
}

/// What became of an event that was offered to the reader's queue.
#[derive(Clone, Copy, Debug, PartialEq, Eq, Structural)]
pub enum DeliveryOutcome {
    /// The queue took it.
    Delivered,
    /// The queue was full.
    Full,
    /// The reader is gone.
    Disconnected,
    /// No sender is installed.
    NoSender,
    /// The sender was in use on another thread.
    Busy,
}

/// A low-level mouse hook call, as far as the decision reads it.
#[derive(Clone, Copy, Debug)]
pub struct WheelMessage {
    pub code: i32,
    pub thread: u32,
    pub message: u32,
    pub mouse_data: u32,
    pub flags: u32,
}

/// What the engine made of a wheel message, before any event is delivered.
#[derive(Clone, Copy, Debug)]
pub struct WheelStep {
    /// The event to deliver.
    pub event: Option<GestureEvent>,
    /// The message may be swallowed.
    pub consume: bool,
    /// The modifiers were held.
    pub mods_held: bool,
    /// The diagnostic about missing modifiers is due.
    pub report_modifier_miss: bool,
    /// What the engine says of its work.
    pub trace: EngineTrace,
}

/// The state shared between the gesture hook and its installer.
pub struct GestureHook {
    pub sender_installed: bool,
    pub engine: Option<WheelGestureEngine>,
    pub active_thread: u32,
    pub delivery_connected: bool,
    pub scroll_modifier_flags: u8,
    pub last_modifier_miss_log_ms: u64,
}

/// The modifiers in `flags` are all held; at least one has to be asked for,
/// and either Win key will do.
pub open spec fn modifiers_held(flags: u8, keys: ModifierKeys) -> bool {
    &&& flags != 0
    &&& flags & 0x01 != 0 ==> keys.control
    &&& flags & 0x02 != 0 ==> keys.menu
    &&& flags & 0x04 != 0 ==> keys.shift
    &&& flags & 0x08 != 0 ==> keys.left_win || keys.right_win
}

/// Whether the modifiers in `flags` are all held.
pub fn scroll_modifiers_held(flags: u8, keys: ModifierKeys) -> (r: bool)
    ensures
        r == modifiers_held(flags, keys),
{
    flags != 0 && (flags & 0x01 == 0 || keys.control) && (flags & 0x02 == 0 || keys.menu) && (flags
        & 0x04 == 0 || keys.shift) && (flags & 0x08 == 0 || keys.left_win || keys.right_win)
}

/// The axis of a wheel message, `None` for any other message.
pub open spec fn axis_of(message: u32) -> Option<WheelAxis> {
    if message == WM_MOUSEHWHEEL {
        Some(WheelAxis::Horizontal)
    } else if message == WM_MOUSEWHEEL {
        Some(WheelAxis::Vertical)
    } else {
        None
    }
}

/// The wheel delta: the high word of `mouse_data`, signed.
pub open spec fn delta_of(mouse_data: u32) -> int {
    let high = mouse_data as int / 0x1_0000;
    if high >= 0x8000 {
        high - 0x1_0000
    } else {
        high
    }
}

/// The axis of a wheel message, `None` for any other message.
pub fn wheel_axis(message: u32) -> (r: Option<WheelAxis>)
    ensures
        r == axis_of(message),
{
    if message == WM_MOUSEHWHEEL {
        Some(WheelAxis::Horizontal)
    } else if message == WM_MOUSEWHEEL {
        Some(WheelAxis::Vertical)
    } else {
        None
    }
}

/// The wheel delta of a message.
pub fn wheel_delta(mouse_data: u32) -> (r: i32)
    ensures
        r == delta_of(mouse_data),
        i16::MIN <= r <= i16::MAX,
{
    let high: u32 = mouse_data / 0x1_0000;
    if high >= 0x8000 {
        high as i32 - 0x1_0000
    } else {
        high as i32
    }
}

impl GestureHook {
    /// The engine, where there is one, is well formed.
    pub open spec fn wf(self) -> bool {
        self.engine matches Some(engine) ==> engine.wf()
    }

    /// Nothing is installed.
    pub fn new() -> (hook: GestureHook)
        ensures
            hook.wf(),
            hook == (GestureHook {
                sender_installed: false,
                engine: None,
                active_thread: 0,
                delivery_connected: false,
                scroll_modifier_flags: DEFAULT_SCROLL_MODIFIER_FLAGS,
                last_modifier_miss_log_ms: 0,
            }),
    {
        GestureHook {
            sender_installed: false,
            engine: None,
            active_thread: 0,
            delivery_connected: false,
            scroll_modifier_flags: DEFAULT_SCROLL_MODIFIER_FLAGS,
            last_modifier_miss_log_ms: 0,
        }
    }

    /// The state with sender and engine gone; the modifiers stay configured.
    pub open spec fn cleared(self) -> GestureHook {
        GestureHook { sender_installed: false, engine: None, delivery_connected: false, ..self }
    }

    /// Drops the sender and the engine.
    pub fn clear_gesture_globals(&mut self)
        ensures
            *final(self) == old(self).cleared(),
            final(self).wf(),
    {
        self.sender_installed = false;
        self.engine = None;
        self.delivery_connected = false;
    }

    /// The hook thread `thread_id` has unhooked. A thread that is no longer the
    /// active one changes nothing.
    pub fn retire_gesture_thread(&mut self, thread_id: u32)
        requires
            old(self).wf(),
        ensures
            final(self).wf(),
            *final(self) == (if old(self).active_thread == thread_id {
                GestureHook { active_thread: 0, ..old(self).cleared() }
            } else {
                *old(self)
            }),
    {
        if self.active_thread == thread_id {
            self.active_thread = 0;
            self.clear_gesture_globals();
        }
    }

    /// Publishes a sender and a fresh engine before the hook thread starts. A
    /// second hook is refused while one is installed; when the engine's lock is
    /// poisoned, everything is rolled back.
    pub fn begin_registration(&mut self, sender_poisoned: bool, state_poisoned: bool) -> (r: Result<
        (),
        HookInstallError,
    >)
        requires
            old(self).wf(),
        ensures
            final(self).wf(),
            r == (if sender_poisoned {
                Err::<(), HookInstallError>(HookInstallError::LockPoisoned)
            } else if old(self).sender_installed {
                Err(HookInstallError::AlreadyInitialized)
            } else if state_poisoned {
                Err(HookInstallError::LockPoisoned)
            } else {
                Ok(())
            }),
            sender_poisoned || old(self).sender_installed ==> *final(self) == *old(self),
            !sender_poisoned && !old(self).sender_installed && state_poisoned ==> *final(self)
                == old(self).cleared(),
            r is Ok ==> *final(self) == (GestureHook {
                sender_installed: true,
                delivery_connected: true,
                engine: Some(WheelGestureEngine::fresh()),
                ..*old(self)
            }),
    {
        if sender_poisoned {
            return Err(HookInstallError::LockPoisoned);
        }
        if self.sender_installed {
            return Err(HookInstallError::AlreadyInitialized);
        }
        self.sender_installed = true;
        self.delivery_connected = true;
        if state_poisoned {
            self.clear_gesture_globals();
            return Err(HookInstallError::LockPoisoned);
        }
        self.engine = Some(WheelGestureEngine::new());
        Ok(())
    }

    /// The state after an offer to the queue: only a missing reader or sender
    /// counts as a lost connection.
    pub open spec fn after_delivery(self, outcome: DeliveryOutcome) -> GestureHook {
        GestureHook {
            delivery_connected: self.delivery_connected && outcome != DeliveryOutcome::Disconnected
                && outcome != DeliveryOutcome::NoSender,
            ..self
        }
    }

    /// Records what became of an offered event; true if it was delivered.
    pub fn send_gesture_event(&mut self, outcome: DeliveryOutcome) -> (delivered: bool)
        requires
            old(self).wf(),
        ensures
            final(self).wf(),
            delivered == (outcome == DeliveryOutcome::Delivered),
            *final(self) == old(self).after_delivery(outcome),
    {
        match outcome {
            DeliveryOutcome::Delivered => true,
            DeliveryOutcome::Full | DeliveryOutcome::Busy => false,
            DeliveryOutcome::Disconnected | DeliveryOutcome::NoSender => {
                self.delivery_connected = false;
                false
            },
        }
    }

    /// What the engine is told of a wheel message on `axis`.
    pub open spec fn engine_input(
        self,
        call: WheelMessage,
        axis: WheelAxis,
        keys: ModifierKeys,
        now_ms: u128,
    ) -> WheelGestureInput {
        WheelGestureInput {
            now_ms,
            axis,
            delta: delta_of(call.mouse_data) as i32,
            flags: call.flags,
            mods_held: axis == WheelAxis::Vertical && modifiers_held(
                self.scroll_modifier_flags,
                keys,
            ),
            swipe_candidate: call.flags & wheel::LLMHF_INJECTED != 0,
        }
    }

    /// The message is a wheel message for the thread that owns the hook, and
    /// there is an engine to feed.
    pub open spec fn handles(self, call: WheelMessage) -> bool {
        &&& call.code >= 0
        &&& self.active_thread == call.thread
        &&& axis_of(call.message) is Some
        &&& self.engine is Some
    }

    /// A vertical notch without the modifiers whose diagnostic is due.
    pub open spec fn miss_is_due(
        self,
        input: WheelGestureInput,
        wall_ms: u64,
    ) -> bool {
        &&& input.axis == WheelAxis::Vertical
        &&& input.delta != 0
        &&& !input.mods_held
        &&& wall_ms - self.last_modifier_miss_log_ms >= MODIFIER_MISS_LOG_MS
    }

    /// No counter of the engine is exhausted and the clock has room.
    pub open spec fn has_headroom(self, now_ms: u128) -> bool {
        &&& now_ms + wheel::NAVIGATION_COOLDOWN_MS <= u128::MAX
        &&& self.engine matches Some(engine) ==> {
            &&& engine.navigation_burst_count < u32::MAX
            &&& engine.navigation_stream_emitted < u32::MAX
            &&& engine.navigation_stream_suppressed < u32::MAX
        }
    }

    /// The call is one that the engine counts: a vertical notch with the modifiers
    /// held.
    pub open spec fn navigates(self, call: WheelMessage, keys: ModifierKeys) -> bool {
        &&& self.handles(call)
        &&& axis_of(call.message) == Some(WheelAxis::Vertical)
        &&& modifiers_held(self.scroll_modifier_flags, keys)
        &&& delta_of(call.mouse_data) != 0
    }

    /// Whether [`Self::on_wheel`] can take the call: where the engine would count it,
    /// no counter is exhausted and the clock has room.
    pub fn can_take(&self, call: WheelMessage, keys: ModifierKeys, now_ms: u128) -> (r: bool)
        ensures
            r == (self.navigates(call, keys) ==> self.has_headroom(now_ms)),
    {
        if call.code < 0 || self.active_thread != call.thread {
            return true;
        }
        let vertical = match wheel_axis(call.message) {
            Some(axis) => axis == WheelAxis::Vertical,
            None => false,
        };
        if !vertical || !scroll_modifiers_held(self.scroll_modifier_flags, keys) || wheel_delta(
            call.mouse_data,
        ) == 0 {
            return true;
        }
        match &self.engine {
            Some(engine) => now_ms <= u128::MAX - wheel::NAVIGATION_COOLDOWN_MS
                && engine.navigation_burst_count < u32::MAX && engine.navigation_stream_emitted
                < u32::MAX && engine.navigation_stream_suppressed < u32::MAX,
            None => true,
        }
    }

    /// Feeds a hook call to the engine. `now_ms` is the time since the engine
    /// started, `wall_ms` the wall clock that diagnostics are throttled by.
    pub fn on_wheel(
        &mut self,
        call: WheelMessage,
        keys: ModifierKeys,
        now_ms: u128,
        wall_ms: u64,
    ) -> (step: WheelStep)
        requires
            old(self).wf(),
            old(self).navigates(call, keys) ==> old(self).has_headroom(now_ms),
        ensures
            final(self).wf(),
            !old(self).handles(call) ==> {
                &&& *final(self) == *old(self)
                &&& step == (WheelStep {
                    event: None,
                    consume: false,
                    mods_held: false,
                    report_modifier_miss: false,
                    trace: wheel::quiet_trace(),
                })
            },
            old(self).handles(call) ==> {
                let input = old(self).engine_input(call, axis_of(call.message)->0, keys, now_ms);
                let engine = old(self).engine->0;
                &&& step == (WheelStep {
                    event: engine.result(input).event,
                    consume: engine.result(input).consume,
                    mods_held: input.mods_held,
                    report_modifier_miss: old(self).miss_is_due(input, wall_ms),
                    trace: engine.result(input).trace,
                })
                &&& *final(self) == (GestureHook {
                    engine: Some(engine.after(input)),
                    last_modifier_miss_log_ms: if old(self).miss_is_due(input, wall_ms) {
                        wall_ms
                    } else {
                        old(self).last_modifier_miss_log_ms
                    },
                    ..*old(self)
                })
            },
    {
        let quiet = WheelStep {
            event: None,
            consume: false,
            mods_held: false,
            report_modifier_miss: false,
            trace: EngineTrace::default(),
        };
        if call.code < 0 || self.active_thread != call.thread {
            return quiet;
        }
        let axis = match wheel_axis(call.message) {
            Some(axis) => axis,
            None => {
                return quiet;
            },
        };
        let mut engine = match self.engine.take() {
            Some(engine) => engine,
            None => {
                return quiet;
            },
        };
        let delta: i32 = wheel_delta(call.mouse_data);
        let mods_held = axis == WheelAxis::Vertical && scroll_modifiers_held(
            self.scroll_modifier_flags,
            keys,
        );
        let input = WheelGestureInput {
            now_ms,
            axis,
            delta,
            flags: call.flags,
            mods_held,
            swipe_candidate: call.flags & wheel::LLMHF_INJECTED != 0,
        };
        let result = engine.process(input);
        self.engine = Some(engine);
        let report_modifier_miss = axis == WheelAxis::Vertical && delta != 0 && !mods_held
            && wall_ms.saturating_sub(self.last_modifier_miss_log_ms) >= MODIFIER_MISS_LOG_MS;
        if report_modifier_miss {
            self.last_modifier_miss_log_ms = wall_ms;
        }
        WheelStep {
            event: result.event,
            consume: result.consume,
            mods_held,
            report_modifier_miss,
            trace: result.trace,
        }
    }

    /// The state after the event of a step, if any, was offered to the queue.
    /// A navigation event that was not delivered is taken back.
    pub open spec fn after_step(self, step: WheelStep, delivery: DeliveryOutcome) -> GestureHook {
        if step.event is Some {
            let told = self.after_delivery(delivery);
            match self.engine {
                Some(engine) if delivery != DeliveryOutcome::Delivered && step.mods_held =>
                    GestureHook { engine: Some(engine.rearmed()), ..told },
                _ => told,
            }
        } else {
            self
        }
    }

    /// Ends a hook call: `delivery` is what became of the step's event, and is
    /// ignored when there was none. True if the message is to be swallowed.
    pub fn finish_wheel(&mut self, step: WheelStep, delivery: DeliveryOutcome) -> (swallow: bool)
        requires
            old(self).wf(),
        ensures
            final(self).wf(),
            *final(self) == old(self).after_step(step, delivery),
            swallow == (step.consume && (if step.event is Some {
                delivery == DeliveryOutcome::Delivered
            } else {
                old(self).delivery_connected
            })),
    {
        let mut available = self.delivery_connected;
        if step.event.is_some() {
            available = self.send_gesture_event(delivery);
            if !available && step.mods_held {
                if let Some(mut engine) = self.engine.take() {
                    engine.retry_navigation_after_failed_delivery();
                    self.engine = Some(engine);
                }
            }
        }
        step.consume && available
    }
}

/// A full queue passes the wheel through without disabling the hook; a reader
/// that is gone disarms it. Neither releases the installed sender.
pub proof fn law_failed_delivery_keeps_the_singleton(
    hook: GestureHook,
    step: WheelStep,
    delivery: DeliveryOutcome,
)
    requires
        step.event is Some,
        delivery != DeliveryOutcome::Delivered,
    ensures
        hook.after_step(step, delivery).sender_installed == hook.sender_installed,
        delivery == DeliveryOutcome::Full || delivery == DeliveryOutcome::Busy
            ==> hook.after_step(step, delivery).delivery_connected == hook.delivery_connected,
        delivery == DeliveryOutcome::Disconnected || delivery == DeliveryOutcome::NoSender
            ==> !hook.after_step(step, delivery).delivery_connected,
{
}

/// Diagnostics about missing modifiers are at least the throttle apart.
pub proof fn law_modifier_miss_reports_are_throttled(
    hook: GestureHook,
    first: WheelGestureInput,
    first_ms: u64,
    next: WheelGestureInput,
    next_ms: u64,
)
    requires
        hook.miss_is_due(first, first_ms),
        (GestureHook { last_modifier_miss_log_ms: first_ms, ..hook }).miss_is_due(next, next_ms),
    ensures
        next_ms - first_ms >= MODIFIER_MISS_LOG_MS,
{
}

/// The word names the Ctrl key, and so on for the others.
pub open spec fn names_ctrl(word: Seq<char>) -> bool {
    word == "ctrl"@ || word == "control"@
}

pub open spec fn names_alt(word: Seq<char>) -> bool {
    word == "alt"@ || word == "menu"@
}

pub open spec fn names_shift(word: Seq<char>) -> bool {
    word == "shift"@
}

pub open spec fn names_win(word: Seq<char>) -> bool {
    word == "win"@ || word == "super"@
}

proof fn lemma_names_differ()
    ensures
        forall|word: Seq<char>| #[trigger]
            names_ctrl(word) ==> !names_alt(word) && !names_shift(word) && !names_win(word),
        forall|word: Seq<char>| #[trigger]
            names_alt(word) ==> !names_shift(word) && !names_win(word),
        forall|word: Seq<char>| #[trigger] names_shift(word) ==> !names_win(word),
{
    reveal_strlit("ctrl");
    reveal_strlit("control");
    reveal_strlit("alt");
    reveal_strlit("menu");
    reveal_strlit("shift");
    reveal_strlit("win");
    reveal_strlit("super");
    assert("ctrl"@[0] == 'c');
    assert("menu"@[0] == 'm');
    assert("alt"@[0] == 'a');
    assert("win"@[0] == 'w');
    assert("shift"@[1] == 'h');
    assert("super"@[1] == 'u');
}

proof fn lemma_union_has_bits(words: Seq<Seq<char>>)
    ensures
        modifier_union(words) & 1 != 0 <==> exists|k: int|
            0 <= k < words.len() && names_ctrl(#[trigger] words[k]),
        modifier_union(words) & 2 != 0 <==> exists|k: int|
            0 <= k < words.len() && names_alt(#[trigger] words[k]),
        modifier_union(words) & 4 != 0 <==> exists|k: int|
            0 <= k < words.len() && names_shift(#[trigger] words[k]),
        modifier_union(words) & 8 != 0 <==> exists|k: int|
            0 <= k < words.len() && names_win(#[trigger] words[k]),
    decreases words.len(),
{
    if words.len() == 0 {
        assert(0u8 & 1 == 0 && 0u8 & 2 == 0 && 0u8 & 4 == 0 && 0u8 & 8 == 0) by (bit_vector);
    } else {
        let rest = words.drop_last();
        let last = words.last();
        lemma_union_has_bits(rest);
        lemma_names_differ();
        let a = modifier_union(rest);
        let b = modifier_bit(last);
        assert((a | b) & 1 != 0 <==> a & 1 != 0 || b & 1 != 0) by (bit_vector);
        assert((a | b) & 2 != 0 <==> a & 2 != 0 || b & 2 != 0) by (bit_vector);
        assert((a | b) & 4 != 0 <==> a & 4 != 0 || b & 4 != 0) by (bit_vector);
        assert((a | b) & 8 != 0 <==> a & 8 != 0 || b & 8 != 0) by (bit_vector);
        assert(0u8 & 1 == 0 && 0u8 & 2 == 0 && 0u8 & 4 == 0 && 0u8 & 8 == 0) by (bit_vector);
        assert(1u8 & 1 != 0 && 1u8 & 2 == 0 && 1u8 & 4 == 0 && 1u8 & 8 == 0) by (bit_vector);
        assert(2u8 & 1 == 0 && 2u8 & 2 != 0 && 2u8 & 4 == 0 && 2u8 & 8 == 0) by (bit_vector);
        assert(4u8 & 1 == 0 && 4u8 & 2 == 0 && 4u8 & 4 != 0 && 4u8 & 8 == 0) by (bit_vector);
        assert(8u8 & 1 == 0 && 8u8 & 2 == 0 && 8u8 & 4 == 0 && 8u8 & 8 != 0) by (bit_vector);
        assert(!(names_ctrl(last) && (names_alt(last) || names_shift(last) || names_win(last))));
        assert(!(names_alt(last) && (names_shift(last) || names_win(last))));
        assert(!(names_shift(last) && names_win(last)));
        assert(names_ctrl(last) <==> last == "ctrl"@ || last == "control"@);
        assert(names_alt(last) <==> last == "alt"@ || last == "menu"@);
        assert(names_ctrl(last) ==> b == 1);
        assert(names_alt(last) ==> b == 2 && !names_ctrl(last));
        assert(names_shift(last) ==> b == 4 && !names_ctrl(last) && !names_alt(last));
        assert(names_win(last) ==> b == 8 && !names_ctrl(last) && !names_alt(last));
        lemma_some_word(words, |word: Seq<char>| names_ctrl(word));
        lemma_some_word(words, |word: Seq<char>| names_alt(word));
        lemma_some_word(words, |word: Seq<char>| names_shift(word));
        lemma_some_word(words, |word: Seq<char>| names_win(word));
    }
}

proof fn lemma_some_word(words: Seq<Seq<char>>, names: spec_fn(Seq<char>) -> bool)
    requires
        words.len() > 0,
    ensures
        (exists|k: int| 0 <= k < words.len() && names(#[trigger] words[k])) <==> (exists|k: int|
            0 <= k < words.drop_last().len() && names(#[trigger] words.drop_last()[k])) || names(
            words.last(),
        ),
{
    let rest = words.drop_last();
    if exists|k: int| 0 <= k < words.len() && names(#[trigger] words[k]) {
        let k = choose|k: int| 0 <= k < words.len() && names(#[trigger] words[k]);
        if k < rest.len() {
            assert(names(rest[k]));
        }
    }
    if exists|k: int| 0 <= k < rest.len() && names(#[trigger] rest[k]) {
        let k = choose|k: int| 0 <= k < rest.len() && names(#[trigger] rest[k]);
        assert(names(words[k]));
    }
    if names(words.last()) {
        assert(names(words[words.len() - 1]));
    }
}

/// The word names one of the four keys.
pub open spec fn names_a_key(word: Seq<char>) -> bool {
    names_ctrl(word) || names_alt(word) || names_shift(word) || names_win(word)
}

/// A key is asked for just where some word names it, wherever it stands; where no word
/// names any, Ctrl and Alt are.
pub proof fn law_keys_are_asked_for_by_name(words: Seq<Seq<char>>)
    ensures
        ({
            let flags = flags_of_words(words);
            let none = forall|k: int| 0 <= k < words.len() ==> !names_a_key(#[trigger] words[k]);
            &&& flags % 2 == 1 <==> none || exists|k: int|
                0 <= k < words.len() && names_ctrl(#[trigger] words[k])
            &&& flags / 2 % 2 == 1 <==> none || exists|k: int|
                0 <= k < words.len() && names_alt(#[trigger] words[k])
            &&& flags / 4 % 2 == 1 <==> exists|k: int|
                0 <= k < words.len() && names_shift(#[trigger] words[k])
            &&& flags / 8 % 2 == 1 <==> exists|k: int|
                0 <= k < words.len() && names_win(#[trigger] words[k])
            &&& flags < 16
        }),
{
    lemma_union_has_bits(words);
    lemma_union_is_a_nibble(words);
    let u = modifier_union(words);
    lemma_bits_are_digits(u);
    assert(u != 0 ==> u & 1 != 0 || u & 2 != 0 || u & 4 != 0 || u & 8 != 0) by (bit_vector)
        requires
            u <= 0x0fu8,
    ;
    let none = forall|k: int| 0 <= k < words.len() ==> !names_a_key(#[trigger] words[k]);
    if none {
        assert forall|k: int| 0 <= k < words.len() implies !names_ctrl(#[trigger] words[k])
            && !names_alt(words[k]) && !names_shift(words[k]) && !names_win(words[k]) by {
            assert(!names_a_key(words[k]));
        }
        assert(u == 0);
    } else {
        let k = choose|k: int| 0 <= k < words.len() && names_a_key(#[trigger] words[k]);
        assert(names_ctrl(words[k]) || names_alt(words[k]) || names_shift(words[k]) || names_win(
            words[k],
        ));
        assert(0u8 & 1 == 0 && 0u8 & 2 == 0 && 0u8 & 4 == 0 && 0u8 & 8 == 0) by (bit_vector);
        assert(u != 0);
    }
}

proof fn lemma_bits_are_digits(flags: u8)
    ensures
        flags & 1 != 0 <==> flags % 2 == 1,
        flags & 2 != 0 <==> flags / 2 % 2 == 1,
        flags & 4 != 0 <==> flags / 4 % 2 == 1,
        flags & 8 != 0 <==> flags / 8 % 2 == 1,
{
    assert(flags & 1 != 0 <==> flags % 2 == 1) by (bit_vector);
    assert(flags & 2 != 0 <==> flags / 2 % 2 == 1) by (bit_vector);
    assert(flags & 4 != 0 <==> flags / 4 % 2 == 1) by (bit_vector);
    assert(flags & 8 != 0 <==> flags / 8 % 2 == 1) by (bit_vector);
}

/// The modifiers are held just where every key that is asked for is down, whatever others
/// are; either Win key will do, and where none is asked for nothing is held.
pub proof fn law_every_asked_key_is_down(flags: u8, keys: ModifierKeys)
    ensures
        modifiers_held(flags, keys) <==> {
            &&& flags != 0
            &&& keys.control || flags % 2 == 0
            &&& keys.menu || flags / 2 % 2 == 0
            &&& keys.shift || flags / 4 % 2 == 0
            &&& keys.left_win || keys.right_win || flags / 8 % 2 == 0
        },
{
    lemma_bits_are_digits(flags);
}

/// The delta is the upper half of the data, read as a signed number, whatever the lower
/// half holds.
pub proof fn law_delta_is_the_signed_upper_half(delta: int, low: int, mouse_data: u32)
    requires
        -0x8000 <= delta <= 0x7fff,
        0 <= low <= 0xffff,
        mouse_data == (if delta >= 0 {
            delta
        } else {
            delta + 0x1_0000
        }) * 0x1_0000 + low,
    ensures
        delta_of(mouse_data) == delta,
{
}

/// Only the two wheel messages have an axis.
pub proof fn law_wheel_messages_have_an_axis(message: u32)
    ensures
        axis_of(message) == Some(WheelAxis::Vertical) <==> message == 0x020a,
        axis_of(message) == Some(WheelAxis::Horizontal) <==> message == 0x020e,
{
}

/// A hook call is taken just where the system lets it be handled, it comes on the thread
/// of the hook, is a wheel message, and there is an engine.
pub proof fn law_wheel_messages_of_the_hook_are_taken(hook: GestureHook, call: WheelMessage)
    ensures
        hook.handles(call) <==> call.code >= 0 && call.thread == hook.active_thread && (call.message
            == 0x020a || call.message == 0x020e) && hook.engine is Some,
{
}

/// The engine is told the time, the axis, the delta and the flags of a message; modifiers
/// count on the vertical axis only, and a message can be part of a swipe just where its
/// lowest flag says that it was injected.
pub proof fn law_engine_is_told_of_the_message(
    hook: GestureHook,
    call: WheelMessage,
    axis: WheelAxis,
    keys: ModifierKeys,
    now_ms: u128,
)
    ensures
        ({
            let input = hook.engine_input(call, axis, keys, now_ms);
            &&& input.now_ms == now_ms
            &&& input.axis == axis
            &&& input.flags == call.flags
            &&& input.delta == delta_of(call.mouse_data)
            &&& axis == WheelAxis::Horizontal ==> !input.mods_held
            &&& axis == WheelAxis::Vertical ==> input.mods_held == modifiers_held(
                hook.scroll_modifier_flags,
                keys,
            )
            &&& input.swipe_candidate <==> call.flags % 2 == 1
        }),
{
    let flags = call.flags;
    assert(flags & 1 != 0 <==> flags % 2 == 1) by (bit_vector);
}

/// Missing modifiers are reported where a vertical notch comes without them and a second
/// has passed since the last report.
pub proof fn law_missing_modifiers_are_reported_each_second(
    hook: GestureHook,
    input: WheelGestureInput,
    wall_ms: u64,
)
    ensures
        hook.miss_is_due(input, wall_ms) <==> input.axis == WheelAxis::Vertical && input.delta != 0
            && !input.mods_held && hook.last_modifier_miss_log_ms + 1000 <= wall_ms,
{
}

/// A step without an event, or with one that the reader got, leaves the engine as it is;
/// so does one that failed without modifiers. One that failed with them is to be tried
/// again by the engine. Neither touches thread, modifiers or reports.
pub proof fn law_failed_navigation_is_tried_again(
    hook: GestureHook,
    step: WheelStep,
    delivery: DeliveryOutcome,
)
    ensures
        ({
            let after = hook.after_step(step, delivery);
            &&& after.active_thread == hook.active_thread
            &&& after.scroll_modifier_flags == hook.scroll_modifier_flags
            &&& after.last_modifier_miss_log_ms == hook.last_modifier_miss_log_ms
            &&& step.event is None ==> after == hook
            &&& delivery == DeliveryOutcome::Delivered ==> after == hook
            &&& !step.mods_held ==> after.engine == hook.engine
            &&& step.event is Some && step.mods_held && delivery != DeliveryOutcome::Delivered ==> (
            hook.engine matches Some(engine) ==> after.engine == Some(engine.rearmed()))
            &&& hook.engine is None ==> after.engine is None
        }),
{
}

/// A hook that was cleared takes no message and holds no sender; its modifiers stay.
pub proof fn law_cleared_hooks_take_nothing(hook: GestureHook, call: WheelMessage)
    ensures
        !hook.cleared().handles(call),
        !hook.cleared().sender_installed,
        !hook.cleared().delivery_connected,
        hook.cleared().engine is None,
        hook.cleared().scroll_modifier_flags == hook.scroll_modifier_flags,
        hook.cleared().active_thread == hook.active_thread,
        hook.cleared().last_modifier_miss_log_ms == hook.last_modifier_miss_log_ms,
{
}

/// A call that the engine counts is a vertical message that it takes, with the modifiers
/// held and some delta; others need no room in the counters.
pub proof fn law_counted_calls_are_notches_with_modifiers(
    hook: GestureHook,
    call: WheelMessage,
    keys: ModifierKeys,
)
    ensures
        hook.navigates(call, keys) <==> {
            &&& call.code >= 0
            &&& call.thread == hook.active_thread
            &&& call.message == 0x020a
            &&& hook.engine is Some
            &&& modifiers_held(hook.scroll_modifier_flags, keys)
            &&& call.mouse_data >= 0x1_0000
        },
{
}

/// Of an ASCII letter the small one is taken, and every other character stays.
pub proof fn law_capitals_are_made_small(c: char)
    ensures
        'A' <= c <= 'Z' ==> 'a' <= ascii_lowered(c) <= 'z' && ascii_lowered(c) as u32 - 'a' as u32
            == c as u32 - 'A' as u32,
        !('A' <= c <= 'Z') ==> ascii_lowered(c) == c,
        ascii_lowered(ascii_lowered(c)) == ascii_lowered(c),
{
}

/// A setting is read word by word: words that are written with plus signs between them,
/// with or without space around them, are read as what they are without that space, and
/// in lower case. Read as ASCII, a capital stands for its small letter.
pub proof fn law_settings_are_read_word_by_word(words: Seq<Seq<char>>, k: int)
    requires
        0 <= k < words.len(),
        forall|i: int| 0 <= i < words.len() ==> !(#[trigger] words[i]).contains('+'),
    ensures
        ({
            let setting = text::joined(words, '+');
            &&& modifier_words(setting).len() == words.len()
            &&& modifier_words(setting)[k] == lowercased(text::trimmed(words[k]))
            &&& ascii_words(setting).len() == words.len()
            &&& ascii_words(setting)[k].len() == text::trimmed(words[k]).len()
            &&& forall|i: int|
                0 <= i < text::trimmed(words[k]).len() ==> #[trigger] ascii_words(setting)[k][i]
                    == ascii_lowered(text::trimmed(words[k])[i])
        }),
{
    text::law_joined_texts_are_the_pieces(words, '+');
}

/// A text is ASCII as long as every character that is added has a number up to 127.
pub proof fn law_ascii_goes_up_to_127(s: Seq<char>, c: char)
    ensures
        is_ascii_text(Seq::empty()),
        is_ascii_text(s.push(c)) <==> is_ascii_text(s) && c as u32 <= 127,
{
    if is_ascii_text(s.push(c)) {
        assert forall|i: int| 0 <= i < s.len() implies (#[trigger] s[i]) <= '\u{7f}' by {
            assert(s.push(c)[i] <= '\u{7f}');
        }
        assert(s.push(c)[s.len() as int] <= '\u{7f}');
    }
}

/// A hook whose engine is new has room for any call within reach of its clock.
pub proof fn law_new_engines_have_room(hook: GestureHook, now_ms: u128)
    requires
        hook.engine is None || hook.engine == Some(WheelGestureEngine::fresh()),
        now_ms <= 0xffff_ffff_ffff_ffff,
    ensures
        hook.has_headroom(now_ms),
{
}

} // verus!
