//! The identities of windows: which incarnation of a handle an event speaks of.
use vstd::prelude::*;
use vstd::std_specs::hash::*;
use std::collections::HashMap;
use crate::event_hooks::WindowEvent;
use crate::geometry::WindowId;
use crate::text;

verus! {

broadcast use group_hash_axioms;

/// The incarnation of a window that a callback captured. The token is stored
/// as a window property, so that a new window of the same process, thread and
/// class cannot inherit an older handle's ownership.
#[derive(Clone, Debug, PartialEq, Eq)]
pub struct WindowEventIdentity {
    pub token: u64,
    pub process_id: u32,
    pub thread_id: u32,
    pub class_name: String,
}

/// What a [`WindowEventIdentity`] says.
#[verifier::ext_equal]
pub struct IdentityView {
    pub token: u64,
    pub process_id: u32,
    pub thread_id: u32,
    pub class_name: Seq<char>,
}

impl View for WindowEventIdentity {
    type V = IdentityView;

    open spec fn view(&self) -> IdentityView {
        IdentityView {
            token: self.token,
            process_id: self.process_id,
            thread_id: self.thread_id,
            class_name: self.class_name@,
        }
    }
}

impl WindowEventIdentity {
    /// The same identity again.
    pub fn duplicate(&self) -> (r: WindowEventIdentity)
        ensures
            r@ == self@,
    {
        WindowEventIdentity {
            token: self.token,
            process_id: self.process_id,
            thread_id: self.thread_id,
            class_name: self.class_name.clone(),
        }
    }
}

/// The lifecycle events that carry an identity.
#[derive(Clone, Copy, Debug, PartialEq, Eq, Structural)]
pub enum IdentityEventKind {
    Created,
    Destroyed,
    Hidden,
    Restored,
}

/// What the system says of a live window. The class name is empty where it
/// could not be read, and `property_token` is zero on an unmarked window.
#[derive(Clone, Debug)]
pub struct LiveWindow {
    pub process_id: u32,
    pub thread_id: u32,
    pub class_name: String,
    pub property_token: u64,
}

/// An identity that waits for the event it was captured with.
pub struct PendingIdentity {
    pub kind: IdentityEventKind,
    pub window_id: WindowId,
    pub identity: WindowEventIdentity,
}

/// The identities of the windows seen so far, and those that wait for their
/// event to be taken.
pub struct IdentityRegistry {
    pub next_incarnation: u64,
    pub identities: HashMap<u64, WindowEventIdentity>,
    pub pending: Vec<PendingIdentity>,
}

/// The identities of `pending` that wait under one event kind and window, in
/// the order in which they were queued.
pub open spec fn waiting_in(
    pending: Seq<PendingIdentity>,
    kind: IdentityEventKind,
    window_id: WindowId,
) -> Seq<IdentityView>
    decreases pending.len(),
{
    if pending.len() == 0 {
        Seq::empty()
    } else {
        let rest = waiting_in(pending.drop_first(), kind, window_id);
        if pending[0].kind == kind && pending[0].window_id == window_id {
            seq![pending[0].identity@] + rest
        } else {
            rest
        }
    }
}

/// The event kind and window under which an event's identity waits.
pub open spec fn identity_key(event: WindowEvent) -> Option<(IdentityEventKind, WindowId)> {
    match event {
        WindowEvent::Created(id) => Some((IdentityEventKind::Created, id)),
        WindowEvent::Destroyed(id) => Some((IdentityEventKind::Destroyed, id)),
        WindowEvent::Hidden(id) => Some((IdentityEventKind::Hidden, id)),
        WindowEvent::Restored(id) => Some((IdentityEventKind::Restored, id)),
        _ => None,
    }
}

/// The incarnation that follows `value`; zero is never one.
pub open spec fn incarnation_after(value: u64) -> u64 {
    if value == u64::MAX || value == 0 {
        1
    } else {
        (value + 1) as u64
    }
}

/// The incarnation that a counter at `value` hands out.
pub open spec fn incarnation_at(value: u64) -> u64 {
    if value == 0 {
        1
    } else {
        value
    }
}

/// A window that the system could describe completely.
pub open spec fn identified(live: LiveWindow) -> bool {
    live.process_id != 0 && live.thread_id != 0 && live.class_name@.len() > 0
}

proof fn lemma_waiting_push(
    pending: Seq<PendingIdentity>,
    added: PendingIdentity,
    kind: IdentityEventKind,
    window_id: WindowId,
)
    ensures
        waiting_in(pending.push(added), kind, window_id) == (if added.kind == kind
            && added.window_id == window_id {
            waiting_in(pending, kind, window_id).push(added.identity@)
        } else {
            waiting_in(pending, kind, window_id)
        }),
    decreases pending.len(),
{
    reveal_with_fuel(waiting_in, 2);
    if pending.len() > 0 {
        lemma_waiting_push(pending.drop_first(), added, kind, window_id);
        assert(pending.push(added).drop_first() =~= pending.drop_first().push(added));
        assert(pending.push(added)[0] == pending[0]);
    } else {
        assert(pending.push(added).drop_first() =~= Seq::<PendingIdentity>::empty());
    }
    assert(waiting_in(pending.push(added), kind, window_id) =~= (if added.kind == kind
        && added.window_id == window_id {
        waiting_in(pending, kind, window_id).push(added.identity@)
    } else {
        waiting_in(pending, kind, window_id)
    }));
}

proof fn lemma_waiting_remove(
    pending: Seq<PendingIdentity>,
    i: int,
    kind: IdentityEventKind,
    window_id: WindowId,
)
    requires
        0 <= i < pending.len(),
        forall|j: int|
            0 <= j < i ==> !((#[trigger] pending[j]).kind == pending[i].kind
                && pending[j].window_id == pending[i].window_id),
    ensures
        pending[i].kind == kind && pending[i].window_id == window_id ==> waiting_in(
            pending,
            kind,
            window_id,
        ) == seq![pending[i].identity@] + waiting_in(pending.remove(i), kind, window_id),
        !(pending[i].kind == kind && pending[i].window_id == window_id) ==> waiting_in(
            pending,
            kind,
            window_id,
        ) == waiting_in(pending.remove(i), kind, window_id),
    decreases i,
{
    reveal_with_fuel(waiting_in, 2);
    if i == 0 {
        assert(pending.remove(0) =~= pending.drop_first());
    } else {
        let rest = pending.drop_first();
        assert forall|j: int| 0 <= j < i - 1 implies !((#[trigger] rest[j]).kind
            == rest[i - 1].kind && rest[j].window_id == rest[i - 1].window_id) by {
            assert(rest[j] == pending[j + 1]);
        }
        lemma_waiting_remove(rest, i - 1, kind, window_id);
        assert(pending.remove(i).drop_first() =~= rest.remove(i - 1));
        assert(pending.remove(i)[0] == pending[0]);
        assert(rest[i - 1] == pending[i]);
    }
}

proof fn lemma_nothing_waits(
    pending: Seq<PendingIdentity>,
    kind: IdentityEventKind,
    window_id: WindowId,
)
    requires
        forall|j: int|
            0 <= j < pending.len() ==> !((#[trigger] pending[j]).kind == kind
                && pending[j].window_id == window_id),
    ensures
        waiting_in(pending, kind, window_id).len() == 0,
    decreases pending.len(),
{
    if pending.len() > 0 {
        let rest = pending.drop_first();
        assert forall|j: int| 0 <= j < rest.len() implies !((#[trigger] rest[j]).kind == kind
            && rest[j].window_id == window_id) by {
            assert(rest[j] == pending[j + 1]);
        }
        lemma_nothing_waits(rest, kind, window_id);
        assert(!(pending[0].kind == kind && pending[0].window_id == window_id));
    }
}

/// The event kind and window under which an event's identity waits.
pub fn identity_event_kind(event: &WindowEvent) -> (r: Option<(IdentityEventKind, WindowId)>)
    ensures
        r == identity_key(*event),
{
    match event {
        WindowEvent::Created(window_id) => Some((IdentityEventKind::Created, *window_id)),
        WindowEvent::Destroyed(window_id) => Some((IdentityEventKind::Destroyed, *window_id)),
        WindowEvent::Hidden(window_id) => Some((IdentityEventKind::Hidden, *window_id)),
        WindowEvent::Restored(window_id) => Some((IdentityEventKind::Restored, *window_id)),
        _ => None,
    }
}

impl IdentityRegistry {
    /// Identities known by window.
    pub open spec fn known(self) -> Map<u64, IdentityView> {
        self.identities@.map_values(|identity: WindowEventIdentity| identity@)
    }

    /// The identities that wait under one event kind and window.
    pub open spec fn waiting(self, kind: IdentityEventKind, window_id: WindowId) -> Seq<
        IdentityView,
    > {
        waiting_in(self.pending@, kind, window_id)
    }

    /// Everything that waits is the same as in `other`.
    pub open spec fn waits_as(self, other: IdentityRegistry) -> bool {
        forall|kind: IdentityEventKind, window_id: WindowId| #[trigger]
            self.waiting(kind, window_id) == other.waiting(kind, window_id)
    }

    /// No token is zero.
    pub open spec fn wf(self) -> bool {
        &&& forall|id: u64| #[trigger]
            self.known().contains_key(id) ==> self.known()[id].token != 0
        &&& forall|i: int| 0 <= i < self.pending@.len() ==> (#[trigger] self.pending@[i]).identity.token != 0
    }

    /// Nothing known and nothing waiting.
    pub fn new() -> (r: IdentityRegistry)
        ensures
            r.wf(),
            r.known() == Map::<u64, IdentityView>::empty(),
            forall|kind: IdentityEventKind, id: WindowId| #[trigger]
                r.waiting(kind, id) == Seq::<IdentityView>::empty(),
            r.next_incarnation == 1,
    {
        let r = IdentityRegistry {
            next_incarnation: 1,
            identities: HashMap::new(),
            pending: Vec::new(),
        };
        assert(r.known() =~= Map::<u64, IdentityView>::empty());
        r
    }

    /// Hands out the next incarnation.
    pub fn next_window_incarnation(&mut self) -> (token: u64)
        ensures
            token == incarnation_at(old(self).next_incarnation),
            token != 0,
            final(self).next_incarnation == incarnation_after(old(self).next_incarnation),
            final(self).identities == old(self).identities,
            final(self).pending == old(self).pending,
    {
        let value: u64 = self.next_incarnation;
        self.next_incarnation = if value == u64::MAX || value == 0 {
            1
        } else {
            value + 1
        };
        if value == 0 {
            1
        } else {
            value
        }
    }

    /// `live` is the window that `identity` was captured of: same process,
    /// thread and class.
    pub open spec fn describes(identity: IdentityView, live: LiveWindow) -> bool {
        &&& identity.process_id == live.process_id
        &&& identity.thread_id == live.thread_id
        &&& identity.class_name == live.class_name@
    }

    /// A capture hands out a new incarnation: the window carries no token, and
    /// either a new one is asked for or nothing known describes the window.
    pub open spec fn is_new_incarnation(
        self,
        window_id: WindowId,
        live: LiveWindow,
        force_new_if_unmarked: bool,
    ) -> bool {
        &&& live.property_token == 0
        &&& force_new_if_unmarked || !(self.known().contains_key(window_id) && Self::describes(
            self.known()[window_id],
            live,
        ))
    }

    /// The counter after a capture of `live`: only a new incarnation advances it.
    pub open spec fn counter_after(
        self,
        window_id: WindowId,
        live: LiveWindow,
        force_new_if_unmarked: bool,
    ) -> u64 {
        if self.is_new_incarnation(window_id, live, force_new_if_unmarked) {
            incarnation_after(self.next_incarnation)
        } else {
            self.next_incarnation
        }
    }

    /// The identity that a capture of `live` comes to.
    pub open spec fn captured(
        self,
        window_id: WindowId,
        live: LiveWindow,
        force_new_if_unmarked: bool,
    ) -> IdentityView {
        IdentityView {
            token: if live.property_token != 0 {
                live.property_token
            } else if self.is_new_incarnation(window_id, live, force_new_if_unmarked) {
                incarnation_at(self.next_incarnation)
            } else {
                self.known()[window_id].token
            },
            process_id: live.process_id,
            thread_id: live.thread_id,
            class_name: live.class_name@,
        }
    }

    /// Captures the identity of a live window and remembers it. `None` means
    /// that there is no such window any more, or that the system would not
    /// describe it; nothing is remembered then. A window whose token comes from
    /// here and not from its property is to be marked with it.
    pub fn capture_live_window_identity(
        &mut self,
        window_id: WindowId,
        observed: Option<&LiveWindow>,
        force_new_if_unmarked: bool,
    ) -> (r: Option<WindowEventIdentity>)
        requires
            old(self).wf(),
        ensures
            final(self).wf(),
            final(self).pending == old(self).pending,
            r is Some <==> (observed matches Some(live) && identified(*live)),
            r is None ==> *final(self) == *old(self),
            r matches Some(identity) ==> {
                let live = *(observed->0);
                &&& identity@ == old(self).captured(window_id, live, force_new_if_unmarked)
                &&& identity@.token != 0
                &&& final(self).known() == old(self).known().insert(window_id, identity@)
                &&& final(self).next_incarnation == old(self).counter_after(
                    window_id,
                    live,
                    force_new_if_unmarked,
                )
            },
    {
        let live = match observed {
            Some(live) => live,
            None => {
                return None;
            },
        };
        if live.process_id == 0 || live.thread_id == 0 || live.class_name.as_str().is_empty() {
            return None;
        }
        let mut remembered: Option<u64> = None;
        if let Some(identity) = self.identities.get(&window_id) {
            assert(self.known().contains_key(window_id));
            if identity.process_id == live.process_id && identity.thread_id == live.thread_id
                && text::same_text(identity.class_name.as_str(), live.class_name.as_str()) {
                remembered = Some(identity.token);
            }
        }
        let token: u64 = if live.property_token != 0 {
            live.property_token
        } else if force_new_if_unmarked {
            self.next_window_incarnation()
        } else {
            match remembered {
                Some(token) => token,
                None => self.next_window_incarnation(),
            }
        };
        let identity = WindowEventIdentity {
            token,
            process_id: live.process_id,
            thread_id: live.thread_id,
            class_name: live.class_name.clone(),
        };
        let ghost before = self.known();
        self.identities.insert(window_id, identity.duplicate());
        proof {
            assert(self.known() =~= before.insert(window_id, identity@));
            assert forall|id: u64| #[trigger] self.known().contains_key(id) implies self.known()[id].token
                != 0 by {
                if id != window_id {
                    assert(before.contains_key(id));
                }
            }
        }
        Some(identity)
    }

    /// Makes sure that a live window has a token, and gives it.
    pub fn ensure_window_incarnation_token(
        &mut self,
        window_id: WindowId,
        observed: Option<&LiveWindow>,
    ) -> (r: Option<u64>)
        requires
            old(self).wf(),
        ensures
            final(self).wf(),
            final(self).pending == old(self).pending,
            r == (match observed {
                Some(live) if identified(*live) => Some(
                    old(self).captured(window_id, *live, false).token,
                ),
                _ => None,
            }),
            r matches Some(token) ==> token != 0,
            r is None ==> *final(self) == *old(self),
            r is Some ==> final(self).known() == old(self).known().insert(
                window_id,
                old(self).captured(window_id, *(observed->0), false),
            ),
            r is Some ==> final(self).next_incarnation == old(self).counter_after(
                window_id,
                *(observed->0),
                false,
            ),
    {
        match self.capture_live_window_identity(window_id, observed, false) {
            Some(identity) => Some(identity.token),
            None => None,
        }
    }

    /// The complete identity of a live window; a window that is seen for the
    /// first time gets a token.
    pub fn current_window_event_identity(
        &mut self,
        window_id: WindowId,
        observed: Option<&LiveWindow>,
    ) -> (r: Option<WindowEventIdentity>)
        requires
            old(self).wf(),
        ensures
            final(self).wf(),
            final(self).pending == old(self).pending,
            r is Some <==> (observed matches Some(live) && identified(*live)),
            r is None ==> *final(self) == *old(self),
            r matches Some(identity) ==> {
                &&& identity@ == old(self).captured(window_id, *(observed->0), false)
                &&& final(self).known() == old(self).known().insert(window_id, identity@)
                &&& final(self).next_incarnation == old(self).counter_after(
                    window_id,
                    *(observed->0),
                    false,
                )
            },
    {
        self.capture_live_window_identity(window_id, observed, false)
    }

    /// The identity that queueing an event captures: a destroyed window keeps
    /// the identity it was known by, the other lifecycle events look at the
    /// live window, and a created one never takes over an older incarnation.
    pub open spec fn identity_for(self, event: WindowEvent, observed: Option<&LiveWindow>) -> Option<
        IdentityView,
    > {
        match event {
            WindowEvent::Destroyed(id) => if self.known().contains_key(id) {
                Some(self.known()[id])
            } else {
                None
            },
            WindowEvent::Created(id) => match observed {
                Some(live) if identified(*live) => Some(self.captured(id, *live, true)),
                _ => None,
            },
            WindowEvent::Hidden(id) | WindowEvent::Restored(id) => match observed {
                Some(live) if identified(*live) => Some(self.captured(id, *live, false)),
                _ => None,
            },
            _ => None,
        }
    }

    /// The counter after queueing an event.
    pub open spec fn counter_after_event(
        self,
        event: WindowEvent,
        observed: Option<&LiveWindow>,
    ) -> u64 {
        match (event, observed) {
            (WindowEvent::Created(id), Some(live)) if identified(*live) => self.counter_after(
                id,
                *live,
                true,
            ),
            (WindowEvent::Hidden(id), Some(live)) if identified(*live) => self.counter_after(
                id,
                *live,
                false,
            ),
            (WindowEvent::Restored(id), Some(live)) if identified(*live) => self.counter_after(
                id,
                *live,
                false,
            ),
            _ => self.next_incarnation,
        }
    }

    /// Captures the identity that goes with an event and lets it wait until the
    /// event is taken. `observed` is the live window that the event speaks of.
    /// Returns the token of the identity that waits.
    pub fn queue_window_event_identity(
        &mut self,
        event: &WindowEvent,
        observed: Option<&LiveWindow>,
    ) -> (token: Option<u64>)
        requires
            old(self).wf(),
        ensures
            final(self).wf(),
            token == (match old(self).identity_for(*event, observed) {
                Some(identity) => Some(identity.token),
                None => None,
            }),
            final(self).known() == (match (*event, old(self).identity_for(*event, observed)) {
                (_, None) => old(self).known(),
                (WindowEvent::Destroyed(id), _) => old(self).known().remove(id),
                (_, Some(identity)) => old(self).known().insert(
                    (identity_key(*event)->0).1,
                    identity,
                ),
            }),
            final(self).next_incarnation == old(self).counter_after_event(*event, observed),
            forall|kind: IdentityEventKind, id: WindowId| #[trigger]
                final(self).waiting(kind, id) == (if identity_key(*event) == Some((kind, id))
                    && old(self).identity_for(*event, observed) is Some {
                    old(self).waiting(kind, id).push(
                        old(self).identity_for(*event, observed)->0,
                    )
                } else {
                    old(self).waiting(kind, id)
                }),
    {
        let (kind, window_id) = match identity_event_kind(event) {
            Some(key) => key,
            None => {
                return None;
            },
        };
        let ghost known_before = self.known();
        let identity = match kind {
            IdentityEventKind::Created => self.capture_live_window_identity(
                window_id,
                observed,
                true,
            ),
            IdentityEventKind::Destroyed => {
                let removed = self.identities.remove(&window_id);
                assert(self.known() =~= known_before.remove(window_id));
                removed
            },
            IdentityEventKind::Hidden | IdentityEventKind::Restored =>
                self.capture_live_window_identity(window_id, observed, false),
        };
        match identity {
            Some(identity) => {
                let token: u64 = identity.token;
                let ghost before = self.pending@;
                let added = PendingIdentity { kind, window_id, identity };
                proof {
                    assert forall|k: IdentityEventKind, id: WindowId| #[trigger]
                        waiting_in(before.push(added), k, id) == (if added.kind == k
                            && added.window_id == id {
                            waiting_in(before, k, id).push(added.identity@)
                        } else {
                            waiting_in(before, k, id)
                        }) by {
                        lemma_waiting_push(before, added, k, id);
                    }
                    assert(known_before.contains_key(window_id) && kind
                        == IdentityEventKind::Destroyed ==> known_before[window_id].token != 0);
                }
                self.pending.push(added);
                Some(token)
            },
            None => {
                assert(self.known() =~= known_before);
                None
            },
        }
    }

    /// Takes the identity that was queued first with this event. Events that
    /// carry none, and events that no callback queued, have nothing to take.
    pub fn take_window_event_identity(&mut self, event: &WindowEvent) -> (r: Option<
        WindowEventIdentity,
    >)
        requires
            old(self).wf(),
        ensures
            final(self).wf(),
            final(self).identities == old(self).identities,
            final(self).next_incarnation == old(self).next_incarnation,
            r is Some <==> (identity_key(*event) matches Some(key) && old(self).waiting(
                key.0,
                key.1,
            ).len() > 0),
            r is None ==> *final(self) == *old(self),
            r matches Some(identity) ==> {
                let key = identity_key(*event)->0;
                &&& identity@ == old(self).waiting(key.0, key.1)[0]
                &&& forall|kind: IdentityEventKind, id: WindowId| #[trigger]
                    final(self).waiting(kind, id) == (if key == (kind, id) {
                        old(self).waiting(kind, id).drop_first()
                    } else {
                        old(self).waiting(kind, id)
                    })
            },
    {
        let (kind, window_id) = match identity_event_kind(event) {
            Some(key) => key,
            None => {
                return None;
            },
        };
        let ghost before = self.pending@;
        let mut i: usize = 0;
        while i < self.pending.len()
            invariant
                i <= self.pending.len(),
                *self == *old(self),
                before == self.pending@,
                old(self).wf(),
                identity_key(*event) == Some((kind, window_id)),
                forall|j: int|
                    0 <= j < i ==> !((#[trigger] before[j]).kind == kind && before[j].window_id
                        == window_id),
            decreases self.pending.len() - i,
        {
            if self.pending[i].kind == kind && self.pending[i].window_id == window_id {
                let taken = self.pending.remove(i);
                proof {
                    assert forall|k: IdentityEventKind, id: WindowId| #[trigger]
                        waiting_in(before.remove(i as int), k, id) == (if kind == k && window_id
                            == id {
                            waiting_in(before, k, id).drop_first()
                        } else {
                            waiting_in(before, k, id)
                        }) by {
                        lemma_waiting_remove(before, i as int, k, id);
                        assert((seq![before[i as int].identity@] + waiting_in(
                            before.remove(i as int),
                            k,
                            id,
                        )).drop_first() =~= waiting_in(before.remove(i as int), k, id));
                    }
                    lemma_waiting_remove(before, i as int, kind, window_id);
                    assert forall|j: int| 0 <= j < self.pending@.len() implies (
                    #[trigger] self.pending@[j]).identity.token != 0 by {
                        if j < i {
                            assert(self.pending@[j] == before[j]);
                        } else {
                            assert(self.pending@[j] == before[j + 1]);
                        }
                    }
                }
                assert(self.known() == old(self).known());
                return Some(taken.identity);
            }
            i = i + 1;
        }
        proof {
            lemma_nothing_waits(before, kind, window_id);
        }
        None
    }
}

/// A destroyed window's event keeps the identity that the window was known by,
/// whatever is captured of the same handle before the event is taken.
pub proof fn law_destroy_keeps_the_old_identity(
    before: IdentityRegistry,
    queued: IdentityRegistry,
    later: IdentityRegistry,
    window_id: WindowId,
    observed: Option<&LiveWindow>,
)
    requires
        before.known().contains_key(window_id),
        before.waiting(IdentityEventKind::Destroyed, window_id).len() == 0,
        queued.waiting(IdentityEventKind::Destroyed, window_id) == before.waiting(
            IdentityEventKind::Destroyed,
            window_id,
        ).push(before.identity_for(WindowEvent::Destroyed(window_id), observed)->0),
        later.waits_as(queued),
    ensures
        later.waiting(IdentityEventKind::Destroyed, window_id).len() == 1,
        later.waiting(IdentityEventKind::Destroyed, window_id)[0] == before.known()[window_id],
{
}

/// A created window that carries no token never inherits one: its token is the
/// next incarnation, whatever was known of the handle.
pub proof fn law_created_window_is_a_new_incarnation(
    registry: IdentityRegistry,
    window_id: WindowId,
    live: LiveWindow,
)
    requires
        identified(live),
        live.property_token == 0,
    ensures
        registry.identity_for(WindowEvent::Created(window_id), Some(&live)) matches Some(identity)
            && identity.token == incarnation_at(registry.next_incarnation),
{
}

/// A token that the window itself carries always wins.
pub proof fn law_marked_window_keeps_its_token(
    registry: IdentityRegistry,
    window_id: WindowId,
    live: LiveWindow,
    force_new_if_unmarked: bool,
)
    requires
        live.property_token != 0,
    ensures
        registry.captured(window_id, live, force_new_if_unmarked).token == live.property_token,
{
}

/// Looking at the same live window twice gives the same token, even where the
/// system did not let the window be marked.
pub proof fn law_capture_is_stable(
    before: IdentityRegistry,
    after: IdentityRegistry,
    window_id: WindowId,
    live: LiveWindow,
    force_new_if_unmarked: bool,
)
    requires
        after.known() == before.known().insert(
            window_id,
            before.captured(window_id, live, force_new_if_unmarked),
        ),
    ensures
        after.captured(window_id, live, false) == before.captured(
            window_id,
            live,
            force_new_if_unmarked,
        ),
{
}

/// Each incarnation is one more than the one before it, until the counter
/// wraps; none is zero.
pub proof fn law_incarnations_count_up(value: u64)
    ensures
        incarnation_at(value) != 0,
        incarnation_at(value) < u64::MAX ==> incarnation_at(incarnation_after(value)) == (
        if value == 0 {
            1
        } else {
            value + 1
        }),
{
}

/// What waits under an event kind and a window are the identities that were queued with
/// both, in their order.
pub proof fn law_identities_wait_in_order(
    pending: Seq<PendingIdentity>,
    kind: IdentityEventKind,
    window_id: WindowId,
)
    ensures
        waiting_in(pending, kind, window_id) == pending.filter(
            |p: PendingIdentity| p.kind == kind && p.window_id == window_id,
        ).map_values(|p: PendingIdentity| p.identity@),
    decreases pending.len(),
{
    reveal(Seq::filter);
    let here = |p: PendingIdentity| p.kind == kind && p.window_id == window_id;
    let view_of = |p: PendingIdentity| p.identity@;
    if pending.len() > 0 {
        let before = pending.drop_last();
        law_identities_wait_in_order(before, kind, window_id);
        lemma_waiting_push(before, pending.last(), kind, window_id);
        assert(before.push(pending.last()) =~= pending);
        if here(pending.last()) {
            assert(before.filter(here).push(pending.last()).map_values(view_of)
                =~= before.filter(here).map_values(view_of).push(pending.last().identity@));
        }
    }
    assert(waiting_in(pending, kind, window_id) =~= pending.filter(here).map_values(view_of));
}

/// Just four kinds of event carry an identity, each under its own kind and window.
pub proof fn law_lifecycle_events_carry_an_identity(event: WindowEvent, window_id: WindowId)
    ensures
        identity_key(event) == Some((IdentityEventKind::Created, window_id)) <==> event
            == WindowEvent::Created(window_id),
        identity_key(event) == Some((IdentityEventKind::Destroyed, window_id)) <==> event
            == WindowEvent::Destroyed(window_id),
        identity_key(event) == Some((IdentityEventKind::Hidden, window_id)) <==> event
            == WindowEvent::Hidden(window_id),
        identity_key(event) == Some((IdentityEventKind::Restored, window_id)) <==> event
            == WindowEvent::Restored(window_id),
{
}

/// The identity that is known under the handle was captured of a window of the same
/// process, thread and class.
pub open spec fn knows(registry: IdentityRegistry, window_id: WindowId, live: LiveWindow) -> bool {
    &&& registry.identities@.contains_key(window_id)
    &&& registry.identities@[window_id].process_id == live.process_id
    &&& registry.identities@[window_id].thread_id == live.thread_id
    &&& registry.identities@[window_id].class_name@ == live.class_name@
}

/// A captured identity is of the window that was looked at. Its token is the one that the
/// window carries; else, where none is to be new, the one by which the same window is
/// known; else the next incarnation, which the counter then goes beyond.
pub proof fn law_captures_describe_the_live_window(
    registry: IdentityRegistry,
    window_id: WindowId,
    live: LiveWindow,
    force_new_if_unmarked: bool,
)
    ensures
        ({
            let identity = registry.captured(window_id, live, force_new_if_unmarked);
            let counter = registry.counter_after(window_id, live, force_new_if_unmarked);
            let value = registry.next_incarnation;
            let fresh = live.property_token == 0 && (force_new_if_unmarked || !knows(
                registry,
                window_id,
                live,
            ));
            &&& identity.process_id == live.process_id
            &&& identity.thread_id == live.thread_id
            &&& identity.class_name == live.class_name@
            &&& live.property_token != 0 ==> identity.token == live.property_token
            &&& live.property_token == 0 && !fresh ==> identity.token
                == registry.identities@[window_id].token
            &&& fresh ==> identity.token == (if value == 0 {
                1
            } else {
                value
            })
            &&& !fresh ==> counter == value
            &&& fresh && 0 < value < 0xffff_ffff_ffff_ffff ==> counter == value + 1
            &&& fresh && (value == 0 || value == 0xffff_ffff_ffff_ffff) ==> counter == 1
        }),
{
}

/// A window is described only where its process, its thread and its class could be read.
pub proof fn law_partly_read_windows_are_not_described(live: LiveWindow)
    ensures
        identified(live) <==> live.process_id > 0 && live.thread_id > 0 && live.class_name@
            != Seq::<char>::empty(),
{
    if live.class_name@.len() == 0 {
        assert(live.class_name@ =~= Seq::empty());
    }
}

/// A destroyed window has the identity that it was known by, whatever lives under its
/// handle now. A window that is created, hidden or restored has the one of the live
/// window, if that could be described, and only a created one is never taken for the one
/// that was known. Other events have none.
pub proof fn law_events_have_the_identity_of_their_window(
    registry: IdentityRegistry,
    window_id: WindowId,
    live: LiveWindow,
    event: WindowEvent,
)
    ensures
        registry.identity_for(WindowEvent::Destroyed(window_id), None) == registry.identity_for(
            WindowEvent::Destroyed(window_id),
            Some(&live),
        ),
        match registry.identity_for(WindowEvent::Destroyed(window_id), Some(&live)) {
            Some(identity) => registry.identities@.contains_key(window_id) && identity
                == registry.identities@[window_id]@,
            None => !registry.identities@.contains_key(window_id),
        },
        identified(live) ==> {
            &&& registry.identity_for(WindowEvent::Created(window_id), Some(&live)) == Some(
                registry.captured(window_id, live, true),
            )
            &&& registry.identity_for(WindowEvent::Hidden(window_id), Some(&live)) == Some(
                registry.captured(window_id, live, false),
            )
            &&& registry.identity_for(WindowEvent::Restored(window_id), Some(&live)) == Some(
                registry.captured(window_id, live, false),
            )
            &&& registry.counter_after_event(WindowEvent::Created(window_id), Some(&live))
                == registry.counter_after(window_id, live, true)
            &&& registry.counter_after_event(WindowEvent::Hidden(window_id), Some(&live))
                == registry.counter_after(window_id, live, false)
            &&& registry.counter_after_event(WindowEvent::Restored(window_id), Some(&live))
                == registry.counter_after(window_id, live, false)
        },
        !(event is Destroyed) ==> registry.identity_for(event, None) is None,
        registry.counter_after_event(event, None) == registry.next_incarnation,
        registry.counter_after_event(WindowEvent::Destroyed(window_id), Some(&live))
            == registry.next_incarnation,
        !identified(live) && !(event is Destroyed) ==> registry.identity_for(event, Some(&live))
            is None,
        !identified(live) ==> registry.counter_after_event(event, Some(&live))
            == registry.next_incarnation,
        !(event is Created || event is Destroyed || event is Hidden || event is Restored)
            ==> registry.identity_for(event, Some(&live)) is None && registry.counter_after_event(
            event,
            Some(&live),
        ) == registry.next_incarnation,
{
}

} // verus!
