//! The update notifier: when it looks for a new release, what it reads from the
//! answer, and when it says that there is one.
use vstd::prelude::*;
use crate::text;

verus! {

/// The newest release, prereleases included.
pub const RELEASES_API: &'static str =
    "https://api.github.com/repos/sehoon123/LeopardWM/releases?per_page=1";

/// The page with the releases.
pub const RELEASES_PAGE_URL: &'static str = "https://github.com/sehoon123/LeopardWM/releases";

/// How long a request may take, in seconds.
pub const REQUEST_TIMEOUT_SECS: u64 = 10;

/// How long a shutdown waits for the worker: a whole request and some more.
pub const SHUTDOWN_JOIN_TIMEOUT_SECS: u64 = 12;

/// How long the worker waits before its first look, in seconds.
pub const STARTUP_DELAY_SECS: u64 = 30;

/// How long the worker waits between two looks, in seconds.
pub const POLL_INTERVAL_SECS: u64 = 86_400;

/// The numbers and the pre-release part of a version.
#[derive(Clone, Debug)]
pub struct VersionParts {
    pub major: u64,
    pub minor: u64,
    pub patch: u64,
    pub pre: String,
}

impl View for VersionParts {
    type V = (u64, u64, u64, Seq<char>);

    open spec fn view(&self) -> (u64, u64, u64, Seq<char>) {
        (self.major, self.minor, self.patch, self.pre@)
    }
}

/// What `semver::Version::parse` reads from a text: the three numbers and the
/// pre-release part, `None` where the text is not a version.
pub uninterp spec fn version_parts(text: Seq<char>) -> Option<(u64, u64, u64, Seq<char>)>;

/// Whether `semver::Version`'s order puts the first version above the second.
pub uninterp spec fn version_exceeds(a: Seq<char>, b: Seq<char>) -> bool;

/// The numbers of the first version come after those of the second.
pub open spec fn numbers_exceed(
    a: (u64, u64, u64, Seq<char>),
    b: (u64, u64, u64, Seq<char>),
) -> bool {
    ||| a.0 > b.0
    ||| a.0 == b.0 && a.1 > b.1
    ||| a.0 == b.0 && a.1 == b.1 && a.2 > b.2
}

/// The versions have the same numbers.
pub open spec fn same_numbers(
    a: (u64, u64, u64, Seq<char>),
    b: (u64, u64, u64, Seq<char>),
) -> bool {
    a.0 == b.0 && a.1 == b.1 && a.2 == b.2
}

/// `semver::Version::parse`: a function of the text alone, which fails on what is
/// not a version.
#[verifier::external_body]
fn parse_version(text: &str) -> (r: Option<VersionParts>)
    ensures
        match r {
            Some(parts) => version_parts(text@) == Some(parts@),
            None => version_parts(text@) is None,
        },
{
    match semver::Version::parse(text) {
        Ok(v) => Some(
            VersionParts {
                major: v.major,
                minor: v.minor,
                patch: v.patch,
                pre: v.pre.as_str().to_string(),
            },
        ),
        Err(_) => None,
    }
}

/// The order of `semver::Version`: a function of the two texts alone, and a strict
/// order: what is above `b` is not below it, and is above whatever `b` is above.
/// Different numbers decide, the major one first; with the same numbers a
/// pre-release is below the release. How two pre-releases, or two builds, of the
/// same numbers compare is left unsaid.
#[verifier::external_body]
fn exceeds(a: &str, b: &str) -> (r: bool)
    requires
        version_parts(a@) is Some,
        version_parts(b@) is Some,
    ensures
        r == version_exceeds(a@, b@),
        r ==> !version_exceeds(b@, a@),
        r ==> forall|c: Seq<char>|
            version_parts(c) is Some && #[trigger] version_exceeds(b@, c) ==> version_exceeds(
                a@,
                c,
            ),
        !same_numbers(version_parts(a@)->0, version_parts(b@)->0) ==> r == numbers_exceed(
            version_parts(a@)->0,
            version_parts(b@)->0,
        ),
        same_numbers(version_parts(a@)->0, version_parts(b@)->0) && (
        version_parts(a@)->0).3.len() == 0 && (version_parts(b@)->0).3.len() > 0 ==> r,
        same_numbers(version_parts(a@)->0, version_parts(b@)->0) && (
        version_parts(a@)->0).3.len() > 0 && (version_parts(b@)->0).3.len() == 0 ==> !r,
{
    match (semver::Version::parse(a), semver::Version::parse(b)) {
        (Ok(a), Ok(b)) => a > b,
        _ => false,
    }
}

/// What a comparison says once both texts were read: a text that is not a version
/// is neither newer nor older.
pub fn newer_of(latest_parses: bool, current_parses: bool, latest_exceeds: bool) -> (r: bool)
    ensures
        r == (latest_parses && current_parses && latest_exceeds),
{
    latest_parses && current_parses && latest_exceeds
}

/// The release `latest` is newer than `current`: both are versions, once a leading
/// `v` is taken away, and the first is above the second.
pub open spec fn is_newer_release(latest: Seq<char>, current: Seq<char>) -> bool {
    let l = text::without_prefix(latest, 'v');
    let c = text::without_prefix(current, 'v');
    version_parts(l) is Some && version_parts(c) is Some && version_exceeds(l, c)
}

/// Whether the release `latest`, such as `v0.1.11`, is newer than `current`, such
/// as `0.1.10`. Fails closed: false where either is not a version. Being newer is a
/// strict order: no release is newer than itself, of two at most one is newer, and
/// what is newer than `current` is newer than all that `current` is newer than.
pub fn is_newer(latest: &str, current: &str) -> (r: bool)
    ensures
        r == is_newer_release(latest@, current@),
        ({
            let l = version_parts(text::without_prefix(latest@, 'v'));
            let c = version_parts(text::without_prefix(current@, 'v'));
            &&& l is None || c is None ==> !r
            &&& l is Some && c is Some && !same_numbers(l->0, c->0) ==> r == numbers_exceed(
                l->0,
                c->0,
            )
            &&& l is Some && c is Some && same_numbers(l->0, c->0) && (l->0).3.len() == 0 && (
            c->0).3.len() > 0 ==> r
            &&& l is Some && c is Some && same_numbers(l->0, c->0) && (l->0).3.len() > 0 && (
            c->0).3.len() == 0 ==> !r
        }),
        r ==> !is_newer_release(current@, latest@),
        r ==> forall|third: Seq<char>| #[trigger]
            is_newer_release(current@, third) ==> is_newer_release(latest@, third),
        text::without_prefix(latest@, 'v') == text::without_prefix(current@, 'v') ==> !r,
{
    let l = text::strip_prefix(latest, 'v');
    let c = text::strip_prefix(current, 'v');
    let latest_parses = parse_version(l).is_some();
    let current_parses = parse_version(c).is_some();
    let latest_exceeds = if latest_parses && current_parses {
        exceeds(l, c)
    } else {
        false
    };
    newer_of(latest_parses, current_parses, latest_exceeds)
}

/// A member of a JSON object: its name and, where its value is a string, that.
pub type JsonMember = (String, Option<String>);

/// The shape of a JSON document, as far as releases are read from it: each object
/// with its members. What is not an object has no members.
#[derive(Clone, Debug)]
pub enum JsonOutline {
    /// An array, with its elements.
    List(Vec<Vec<JsonMember>>),
    /// Any other document.
    Single(Vec<JsonMember>),
}

/// What the members of an object say.
pub open spec fn member_views(members: Seq<JsonMember>) -> Seq<(Seq<char>, Option<Seq<char>>)> {
    members.map_values(
        |m: JsonMember|
            (
                m.0@,
                match m.1 {
                    Some(value) => Some(value@),
                    None => None,
                },
            ),
    )
}

impl View for JsonOutline {
    type V = (bool, Seq<Seq<(Seq<char>, Option<Seq<char>>)>>);

    /// Whether the document is an array, and its elements; another document stands
    /// alone.
    open spec fn view(&self) -> (bool, Seq<Seq<(Seq<char>, Option<Seq<char>>)>>) {
        match self {
            JsonOutline::List(elements) => (
                true,
                elements@.map_values(|m: Vec<JsonMember>| member_views(m@)),
            ),
            JsonOutline::Single(members) => (false, seq![member_views(members@)]),
        }
    }
}

/// What `serde_json::from_str` reads from a text, in outline; `None` where the text
/// is not JSON.
pub uninterp spec fn json_outline(text: Seq<char>) -> Option<
    (bool, Seq<Seq<(Seq<char>, Option<Seq<char>>)>>),
>;

/// `serde_json::from_str` into a `serde_json::Value`, of which the outline is kept:
/// a function of the text alone.
#[verifier::external_body]
fn parse_json(body: &str) -> (r: Option<JsonOutline>)
    ensures
        match r {
            Some(outline) => json_outline(body@) == Some(outline@),
            None => json_outline(body@) is None,
        },
{
    let value: serde_json::Value = serde_json::from_str(body).ok()?;
    let members = |item: &serde_json::Value| match item.as_object() {
        Some(o) => o.iter().map(|(k, v)| (k.clone(), v.as_str().map(String::from))).collect(),
        None => Vec::new(),
    };
    Some(match value {
        serde_json::Value::Array(items) => JsonOutline::List(items.iter().map(members).collect()),
        other => JsonOutline::Single(members(&other)),
    })
}

/// The string value of the first member named `tag_name`.
pub open spec fn tag_among(members: Seq<(Seq<char>, Option<Seq<char>>)>) -> Option<Seq<char>>
    decreases members.len(),
{
    if members.len() == 0 {
        None
    } else if members[0].0 == "tag_name"@ {
        members[0].1
    } else {
        tag_among(members.drop_first())
    }
}

/// The tag of a document: of a list, that of its first element; else its own.
pub open spec fn tag_of(outline: (bool, Seq<Seq<(Seq<char>, Option<Seq<char>>)>>)) -> Option<
    Seq<char>,
> {
    if outline.1.len() == 0 {
        None
    } else {
        tag_among(outline.1[0])
    }
}

/// The text that was found is the one that was to be found.
pub open spec fn same_tag(found: Option<String>, expected: Option<Seq<char>>) -> bool {
    match (found, expected) {
        (Some(tag), Some(text)) => tag@ == text,
        (None, None) => true,
        _ => false,
    }
}

/// The string value of the first member named `tag_name`.
fn tag_in(members: &Vec<JsonMember>) -> (r: Option<String>)
    ensures
        same_tag(r, tag_among(member_views(members@))),
{
    let ghost all = member_views(members@);
    assert(all.subrange(0, all.len() as int) =~= all);
    let mut i: usize = 0;
    while i < members.len()
        invariant
            i <= members.len(),
            all == member_views(members@),
            tag_among(all) == tag_among(all.subrange(i as int, all.len() as int)),
        decreases members.len() - i,
    {
        assert(all.subrange(i as int, all.len() as int).drop_first() =~= all.subrange(
            i + 1,
            all.len() as int,
        ));
        assert(all.subrange(i as int, all.len() as int)[0] == all[i as int]);
        if text::same_text(members[i].0.as_str(), "tag_name") {
            return match &members[i].1 {
                Some(value) => Some(value.clone()),
                None => None,
            };
        }
        i = i + 1;
    }
    None
}

/// The tag of the first release of a list, or of a document that is a release
/// itself; `None` if the list is empty or the release has none.
pub fn latest_tag(outline: &JsonOutline) -> (r: Option<String>)
    ensures
        same_tag(r, tag_of(outline@)),
{
    match outline {
        JsonOutline::List(elements) => {
            if elements.len() == 0 {
                return None;
            }
            assert(outline@.1[0] == member_views(elements@[0]@));
            tag_in(&elements[0])
        },
        JsonOutline::Single(members) => tag_in(members),
    }
}

/// Reads the newest tag from a list of releases, or from a single release.
pub fn parse_latest_release_tag(body: &str) -> (r: Option<String>)
    ensures
        match json_outline(body@) {
            Some(outline) => same_tag(r, tag_of(outline)),
            None => r is None,
        },
{
    match parse_json(body) {
        Some(outline) => latest_tag(&outline),
        None => None,
    }
}

/// Whether checks are on, and since which toggle.
#[derive(Clone, Copy, Debug, PartialEq, Eq, Structural)]
pub struct UpdateSwitch {
    pub enabled: bool,
    pub generation: u64,
}

/// What one look for a release comes to.
#[derive(Clone, Copy, Debug, PartialEq, Eq, Structural)]
pub enum CheckOutcome {
    /// Checks were turned off or toggled; nothing is said.
    Superseded,
    /// Nothing could be read.
    Failed,
    /// The release is not newer.
    UpToDate,
    /// The release is newer and is announced.
    UpdateFound,
}

impl UpdateSwitch {
    /// Checks are on and were not toggled since `generation`.
    pub open spec fn is_open_for(self, generation: u64) -> bool {
        self.enabled && self.generation == generation
    }

    /// Whether checks are on and were not toggled since `generation`.
    pub fn admits(&self, generation: u64) -> (r: bool)
        ensures
            r == self.is_open_for(generation),
    {
        self.enabled && self.generation == generation
    }
}

/// One look for a release. It is made only if the switch admits it before, and says
/// something only if the switch still does after; `fetched` is the tag that was read
/// in between.
pub fn run_check_once_with(
    before: UpdateSwitch,
    fetched: Option<&str>,
    after: UpdateSwitch,
    expected_generation: u64,
    current: &str,
) -> (r: CheckOutcome)
    ensures
        r == (if !before.is_open_for(expected_generation) {
            CheckOutcome::Superseded
        } else {
            match fetched {
                None => CheckOutcome::Failed,
                Some(tag) => if !after.is_open_for(expected_generation) {
                    CheckOutcome::Superseded
                } else if is_newer_release(tag@, current@) {
                    CheckOutcome::UpdateFound
                } else {
                    CheckOutcome::UpToDate
                },
            }
        }),
{
    if !before.admits(expected_generation) {
        return CheckOutcome::Superseded;
    }
    match fetched {
        None => CheckOutcome::Failed,
        Some(tag) => {
            if !after.admits(expected_generation) {
                return CheckOutcome::Superseded;
            }
            if is_newer(tag, current) {
                CheckOutcome::UpdateFound
            } else {
                CheckOutcome::UpToDate
            }
        },
    }
}

/// What reconciling the worker leaves to be done.
#[derive(Clone, Copy, Debug, PartialEq, Eq, Structural)]
pub struct Reconciliation {
    /// The old thread has ended and is to be joined.
    pub reap: bool,
    /// A thread is to be started.
    pub spawn: bool,
}

/// The one update worker of a process. Turning checks off leaves its thread
/// dormant, so that a quick off and on neither races a cancelled worker nor makes
/// two.
pub struct UpdateCheckWorker {
    pub switch: UpdateSwitch,
    pub cancel: bool,
    pub has_thread: bool,
}

/// The generation after `generation`.
pub open spec fn next_generation(generation: u64) -> u64 {
    if generation == u64::MAX {
        0
    } else {
        (generation + 1) as u64
    }
}

/// The switch once checks are turned on or off; only a change counts as a toggle.
pub open spec fn toggled(switch: UpdateSwitch, enabled: bool) -> UpdateSwitch {
    UpdateSwitch {
        enabled,
        generation: if switch.enabled != enabled {
            next_generation(switch.generation)
        } else {
            switch.generation
        },
    }
}

impl UpdateCheckWorker {
    /// Checks are off and no thread runs.
    pub fn new() -> (r: UpdateCheckWorker)
        ensures
            r == (UpdateCheckWorker {
                switch: UpdateSwitch { enabled: false, generation: 0 },
                cancel: false,
                has_thread: false,
            }),
    {
        UpdateCheckWorker {
            switch: UpdateSwitch { enabled: false, generation: 0 },
            cancel: false,
            has_thread: false,
        }
    }

    fn toggle(&mut self, enabled: bool)
        ensures
            *final(self) == (UpdateCheckWorker {
                switch: toggled(old(self).switch, enabled),
                ..*old(self)
            }),
    {
        if self.switch.enabled != enabled {
            self.switch.generation = if self.switch.generation == u64::MAX {
                0
            } else {
                self.switch.generation + 1
            };
        }
        self.switch.enabled = enabled;
    }

    /// Turns checks on or off. `thread_finished` says that the worker's thread, if
    /// there is one, has ended. A thread is asked for only where checks are on and
    /// none is left; [`Self::started`] then says whether it came.
    pub fn reconcile(&mut self, enabled: bool, thread_finished: bool) -> (r: Reconciliation)
        ensures
            r.reap == (old(self).has_thread && thread_finished),
            r.spawn == (enabled && (!old(self).has_thread || thread_finished)),
            *final(self) == (UpdateCheckWorker {
                switch: toggled(old(self).switch, enabled),
                cancel: old(self).cancel && !r.spawn,
                has_thread: old(self).has_thread && !thread_finished,
            }),
    {
        let reap = self.has_thread && thread_finished;
        if reap {
            self.has_thread = false;
        }
        self.toggle(enabled);
        let spawn = enabled && !self.has_thread;
        if spawn {
            self.cancel = false;
        }
        Reconciliation { reap, spawn }
    }

    /// Takes note of whether the thread that was asked for came.
    pub fn started(&mut self, came: bool)
        ensures
            *final(self) == (UpdateCheckWorker { has_thread: came, ..*old(self) }),
    {
        self.has_thread = came;
    }

    /// Whether what was found under `generation` may still be announced.
    pub fn accepts(&self, generation: u64) -> (r: bool)
        ensures
            r == self.switch.is_open_for(generation),
    {
        self.switch.admits(generation)
    }

    /// Stops the worker for good. True if there is a thread to be joined.
    pub fn shutdown(&mut self) -> (join: bool)
        ensures
            join == old(self).has_thread,
            *final(self) == (UpdateCheckWorker {
                switch: toggled(old(self).switch, false),
                cancel: true,
                has_thread: false,
            }),
    {
        self.toggle(false);
        self.cancel = true;
        let join = self.has_thread;
        self.has_thread = false;
        join
    }
}

/// Where the worker's thread is.
#[derive(Clone, Copy, Debug, PartialEq, Eq, Structural)]
pub enum WorkerPhase {
    /// Checks are off.
    Idle,
    /// The delay before the first look, with the seconds left of it.
    Delay { generation: u64, left: u64 },
    /// A look is due.
    Check { generation: u64 },
    /// The pause between two looks, with the seconds left of it.
    Poll { generation: u64, left: u64 },
}

/// What the worker's thread does next.
#[derive(Clone, Copy, Debug, PartialEq, Eq, Structural)]
pub enum WorkerAction {
    /// Go on at once.
    Continue,
    /// Sleep for one second.
    SleepOneSecond,
    /// Look for a release under this generation.
    Check(u64),
    /// End the thread.
    Exit,
}

/// A step of the worker's thread. Sleeping in steps of a second lets it notice at
/// once that it is cancelled, turned off or toggled.
pub open spec fn worker_next(phase: WorkerPhase, cancel: bool, switch: UpdateSwitch) -> (
    WorkerPhase,
    WorkerAction,
) {
    match phase {
        WorkerPhase::Idle => if cancel {
            (WorkerPhase::Idle, WorkerAction::Exit)
        } else if switch.enabled {
            (
                WorkerPhase::Delay { generation: switch.generation, left: STARTUP_DELAY_SECS },
                WorkerAction::Continue,
            )
        } else {
            (WorkerPhase::Idle, WorkerAction::SleepOneSecond)
        },
        WorkerPhase::Delay { generation, left } => if cancel || !switch.is_open_for(generation) {
            (WorkerPhase::Idle, WorkerAction::Continue)
        } else if left == 0 {
            (WorkerPhase::Check { generation }, WorkerAction::Continue)
        } else {
            (
                WorkerPhase::Delay { generation, left: (left - 1) as u64 },
                WorkerAction::SleepOneSecond,
            )
        },
        WorkerPhase::Check { generation } => if cancel || !switch.is_open_for(generation) {
            (WorkerPhase::Idle, WorkerAction::Continue)
        } else {
            (
                WorkerPhase::Poll { generation, left: POLL_INTERVAL_SECS },
                WorkerAction::Check(generation),
            )
        },
        WorkerPhase::Poll { generation, left } => if cancel || !switch.is_open_for(generation) {
            (WorkerPhase::Idle, WorkerAction::Continue)
        } else if left == 0 {
            (WorkerPhase::Check { generation }, WorkerAction::Continue)
        } else {
            (
                WorkerPhase::Poll { generation, left: (left - 1) as u64 },
                WorkerAction::SleepOneSecond,
            )
        },
    }
}

/// A step of the worker's thread.
pub fn worker_step(phase: WorkerPhase, cancel: bool, switch: UpdateSwitch) -> (r: (
    WorkerPhase,
    WorkerAction,
))
    ensures
        r == worker_next(phase, cancel, switch),
{
    match phase {
        WorkerPhase::Idle => if cancel {
            (WorkerPhase::Idle, WorkerAction::Exit)
        } else if switch.enabled {
            (
                WorkerPhase::Delay { generation: switch.generation, left: STARTUP_DELAY_SECS },
                WorkerAction::Continue,
            )
        } else {
            (WorkerPhase::Idle, WorkerAction::SleepOneSecond)
        },
        WorkerPhase::Delay { generation, left } => if cancel || !switch.admits(generation) {
            (WorkerPhase::Idle, WorkerAction::Continue)
        } else if left == 0 {
            (WorkerPhase::Check { generation }, WorkerAction::Continue)
        } else {
            (WorkerPhase::Delay { generation, left: left - 1 }, WorkerAction::SleepOneSecond)
        },
        WorkerPhase::Check { generation } => if cancel || !switch.admits(generation) {
            (WorkerPhase::Idle, WorkerAction::Continue)
        } else {
            (
                WorkerPhase::Poll { generation, left: POLL_INTERVAL_SECS },
                WorkerAction::Check(generation),
            )
        },
        WorkerPhase::Poll { generation, left } => if cancel || !switch.admits(generation) {
            (WorkerPhase::Idle, WorkerAction::Continue)
        } else if left == 0 {
            (WorkerPhase::Check { generation }, WorkerAction::Continue)
        } else {
            (WorkerPhase::Poll { generation, left: left - 1 }, WorkerAction::SleepOneSecond)
        },
    }
}

/// Turning checks off and on again starts a new generation: what was found before
/// is not announced after.
pub proof fn law_off_and_on_supersedes(switch: UpdateSwitch)
    requires
        switch.enabled,
    ensures
        !toggled(switch, false).is_open_for(switch.generation),
        !toggled(toggled(switch, false), true).is_open_for(switch.generation),
        toggled(toggled(switch, false), true).enabled,
{
}

/// Turning checks on when they are on, or off when they are off, is no toggle.
pub proof fn law_repeated_setting_is_no_toggle(switch: UpdateSwitch)
    ensures
        toggled(switch, switch.enabled) == switch,
{
}

/// The worker looks for a release only while checks are on, were not toggled since
/// it began to wait, and it is not cancelled.
pub proof fn law_worker_checks_only_when_admitted(
    phase: WorkerPhase,
    cancel: bool,
    switch: UpdateSwitch,
    generation: u64,
)
    requires
        worker_next(phase, cancel, switch).1 == WorkerAction::Check(generation),
    ensures
        !cancel,
        switch.is_open_for(generation),
{
}

/// A cancelled worker neither sleeps nor looks: it ends within two steps, whatever
/// happens to the switch. A worker that is not cancelled does not end.
pub proof fn law_cancelled_worker_ends(
    phase: WorkerPhase,
    switch: UpdateSwitch,
    later: UpdateSwitch,
    cancel: bool,
)
    ensures
        worker_next(worker_next(phase, true, switch).0, true, later).1 == WorkerAction::Exit,
        worker_next(phase, true, switch).1 == WorkerAction::Exit || worker_next(phase, true, switch).1
            == WorkerAction::Continue,
        !cancel ==> worker_next(phase, cancel, switch).1 != WorkerAction::Exit,
{
}

/// The phase after `n` steps with nothing changing around the worker.
pub open spec fn phase_after(phase: WorkerPhase, switch: UpdateSwitch, n: nat) -> WorkerPhase
    decreases n,
{
    if n == 0 {
        phase
    } else {
        worker_next(phase_after(phase, switch, (n - 1) as nat), false, switch).0
    }
}

/// After a look, the next one comes once the whole interval was slept, second by
/// second.
pub proof fn law_next_check_follows_the_interval(switch: UpdateSwitch, n: nat)
    requires
        switch.enabled,
        n <= POLL_INTERVAL_SECS,
    ensures
        ({
            let start = worker_next(
                WorkerPhase::Check { generation: switch.generation },
                false,
                switch,
            ).0;
            &&& phase_after(start, switch, n) == (WorkerPhase::Poll {
                generation: switch.generation,
                left: (POLL_INTERVAL_SECS - n) as u64,
            })
            &&& n == POLL_INTERVAL_SECS ==> worker_next(
                phase_after(start, switch, (n + 1) as nat),
                false,
                switch,
            ).1 == WorkerAction::Check(switch.generation)
        }),
    decreases n,
{
    reveal_with_fuel(phase_after, 2);
    if n > 0 {
        law_next_check_follows_the_interval(switch, (n - 1) as nat);
    }
}

/// The first look comes once the whole delay was slept, second by second.
pub proof fn law_first_check_follows_the_delay(switch: UpdateSwitch, n: nat)
    requires
        switch.enabled,
        n <= STARTUP_DELAY_SECS,
    ensures
        phase_after(WorkerPhase::Idle, switch, (n + 1) as nat) == (WorkerPhase::Delay {
            generation: switch.generation,
            left: (STARTUP_DELAY_SECS - n) as u64,
        }),
        n == STARTUP_DELAY_SECS ==> worker_next(
            phase_after(WorkerPhase::Idle, switch, (n + 2) as nat),
            false,
            switch,
        ).1 == WorkerAction::Check(switch.generation),
    decreases n,
{
    reveal_with_fuel(phase_after, 3);
    if n > 0 {
        law_first_check_follows_the_delay(switch, (n - 1) as nat);
    }
}

/// What a step of the worker's thread sees: whether it is cancelled, and the switch.
pub type Sight = (bool, UpdateSwitch);

/// The phase after the first `n` steps of a thread that saw `seen`.
pub open spec fn phase_at(seen: Seq<Sight>, n: int) -> WorkerPhase
    decreases n,
{
    if n <= 0 {
        WorkerPhase::Idle
    } else {
        worker_next(phase_at(seen, n - 1), seen[n - 1].0, seen[n - 1].1).0
    }
}

/// What step `n` of a thread that saw `seen` does.
pub open spec fn action_at(seen: Seq<Sight>, n: int) -> WorkerAction {
    worker_next(phase_at(seen, n), seen[n].0, seen[n].1).1
}

/// How many seconds the steps from `m` on and before `n` sleep.
pub open spec fn seconds_between(seen: Seq<Sight>, m: int, n: int) -> nat
    decreases n - m,
{
    if n <= m {
        0
    } else {
        seconds_between(seen, m, n - 1) + (if action_at(seen, n - 1)
            == WorkerAction::SleepOneSecond {
            1nat
        } else {
            0nat
        })
    }
}

/// Step `k` sees checks on since `generation`, and no cancellation.
pub open spec fn sees_open(seen: Seq<Sight>, k: int, generation: u64) -> bool {
    !seen[k].0 && seen[k].1.is_open_for(generation)
}

/// The steps from `m` on and before `n` see checks on since `generation`.
pub open spec fn stays_open(seen: Seq<Sight>, m: int, n: int, generation: u64) -> bool {
    forall|k: int| m <= k < n ==> #[trigger] sees_open(seen, k, generation)
}

/// Step `m` came before step `n` with checks on since `generation` all the while; it
/// found the thread idle, or looked for a release.
pub open spec fn waits_since(
    seen: Seq<Sight>,
    m: int,
    n: int,
    generation: u64,
    was_idle: bool,
) -> bool {
    &&& 0 <= m < n
    &&& stays_open(seen, m, n, generation)
    &&& if was_idle {
        phase_at(seen, m) is Idle
    } else {
        action_at(seen, m) == WorkerAction::Check(generation)
    }
}

/// The thread was idle and has slept for `seconds` since, before step `n`.
pub open spec fn slept_since_idle(
    seen: Seq<Sight>,
    n: int,
    generation: u64,
    seconds: int,
) -> bool {
    exists|m: int|
        #[trigger] waits_since(seen, m, n, generation, true) && seconds_between(seen, m, n)
            == seconds
}

/// The thread looked for a release and has slept for `seconds` since, before step `n`.
pub open spec fn slept_since_check(
    seen: Seq<Sight>,
    n: int,
    generation: u64,
    seconds: int,
) -> bool {
    exists|m: int|
        #[trigger] waits_since(seen, m, n, generation, false) && seconds_between(seen, m, n)
            == seconds
}

/// A phase that was waited for as long as it says.
spec fn is_waited_for(seen: Seq<Sight>, n: int) -> bool {
    match phase_at(seen, n) {
        WorkerPhase::Idle => true,
        WorkerPhase::Delay { generation, left } => left <= STARTUP_DELAY_SECS && slept_since_idle(
            seen,
            n,
            generation,
            STARTUP_DELAY_SECS - left,
        ),
        WorkerPhase::Check { generation } => slept_since_idle(
            seen,
            n,
            generation,
            STARTUP_DELAY_SECS as int,
        ) || slept_since_check(seen, n, generation, POLL_INTERVAL_SECS as int),
        WorkerPhase::Poll { generation, left } => left <= POLL_INTERVAL_SECS && slept_since_check(
            seen,
            n,
            generation,
            POLL_INTERVAL_SECS - left,
        ),
    }
}

proof fn lemma_phases_are_waited_for(seen: Seq<Sight>, n: int)
    requires
        0 <= n <= seen.len(),
    ensures
        is_waited_for(seen, n),
    decreases n,
{
    if n > 0 {
        let k = n - 1;
        lemma_phases_are_waited_for(seen, k);
        let (cancel, switch) = seen[k];
        assert(seconds_between(seen, k, k) == 0);
        match phase_at(seen, k) {
            WorkerPhase::Idle => {
                if !cancel && switch.enabled {
                    assert(sees_open(seen, k, switch.generation));
                    assert(waits_since(seen, k, n, switch.generation, true));
                    assert(seconds_between(seen, k, n) == 0);
                }
            },
            WorkerPhase::Delay { generation, left } => {
                if !cancel && switch.is_open_for(generation) {
                    let m = choose|m: int|
                        #[trigger] waits_since(seen, m, k, generation, true) && seconds_between(
                            seen,
                            m,
                            k,
                        ) == STARTUP_DELAY_SECS - left;
                    assert(sees_open(seen, k, generation));
                    assert(waits_since(seen, m, n, generation, true));
                    assert(seconds_between(seen, m, n) == STARTUP_DELAY_SECS - left + (if left
                        == 0 {
                        0int
                    } else {
                        1int
                    }));
                }
            },
            WorkerPhase::Check { generation } => {
                if !cancel && switch.is_open_for(generation) {
                    assert(sees_open(seen, k, generation));
                    assert(waits_since(seen, k, n, generation, false));
                    assert(seconds_between(seen, k, n) == 0);
                }
            },
            WorkerPhase::Poll { generation, left } => {
                if !cancel && switch.is_open_for(generation) {
                    let m = choose|m: int|
                        #[trigger] waits_since(seen, m, k, generation, false) && seconds_between(
                            seen,
                            m,
                            k,
                        ) == POLL_INTERVAL_SECS - left;
                    assert(sees_open(seen, k, generation));
                    assert(waits_since(seen, m, n, generation, false));
                    assert(seconds_between(seen, m, n) == POLL_INTERVAL_SECS - left + (if left
                        == 0 {
                        0int
                    } else {
                        1int
                    }));
                }
            },
        }
    }
}

/// Whatever happens to the switch, a look for a release under a generation was waited
/// for: either the thread was idle and slept the whole delay since, or it looked under
/// that generation before and slept the whole interval since. All that time checks were
/// on, not toggled and not cancelled, as they are at the look itself.
pub proof fn law_every_check_was_waited_for(seen: Seq<Sight>, n: int, generation: u64)
    requires
        0 <= n < seen.len(),
        action_at(seen, n) == WorkerAction::Check(generation),
    ensures
        sees_open(seen, n, generation),
        slept_since_idle(seen, n, generation, STARTUP_DELAY_SECS as int) || slept_since_check(
            seen,
            n,
            generation,
            POLL_INTERVAL_SECS as int,
        ),
{
    lemma_phases_are_waited_for(seen, n);
}

/// The first look under a generation comes only after the whole delay, during which
/// checks were on, not toggled and not cancelled.
pub proof fn law_first_check_of_a_generation_waits_for_the_delay(
    seen: Seq<Sight>,
    n: int,
    generation: u64,
)
    requires
        0 <= n < seen.len(),
        action_at(seen, n) == WorkerAction::Check(generation),
        forall|k: int|
            0 <= k < n ==> #[trigger] action_at(seen, k) != WorkerAction::Check(generation),
    ensures
        slept_since_idle(seen, n, generation, STARTUP_DELAY_SECS as int),
{
    law_every_check_was_waited_for(seen, n, generation);
    if slept_since_check(seen, n, generation, POLL_INTERVAL_SECS as int) {
        let m = choose|m: int|
            #[trigger] waits_since(seen, m, n, generation, false) && seconds_between(seen, m, n)
                == POLL_INTERVAL_SECS as int;
        assert(action_at(seen, m) == WorkerAction::Check(generation));
    }
}

/// The switch may come to be `later` after it was `switch`: generations only go up, and
/// a toggle starts a new one.
pub open spec fn may_become(switch: UpdateSwitch, later: UpdateSwitch) -> bool {
    switch.generation <= later.generation && (switch.generation == later.generation ==> switch
        == later)
}

/// Turning checks on or off is such a change, as long as generations do not run out.
pub proof fn law_toggles_start_new_generations(switch: UpdateSwitch, enabled: bool)
    requires
        switch.generation < u64::MAX,
    ensures
        may_become(switch, toggled(switch, enabled)),
{
}

/// What a thread sees in its life: the switch changes by toggles, and a cancellation is
/// not taken back.
pub open spec fn is_history(seen: Seq<Sight>) -> bool {
    forall|i: int, j: int|
        0 <= i <= j < seen.len() ==> may_become((#[trigger] seen[i]).1, (#[trigger] seen[j]).1) && (
        seen[i].0 ==> seen[j].0)
}

proof fn lemma_interval_is_slept(seen: Seq<Sight>, m: int, n: int, generation: u64)
    requires
        0 <= m < n <= seen.len(),
        action_at(seen, m) == WorkerAction::Check(generation),
        stays_open(seen, m, n, generation),
        n - m - 1 <= POLL_INTERVAL_SECS,
    ensures
        phase_at(seen, n) == (WorkerPhase::Poll {
            generation,
            left: (POLL_INTERVAL_SECS - (n - m - 1)) as u64,
        }),
        seconds_between(seen, m, n) == n - m - 1,
    decreases n - m,
{
    let k = n - 1;
    assert(sees_open(seen, k, generation));
    if n == m + 1 {
        assert(seconds_between(seen, m, m) == 0);
    } else {
        lemma_interval_is_slept(seen, m, k, generation);
    }
}

proof fn lemma_seconds_add_up(seen: Seq<Sight>, m: int, k: int, n: int)
    requires
        m <= k <= n,
    ensures
        seconds_between(seen, m, k) <= seconds_between(seen, m, n),
    decreases n - k,
{
    if k < n {
        lemma_seconds_add_up(seen, m, k, n - 1);
    }
}

/// Two looks for a release under one generation are at least the whole interval apart,
/// slept second by second.
pub proof fn law_checks_of_a_generation_are_an_interval_apart(
    seen: Seq<Sight>,
    m: int,
    n: int,
    generation: u64,
)
    requires
        is_history(seen),
        0 <= m < n < seen.len(),
        action_at(seen, m) == WorkerAction::Check(generation),
        action_at(seen, n) == WorkerAction::Check(generation),
    ensures
        seconds_between(seen, m, n) >= POLL_INTERVAL_SECS,
{
    assert forall|k: int| m <= k < n implies #[trigger] sees_open(seen, k, generation) by {
        assert(may_become(seen[m].1, seen[k].1));
        assert(may_become(seen[k].1, seen[n].1));
    }
    let full = m + 1 + POLL_INTERVAL_SECS;
    if n <= full {
        lemma_interval_is_slept(seen, m, n, generation);
        assert(false);
    } else {
        lemma_interval_is_slept(seen, m, full, generation);
        lemma_seconds_add_up(seen, m, full, n);
    }
}

/// A thread that sees its cancellation ends at once or with the next step.
pub proof fn law_cancelled_thread_ends(seen: Seq<Sight>, n: int)
    requires
        is_history(seen),
        0 <= n < seen.len() - 1,
        seen[n].0,
    ensures
        action_at(seen, n) == WorkerAction::Exit || action_at(seen, n + 1) == WorkerAction::Exit,
{
    assert(may_become(seen[n].1, seen[n + 1].1));
    law_cancelled_worker_ends(phase_at(seen, n), seen[n].1, seen[n + 1].1, true);
}

/// The tag is the string of the first member of that name, and none where there is no such
/// member or its value is no string; later members of the name do not count.
pub proof fn law_first_named_member_is_the_tag(
    members: Seq<(Seq<char>, Option<Seq<char>>)>,
    k: int,
)
    ensures
        0 <= k < members.len() && members[k].0 == "tag_name"@ && (forall|j: int|
            0 <= j < k ==> (#[trigger] members[j]).0 != "tag_name"@) ==> tag_among(members)
            == members[k].1,
        (forall|j: int| 0 <= j < members.len() ==> (#[trigger] members[j]).0 != "tag_name"@)
            ==> tag_among(members) is None,
    decreases members.len(),
{
    if members.len() > 0 {
        let rest = members.drop_first();
        law_first_named_member_is_the_tag(rest, k - 1);
        assert forall|j: int| 0 <= j < rest.len() implies #[trigger] rest[j] == members[j + 1] by {}
    }
}

/// Of a list the first element is the release that counts, and an empty one has none; any
/// other document is a release itself.
pub proof fn law_first_release_of_a_list_counts(
    elements: Vec<Vec<JsonMember>>,
    members: Vec<JsonMember>,
)
    ensures
        elements@.len() == 0 ==> tag_of(JsonOutline::List(elements)@) is None,
        elements@.len() > 0 ==> tag_of(JsonOutline::List(elements)@) == tag_among(
            member_views(elements@[0]@),
        ),
        tag_of(JsonOutline::Single(members)@) == tag_among(member_views(members@)),
{
}

/// A leading `v` makes no difference, on either side: newer is what is above by its
/// version without it, where both are versions.
pub proof fn law_a_leading_v_makes_no_difference(latest: Seq<char>, current: Seq<char>)
    ensures
        ({
            let newer = version_parts(latest) is Some && version_parts(current) is Some
                && version_exceeds(latest, current);
            &&& is_newer_release(seq!['v'] + latest, seq!['v'] + current) == newer
            &&& latest.len() > 0 && latest[0] != 'v' ==> is_newer_release(
                latest,
                seq!['v'] + current,
            ) == newer
            &&& current.len() > 0 && current[0] != 'v' ==> is_newer_release(
                seq!['v'] + latest,
                current,
            ) == newer
            &&& latest.len() > 0 && latest[0] != 'v' && current.len() > 0 && current[0] != 'v'
                ==> is_newer_release(latest, current) == newer
        }),
{
    text::law_prefixes_are_taken_once(latest, 'v');
    text::law_prefixes_are_taken_once(current, 'v');
}

/// Of two triples of numbers either one comes after the other or they are the same; the
/// first number in which they differ decides.
pub proof fn law_numbers_are_ordered(
    a: (u64, u64, u64, Seq<char>),
    b: (u64, u64, u64, Seq<char>),
)
    ensures
        numbers_exceed(a, b) ==> !numbers_exceed(b, a) && !same_numbers(a, b),
        !numbers_exceed(a, b) && !numbers_exceed(b, a) <==> same_numbers(a, b),
        a.0 > b.0 ==> numbers_exceed(a, b),
        a.0 == b.0 && a.1 > b.1 ==> numbers_exceed(a, b),
        a.0 == b.0 && a.1 == b.1 && a.2 > b.2 ==> numbers_exceed(a, b),
        same_numbers(a, b) <==> (a.0, a.1, a.2) == (b.0, b.1, b.2),
{
}

/// A toggle sets what was asked for; where that is a change the generation moves on, so
/// that the switch is open just for the new one, and else nothing changes.
pub proof fn law_toggles_set_the_switch(switch: UpdateSwitch, enabled: bool, generation: u64)
    ensures
        toggled(switch, enabled).enabled == enabled,
        switch.enabled == enabled ==> toggled(switch, enabled).generation == switch.generation,
        switch.enabled != enabled && switch.generation < 0xffff_ffff_ffff_ffff ==> toggled(
            switch,
            enabled,
        ).generation == switch.generation + 1,
        switch.enabled != enabled && switch.generation == 0xffff_ffff_ffff_ffff ==> toggled(
            switch,
            enabled,
        ).generation == 0,
        switch.is_open_for(generation) <==> switch.enabled && generation == switch.generation,
{
}

/// The worker's thread with checks on and nothing in the way: it waits thirty seconds,
/// looks, and then waits a day before each further look, one second at a time.
pub proof fn law_worker_waits_then_looks(generation: u64, left: u64)
    ensures
        ({
            let on = UpdateSwitch { enabled: true, generation };
            &&& worker_next(WorkerPhase::Idle, false, on) == (
                WorkerPhase::Delay { generation, left: 30 },
                WorkerAction::Continue,
            )
            &&& left > 0 ==> worker_next(WorkerPhase::Delay { generation, left }, false, on) == (
                WorkerPhase::Delay { generation, left: (left - 1) as u64 },
                WorkerAction::SleepOneSecond,
            )
            &&& worker_next(WorkerPhase::Delay { generation, left: 0 }, false, on) == (
                WorkerPhase::Check { generation },
                WorkerAction::Continue,
            )
            &&& worker_next(WorkerPhase::Check { generation }, false, on) == (
                WorkerPhase::Poll { generation, left: 86_400 },
                WorkerAction::Check(generation),
            )
            &&& left > 0 ==> worker_next(WorkerPhase::Poll { generation, left }, false, on) == (
                WorkerPhase::Poll { generation, left: (left - 1) as u64 },
                WorkerAction::SleepOneSecond,
            )
            &&& worker_next(WorkerPhase::Poll { generation, left: 0 }, false, on) == (
                WorkerPhase::Check { generation },
                WorkerAction::Continue,
            )
        }),
{
}

/// A thread that waits or is about to look becomes idle, without sleeping or looking,
/// once it is cancelled or checks were turned off or toggled; an idle one sleeps while
/// checks are off.
pub proof fn law_closed_switch_makes_the_worker_idle(
    phase: WorkerPhase,
    cancel: bool,
    switch: UpdateSwitch,
)
    ensures
        ({
            let closed = match phase {
                WorkerPhase::Idle => false,
                WorkerPhase::Delay { generation, .. } => cancel || !switch.enabled
                    || switch.generation != generation,
                WorkerPhase::Check { generation } => cancel || !switch.enabled
                    || switch.generation != generation,
                WorkerPhase::Poll { generation, .. } => cancel || !switch.enabled
                    || switch.generation != generation,
            };
            closed ==> worker_next(phase, cancel, switch) == (
                WorkerPhase::Idle,
                WorkerAction::Continue,
            )
        }),
        !switch.enabled && !cancel ==> worker_next(WorkerPhase::Idle, cancel, switch) == (
            WorkerPhase::Idle,
            WorkerAction::SleepOneSecond,
        ),
        worker_next(WorkerPhase::Idle, true, switch) == (WorkerPhase::Idle, WorkerAction::Exit),
{
}

/// A look under a generation says something only where checks were on and not toggled
/// before it and, where it read a tag, after it; an update is found just where the tag is
/// newer then.
pub proof fn law_looks_say_only_what_still_counts(
    before: UpdateSwitch,
    fetched: Option<&str>,
    after: UpdateSwitch,
    generation: u64,
    current: &str,
    r: CheckOutcome,
)
    requires
        call_ensures(run_check_once_with, (before, fetched, after, generation, current), r),
    ensures
        ({
            let open = before.enabled && before.generation == generation;
            let still = after.enabled && after.generation == generation;
            &&& r == CheckOutcome::Failed <==> open && fetched is None
            &&& r == CheckOutcome::UpdateFound <==> open && still && (fetched matches Some(tag)
                && is_newer_release(tag@, current@))
            &&& r == CheckOutcome::UpToDate <==> open && still && (fetched matches Some(tag)
                && !is_newer_release(tag@, current@))
            &&& r == CheckOutcome::Superseded <==> !open || (fetched is Some && !still)
        }),
{
}

/// What was found is what was to be found just where it is the same text, or both are
/// nothing.
pub proof fn law_tags_are_compared_as_texts(found: String, expected: Seq<char>)
    ensures
        same_tag(Some(found), Some(expected)) <==> found@ == expected,
        same_tag(None, None),
        !same_tag(Some(found), None),
        !same_tag(None, Some(expected)),
{
}

} // verus!
