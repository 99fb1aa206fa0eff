//! The session manager: the face of the subsystem towards its callers.
//!
//! The manager owns the registry and the control bus, and keeps track of
//! the sessions that have a supervision loop, so that no session ever gets a
//! second one. It spawns nothing itself: `start_instance` tells its caller
//! whether a loop is to be spawned.

use crate::control::{
    control_text, lemma_published_is_owed, published_since, Command, ControlBus,
};
use crate::events::{connection_fits, encoded_event, ConnectionReport, Report};
use crate::frame::{after_stream, framed, lemma_sent_event_arrives};
use crate::registry::{
    after_pause, dormant_state, fresh_state, next_pairing_code, Lifecycle, Registry, WorkerInfo,
    WorkerState,
};
use crate::supervisor::{
    lemma_pause_then_resume, task_in, transition, worker_launch, Phase, SupervisorEvent,
    SupervisorState, Task,
};
use crate::teardown::{initial_teardown, Teardown};
use crate::text::str_eq;
use vstd::hash_map::StringHashMap;
use vstd::prelude::*;

verus! {

/// The sessions that have a supervision loop.
pub struct Roster {
    ids: StringHashMap<bool>,
}

impl View for Roster {
    type V = Set<Seq<char>>;

    closed spec fn view(&self) -> Set<Seq<char>> {
        self.ids@.dom()
    }
}

impl Roster {
    /// The roster of no session.
    pub fn new() -> (roster: Roster)
        ensures
            roster@ == Set::<Seq<char>>::empty(),
    {
        let roster = Roster { ids: StringHashMap::new() };
        assert(roster@ =~= Set::<Seq<char>>::empty());
        roster
    }

    /// Whether session `id` is on the roster.
    pub fn contains(&self, id: &str) -> (listed: bool)
        ensures
            listed == self@.contains(id@),
    {
        self.ids.contains_key(id)
    }

    /// Puts session `id` on the roster and tells whether it was missing.
    pub fn insert(&mut self, id: &str) -> (added: bool)
        ensures
            added == !old(self)@.contains(id@),
            final(self)@ == old(self)@.insert(id@),
    {
        let added = !self.ids.contains_key(id);
        if added {
            self.ids.insert(String::from_str(id), true);
        }
        assert(self@ =~= old(self)@.insert(id@));
        added
    }

    /// Takes session `id` off the roster and tells whether it was there.
    pub fn remove(&mut self, id: &str) -> (removed: bool)
        ensures
            removed == old(self)@.contains(id@),
            final(self)@ == old(self)@.remove(id@),
    {
        let removed = self.ids.contains_key(id);
        self.ids.remove(id);
        assert(self@ =~= old(self)@.remove(id@));
        removed
    }
}

/// The registry after a start of session `id`: a session that the registry
/// does not know yet comes in as just started; a known one is left as it is.
pub open spec fn after_start(sessions: Map<Seq<char>, WorkerState>, id: Seq<char>) -> Map<
    Seq<char>,
    WorkerState,
> {
    if sessions.contains_key(id) {
        sessions
    } else {
        sessions.insert(id, fresh_state(id))
    }
}

/// The state of a manager.
pub ghost struct ManagerState {
    /// The runtime state of every session.
    pub sessions: Map<Seq<char>, WorkerState>,
    /// The control messages published so far, oldest first.
    pub published: Seq<Seq<char>>,
    /// The sessions that have a supervision loop.
    pub supervised: Set<Seq<char>>,
}

/// The state of a manager of no session.
pub open spec fn empty_manager() -> ManagerState {
    ManagerState { sessions: Map::empty(), published: Seq::empty(), supervised: Set::empty() }
}

/// A start of session `id`: the state that follows, and whether a
/// supervision loop is to be spawned.
pub open spec fn started(state: ManagerState, id: Seq<char>) -> (ManagerState, bool) {
    (
        ManagerState {
            sessions: after_start(state.sessions, id),
            supervised: state.supervised.insert(id),
            ..state
        },
        !state.supervised.contains(id),
    )
}

/// The state after session `id` was told to pause or to resume.
pub open spec fn signalled(state: ManagerState, id: Seq<char>, pause: bool) -> ManagerState {
    ManagerState {
        sessions: after_pause(state.sessions, id, pause),
        published: state.published.push(
            control_text(
                id,
                if pause {
                    Command::Pause
                } else {
                    Command::Resume
                },
            ),
        ),
        ..state
    }
}

/// A resume of session `id`: the state that follows, and whether a
/// supervision loop is to be spawned.
pub open spec fn resumed(state: ManagerState, id: Seq<char>) -> (ManagerState, bool) {
    if state.supervised.contains(id) {
        (signalled(state, id, false), false)
    } else {
        started(state, id)
    }
}

/// The taking in of a stored session at start-up: the state that follows,
/// and whether a supervision loop is to be spawned.
pub open spec fn restored(state: ManagerState, id: Seq<char>, status: Seq<char>) -> (
    ManagerState,
    bool,
) {
    if status == "paused"@ {
        (ManagerState { sessions: state.sessions.insert(id, dormant_state(id)), ..state }, false)
    } else {
        started(state, id)
    }
}

/// The state after the supervision loop of session `id` has ended.
pub open spec fn released(state: ManagerState, id: Seq<char>) -> ManagerState {
    ManagerState { supervised: state.supervised.remove(id), ..state }
}

/// The state after the reset of session `id` has begun.
pub open spec fn cleared(state: ManagerState, id: Seq<char>) -> ManagerState {
    ManagerState {
        sessions: state.sessions.remove(id),
        published: state.published.push(control_text(id, Command::Stop)),
        supervised: state.supervised.remove(id),
    }
}

/// The manager of all sessions.
pub struct SessionManager {
    /// The runtime state of every session.
    pub workers: Registry,
    /// The control bus that every supervision loop listens to.
    pub tx: ControlBus,
    /// The sessions that have a supervision loop.
    pub loops: Roster,
}

impl View for SessionManager {
    type V = ManagerState;

    open spec fn view(&self) -> ManagerState {
        ManagerState {
            sessions: self.workers@,
            published: self.tx.published(),
            supervised: self.loops@,
        }
    }
}

impl SessionManager {
    /// A manager of no session, with a control bus of its own.
    pub fn new() -> (manager: SessionManager)
        ensures
            manager@ == empty_manager(),
    {
        SessionManager { workers: Registry::new(), tx: ControlBus::new(), loops: Roster::new() }
    }

    /// Whether session `phone` has a supervision loop.
    pub fn supervises(&self, phone: &str) -> (listed: bool)
        ensures
            listed == self@.supervised.contains(phone@),
    {
        self.loops.contains(phone)
    }

    /// Starts session `phone` and tells whether the caller is to spawn a
    /// supervision loop for it: it is, unless the session has one already.
    /// A session that the registry does not know comes in as just started.
    /// The caller records the status `starting` in the store.
    pub fn start_instance(&mut self, phone: &str) -> (spawn: bool)
        ensures
            (final(self)@, spawn) == started(old(self)@, phone@),
    {
        self.workers.insert_if_absent(WorkerInfo::fresh(phone));
        self.loops.insert(phone)
    }

    /// Tells session `phone` to pause or to resume: publishes the command on
    /// the control bus and marks the session at once, whoever listens.
    pub fn pause_instance(&mut self, phone: &str, pause: bool)
        ensures
            final(self)@ == signalled(old(self)@, phone@, pause),
    {
        let command = if pause {
            Command::Pause
        } else {
            Command::Resume
        };
        self.tx.publish(phone, command);
        self.workers.set_paused(phone, pause);
    }

    /// Resumes session `phone` and tells whether the caller is to spawn a
    /// supervision loop for it. A session that has a loop is told to resume
    /// over the control bus; one that has none is started.
    pub fn resume_instance(&mut self, phone: &str) -> (spawn: bool)
        ensures
            (final(self)@, spawn) == resumed(old(self)@, phone@),
    {
        if self.loops.contains(phone) {
            self.pause_instance(phone, false);
            false
        } else {
            self.start_instance(phone)
        }
    }

    /// Takes in a session found in the store at start-up and tells whether
    /// the caller is to spawn a supervision loop for it. A session stored as
    /// paused comes in as paused, without a loop; any other is started.
    pub fn restore_session(&mut self, phone: &str, status: &str) -> (spawn: bool)
        ensures
            (final(self)@, spawn) == restored(old(self)@, phone@, status@),
    {
        if str_eq(status, Lifecycle::Paused.label()) {
            self.workers.upsert(WorkerInfo::dormant(phone));
            false
        } else {
            self.start_instance(phone)
        }
    }

    /// Notes that the supervision loop of session `phone` is over, so that
    /// a later start spawns a new one.
    pub fn supervisor_exited(&mut self, phone: &str)
        ensures
            final(self)@ == released(old(self)@, phone@),
    {
        self.loops.remove(phone);
    }

    /// Begins the full reset of session `phone`: tells its supervision loop
    /// to stop, forgets the session, and hands out the plan for what is left
    /// to do in the cache and in the store.
    pub fn clear_session(&mut self, phone: &str) -> (teardown: Teardown)
        ensures
            final(self)@ == cleared(old(self)@, phone@),
            teardown@ == initial_teardown(phone@),
    {
        self.tx.publish(phone, Command::Stop);
        self.workers.remove(phone);
        self.loops.remove(phone);
        Teardown::new(phone)
    }
}

/// A call of the manager.
pub ghost enum ManagerCall {
    Start(Seq<char>),
    Pause(Seq<char>, bool),
    Resume(Seq<char>),
    Restore(Seq<char>, Seq<char>),
    Exited(Seq<char>),
    Clear(Seq<char>),
}

/// The state of the manager after `call`, and whether the call has its
/// caller spawn a supervision loop.
pub open spec fn after_call(state: ManagerState, call: ManagerCall) -> (ManagerState, bool) {
    match call {
        ManagerCall::Start(id) => started(state, id),
        ManagerCall::Pause(id, pause) => (signalled(state, id, pause), false),
        ManagerCall::Resume(id) => resumed(state, id),
        ManagerCall::Restore(id, status) => restored(state, id, status),
        ManagerCall::Exited(id) => (released(state, id), false),
        ManagerCall::Clear(id) => (cleared(state, id), false),
    }
}

/// The session that a call is about.
pub open spec fn subject(call: ManagerCall) -> Seq<char> {
    match call {
        ManagerCall::Start(id) => id,
        ManagerCall::Pause(id, _) => id,
        ManagerCall::Resume(id) => id,
        ManagerCall::Restore(id, _) => id,
        ManagerCall::Exited(id) => id,
        ManagerCall::Clear(id) => id,
    }
}

/// The state of a manager that began with no session and took these calls.
pub open spec fn after_calls(calls: Seq<ManagerCall>) -> ManagerState
    decreases calls.len(),
{
    if calls.len() == 0 {
        empty_manager()
    } else {
        after_call(after_calls(calls.drop_last()), calls[calls.len() - 1]).0
    }
}

/// How many supervision loops session `id` has after these calls: each call
/// that has its caller spawn one adds a loop, and each end of a loop, by
/// itself or by a reset, takes the tracked one away.
pub open spec fn loops_alive(calls: Seq<ManagerCall>, id: Seq<char>) -> int
    decreases calls.len(),
{
    if calls.len() == 0 {
        0
    } else {
        let earlier = calls.drop_last();
        let call = calls[calls.len() - 1];
        let before = after_calls(earlier);
        let spawned: int = if subject(call) == id && after_call(before, call).1 {
            1
        } else {
            0
        };
        let ended: int = if subject(call) == id && (call is Exited || call is Clear)
            && before.supervised.contains(id) {
            1
        } else {
            0
        };
        loops_alive(earlier, id) + spawned - ended
    }
}

/// At every moment a session has at most one supervision loop: it has one
/// exactly while the manager lists it as supervised, whatever calls were
/// made, in whatever order. A start or a resume of a session that has a
/// loop spawns none.
pub proof fn lemma_single_supervisor(calls: Seq<ManagerCall>, id: Seq<char>)
    ensures
        loops_alive(calls, id) == if after_calls(calls).supervised.contains(id) {
            1int
        } else {
            0int
        },
        0 <= loops_alive(calls, id) <= 1,
    decreases calls.len(),
{
    if calls.len() > 0 {
        lemma_single_supervisor(calls.drop_last(), id);
    }
}

/// From start to first report: a session that is started for the first time
/// is in the registry as starting and running, and the first connection
/// report that its worker sends over the callback connection gives it the
/// reported status and credential.
pub proof fn lemma_started_session_takes_report(
    state: ManagerState,
    id: Seq<char>,
    report: ConnectionReport,
)
    requires
        !state.sessions.contains_key(id),
        report.phone == id,
        connection_fits(report),
        encoded_event(Some(Report::Connection(report))).len() <= u32::MAX,
    ensures
        ({
            let begun = started(state, id).0.sessions;
            let stream = framed(encoded_event(Some(Report::Connection(report))));
            &&& begun[id] == fresh_state(id)
            &&& after_stream(begun, stream)[id] == (WorkerState {
                phone: id,
                status: report.status,
                pairing_code: next_pairing_code(None, report),
                is_running: true,
            })
        }),
{
    let begun = started(state, id).0.sessions;
    let event = Some(Report::Connection(report));
    lemma_sent_event_arrives(begun, event, Seq::empty());
    assert(framed(encoded_event(event)) + Seq::<u8>::empty() =~= framed(encoded_event(event)));
}

/// From the manager to the loop: a pause and a later resume of a session are
/// owed, in that order and after all that was owed before, to every
/// subscription made before the pause; and a supervisor of that session that
/// is running and takes them in, with the exit of its worker in between, is
/// back at spawning the worker on the same port. Nobody has to start the
/// session again.
pub proof fn lemma_pause_and_resume_reach_the_loop(
    state: ManagerState,
    since: nat,
    supervisor: SupervisorState,
    pause: String,
    resume: String,
)
    requires
        since <= state.published.len(),
        supervisor.phase == Phase::Running,
        supervisor.port is Some,
        forall|k: int| 0 <= k < supervisor.id.len() ==> supervisor.id[k] != ':',
        pause@ == control_text(supervisor.id, Command::Pause),
        resume@ == control_text(supervisor.id, Command::Resume),
    ensures
        ({
            let told = signalled(signalled(state, supervisor.id, true), supervisor.id, false);
            let killing = transition(supervisor, SupervisorEvent::Control(pause)).0;
            let paused = transition(killing, SupervisorEvent::ChildExited).0;
            let starting = transition(paused, SupervisorEvent::Control(resume)).0;
            &&& published_since(told.published, since) == published_since(state.published, since)
                + seq![pause@, resume@]
            &&& paused.phase == Phase::Paused
            &&& starting.phase == Phase::Starting
            &&& task_in(starting) == Task::Spawn(
                worker_launch(supervisor.id, supervisor.port->0),
            )
        }),
{
    let id = supervisor.id;
    let first = signalled(state, id, true);
    lemma_published_is_owed(state.published, since, pause@);
    lemma_published_is_owed(first.published, since, resume@);
    assert(published_since(state.published, since).push(pause@).push(resume@)
        =~= published_since(state.published, since) + seq![pause@, resume@]);
    lemma_pause_then_resume(supervisor, pause, Seq::empty(), resume, 0);
}

} // verus!
