//! The supervision of one session, as a state machine.
//!
//! A supervisor owns no process and no socket. Its caller runs the loop:
//! it asks `directive` what to do, does it, and reports what came of it to
//! `on_event`, which moves the machine on and commits the status changes
//! to the registry.
//!
//! ```text
//! Starting --(spawned)--> Running
//! Running  --(pause)--> Killing --(child exited)--> Paused
//! Paused   --(resume)--> Starting
//! Running  --(stop)--> Killing --(child exited)--> Terminated
//! Running  --(child exited)--> Crashed --(cool-down over)--> Starting
//! ```

use crate::control::{
    addressed_command, control_text, lemma_control_round_trip, parse_control, Command,
};
use crate::registry::{after_status, lifecycle_label, Lifecycle, Registry, WorkerState};
use crate::text::{decimal, render_decimal};
use vstd::prelude::*;
use vstd::string::*;

verus! {

/// Why a supervisor kills its worker.
#[derive(Clone, Copy, Debug, PartialEq, Eq, Structural)]
pub enum KillCause {
    Pause,
    Stop,
}

/// Where a supervisor stands.
#[derive(Clone, Copy, Debug, PartialEq, Eq, Structural)]
pub enum Phase {
    /// About to spawn the worker, once the callback listener is bound.
    Starting,
    /// The worker is alive.
    Running,
    /// The worker is being killed, to pause the session or to stop it.
    Killing(KillCause),
    /// The worker is gone and the session waits to be resumed.
    Paused,
    /// The worker exited on its own; a new one follows the cool-down.
    Crashed,
    /// The session was stopped. Nothing follows.
    Terminated,
    /// The listener could not be bound or the worker could not be spawned.
    /// Nothing follows.
    Failed,
}

/// What the loop of a supervisor reports to it.
#[derive(Clone, Debug, PartialEq, Eq)]
pub enum SupervisorEvent {
    /// The callback listener is bound to this port.
    Bound(u16),
    /// The callback listener could not be bound.
    BindFailed,
    /// The worker was spawned, with this process id, or 0 if it has none.
    Spawned(u32),
    /// The worker could not be spawned.
    SpawnFailed,
    /// This message came over the control bus.
    Control(String),
    /// The worker process has exited.
    ChildExited,
    /// The cool-down after a crash is over.
    CooldownElapsed,
}

/// How long a supervisor waits after a crash before it spawns the next
/// worker, in seconds.
pub const COOL_DOWN_SECONDS: u64 = 5;

/// The state of a supervisor.
pub ghost struct SupervisorState {
    /// The session.
    pub id: Seq<char>,
    pub phase: Phase,
    /// The port of the callback listener, once it is bound.
    pub port: Option<u16>,
    /// The process id of the worker while there is one, else 0.
    pub pid: u32,
}

/// The state of a supervisor that has just been made for session `id`.
pub open spec fn initial_state(id: Seq<char>) -> SupervisorState {
    SupervisorState { id, phase: Phase::Starting, port: None, pid: 0 }
}

/// The state that follows `state` on `event`, and the status that the move
/// gives the session, if any. An event that means nothing in a phase changes
/// nothing.
pub open spec fn transition(state: SupervisorState, event: SupervisorEvent) -> (
    SupervisorState,
    Option<Lifecycle>,
) {
    match (state.phase, event) {
        (Phase::Starting, SupervisorEvent::Bound(port)) => if state.port is None {
            (SupervisorState { port: Some(port), ..state }, Some(Lifecycle::Starting))
        } else {
            (state, None)
        },
        (Phase::Starting, SupervisorEvent::BindFailed) => if state.port is None {
            (SupervisorState { phase: Phase::Failed, ..state }, None)
        } else {
            (state, None)
        },
        (Phase::Starting, SupervisorEvent::Spawned(pid)) => if state.port is Some {
            (SupervisorState { phase: Phase::Running, pid, ..state }, None)
        } else {
            (state, None)
        },
        (Phase::Starting, SupervisorEvent::SpawnFailed) => if state.port is Some {
            (SupervisorState { phase: Phase::Failed, ..state }, None)
        } else {
            (state, None)
        },
        (Phase::Running, SupervisorEvent::Control(message)) => match addressed_command(
            message@,
            state.id,
        ) {
            Some(Command::Pause) => (
                SupervisorState { phase: Phase::Killing(KillCause::Pause), ..state },
                None,
            ),
            Some(Command::Stop) => (
                SupervisorState { phase: Phase::Killing(KillCause::Stop), ..state },
                None,
            ),
            _ => (state, None),
        },
        (Phase::Running, SupervisorEvent::ChildExited) => (
            SupervisorState { phase: Phase::Crashed, pid: 0, ..state },
            Some(Lifecycle::Crashed),
        ),
        (Phase::Killing(KillCause::Pause), SupervisorEvent::ChildExited) => (
            SupervisorState { phase: Phase::Paused, pid: 0, ..state },
            Some(Lifecycle::Paused),
        ),
        (Phase::Killing(KillCause::Stop), SupervisorEvent::ChildExited) => (
            SupervisorState { phase: Phase::Terminated, pid: 0, ..state },
            None,
        ),
        (Phase::Paused, SupervisorEvent::Control(message)) => match addressed_command(
            message@,
            state.id,
        ) {
            Some(Command::Resume) => (
                SupervisorState { phase: Phase::Starting, ..state },
                Some(Lifecycle::Starting),
            ),
            _ => (state, None),
        },
        (Phase::Crashed, SupervisorEvent::CooldownElapsed) => (
            SupervisorState { phase: Phase::Starting, ..state },
            Some(Lifecycle::Starting),
        ),
        _ => (state, None),
    }
}

/// The registry after a supervisor's move: the session takes the status that
/// the move gives it, if the registry knows the session.
pub open spec fn after_move(
    sessions: Map<Seq<char>, WorkerState>,
    id: Seq<char>,
    status: Option<Lifecycle>,
) -> Map<Seq<char>, WorkerState> {
    match status {
        Some(status) => after_status(sessions, id, lifecycle_label(status)),
        None => sessions,
    }
}

/// How to start a worker process.
#[derive(Clone, Debug, PartialEq, Eq)]
pub struct WorkerLaunch {
    pub program: String,
    pub args: Vec<String>,
    /// Environment variables to set, each with its value.
    pub env: Vec<(String, String)>,
    pub working_dir: String,
    /// Whether the standard output and the standard error of the worker go
    /// nowhere, instead of where the supervisor's go.
    pub discard_output: bool,
    /// Whether the worker is killed when its supervision loop is dropped.
    pub kill_on_drop: bool,
}

/// The content of a `WorkerLaunch`.
pub ghost struct LaunchPlan {
    pub program: Seq<char>,
    pub args: Seq<Seq<char>>,
    pub env: Seq<(Seq<char>, Seq<char>)>,
    pub working_dir: Seq<char>,
    pub discard_output: bool,
    pub kill_on_drop: bool,
}

impl View for WorkerLaunch {
    type V = LaunchPlan;

    open spec fn view(&self) -> LaunchPlan {
        LaunchPlan {
            program: self.program@,
            args: self.args.deep_view(),
            env: self.env.deep_view(),
            working_dir: self.working_dir@,
            discard_output: self.discard_output,
            kill_on_drop: self.kill_on_drop,
        }
    }
}

/// How to kill a worker process and all that it has spawned.
#[derive(Clone, Debug, PartialEq, Eq)]
pub struct KillOrder {
    pub program: String,
    pub args: Vec<String>,
}

/// The content of a `KillOrder`.
pub ghost struct KillPlan {
    pub program: Seq<char>,
    pub args: Seq<Seq<char>>,
}

impl View for KillOrder {
    type V = KillPlan;

    open spec fn view(&self) -> KillPlan {
        KillPlan { program: self.program@, args: self.args.deep_view() }
    }
}

/// The launch of the worker of session `id`, which is to call back on
/// `port`: the session and the port are its two arguments, its memory is
/// bounded through the environment, it runs where its sources are, its
/// output is discarded, and it does not outlive its supervision loop.
pub open spec fn worker_launch(id: Seq<char>, port: u16) -> LaunchPlan {
    LaunchPlan {
        program: "bun"@,
        args: seq!["run"@, "client.ts"@, id, decimal(port as nat)],
        env: seq![("NODE_OPTIONS"@, "--max-old-space-size=1024"@)],
        working_dir: "../src"@,
        discard_output: true,
        kill_on_drop: true,
    }
}

/// The address that a supervisor binds its callback listener to: the
/// loopback address, with a port for the system to choose.
pub fn callback_address() -> (address: &'static str)
    ensures
        address@ == "127.0.0.1:0"@,
{
    "127.0.0.1:0"
}

/// The forced kill of process `pid` and of its whole tree. There is none for
/// a process without an id.
pub open spec fn kill_plan(pid: u32) -> Option<KillPlan> {
    if pid == 0 {
        None
    } else {
        Some(
            KillPlan {
                program: "taskkill"@,
                args: seq!["/F"@, "/T"@, "/PID"@, decimal(pid as nat)],
            },
        )
    }
}

/// Builds the launch of the worker of session `id` with callback port
/// `port`.
pub fn launch_worker(id: &str, port: u16) -> (launch: WorkerLaunch)
    ensures
        launch@ == worker_launch(id@, port),
{
    let mut args: Vec<String> = Vec::new();
    args.push(String::from_str("run"));
    args.push(String::from_str("client.ts"));
    args.push(String::from_str(id));
    args.push(render_decimal(port as u32));
    let mut env: Vec<(String, String)> = Vec::new();
    env.push((String::from_str("NODE_OPTIONS"), String::from_str("--max-old-space-size=1024")));
    let launch = WorkerLaunch {
        program: String::from_str("bun"),
        args,
        env,
        working_dir: String::from_str("../src"),
        discard_output: true,
        kill_on_drop: true,
    };
    assert(launch@.args =~= worker_launch(id@, port).args);
    assert(launch@.env =~= worker_launch(id@, port).env);
    launch
}

/// Builds the order that kills process `pid` with all that it has spawned,
/// or `None` for a process without an id.
pub fn kill_process_tree(pid: u32) -> (order: Option<KillOrder>)
    ensures
        match order {
            Some(order) => kill_plan(pid) == Some(order@),
            None => kill_plan(pid) is None,
        },
{
    if pid == 0 {
        return None;
    }
    let mut args: Vec<String> = Vec::new();
    args.push(String::from_str("/F"));
    args.push(String::from_str("/T"));
    args.push(String::from_str("/PID"));
    args.push(render_decimal(pid));
    let order = KillOrder { program: String::from_str("taskkill"), args };
    assert(order@.args =~= kill_plan(pid)->0.args);
    Some(order)
}

/// What the loop of a supervisor is to do next.
#[derive(Clone, Debug, PartialEq, Eq)]
pub enum Directive {
    /// Bind the callback listener to `callback_address()` and report
    /// `Bound` or `BindFailed`.
    Bind,
    /// Record the status given by the last move, then spawn the worker as
    /// the launch says, and report `Spawned` or `SpawnFailed`.
    Spawn(WorkerLaunch),
    /// Accept callback connections, each served on its own, until a control
    /// message arrives or the worker exits, and report `Control` or
    /// `ChildExited`.
    Supervise,
    /// Carry out the order, if there is one, wait for the worker to exit
    /// and report `ChildExited`.
    Kill(Option<KillOrder>),
    /// Wait for the next control message and report `Control`.
    AwaitResume,
    /// Record the status given by the last move, wait this many seconds
    /// and report `CooldownElapsed`.
    CoolDown(u64),
    /// Leave the loop: the session was stopped.
    Exit,
    /// Leave the loop and report the failure.
    Abort,
}

/// The content of a `Directive`.
pub ghost enum Task {
    Bind,
    Spawn(LaunchPlan),
    Supervise,
    Kill(Option<KillPlan>),
    AwaitResume,
    CoolDown(u64),
    Exit,
    Abort,
}

impl View for Directive {
    type V = Task;

    open spec fn view(&self) -> Task {
        match self {
            Directive::Bind => Task::Bind,
            Directive::Spawn(launch) => Task::Spawn(launch@),
            Directive::Supervise => Task::Supervise,
            Directive::Kill(Some(order)) => Task::Kill(Some(order@)),
            Directive::Kill(None) => Task::Kill(None),
            Directive::AwaitResume => Task::AwaitResume,
            Directive::CoolDown(seconds) => Task::CoolDown(*seconds),
            Directive::Exit => Task::Exit,
            Directive::Abort => Task::Abort,
        }
    }
}

/// What the loop is to do in `state`.
pub open spec fn task_in(state: SupervisorState) -> Task {
    match state.phase {
        Phase::Starting => match state.port {
            None => Task::Bind,
            Some(port) => Task::Spawn(worker_launch(state.id, port)),
        },
        Phase::Running => Task::Supervise,
        Phase::Killing(_) => Task::Kill(kill_plan(state.pid)),
        Phase::Paused => Task::AwaitResume,
        Phase::Crashed => Task::CoolDown(COOL_DOWN_SECONDS),
        Phase::Terminated => Task::Exit,
        Phase::Failed => Task::Abort,
    }
}

/// The supervisor of one session.
pub struct Supervisor {
    phone: String,
    phase: Phase,
    port: Option<u16>,
    pid: u32,
}

impl View for Supervisor {
    type V = SupervisorState;

    closed spec fn view(&self) -> SupervisorState {
        SupervisorState { id: self.phone@, phase: self.phase, port: self.port, pid: self.pid }
    }
}

impl Supervisor {
    /// A supervisor for session `id`, which has bound no listener and
    /// spawned no worker yet.
    pub fn new(id: &str) -> (supervisor: Supervisor)
        ensures
            supervisor@ == initial_state(id@),
    {
        Supervisor { phone: String::from_str(id), phase: Phase::Starting, port: None, pid: 0 }
    }

    /// The session.
    pub fn phone(&self) -> (id: &str)
        ensures
            id@ == self@.id,
    {
        self.phone.as_str()
    }

    /// Where the supervisor stands.
    pub fn phase(&self) -> (phase: Phase)
        ensures
            phase == self@.phase,
    {
        self.phase
    }

    /// The port of the callback listener, once it is bound.
    pub fn port(&self) -> (port: Option<u16>)
        ensures
            port == self@.port,
    {
        self.port
    }

    /// The process id of the worker while there is one, else 0.
    pub fn pid(&self) -> (pid: u32)
        ensures
            pid == self@.pid,
    {
        self.pid
    }

    /// Whether the loop is over.
    pub fn is_done(&self) -> (done: bool)
        ensures
            done == (self@.phase == Phase::Terminated || self@.phase == Phase::Failed),
    {
        match self.phase {
            Phase::Terminated => true,
            Phase::Failed => true,
            _ => false,
        }
    }

    /// What the loop is to do next.
    pub fn directive(&self) -> (directive: Directive)
        ensures
            directive@ == task_in(self@),
    {
        match self.phase {
            Phase::Starting => match self.port {
                None => Directive::Bind,
                Some(port) => Directive::Spawn(launch_worker(self.phone.as_str(), port)),
            },
            Phase::Running => Directive::Supervise,
            Phase::Killing(_) => Directive::Kill(kill_process_tree(self.pid)),
            Phase::Paused => Directive::AwaitResume,
            Phase::Crashed => Directive::CoolDown(COOL_DOWN_SECONDS),
            Phase::Terminated => Directive::Exit,
            Phase::Failed => Directive::Abort,
        }
    }

    /// Moves the machine on `event` and tells which status the move gives
    /// the session, if any.
    pub fn advance(&mut self, event: &SupervisorEvent) -> (status: Option<Lifecycle>)
        ensures
            (final(self)@, status) == transition(old(self)@, *event),
    {
        match self.phase {
            Phase::Starting => match event {
                SupervisorEvent::Bound(port) => {
                    if self.port.is_none() {
                        self.port = Some(*port);
                        Some(Lifecycle::Starting)
                    } else {
                        None
                    }
                },
                SupervisorEvent::BindFailed => {
                    if self.port.is_none() {
                        self.phase = Phase::Failed;
                    }
                    None
                },
                SupervisorEvent::Spawned(pid) => {
                    if self.port.is_some() {
                        self.phase = Phase::Running;
                        self.pid = *pid;
                    }
                    None
                },
                SupervisorEvent::SpawnFailed => {
                    if self.port.is_some() {
                        self.phase = Phase::Failed;
                    }
                    None
                },
                _ => None,
            },
            Phase::Running => match event {
                SupervisorEvent::Control(message) => {
                    match parse_control(message.as_str(), self.phone.as_str()) {
                        Some(Command::Pause) => {
                            self.phase = Phase::Killing(KillCause::Pause);
                        },
                        Some(Command::Stop) => {
                            self.phase = Phase::Killing(KillCause::Stop);
                        },
                        _ => {},
                    }
                    None
                },
                SupervisorEvent::ChildExited => {
                    self.phase = Phase::Crashed;
                    self.pid = 0;
                    Some(Lifecycle::Crashed)
                },
                _ => None,
            },
            Phase::Killing(cause) => match event {
                SupervisorEvent::ChildExited => {
                    self.pid = 0;
                    match cause {
                        KillCause::Pause => {
                            self.phase = Phase::Paused;
                            Some(Lifecycle::Paused)
                        },
                        KillCause::Stop => {
                            self.phase = Phase::Terminated;
                            None
                        },
                    }
                },
                _ => None,
            },
            Phase::Paused => match event {
                SupervisorEvent::Control(message) => {
                    match parse_control(message.as_str(), self.phone.as_str()) {
                        Some(Command::Resume) => {
                            self.phase = Phase::Starting;
                            Some(Lifecycle::Starting)
                        },
                        _ => None,
                    }
                },
                _ => None,
            },
            Phase::Crashed => match event {
                SupervisorEvent::CooldownElapsed => {
                    self.phase = Phase::Starting;
                    Some(Lifecycle::Starting)
                },
                _ => None,
            },
            Phase::Terminated => None,
            Phase::Failed => None,
        }
    }

    /// Moves the machine on `event`, gives the session the status that the
    /// move brings in the registry, and hands that status out for the
    /// caller to persist.
    pub fn on_event(&mut self, event: &SupervisorEvent, registry: &mut Registry) -> (status: Option<
        Lifecycle,
    >)
        ensures
            (final(self)@, status) == transition(old(self)@, *event),
            final(registry)@ == after_move(old(registry)@, old(self)@.id, status),
    {
        let status = self.advance(event);
        match status {
            Some(status) => {
                registry.set_status(self.phone.as_str(), status.label());
            },
            None => {},
        }
        status
    }
}

/// The state that a run of events leads to from `state`.
pub open spec fn run_from(state: SupervisorState, events: Seq<SupervisorEvent>) -> SupervisorState
    decreases events.len(),
{
    if events.len() == 0 {
        state
    } else {
        transition(run_from(state, events.drop_last()), events.last()).0
    }
}

/// Whether `event` is a control message that tells session `id` to resume.
pub open spec fn resumes(event: SupervisorEvent, id: Seq<char>) -> bool {
    event matches SupervisorEvent::Control(message) && addressed_command(message@, id) == Some(
        Command::Resume,
    )
}

/// A supervisor never changes its session, and it binds its listener once:
/// a port that is bound stays the same through every move, and the loop is
/// asked to bind only while there is none.
pub proof fn lemma_listener_bound_once(state: SupervisorState, event: SupervisorEvent)
    ensures
        transition(state, event).0.id == state.id,
        state.port is Some ==> transition(state, event).0.port == state.port,
        task_in(state) is Bind <==> state.phase == Phase::Starting && state.port is None,
{
}

/// Whether `state` has a bound listener if its phase needs one: every phase
/// has, but `Starting` and `Failed`.
pub open spec fn listener_ready(state: SupervisorState) -> bool {
    state.phase != Phase::Starting && state.phase != Phase::Failed ==> state.port is Some
}

/// Whatever is reported to a supervisor, in whatever order, it never has a
/// worker without a bound listener for the worker to call back on, and it
/// stays with its session.
pub proof fn lemma_listener_ready(id: Seq<char>, events: Seq<SupervisorEvent>)
    ensures
        listener_ready(run_from(initial_state(id), events)),
        run_from(initial_state(id), events).id == id,
    decreases events.len(),
{
    if events.len() > 0 {
        lemma_listener_ready(id, events.drop_last());
    }
}

/// A stopped or failed supervisor stays as it is, whatever is reported to
/// it, and gives the session no status.
pub proof fn lemma_done_is_final(state: SupervisorState, event: SupervisorEvent)
    requires
        state.phase == Phase::Terminated || state.phase == Phase::Failed,
    ensures
        transition(state, event) == (state, None::<Lifecycle>),
{
}

/// A paused supervisor stays paused, with nothing changed, until a control
/// message tells its own session to resume.
pub proof fn lemma_paused_until_resumed(state: SupervisorState, events: Seq<SupervisorEvent>)
    requires
        state.phase == Phase::Paused,
        forall|i: int| 0 <= i < events.len() ==> !resumes(#[trigger] events[i], state.id),
    ensures
        run_from(state, events) == state,
    decreases events.len(),
{
    if events.len() > 0 {
        let before = events.drop_last();
        assert forall|i: int| 0 <= i < before.len() implies !resumes(
            #[trigger] before[i],
            state.id,
        ) by {
            assert(before[i] == events[i]);
        }
        lemma_paused_until_resumed(state, before);
        assert(!resumes(events[events.len() - 1], state.id));
    }
}

/// Pause, then resume: a running session that is told to pause has its
/// worker killed and is paused once the worker is gone; it then stays
/// paused through everything but a resume of its own, and that resume alone
/// brings it back to a spawn of the same worker on the same port, and to
/// `Running` once the worker is spawned. Nobody has to start the session
/// again.
pub proof fn lemma_pause_then_resume(
    state: SupervisorState,
    pause: String,
    idle: Seq<SupervisorEvent>,
    resume: String,
    pid: u32,
)
    requires
        state.phase == Phase::Running,
        state.port is Some,
        forall|k: int| 0 <= k < state.id.len() ==> state.id[k] != ':',
        pause@ == control_text(state.id, Command::Pause),
        resume@ == control_text(state.id, Command::Resume),
        forall|i: int| 0 <= i < idle.len() ==> !resumes(#[trigger] idle[i], state.id),
    ensures
        ({
            let killing = transition(state, SupervisorEvent::Control(pause));
            let paused = transition(killing.0, SupervisorEvent::ChildExited);
            let waited = run_from(paused.0, idle);
            let starting = transition(waited, SupervisorEvent::Control(resume));
            let running = transition(starting.0, SupervisorEvent::Spawned(pid));
            &&& killing.0.phase == Phase::Killing(KillCause::Pause)
            &&& task_in(killing.0) == Task::Kill(kill_plan(state.pid))
            &&& paused.0.phase == Phase::Paused
            &&& paused.1 == Some(Lifecycle::Paused)
            &&& waited == paused.0
            &&& starting.0.phase == Phase::Starting
            &&& starting.1 == Some(Lifecycle::Starting)
            &&& task_in(starting.0) == Task::Spawn(worker_launch(state.id, state.port->0))
            &&& running.0.phase == Phase::Running
            &&& running.0.pid == pid
        }),
{
    lemma_control_round_trip(state.id, Command::Pause);
    lemma_control_round_trip(state.id, Command::Resume);
    let killing = transition(state, SupervisorEvent::Control(pause));
    let paused = transition(killing.0, SupervisorEvent::ChildExited);
    lemma_paused_until_resumed(paused.0, idle);
}

/// Stop: a running session that is told to stop has its worker killed and
/// ends once the worker is gone, without giving the session a status.
pub proof fn lemma_stop_terminates(state: SupervisorState, stop: String)
    requires
        state.phase == Phase::Running,
        forall|k: int| 0 <= k < state.id.len() ==> state.id[k] != ':',
        stop@ == control_text(state.id, Command::Stop),
    ensures
        ({
            let killing = transition(state, SupervisorEvent::Control(stop));
            let ended = transition(killing.0, SupervisorEvent::ChildExited);
            &&& killing.0.phase == Phase::Killing(KillCause::Stop)
            &&& killing.1 is None
            &&& task_in(killing.0) == Task::Kill(kill_plan(state.pid))
            &&& ended.0.phase == Phase::Terminated
            &&& ended.1 is None
            &&& task_in(ended.0) == Task::Exit
        }),
{
    lemma_control_round_trip(state.id, Command::Stop);
}

/// Crash recovery: when the worker of a running session exits on its own,
/// the session is marked as crashed and the loop waits out the cool-down;
/// after it the session is marked as starting and the loop spawns the same
/// worker on the same port. This holds after any number of crashes.
pub proof fn lemma_crash_recovery(
    state: SupervisorState,
    sessions: Map<Seq<char>, WorkerState>,
)
    requires
        state.phase == Phase::Running,
        state.port is Some,
        sessions.contains_key(state.id),
    ensures
        ({
            let crashed = transition(state, SupervisorEvent::ChildExited);
            let marked = after_move(sessions, state.id, crashed.1);
            let starting = transition(crashed.0, SupervisorEvent::CooldownElapsed);
            let again = after_move(marked, state.id, starting.1);
            &&& crashed.0.phase == Phase::Crashed
            &&& crashed.1 == Some(Lifecycle::Crashed)
            &&& marked[state.id].status == "crashed"@
            &&& task_in(crashed.0) == Task::CoolDown(COOL_DOWN_SECONDS)
            &&& starting.0.phase == Phase::Starting
            &&& starting.1 == Some(Lifecycle::Starting)
            &&& again[state.id].status == "starting"@
            &&& task_in(starting.0) == Task::Spawn(worker_launch(state.id, state.port->0))
        }),
{
}

} // verus!
