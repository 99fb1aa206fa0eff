//! The registry: the last known runtime state of every session.
//!
//! The registry is a plain value. A caller that shares it between tasks puts
//! it behind a lock of its own and holds that lock for one call at a time.

use crate::events::{ConnectionEvent, ConnectionReport, Event, Report, WorkerEvent};
use crate::text::str_eq;
use vstd::prelude::*;
use vstd::string::*;

verus! {

/// The runtime state of one session.
#[derive(Clone, Debug, PartialEq, Eq)]
pub struct WorkerInfo {
    /// The session id.
    pub phone: String,
    /// The last status, as set by the manager, the supervisor or the worker.
    pub status: String,
    /// The last credential for pairing that the worker reported.
    pub pairing_code: Option<String>,
    /// Whether a supervisor is at work on the session.
    pub is_running: bool,
}

/// The content of a `WorkerInfo`.
pub ghost struct WorkerState {
    pub phone: Seq<char>,
    pub status: Seq<char>,
    pub pairing_code: Option<Seq<char>>,
    pub is_running: bool,
}

impl View for WorkerInfo {
    type V = WorkerState;

    open spec fn view(&self) -> WorkerState {
        WorkerState {
            phone: self.phone@,
            status: self.status@,
            pairing_code: match self.pairing_code {
                Some(code) => Some(code@),
                None => None,
            },
            is_running: self.is_running,
        }
    }
}

/// The statuses that the manager and the supervisor give a session. A worker
/// may report any other text.
#[derive(Clone, Copy, Debug, PartialEq, Eq, Structural)]
pub enum Lifecycle {
    Starting,
    Paused,
    Resuming,
    Crashed,
}

/// The text that stands for a lifecycle status.
pub open spec fn lifecycle_label(status: Lifecycle) -> Seq<char> {
    match status {
        Lifecycle::Starting => "starting"@,
        Lifecycle::Paused => "paused"@,
        Lifecycle::Resuming => "resuming"@,
        Lifecycle::Crashed => "crashed"@,
    }
}

impl Lifecycle {
    /// The text that stands for this status.
    pub fn label(&self) -> (text: &'static str)
        ensures
            text@ == lifecycle_label(*self),
    {
        match self {
            Lifecycle::Starting => "starting",
            Lifecycle::Paused => "paused",
            Lifecycle::Resuming => "resuming",
            Lifecycle::Crashed => "crashed",
        }
    }
}

/// The state of a session that has just been started.
pub open spec fn fresh_state(id: Seq<char>) -> WorkerState {
    WorkerState {
        phone: id,
        status: lifecycle_label(Lifecycle::Starting),
        pairing_code: None,
        is_running: true,
    }
}

/// The state of a session that is known from the store alone, with the
/// status that the store holds: it is not running and has no credential.
pub open spec fn stored_state(id: Seq<char>, status: Seq<char>) -> WorkerState {
    WorkerState { phone: id, status, pairing_code: None, is_running: false }
}

/// The state of a session that is known to be paused and has no supervisor.
pub open spec fn dormant_state(id: Seq<char>) -> WorkerState {
    stored_state(id, lifecycle_label(Lifecycle::Paused))
}

/// The credential that a session holds after a connection report: the
/// reported pairing code, else the reported QR payload, else the one it held.
pub open spec fn next_pairing_code(held: Option<Seq<char>>, report: ConnectionReport) -> Option<
    Seq<char>,
> {
    if report.pairing_code.len() > 0 {
        Some(report.pairing_code)
    } else if report.qr.len() > 0 {
        Some(report.qr)
    } else {
        held
    }
}

/// The state of a session after a connection report of its worker.
pub open spec fn reported_state(state: WorkerState, report: ConnectionReport) -> WorkerState {
    WorkerState {
        status: report.status,
        pairing_code: next_pairing_code(state.pairing_code, report),
        ..state
    }
}

/// The registry after a connection report: the session it names takes the
/// reported state; a report for an unknown session changes nothing.
pub open spec fn after_connection(
    sessions: Map<Seq<char>, WorkerState>,
    report: ConnectionReport,
) -> Map<Seq<char>, WorkerState> {
    if sessions.contains_key(report.phone) {
        sessions.insert(report.phone, reported_state(sessions[report.phone], report))
    } else {
        sessions
    }
}

/// The registry after a worker event. Only connection reports change it.
pub open spec fn after_event(sessions: Map<Seq<char>, WorkerState>, event: Option<Report>) -> Map<
    Seq<char>,
    WorkerState,
> {
    match event {
        Some(Report::Connection(report)) => after_connection(sessions, report),
        _ => sessions,
    }
}

/// The registry after a status change of session `id`: nothing changes for
/// an unknown session.
pub open spec fn after_status(
    sessions: Map<Seq<char>, WorkerState>,
    id: Seq<char>,
    status: Seq<char>,
) -> Map<Seq<char>, WorkerState> {
    if sessions.contains_key(id) {
        sessions.insert(id, WorkerState { status, ..sessions[id] })
    } else {
        sessions
    }
}

/// The registry after session `id` was told to pause or to resume: its
/// status and its running flag follow at once. Nothing changes for an unknown
/// session.
pub open spec fn after_pause(sessions: Map<Seq<char>, WorkerState>, id: Seq<char>, pause: bool) -> Map<
    Seq<char>,
    WorkerState,
> {
    if sessions.contains_key(id) {
        sessions.insert(
            id,
            WorkerState {
                status: lifecycle_label(
                    if pause {
                        Lifecycle::Paused
                    } else {
                        Lifecycle::Resuming
                    },
                ),
                is_running: !pause,
                ..sessions[id]
            },
        )
    } else {
        sessions
    }
}

impl WorkerInfo {
    /// The state of a session that has just been started.
    pub fn fresh(id: &str) -> (info: WorkerInfo)
        ensures
            info@ == fresh_state(id@),
    {
        WorkerInfo {
            phone: String::from_str(id),
            status: String::from_str(Lifecycle::Starting.label()),
            pairing_code: None,
            is_running: true,
        }
    }

    /// The state of a session that is known from the store alone, with the
    /// status that the store holds.
    pub fn stored(id: &str, status: &str) -> (info: WorkerInfo)
        ensures
            info@ == stored_state(id@, status@),
    {
        WorkerInfo {
            phone: String::from_str(id),
            status: String::from_str(status),
            pairing_code: None,
            is_running: false,
        }
    }

    /// The state of a session that is known to be paused and has no
    /// supervisor.
    pub fn dormant(id: &str) -> (info: WorkerInfo)
        ensures
            info@ == dormant_state(id@),
    {
        WorkerInfo::stored(id, Lifecycle::Paused.label())
    }

    /// A copy of this state.
    pub fn snapshot(&self) -> (copy: WorkerInfo)
        ensures
            copy@ == self@,
    {
        WorkerInfo {
            phone: self.phone.clone(),
            status: self.status.clone(),
            pairing_code: match &self.pairing_code {
                Some(code) => Some(code.clone()),
                None => None,
            },
            is_running: self.is_running,
        }
    }

    /// Whether the worker has reported that the session is connected.
    pub fn is_connected(&self) -> (connected: bool)
        ensures
            connected == (self@.status == "active"@ || self@.status == "connected"@),
    {
        str_eq(self.status.as_str(), "active") || str_eq(self.status.as_str(), "connected")
    }
}

/// Whether some entry of `entries` belongs to session `id`.
pub open spec fn holds(entries: Seq<WorkerInfo>, id: Seq<char>) -> bool {
    exists|i: int| 0 <= i < entries.len() && #[trigger] entries[i].phone@ == id
}

/// The place of an entry of session `id` in `entries`.
pub open spec fn place_of(entries: Seq<WorkerInfo>, id: Seq<char>) -> int {
    choose|i: int| 0 <= i < entries.len() && #[trigger] entries[i].phone@ == id
}

/// No two entries belong to the same session.
pub open spec fn distinct(entries: Seq<WorkerInfo>) -> bool {
    forall|i: int, j: int|
        0 <= i < entries.len() && 0 <= j < entries.len() && i != j ==> #[trigger] entries[i].phone@
            != #[trigger] entries[j].phone@
}

/// The sessions that `entries` describe, each with its state.
pub open spec fn sessions_of(entries: Seq<WorkerInfo>) -> Map<Seq<char>, WorkerState> {
    Map::new(|id: Seq<char>| holds(entries, id), |id: Seq<char>| entries[place_of(entries, id)]@)
}

/// In a list without duplicates, an entry is what the map holds for its
/// session.
pub proof fn lemma_entry_is_session(entries: Seq<WorkerInfo>, i: int)
    requires
        distinct(entries),
        0 <= i < entries.len(),
    ensures
        holds(entries, entries[i].phone@),
        place_of(entries, entries[i].phone@) == i,
        sessions_of(entries).contains_key(entries[i].phone@),
        sessions_of(entries)[entries[i].phone@] == entries[i]@,
{
    let id = entries[i].phone@;
    assert(holds(entries, id));
    let j = place_of(entries, id);
    assert(0 <= j < entries.len() && entries[j].phone@ == id);
}

/// The place of the entry of session `id`, if there is one.
fn find(entries: &Vec<WorkerInfo>, id: &str) -> (place: Option<usize>)
    ensures
        match place {
            Some(i) => i < entries.len() && entries[i as int].phone@ == id@,
            None => !holds(entries@, id@),
        },
{
    let mut i: usize = 0;
    while i < entries.len()
        invariant
            i <= entries.len(),
            forall|k: int| 0 <= k < i ==> entries[k].phone@ != id@,
        decreases entries.len() - i,
    {
        if str_eq(entries[i].phone.as_str(), id) {
            return Some(i);
        }
        i += 1;
    }
    None
}

/// Puts `info` in the place of the entry at `i`, which names the same
/// session.
fn replace_entry(entries: &mut Vec<WorkerInfo>, i: usize, info: WorkerInfo)
    requires
        distinct(old(entries)@),
        i < old(entries).len(),
        old(entries)[i as int].phone@ == info.phone@,
    ensures
        distinct(final(entries)@),
        sessions_of(final(entries)@) == sessions_of(old(entries)@).insert(info.phone@, info@),
{
    let ghost before = entries@;
    entries[i] = info;
    proof {
        let after = entries@;
        assert(distinct(after)) by {
            assert forall|a: int, b: int|
                0 <= a < after.len() && 0 <= b < after.len() && a != b implies after[a].phone@
                != after[b].phone@ by {
                assert(after[a].phone@ == before[a].phone@);
                assert(after[b].phone@ == before[b].phone@);
            }
        }
        lemma_same_ids(before, after);
        assert(sessions_of(after) =~= sessions_of(before).insert(info.phone@, info@)) by {
            assert forall|id: Seq<char>| holds(after, id) implies #[trigger] sessions_of(after)[id]
                == sessions_of(before).insert(info.phone@, info@)[id] by {
                let j = place_of(after, id);
                lemma_entry_is_session(after, j);
                if j != i {
                    lemma_entry_is_session(before, j);
                }
            }
        }
    }
}

/// Adds an entry for a session that has none.
fn add_entry(entries: &mut Vec<WorkerInfo>, info: WorkerInfo)
    requires
        distinct(old(entries)@),
        !holds(old(entries)@, info.phone@),
    ensures
        distinct(final(entries)@),
        sessions_of(final(entries)@) == sessions_of(old(entries)@).insert(info.phone@, info@),
{
    let ghost before = entries@;
    entries.push(info);
    proof {
        let after = entries@;
        assert(distinct(after)) by {
            assert forall|a: int, b: int|
                0 <= a < after.len() && 0 <= b < after.len() && a != b implies after[a].phone@
                != after[b].phone@ by {
                if a < before.len() {
                    assert(after[a] == before[a]);
                }
                if b < before.len() {
                    assert(after[b] == before[b]);
                }
            }
        }
        assert(sessions_of(after) =~= sessions_of(before).insert(info.phone@, info@)) by {
            assert forall|id: Seq<char>| holds(after, id) <==> (holds(before, id) || id
                == info.phone@) by {
                if holds(after, id) {
                    let j = place_of(after, id);
                    if j < before.len() {
                        assert(before[j].phone@ == id);
                    }
                }
                if holds(before, id) {
                    let j = place_of(before, id);
                    assert(after[j].phone@ == id);
                }
                if id == info.phone@ {
                    assert(after[before.len() as int].phone@ == id);
                }
            }
            assert forall|id: Seq<char>| holds(after, id) implies #[trigger] sessions_of(after)[id]
                == sessions_of(before).insert(info.phone@, info@)[id] by {
                let j = place_of(after, id);
                lemma_entry_is_session(after, j);
                if j < before.len() {
                    assert(after[j] == before[j]);
                    lemma_entry_is_session(before, j);
                }
            }
        }
    }
}

/// Takes the entry at `i` out.
fn drop_entry(entries: &mut Vec<WorkerInfo>, i: usize) -> (gone: WorkerInfo)
    requires
        distinct(old(entries)@),
        i < old(entries).len(),
    ensures
        distinct(final(entries)@),
        gone == old(entries)[i as int],
        sessions_of(final(entries)@) == sessions_of(old(entries)@).remove(gone.phone@),
{
    let ghost before = entries@;
    let gone = entries.remove(i);
    proof {
        let after = entries@;
        assert(after =~= before.remove(i as int));
        assert forall|a: int| 0 <= a < after.len() implies #[trigger] after[a] == before[if a < i {
            a
        } else {
            a + 1
        }] by {}
        assert(distinct(after)) by {
            assert forall|a: int, b: int|
                0 <= a < after.len() && 0 <= b < after.len() && a != b implies after[a].phone@
                != after[b].phone@ by {
                let a0 = if a < i { a } else { a + 1 };
                let b0 = if b < i { b } else { b + 1 };
                assert(after[a] == before[a0]);
                assert(after[b] == before[b0]);
            }
        }
        assert(sessions_of(after) =~= sessions_of(before).remove(gone.phone@)) by {
            assert forall|id: Seq<char>| holds(after, id) <==> (holds(before, id) && id
                != gone.phone@) by {
                if holds(after, id) {
                    let j = place_of(after, id);
                    let j0 = if j < i { j } else { j + 1 };
                    assert(after[j] == before[j0]);
                    assert(before[j0].phone@ == id);
                }
                if holds(before, id) && id != gone.phone@ {
                    let j = place_of(before, id);
                    let j1 = if j < i { j } else { j - 1 };
                    assert(after[j1] == before[j]);
                    assert(after[j1].phone@ == id);
                }
            }
            assert forall|id: Seq<char>| holds(after, id) implies #[trigger] sessions_of(after)[id]
                == sessions_of(before)[id] by {
                let j = place_of(after, id);
                let j0 = if j < i { j } else { j + 1 };
                assert(after[j] == before[j0]);
                lemma_entry_is_session(after, j);
                lemma_entry_is_session(before, j0);
            }
        }
    }
    gone
}

/// The map from session id to runtime state.
pub struct Registry {
    entries: Vec<WorkerInfo>,
}

impl View for Registry {
    type V = Map<Seq<char>, WorkerState>;

    closed spec fn view(&self) -> Map<Seq<char>, WorkerState> {
        sessions_of(self.entries@)
    }
}

impl Registry {
    #[verifier::type_invariant]
    spec fn well_formed(&self) -> bool {
        distinct(self.entries@)
    }

    /// The registry of no session.
    pub fn new() -> (registry: Registry)
        ensures
            registry@ == Map::<Seq<char>, WorkerState>::empty(),
    {
        let registry = Registry { entries: Vec::new() };
        assert(registry@ =~= Map::<Seq<char>, WorkerState>::empty());
        registry
    }

    /// Whether the registry knows session `id`.
    pub fn contains(&self, id: &str) -> (known: bool)
        ensures
            known == self@.contains_key(id@),
    {
        find(&self.entries, id).is_some()
    }

    /// The state of session `id`, if the registry knows it.
    pub fn get(&self, id: &str) -> (found: Option<&WorkerInfo>)
        ensures
            match found {
                Some(info) => self@.contains_key(id@) && self@[id@] == info@,
                None => !self@.contains_key(id@),
            },
    {
        proof {
            use_type_invariant(self);
        }
        match find(&self.entries, id) {
            Some(i) => {
                proof {
                    lemma_entry_is_session(self.entries@, i as int);
                }
                Some(&self.entries[i])
            },
            None => None,
        }
    }

    /// Sets the state of the session that `info` names, known or not.
    pub fn upsert(&mut self, info: WorkerInfo)
        ensures
            final(self)@ == old(self)@.insert(info.phone@, info@),
    {
        proof {
            use_type_invariant(&*self);
        }
        let mut entries: Vec<WorkerInfo> = Vec::new();
        core::mem::swap(&mut entries, &mut self.entries);
        match find(&entries, info.phone.as_str()) {
            Some(i) => replace_entry(&mut entries, i, info),
            None => add_entry(&mut entries, info),
        }
        core::mem::swap(&mut entries, &mut self.entries);
    }

    /// Adds the state of the session that `info` names unless the registry
    /// knows that session already, and tells whether it added it.
    pub fn insert_if_absent(&mut self, info: WorkerInfo) -> (added: bool)
        ensures
            added == !old(self)@.contains_key(info.phone@),
            final(self)@ == if added {
                old(self)@.insert(info.phone@, info@)
            } else {
                old(self)@
            },
    {
        proof {
            use_type_invariant(&*self);
        }
        let mut entries: Vec<WorkerInfo> = Vec::new();
        core::mem::swap(&mut entries, &mut self.entries);
        let added = match find(&entries, info.phone.as_str()) {
            Some(_) => false,
            None => {
                add_entry(&mut entries, info);
                true
            },
        };
        core::mem::swap(&mut entries, &mut self.entries);
        added
    }

    /// Forgets session `id` and hands out the state it had, if the registry
    /// knew it.
    pub fn remove(&mut self, id: &str) -> (gone: Option<WorkerInfo>)
        ensures
            final(self)@ == old(self)@.remove(id@),
            match gone {
                Some(info) => old(self)@.contains_key(id@) && old(self)@[id@] == info@,
                None => !old(self)@.contains_key(id@),
            },
    {
        proof {
            use_type_invariant(&*self);
        }
        let mut entries: Vec<WorkerInfo> = Vec::new();
        core::mem::swap(&mut entries, &mut self.entries);
        let gone = match find(&entries, id) {
            Some(i) => {
                proof {
                    lemma_entry_is_session(entries@, i as int);
                }
                Some(drop_entry(&mut entries, i))
            },
            None => {
                assert(sessions_of(entries@).remove(id@) =~= sessions_of(entries@));
                None
            },
        };
        core::mem::swap(&mut entries, &mut self.entries);
        gone
    }

    /// Sets the status of session `id`, if the registry knows it, and tells
    /// whether it does.
    pub fn set_status(&mut self, id: &str, status: &str) -> (known: bool)
        ensures
            known == old(self)@.contains_key(id@),
            final(self)@ == after_status(old(self)@, id@, status@),
    {
        proof {
            use_type_invariant(&*self);
        }
        let mut entries: Vec<WorkerInfo> = Vec::new();
        core::mem::swap(&mut entries, &mut self.entries);
        let known = match find(&entries, id) {
            Some(i) => {
                proof {
                    lemma_entry_is_session(entries@, i as int);
                }
                let mut info = entries[i].snapshot();
                info.status = String::from_str(status);
                replace_entry(&mut entries, i, info);
                true
            },
            None => false,
        };
        core::mem::swap(&mut entries, &mut self.entries);
        known
    }

    /// Marks session `id` as paused or as resuming, if the registry knows
    /// it, and tells whether it does.
    pub fn set_paused(&mut self, id: &str, pause: bool) -> (known: bool)
        ensures
            known == old(self)@.contains_key(id@),
            final(self)@ == after_pause(old(self)@, id@, pause),
    {
        proof {
            use_type_invariant(&*self);
        }
        let mut entries: Vec<WorkerInfo> = Vec::new();
        core::mem::swap(&mut entries, &mut self.entries);
        let known = match find(&entries, id) {
            Some(i) => {
                proof {
                    lemma_entry_is_session(entries@, i as int);
                }
                let mut info = entries[i].snapshot();
                let status = if pause {
                    Lifecycle::Paused
                } else {
                    Lifecycle::Resuming
                };
                info.status = String::from_str(status.label());
                info.is_running = !pause;
                replace_entry(&mut entries, i, info);
                true
            },
            None => false,
        };
        core::mem::swap(&mut entries, &mut self.entries);
        known
    }

    /// Takes in a connection report: the session it names gets the reported
    /// status, and the reported credential if there is one. A report for a
    /// session that the registry does not know is dropped.
    pub fn apply_connection(&mut self, report: ConnectionEvent)
        ensures
            final(self)@ == after_connection(old(self)@, report@),
    {
        proof {
            use_type_invariant(&*self);
        }
        let mut entries: Vec<WorkerInfo> = Vec::new();
        core::mem::swap(&mut entries, &mut self.entries);
        match find(&entries, report.phone.as_str()) {
            Some(i) => {
                proof {
                    lemma_entry_is_session(entries@, i as int);
                }
                let mut info = entries[i].snapshot();
                info.status = report.status;
                if !report.pairing_code.as_str().is_empty() {
                    info.pairing_code = Some(report.pairing_code);
                } else if !report.qr.as_str().is_empty() {
                    info.pairing_code = Some(report.qr);
                }
                replace_entry(&mut entries, i, info);
            },
            None => {},
        }
        core::mem::swap(&mut entries, &mut self.entries);
    }

    /// Takes in a worker event. A connection report updates the session it
    /// names; a log line, or a message without an event, changes nothing.
    pub fn handle_event(&mut self, event: WorkerEvent)
        ensures
            final(self)@ == after_event(old(self)@, event@),
    {
        match event.event {
            Some(Event::Connection(report)) => self.apply_connection(report),
            Some(Event::RawLog(_)) => {},
            None => {},
        }
    }

    /// How many sessions the registry knows.
    pub fn len(&self) -> (count: usize)
        ensures
            self@.dom().finite(),
            count == self@.dom().len(),
    {
        proof {
            use_type_invariant(self);
            lemma_session_count(self.entries@);
        }
        self.entries.len()
    }

    /// A copy of the state of every session, one item for each, in the order
    /// in which the registry came to know them.
    pub fn list_all(&self) -> (all: Vec<WorkerInfo>)
        ensures
            all.len() == self@.dom().len(),
            distinct(all@),
            sessions_of(all@) == self@,
    {
        proof {
            use_type_invariant(self);
            lemma_session_count(self.entries@);
        }
        let mut all: Vec<WorkerInfo> = Vec::new();
        let mut i: usize = 0;
        while i < self.entries.len()
            invariant
                i <= self.entries.len(),
                all.len() == i,
                forall|k: int| 0 <= k < i ==> #[trigger] all[k]@ == self.entries[k]@,
            decreases self.entries.len() - i,
        {
            all.push(self.entries[i].snapshot());
            i += 1;
        }
        proof {
            let mine = self.entries@;
            let copy = all@;
            assert forall|k: int| 0 <= k < mine.len() implies #[trigger] mine[k].phone@
                == copy[k].phone@ by {
                assert(copy[k]@ == mine[k]@);
            }
            lemma_same_ids(mine, copy);
            assert(distinct(copy)) by {
                assert forall|a: int, b: int|
                    0 <= a < copy.len() && 0 <= b < copy.len() && a != b implies copy[a].phone@
                    != copy[b].phone@ by {
                    assert(copy[a]@ == mine[a]@);
                    assert(copy[b]@ == mine[b]@);
                }
            }
            assert(sessions_of(copy) =~= sessions_of(mine)) by {
                assert forall|id: Seq<char>| holds(copy, id) implies #[trigger] sessions_of(copy)[id]
                    == sessions_of(mine)[id] by {
                    let j = place_of(copy, id);
                    lemma_entry_is_session(copy, j);
                    lemma_entry_is_session(mine, j);
                    assert(copy[j]@ == mine[j]@);
                }
            }
        }
        all
    }
}

/// A report never changes which sessions the registry knows, and the status
/// it carries is the one the session shows afterwards, whatever was there
/// before.
pub proof fn lemma_last_report_wins(sessions: Map<Seq<char>, WorkerState>, report: ConnectionReport)
    ensures
        after_connection(sessions, report).dom() == sessions.dom(),
        sessions.contains_key(report.phone) ==> after_connection(sessions, report)[report.phone].status
            == report.status,
        forall|id: Seq<char>|
            id != report.phone && sessions.contains_key(id) ==> #[trigger] after_connection(
                sessions,
                report,
            )[id] == sessions[id],
{
    assert(after_connection(sessions, report).dom() =~= sessions.dom());
}

/// A change of status, a pause and a resume leave everything else as it is:
/// the sessions that the registry knows, the credential of the session they
/// touch, and every other session.
pub proof fn lemma_status_changes_keep_the_rest(
    sessions: Map<Seq<char>, WorkerState>,
    id: Seq<char>,
    status: Seq<char>,
    pause: bool,
)
    ensures
        after_status(sessions, id, status).dom() == sessions.dom(),
        after_pause(sessions, id, pause).dom() == sessions.dom(),
        sessions.contains_key(id) ==> {
            &&& after_status(sessions, id, status)[id].pairing_code == sessions[id].pairing_code
            &&& after_status(sessions, id, status)[id].is_running == sessions[id].is_running
            &&& after_pause(sessions, id, pause)[id].pairing_code == sessions[id].pairing_code
        },
        forall|other: Seq<char>|
            other != id && sessions.contains_key(other) ==> {
                &&& #[trigger] after_status(sessions, id, status)[other] == sessions[other]
                &&& #[trigger] after_pause(sessions, id, pause)[other] == sessions[other]
            },
{
    assert(after_status(sessions, id, status).dom() =~= sessions.dom());
    assert(after_pause(sessions, id, pause).dom() =~= sessions.dom());
}

/// A report that carries a QR payload and no pairing code makes the payload
/// the session's credential, and a later report that carries neither leaves
/// that credential in place.
pub proof fn lemma_pairing_code_is_sticky(
    sessions: Map<Seq<char>, WorkerState>,
    first: ConnectionReport,
    second: ConnectionReport,
)
    requires
        sessions.contains_key(first.phone),
        first.pairing_code.len() == 0,
        first.qr.len() > 0,
        second.phone == first.phone,
        second.pairing_code.len() == 0,
        second.qr.len() == 0,
    ensures
        after_connection(sessions, first)[first.phone].pairing_code == Some(first.qr),
        after_connection(after_connection(sessions, first), second)[first.phone].pairing_code
            == Some(first.qr),
        after_connection(after_connection(sessions, first), second)[first.phone].status
            == second.status,
{
}

/// A list without duplicates describes as many sessions as it has entries.
pub proof fn lemma_session_count(entries: Seq<WorkerInfo>)
    requires
        distinct(entries),
    ensures
        sessions_of(entries).dom().finite(),
        sessions_of(entries).dom().len() == entries.len(),
    decreases entries.len(),
{
    if entries.len() == 0 {
        assert(sessions_of(entries).dom() =~= Set::<Seq<char>>::empty());
    } else {
        let earlier = entries.drop_last();
        let id = entries.last().phone@;
        assert(distinct(earlier)) by {
            assert forall|a: int, b: int|
                0 <= a < earlier.len() && 0 <= b < earlier.len() && a != b implies earlier[a].phone@
                != earlier[b].phone@ by {
                assert(earlier[a] == entries[a]);
                assert(earlier[b] == entries[b]);
            }
        }
        lemma_session_count(earlier);
        assert(!holds(earlier, id)) by {
            if holds(earlier, id) {
                let j = place_of(earlier, id);
                assert(entries[j].phone@ == entries[entries.len() - 1].phone@);
            }
        }
        assert(sessions_of(entries).dom() =~= sessions_of(earlier).dom().insert(id)) by {
            assert forall|other: Seq<char>| holds(entries, other) <==> (holds(earlier, other)
                || other == id) by {
                if holds(entries, other) {
                    let j = place_of(entries, other);
                    if j < earlier.len() {
                        assert(earlier[j].phone@ == other);
                    }
                }
                if holds(earlier, other) {
                    let j = place_of(earlier, other);
                    assert(entries[j].phone@ == other);
                }
                if other == id {
                    assert(entries[entries.len() - 1].phone@ == other);
                }
            }
        }
    }
}

/// Two lists whose entries name the same sessions, place by place, hold the
/// same sessions.
pub proof fn lemma_same_ids(before: Seq<WorkerInfo>, after: Seq<WorkerInfo>)
    requires
        before.len() == after.len(),
        forall|i: int| 0 <= i < before.len() ==> #[trigger] before[i].phone@ == after[i].phone@,
    ensures
        forall|id: Seq<char>| holds(before, id) <==> holds(after, id),
{
    assert forall|id: Seq<char>| holds(before, id) <==> holds(after, id) by {
        if holds(before, id) {
            let j = place_of(before, id);
            assert(after[j].phone@ == id);
        }
        if holds(after, id) {
            let j = place_of(after, id);
            assert(before[j].phone@ == id);
        }
    }
}

} // verus!
