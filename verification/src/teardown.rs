//! The full reset of a session: what is to be removed from the cache and
//! from the store, step by step.
//!
//! A teardown does no I/O. Its caller carries out the step that `step`
//! names and reports the outcome to `report`. The cache comes first and the
//! store second, so that a failure in the cache leaves the store as it was;
//! the store is cleared inside one transaction, so that it loses all rows of
//! the session or none.

use vstd::prelude::*;
use vstd::string::*;

verus! {

/// The tables of the store that hold rows of a session, in the order in
/// which a teardown clears them.
#[derive(Clone, Copy, Debug, PartialEq, Eq, Structural)]
pub enum StoreTable {
    Sessions,
    Configurations,
    Contacts,
    Groups,
}

/// The statement that deletes the rows of one session from `table`, with
/// the session id as its one parameter.
pub open spec fn delete_statement(table: StoreTable) -> Seq<char> {
    match table {
        StoreTable::Sessions => "DELETE FROM sessions WHERE id = ?"@,
        StoreTable::Configurations => "DELETE FROM session_configurations WHERE sessionId = ?"@,
        StoreTable::Contacts => "DELETE FROM contacts WHERE sessionId = ?"@,
        StoreTable::Groups => "DELETE FROM groups WHERE sessionId = ?"@,
    }
}

impl StoreTable {
    /// The statement that deletes the rows of one session from this table,
    /// with the session id as its one parameter.
    pub fn statement(&self) -> (text: &'static str)
        ensures
            text@ == delete_statement(*self),
    {
        match self {
            StoreTable::Sessions => "DELETE FROM sessions WHERE id = ?",
            StoreTable::Configurations => "DELETE FROM session_configurations WHERE sessionId = ?",
            StoreTable::Contacts => "DELETE FROM contacts WHERE sessionId = ?",
            StoreTable::Groups => "DELETE FROM groups WHERE sessionId = ?",
        }
    }
}

/// Where a teardown stands: the step that is due, or how it ended.
#[derive(Clone, Copy, Debug, PartialEq, Eq, Structural)]
pub enum Stage {
    ConnectCache,
    ListCacheKeys,
    DeleteCacheKeys,
    DeleteCacheKey,
    BeginTransaction,
    DeleteRows(StoreTable),
    Commit,
    Rollback,
    Done,
    Failed,
}

/// One step of a teardown, for the caller to carry out.
#[derive(Clone, Debug, PartialEq, Eq)]
pub enum TeardownStep {
    /// Connect to the cache.
    ConnectCache,
    /// List the cache keys that match this pattern and report them.
    ListCacheKeys(String),
    /// Delete these cache keys, in one command.
    DeleteCacheKeys(Vec<String>),
    /// Delete this cache key.
    DeleteCacheKey(String),
    /// Open a transaction on the store.
    BeginTransaction,
    /// Within the transaction, delete the rows of this session from this
    /// table.
    DeleteRows(StoreTable, String),
    /// Commit the transaction.
    Commit,
    /// Roll the transaction back.
    Rollback,
    /// Nothing is left to do: the session is gone.
    Done,
    /// Nothing more is to be done: a step has failed, and its error goes to
    /// whoever asked for the reset.
    Failed,
}

/// What came of a step.
#[derive(Clone, Debug, PartialEq, Eq)]
pub enum StepOutcome {
    /// The step succeeded.
    Done,
    /// The step succeeded and found these cache keys.
    Keys(Vec<String>),
    /// The step failed.
    Failed,
}

/// The state of a teardown.
pub ghost struct TeardownState {
    /// The session.
    pub id: Seq<char>,
    pub stage: Stage,
    /// The cache keys that were found and are still to be deleted.
    pub keys: Seq<Seq<char>>,
}

/// The content of a `TeardownStep`.
pub ghost enum Chore {
    ConnectCache,
    ListCacheKeys(Seq<char>),
    DeleteCacheKeys(Seq<Seq<char>>),
    DeleteCacheKey(Seq<char>),
    BeginTransaction,
    DeleteRows(StoreTable, Seq<char>),
    Commit,
    Rollback,
    Done,
    Failed,
}

impl View for TeardownStep {
    type V = Chore;

    open spec fn view(&self) -> Chore {
        match self {
            TeardownStep::ConnectCache => Chore::ConnectCache,
            TeardownStep::ListCacheKeys(pattern) => Chore::ListCacheKeys(pattern@),
            TeardownStep::DeleteCacheKeys(keys) => Chore::DeleteCacheKeys(keys.deep_view()),
            TeardownStep::DeleteCacheKey(key) => Chore::DeleteCacheKey(key@),
            TeardownStep::BeginTransaction => Chore::BeginTransaction,
            TeardownStep::DeleteRows(table, id) => Chore::DeleteRows(*table, id@),
            TeardownStep::Commit => Chore::Commit,
            TeardownStep::Rollback => Chore::Rollback,
            TeardownStep::Done => Chore::Done,
            TeardownStep::Failed => Chore::Failed,
        }
    }
}

/// Whether a step succeeded.
pub open spec fn succeeded(outcome: StepOutcome) -> bool {
    !(outcome is Failed)
}

/// The cache keys that a step found.
pub open spec fn found_keys(outcome: StepOutcome) -> Seq<Seq<char>> {
    match outcome {
        StepOutcome::Keys(keys) => keys.deep_view(),
        _ => Seq::empty(),
    }
}

/// The pattern of the cache keys that belong to session `id`.
pub open spec fn cache_pattern(id: Seq<char>) -> Seq<char> {
    id + ":*"@
}

/// The cache key of session `id` itself.
pub open spec fn cache_key(id: Seq<char>) -> Seq<char> {
    "session:"@ + id
}

/// The state of a teardown of session `id` that has done nothing yet.
pub open spec fn initial_teardown(id: Seq<char>) -> TeardownState {
    TeardownState { id, stage: Stage::ConnectCache, keys: Seq::empty() }
}

/// The step that is due in `state`.
pub open spec fn chore_in(state: TeardownState) -> Chore {
    match state.stage {
        Stage::ConnectCache => Chore::ConnectCache,
        Stage::ListCacheKeys => Chore::ListCacheKeys(cache_pattern(state.id)),
        Stage::DeleteCacheKeys => Chore::DeleteCacheKeys(state.keys),
        Stage::DeleteCacheKey => Chore::DeleteCacheKey(cache_key(state.id)),
        Stage::BeginTransaction => Chore::BeginTransaction,
        Stage::DeleteRows(table) => Chore::DeleteRows(table, state.id),
        Stage::Commit => Chore::Commit,
        Stage::Rollback => Chore::Rollback,
        Stage::Done => Chore::Done,
        Stage::Failed => Chore::Failed,
    }
}

/// The stage that follows `stage` when its step had this outcome. A step on
/// the cache that fails ends the teardown at once, before the store is
/// touched. A step inside the transaction that fails leads to a rollback. A
/// list of no keys leaves no keys to delete.
pub open spec fn next_stage(stage: Stage, outcome: StepOutcome) -> Stage {
    match stage {
        Stage::ConnectCache => if succeeded(outcome) {
            Stage::ListCacheKeys
        } else {
            Stage::Failed
        },
        Stage::ListCacheKeys => if !succeeded(outcome) {
            Stage::Failed
        } else if found_keys(outcome).len() > 0 {
            Stage::DeleteCacheKeys
        } else {
            Stage::DeleteCacheKey
        },
        Stage::DeleteCacheKeys => if succeeded(outcome) {
            Stage::DeleteCacheKey
        } else {
            Stage::Failed
        },
        Stage::DeleteCacheKey => if succeeded(outcome) {
            Stage::BeginTransaction
        } else {
            Stage::Failed
        },
        Stage::BeginTransaction => if succeeded(outcome) {
            Stage::DeleteRows(StoreTable::Sessions)
        } else {
            Stage::Failed
        },
        Stage::DeleteRows(table) => if !succeeded(outcome) {
            Stage::Rollback
        } else {
            match table {
                StoreTable::Sessions => Stage::DeleteRows(StoreTable::Configurations),
                StoreTable::Configurations => Stage::DeleteRows(StoreTable::Contacts),
                StoreTable::Contacts => Stage::DeleteRows(StoreTable::Groups),
                StoreTable::Groups => Stage::Commit,
            }
        },
        Stage::Commit => if succeeded(outcome) {
            Stage::Done
        } else {
            Stage::Failed
        },
        Stage::Rollback => Stage::Failed,
        Stage::Done => Stage::Done,
        Stage::Failed => Stage::Failed,
    }
}

/// The state that follows `state` when the step that was due had this
/// outcome.
pub open spec fn after_step(state: TeardownState, outcome: StepOutcome) -> TeardownState {
    TeardownState {
        id: state.id,
        stage: next_stage(state.stage, outcome),
        keys: if state.stage == Stage::ListCacheKeys {
            found_keys(outcome)
        } else {
            state.keys
        },
    }
}

/// The full reset of one session, under way.
pub struct Teardown {
    phone: String,
    stage: Stage,
    keys: Vec<String>,
}

impl View for Teardown {
    type V = TeardownState;

    closed spec fn view(&self) -> TeardownState {
        TeardownState { id: self.phone@, stage: self.stage, keys: self.keys.deep_view() }
    }
}

/// A copy of a list of texts.
fn copy_texts(texts: &Vec<String>) -> (copy: Vec<String>)
    ensures
        copy.deep_view() == texts.deep_view(),
{
    let mut copy: Vec<String> = Vec::new();
    let mut i: usize = 0;
    while i < texts.len()
        invariant
            i <= texts.len(),
            copy.len() == i,
            forall|k: int| 0 <= k < i ==> copy[k]@ == texts[k]@,
        decreases texts.len() - i,
    {
        copy.push(texts[i].clone());
        i += 1;
    }
    assert(copy.deep_view() =~= texts.deep_view());
    copy
}

impl Teardown {
    /// The teardown of session `id`, with nothing done yet.
    pub fn new(id: &str) -> (teardown: Teardown)
        ensures
            teardown@ == initial_teardown(id@),
    {
        let teardown = Teardown {
            phone: String::from_str(id),
            stage: Stage::ConnectCache,
            keys: Vec::new(),
        };
        assert(teardown@.keys =~= Seq::<Seq<char>>::empty());
        teardown
    }

    /// Where the teardown stands.
    pub fn stage(&self) -> (stage: Stage)
        ensures
            stage == self@.stage,
    {
        self.stage
    }

    /// Whether the teardown is over, for good or for bad.
    pub fn is_over(&self) -> (over: bool)
        ensures
            over == (self@.stage == Stage::Done || self@.stage == Stage::Failed),
    {
        match self.stage {
            Stage::Done => true,
            Stage::Failed => true,
            _ => false,
        }
    }

    /// The step that is due.
    pub fn step(&self) -> (step: TeardownStep)
        ensures
            step@ == chore_in(self@),
    {
        match self.stage {
            Stage::ConnectCache => TeardownStep::ConnectCache,
            Stage::ListCacheKeys => {
                let mut pattern = self.phone.clone();
                pattern.append(":*");
                TeardownStep::ListCacheKeys(pattern)
            },
            Stage::DeleteCacheKeys => TeardownStep::DeleteCacheKeys(copy_texts(&self.keys)),
            Stage::DeleteCacheKey => {
                let mut key = String::from_str("session:");
                key.append(self.phone.as_str());
                TeardownStep::DeleteCacheKey(key)
            },
            Stage::BeginTransaction => TeardownStep::BeginTransaction,
            Stage::DeleteRows(table) => TeardownStep::DeleteRows(table, self.phone.clone()),
            Stage::Commit => TeardownStep::Commit,
            Stage::Rollback => TeardownStep::Rollback,
            Stage::Done => TeardownStep::Done,
            Stage::Failed => TeardownStep::Failed,
        }
    }

    /// Takes in the outcome of the step that was due and moves on.
    pub fn report(&mut self, outcome: StepOutcome)
        ensures
            final(self)@ == after_step(old(self)@, outcome),
    {
        let failed = match &outcome {
            StepOutcome::Failed => true,
            _ => false,
        };
        match self.stage {
            Stage::ConnectCache => {
                self.stage = if failed {
                    Stage::Failed
                } else {
                    Stage::ListCacheKeys
                };
            },
            Stage::ListCacheKeys => {
                let keys = match outcome {
                    StepOutcome::Keys(keys) => keys,
                    _ => Vec::new(),
                };
                assert(keys.deep_view() =~= found_keys(outcome));
                self.stage = if failed {
                    Stage::Failed
                } else if keys.len() > 0 {
                    Stage::DeleteCacheKeys
                } else {
                    Stage::DeleteCacheKey
                };
                self.keys = keys;
            },
            Stage::DeleteCacheKeys => {
                self.stage = if failed {
                    Stage::Failed
                } else {
                    Stage::DeleteCacheKey
                };
            },
            Stage::DeleteCacheKey => {
                self.stage = if failed {
                    Stage::Failed
                } else {
                    Stage::BeginTransaction
                };
            },
            Stage::BeginTransaction => {
                self.stage = if failed {
                    Stage::Failed
                } else {
                    Stage::DeleteRows(StoreTable::Sessions)
                };
            },
            Stage::DeleteRows(table) => {
                self.stage = if failed {
                    Stage::Rollback
                } else {
                    match table {
                        StoreTable::Sessions => Stage::DeleteRows(StoreTable::Configurations),
                        StoreTable::Configurations => Stage::DeleteRows(StoreTable::Contacts),
                        StoreTable::Contacts => Stage::DeleteRows(StoreTable::Groups),
                        StoreTable::Groups => Stage::Commit,
                    }
                };
            },
            Stage::Commit => {
                self.stage = if failed {
                    Stage::Failed
                } else {
                    Stage::Done
                };
            },
            Stage::Rollback => {
                self.stage = Stage::Failed;
            },
            Stage::Done => {},
            Stage::Failed => {},
        }
    }
}

/// What a teardown has done to the cache and to the store so far, as a
/// store with transactions keeps it: rows deleted inside a transaction are
/// gone for good once the transaction is committed, and are back when it is
/// rolled back or lost.
pub ghost struct Ledger {
    /// Whether the cache keys of the session are all deleted.
    pub cache_wiped: bool,
    /// Whether a transaction on the store was asked for.
    pub store_opened: bool,
    /// The tables whose rows are deleted inside the open transaction.
    pub pending: Set<StoreTable>,
    /// The tables whose rows are deleted for good.
    pub erased: Set<StoreTable>,
}

/// The ledger of a teardown that has done nothing yet.
pub open spec fn clean_ledger() -> Ledger {
    Ledger { cache_wiped: false, store_opened: false, pending: Set::empty(), erased: Set::empty() }
}

/// All tables of the store that hold rows of a session.
pub open spec fn all_tables() -> Set<StoreTable> {
    set![StoreTable::Sessions, StoreTable::Configurations, StoreTable::Contacts, StoreTable::Groups]
}

/// The tables that a teardown clears before `table`.
pub open spec fn tables_before(table: StoreTable) -> Set<StoreTable> {
    match table {
        StoreTable::Sessions => set![],
        StoreTable::Configurations => set![StoreTable::Sessions],
        StoreTable::Contacts => set![StoreTable::Sessions, StoreTable::Configurations],
        StoreTable::Groups => set![
            StoreTable::Sessions,
            StoreTable::Configurations,
            StoreTable::Contacts,
        ],
    }
}

/// The ledger after the step of `stage` was carried out with this outcome.
pub open spec fn booked(ledger: Ledger, stage: Stage, outcome: StepOutcome) -> Ledger {
    match stage {
        Stage::DeleteCacheKey => Ledger {
            cache_wiped: ledger.cache_wiped || succeeded(outcome),
            ..ledger
        },
        Stage::BeginTransaction => Ledger { store_opened: true, ..ledger },
        Stage::DeleteRows(table) => if succeeded(outcome) {
            Ledger { pending: ledger.pending.insert(table), ..ledger }
        } else {
            ledger
        },
        Stage::Commit => if succeeded(outcome) {
            Ledger { erased: ledger.erased.union(ledger.pending), pending: Set::empty(), ..ledger }
        } else {
            Ledger { pending: Set::empty(), ..ledger }
        },
        Stage::Rollback => Ledger { pending: Set::empty(), ..ledger },
        _ => ledger,
    }
}

/// The state and the ledger of a teardown of session `id` whose steps, from
/// the first on, had these outcomes.
pub open spec fn carried_out(id: Seq<char>, outcomes: Seq<StepOutcome>) -> (TeardownState, Ledger)
    decreases outcomes.len(),
{
    if outcomes.len() == 0 {
        (initial_teardown(id), clean_ledger())
    } else {
        let (state, ledger) = carried_out(id, outcomes.drop_last());
        let outcome = outcomes[outcomes.len() - 1];
        (after_step(state, outcome), booked(ledger, state.stage, outcome))
    }
}

/// What holds of the ledger at each stage of a teardown.
pub open spec fn consistent(stage: Stage, ledger: Ledger) -> bool {
    match stage {
        Stage::ConnectCache | Stage::ListCacheKeys | Stage::DeleteCacheKeys | Stage::DeleteCacheKey => {
            &&& !ledger.cache_wiped
            &&& !ledger.store_opened
            &&& ledger.pending == Set::<StoreTable>::empty()
            &&& ledger.erased == Set::<StoreTable>::empty()
        },
        Stage::BeginTransaction => {
            &&& ledger.cache_wiped
            &&& !ledger.store_opened
            &&& ledger.pending == Set::<StoreTable>::empty()
            &&& ledger.erased == Set::<StoreTable>::empty()
        },
        Stage::DeleteRows(table) => {
            &&& ledger.cache_wiped
            &&& ledger.store_opened
            &&& ledger.pending == tables_before(table)
            &&& ledger.erased == Set::<StoreTable>::empty()
        },
        Stage::Commit => {
            &&& ledger.cache_wiped
            &&& ledger.store_opened
            &&& ledger.pending == all_tables()
            &&& ledger.erased == Set::<StoreTable>::empty()
        },
        Stage::Rollback => {
            &&& ledger.cache_wiped
            &&& ledger.store_opened
            &&& ledger.erased == Set::<StoreTable>::empty()
        },
        Stage::Done => {
            &&& ledger.cache_wiped
            &&& ledger.store_opened
            &&& ledger.pending == Set::<StoreTable>::empty()
            &&& ledger.erased == all_tables()
        },
        Stage::Failed => {
            &&& ledger.store_opened ==> ledger.cache_wiped
            &&& ledger.pending == Set::<StoreTable>::empty()
            &&& ledger.erased == Set::<StoreTable>::empty()
        },
    }
}

/// One step keeps the ledger consistent with the stage.
pub proof fn lemma_step_consistent(stage: Stage, ledger: Ledger, outcome: StepOutcome)
    requires
        consistent(stage, ledger),
    ensures
        consistent(next_stage(stage, outcome), booked(ledger, stage, outcome)),
{
    let next = booked(ledger, stage, outcome);
    match stage {
        Stage::DeleteRows(table) => {
            if succeeded(outcome) {
                match table {
                    StoreTable::Sessions => {
                        assert(next.pending =~= tables_before(StoreTable::Configurations));
                    },
                    StoreTable::Configurations => {
                        assert(next.pending =~= tables_before(StoreTable::Contacts));
                    },
                    StoreTable::Contacts => {
                        assert(next.pending =~= tables_before(StoreTable::Groups));
                    },
                    StoreTable::Groups => {
                        assert(next.pending =~= all_tables());
                    },
                }
            }
        },
        Stage::Commit => {
            if succeeded(outcome) {
                assert(next.erased =~= all_tables());
            }
        },
        _ => {},
    }
}

/// All or nothing: whatever the outcomes of its steps, a teardown never
/// leaves the store half cleared, and never touches the store unless the
/// cache is wiped. When it is done, the cache keys and the rows of all four
/// tables are gone; at every other moment no row is gone for good, and once
/// it has failed none is even pending. A failure in the cache ends it before
/// a transaction is asked for.
pub proof fn lemma_teardown_all_or_nothing(id: Seq<char>, outcomes: Seq<StepOutcome>)
    ensures
        ({
            let (state, ledger) = carried_out(id, outcomes);
            &&& state.id == id
            &&& consistent(state.stage, ledger)
            &&& state.stage == Stage::Done ==> ledger.cache_wiped && ledger.erased == all_tables()
            &&& state.stage != Stage::Done ==> ledger.erased == Set::<StoreTable>::empty()
            &&& state.stage == Stage::Failed ==> ledger.pending == Set::<StoreTable>::empty()
            &&& !ledger.cache_wiped ==> !ledger.store_opened && ledger.pending == Set::<
                StoreTable,
            >::empty()
        }),
    decreases outcomes.len(),
{
    if outcomes.len() > 0 {
        lemma_teardown_all_or_nothing(id, outcomes.drop_last());
        let (state, ledger) = carried_out(id, outcomes.drop_last());
        lemma_step_consistent(state.stage, ledger, outcomes[outcomes.len() - 1]);
    }
}

/// With every step a success, a teardown is done after the steps on the
/// cache and the six steps on the store, in their order.
pub proof fn lemma_teardown_succeeds(id: Seq<char>, keys: Vec<String>)
    ensures
        ({
            let listed = StepOutcome::Keys(keys);
            let ok = StepOutcome::Done;
            let cache = if keys@.len() > 0 {
                seq![ok, listed, ok, ok]
            } else {
                seq![ok, listed, ok]
            };
            let store = seq![ok, ok, ok, ok, ok, ok];
            carried_out(id, cache + store).0.stage == Stage::Done
        }),
{
    let listed = StepOutcome::Keys(keys);
    let ok = StepOutcome::Done;
    let cache = if keys@.len() > 0 {
        seq![ok, listed, ok, ok]
    } else {
        seq![ok, listed, ok]
    };
    let store = seq![ok, ok, ok, ok, ok, ok];
    let all = cache + store;
    assert(found_keys(listed).len() == keys@.len());
    reveal_with_fuel(carried_out, 12);
}

} // verus!
