use session_supervisor::teardown::{Stage, StepOutcome, StoreTable, Teardown, TeardownStep};

fn keys(words: &[&str]) -> Vec<String> {
    words.iter().map(|word| word.to_string()).collect()
}

fn run(teardown: &mut Teardown, outcomes: Vec<StepOutcome>) -> Vec<TeardownStep> {
    let mut steps = vec![teardown.step()];
    for outcome in outcomes {
        teardown.report(outcome);
        steps.push(teardown.step());
    }
    steps
}

fn is_store_step(step: &TeardownStep) -> bool {
    matches!(
        step,
        TeardownStep::BeginTransaction
            | TeardownStep::DeleteRows(_, _)
            | TeardownStep::Commit
            | TeardownStep::Rollback
    )
}

fn store_steps(phone: &str) -> Vec<TeardownStep> {
    vec![
        TeardownStep::BeginTransaction,
        TeardownStep::DeleteRows(StoreTable::Sessions, phone.to_string()),
        TeardownStep::DeleteRows(StoreTable::Configurations, phone.to_string()),
        TeardownStep::DeleteRows(StoreTable::Contacts, phone.to_string()),
        TeardownStep::DeleteRows(StoreTable::Groups, phone.to_string()),
        TeardownStep::Commit,
        TeardownStep::Done,
    ]
}

#[test]
fn teardown_begins_with_the_cache() {
    let teardown = Teardown::new("15550001");
    assert_eq!(teardown.stage(), Stage::ConnectCache);
    assert!(!teardown.is_over());
    assert_eq!(teardown.step(), TeardownStep::ConnectCache);
}

#[test]
fn teardown_clears_cache_then_store() {
    let mut teardown = Teardown::new("15550001");
    let found = keys(&["15550001:contacts", "15550001:chats"]);
    let mut outcomes = vec![StepOutcome::Done, StepOutcome::Keys(found.clone())];
    outcomes.extend((0..8).map(|_| StepOutcome::Done));
    let mut expected = vec![
        TeardownStep::ConnectCache,
        TeardownStep::ListCacheKeys("15550001:*".to_string()),
        TeardownStep::DeleteCacheKeys(found),
        TeardownStep::DeleteCacheKey("session:15550001".to_string()),
    ];
    expected.extend(store_steps("15550001"));
    assert_eq!(run(&mut teardown, outcomes), expected);
    assert_eq!(teardown.stage(), Stage::Done);
    assert!(teardown.is_over());
}

#[test]
fn teardown_skips_the_bulk_delete_when_no_key_was_found() {
    let mut teardown = Teardown::new("15550001");
    let mut outcomes = vec![StepOutcome::Done, StepOutcome::Keys(Vec::new())];
    outcomes.extend((0..7).map(|_| StepOutcome::Done));
    let mut expected = vec![
        TeardownStep::ConnectCache,
        TeardownStep::ListCacheKeys("15550001:*".to_string()),
        TeardownStep::DeleteCacheKey("session:15550001".to_string()),
    ];
    expected.extend(store_steps("15550001"));
    assert_eq!(run(&mut teardown, outcomes), expected);
}

#[test]
fn listing_without_keys_counts_as_none_found() {
    let mut teardown = Teardown::new("15550001");
    teardown.report(StepOutcome::Done);
    teardown.report(StepOutcome::Done);
    assert_eq!(teardown.step(), TeardownStep::DeleteCacheKey("session:15550001".to_string()));
}

#[test]
fn keys_reported_elsewhere_count_as_success() {
    let mut teardown = Teardown::new("15550001");
    teardown.report(StepOutcome::Keys(keys(&["stray"])));
    assert_eq!(teardown.stage(), Stage::ListCacheKeys);
    teardown.report(StepOutcome::Keys(keys(&["15550001:a"])));
    teardown.report(StepOutcome::Keys(keys(&["stray"])));
    assert_eq!(teardown.stage(), Stage::DeleteCacheKey);
}

#[test]
fn cache_failure_ends_the_teardown_before_the_store() {
    for failing in 0..4 {
        let mut teardown = Teardown::new("15550001");
        let mut outcomes = Vec::new();
        for step in 0..failing {
            outcomes.push(if step == 1 {
                StepOutcome::Keys(keys(&["15550001:contacts"]))
            } else {
                StepOutcome::Done
            });
        }
        outcomes.push(StepOutcome::Failed);
        outcomes.extend((0..10).map(|_| StepOutcome::Done));
        let steps = run(&mut teardown, outcomes);
        assert!(!steps.iter().any(is_store_step), "failure at cache step {}", failing);
        assert_eq!(steps[failing + 1], TeardownStep::Failed);
        assert_eq!(steps.last(), Some(&TeardownStep::Failed));
        assert_eq!(teardown.stage(), Stage::Failed);
        assert!(teardown.is_over());
    }
}

#[test]
fn failure_to_open_the_transaction_ends_the_teardown() {
    let mut teardown = Teardown::new("15550001");
    let steps = run(
        &mut teardown,
        vec![StepOutcome::Done, StepOutcome::Keys(Vec::new()), StepOutcome::Done, StepOutcome::Failed],
    );
    assert_eq!(steps.last(), Some(&TeardownStep::Failed));
    assert!(!steps.contains(&TeardownStep::Rollback));
}

#[test]
fn failure_inside_the_transaction_rolls_it_back() {
    for failing in 0..4 {
        let mut teardown = Teardown::new("15550001");
        let mut outcomes =
            vec![StepOutcome::Done, StepOutcome::Keys(Vec::new()), StepOutcome::Done, StepOutcome::Done];
        outcomes.extend((0..failing).map(|_| StepOutcome::Done));
        outcomes.push(StepOutcome::Failed);
        let steps = run(&mut teardown, outcomes);
        assert_eq!(steps.last(), Some(&TeardownStep::Rollback), "failure at delete {}", failing);
        assert!(!steps.contains(&TeardownStep::Commit));
        assert_eq!(teardown.stage(), Stage::Rollback);
        assert!(!teardown.is_over());
        teardown.report(StepOutcome::Done);
        assert_eq!(teardown.step(), TeardownStep::Failed);
        assert!(teardown.is_over());
    }
}

#[test]
fn failed_rollback_still_ends_in_failure() {
    let mut teardown = Teardown::new("15550001");
    for outcome in [
        StepOutcome::Done,
        StepOutcome::Keys(Vec::new()),
        StepOutcome::Done,
        StepOutcome::Done,
        StepOutcome::Failed,
        StepOutcome::Failed,
    ] {
        teardown.report(outcome);
    }
    assert_eq!(teardown.stage(), Stage::Failed);
}

#[test]
fn failed_commit_ends_in_failure() {
    let mut teardown = Teardown::new("15550001");
    let mut outcomes = vec![StepOutcome::Done, StepOutcome::Keys(Vec::new())];
    outcomes.extend((0..6).map(|_| StepOutcome::Done));
    outcomes.push(StepOutcome::Failed);
    let steps = run(&mut teardown, outcomes);
    assert_eq!(steps[steps.len() - 2], TeardownStep::Commit);
    assert_eq!(steps.last(), Some(&TeardownStep::Failed));
}

#[test]
fn finished_teardown_stays_finished() {
    let mut teardown = Teardown::new("15550001");
    let mut outcomes = vec![StepOutcome::Done, StepOutcome::Keys(Vec::new())];
    outcomes.extend((0..7).map(|_| StepOutcome::Done));
    run(&mut teardown, outcomes);
    assert_eq!(teardown.stage(), Stage::Done);
    teardown.report(StepOutcome::Failed);
    assert_eq!(teardown.stage(), Stage::Done);
    let mut failed = Teardown::new("15550001");
    failed.report(StepOutcome::Failed);
    failed.report(StepOutcome::Done);
    failed.report(StepOutcome::Keys(keys(&["k"])));
    assert_eq!(failed.stage(), Stage::Failed);
    assert_eq!(failed.step(), TeardownStep::Failed);
}

#[test]
fn delete_statements_name_table_and_key() {
    assert_eq!(StoreTable::Sessions.statement(), "DELETE FROM sessions WHERE id = ?");
    assert_eq!(
        StoreTable::Configurations.statement(),
        "DELETE FROM session_configurations WHERE sessionId = ?"
    );
    assert_eq!(StoreTable::Contacts.statement(), "DELETE FROM contacts WHERE sessionId = ?");
    assert_eq!(StoreTable::Groups.statement(), "DELETE FROM groups WHERE sessionId = ?");
}
