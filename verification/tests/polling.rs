use ledger_workflow::account::{Account, AccountId, AccountKind};
use ledger_workflow::errors::ResyncError;
use ledger_workflow::field::Word;
use ledger_workflow::poller::{
    apply_sync, note_observable, transaction_committed, wait_for_note, wait_for_tx,
    SyncObservation, WaitOutcome,
};
use ledger_workflow::session::Session;
use ledger_workflow::tx::{TransactionId, TransactionStatus};

fn counter_account(id: AccountId, count: u64) -> Account {
    Account {
        id,
        kind: AccountKind::ImmutableNetwork,
        storage: vec![Word { e0: 0, e1: 0, e2: 0, e3: count }],
        auth_code: 2,
    }
}

fn observation(tx: TransactionId, status: Option<TransactionStatus>) -> SyncObservation {
    SyncObservation {
        block_num: 1,
        tx_statuses: match status {
            Some(st) => vec![(tx, st)],
            None => vec![],
        },
        consumable_notes: vec![],
        committed_notes: vec![],
        accounts: vec![],
    }
}

fn resync_error(message: &str) -> ResyncError {
    ResyncError { message: message.to_string(), causes: vec![] }
}

#[test]
fn poll_completes_after_exact_round_count() {
    let tx = TransactionId { value: 77 };
    let rounds = vec![
        Ok(observation(tx, Some(TransactionStatus::Pending))),
        Ok(observation(tx, None)),
        Ok(observation(tx, Some(TransactionStatus::Committed { block: 9 }))),
    ];
    let mut session = Session::new();
    let outcome = wait_for_tx(&mut session, &rounds, tx, None);
    assert_eq!(outcome, WaitOutcome::Completed { rounds: 3 });
}

#[test]
fn poll_does_not_complete_before_commitment() {
    let tx = TransactionId { value: 77 };
    let rounds = vec![
        Ok(observation(tx, Some(TransactionStatus::Pending))),
        Ok(observation(tx, None)),
        Ok(observation(tx, Some(TransactionStatus::Committed { block: 9 }))),
    ];
    let mut session = Session::new();
    let outcome = wait_for_tx(&mut session, &rounds, tx, Some(2));
    assert_eq!(outcome, WaitOutcome::TimedOut { rounds: 2 });
}

#[test]
fn poll_fails_fast_on_resync_error() {
    let tx = TransactionId { value: 77 };
    let rounds = vec![
        Ok(observation(tx, Some(TransactionStatus::Pending))),
        Err(resync_error("remote unreachable")),
        Ok(observation(tx, Some(TransactionStatus::Committed { block: 9 }))),
    ];
    let mut session = Session::new();
    let outcome = wait_for_tx(&mut session, &rounds, tx, None);
    assert_eq!(
        outcome,
        WaitOutcome::Failed { error: resync_error("remote unreachable"), rounds: 2 }
    );
}

#[test]
fn discarded_is_not_terminal_for_the_wait() {
    // The poller distinguishes only committed from not-yet-committed: a
    // discarded transaction keeps the wait looping until its allowance
    // runs out.
    let tx = TransactionId { value: 77 };
    let rounds = vec![
        Ok(observation(tx, Some(TransactionStatus::Discarded))),
        Ok(observation(tx, Some(TransactionStatus::Discarded))),
    ];
    let mut session = Session::new();
    let outcome = wait_for_tx(&mut session, &rounds, tx, None);
    assert_eq!(outcome, WaitOutcome::TimedOut { rounds: 2 });
}

#[test]
fn wait_for_note_needs_note_and_commitment() {
    let tx = TransactionId { value: 5 };
    let note_id = 900;
    let committed = TransactionStatus::Committed { block: 2 };
    let note_only = SyncObservation {
        block_num: 1,
        tx_statuses: vec![(tx, TransactionStatus::Pending)],
        consumable_notes: vec![note_id],
        committed_notes: vec![],
        accounts: vec![],
    };
    let both = SyncObservation {
        block_num: 2,
        tx_statuses: vec![(tx, committed)],
        consumable_notes: vec![note_id],
        committed_notes: vec![],
        accounts: vec![],
    };
    let rounds = vec![Ok(note_only), Ok(both)];
    let mut session = Session::new();
    let outcome = wait_for_note(&mut session, &rounds, note_id, tx, None);
    assert_eq!(outcome, WaitOutcome::Completed { rounds: 2 });
}

#[test]
fn wait_for_note_sees_committed_notes() {
    let tx = TransactionId { value: 5 };
    let note_id = 900;
    let obs = SyncObservation {
        block_num: 3,
        tx_statuses: vec![(tx, TransactionStatus::Committed { block: 3 })],
        consumable_notes: vec![],
        committed_notes: vec![note_id],
        accounts: vec![],
    };
    assert!(note_observable(&obs, note_id));
    assert!(!note_observable(&obs, 901));
    assert!(transaction_committed(&obs, tx));
    let rounds = vec![Ok(obs)];
    let mut session = Session::new();
    let outcome = wait_for_note(&mut session, &rounds, note_id, tx, None);
    assert_eq!(outcome, WaitOutcome::Completed { rounds: 1 });
}

#[test]
fn empty_script_times_out_immediately() {
    let tx = TransactionId { value: 1 };
    let rounds = vec![];
    let mut session = Session::new();
    let outcome = wait_for_tx(&mut session, &rounds, tx, None);
    assert_eq!(outcome, WaitOutcome::TimedOut { rounds: 0 });
}

#[test]
fn wait_records_observed_statuses_in_session() {
    let tx = TransactionId { value: 77 };
    let rounds = vec![
        Ok(observation(tx, Some(TransactionStatus::Pending))),
        Ok(observation(tx, Some(TransactionStatus::Committed { block: 9 }))),
    ];
    let mut session = Session::new();
    let outcome = wait_for_tx(&mut session, &rounds, tx, None);
    assert_eq!(outcome, WaitOutcome::Completed { rounds: 2 });
    assert_eq!(
        session.get_status(tx),
        Some(TransactionStatus::Committed { block: 9 })
    );
}

#[test]
fn reconciliation_records_reported_account_states() {
    // A stale state in the session is replaced by the reported one.
    let id = AccountId { prefix: 31, suffix: 32 };
    let mut session = Session::new();
    session.upsert_account(counter_account(id, 5));
    let obs = SyncObservation {
        block_num: 4,
        tx_statuses: vec![],
        consumable_notes: vec![],
        committed_notes: vec![],
        accounts: vec![counter_account(id, 7)],
    };
    apply_sync(&mut session, &obs);
    let found = session.get_account(id).unwrap();
    assert_eq!(found.slot(0).unwrap(), Word { e0: 0, e1: 0, e2: 0, e3: 7 });
    assert_eq!(found.kind, AccountKind::ImmutableNetwork);
}

#[test]
fn reconciliation_leaves_unreported_accounts_untouched() {
    let watched = AccountId { prefix: 31, suffix: 32 };
    let other = AccountId { prefix: 41, suffix: 42 };
    let mut session = Session::new();
    session.upsert_account(counter_account(watched, 5));
    let obs = SyncObservation {
        block_num: 4,
        tx_statuses: vec![],
        consumable_notes: vec![],
        committed_notes: vec![],
        accounts: vec![counter_account(other, 1)],
    };
    apply_sync(&mut session, &obs);
    let found = session.get_account(watched).unwrap();
    assert_eq!(found.slot(0).unwrap(), Word { e0: 0, e1: 0, e2: 0, e3: 5 });
}

#[test]
fn reconciliation_records_fresh_statuses_as_reported() {
    let tx = TransactionId { value: 77 };
    let mut session = Session::new();
    let obs = SyncObservation {
        block_num: 4,
        tx_statuses: vec![(tx, TransactionStatus::Committed { block: 4 })],
        consumable_notes: vec![],
        committed_notes: vec![],
        accounts: vec![],
    };
    apply_sync(&mut session, &obs);
    assert_eq!(
        session.get_status(tx),
        Some(TransactionStatus::Committed { block: 4 })
    );
}

#[test]
fn terminal_status_survives_later_reports() {
    let tx = TransactionId { value: 77 };
    let mut session = Session::new();
    session.record_status(tx, TransactionStatus::Committed { block: 9 });
    session.record_status(tx, TransactionStatus::Pending);
    assert_eq!(
        session.get_status(tx),
        Some(TransactionStatus::Committed { block: 9 })
    );
    session.record_status(tx, TransactionStatus::Discarded);
    assert_eq!(
        session.get_status(tx),
        Some(TransactionStatus::Committed { block: 9 })
    );
}
