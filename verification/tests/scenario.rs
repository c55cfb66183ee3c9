use ledger_workflow::account::{
    build_account, Account, AccountComponent, AccountKind, Counter,
};
use ledger_workflow::compiler::{compile_tx_script, create_library};
use ledger_workflow::errors::{CompileError, SubmissionError, WorkflowError};
use ledger_workflow::field::{increment_word, Word};
use ledger_workflow::note::account_tag;
use ledger_workflow::poller::{wait_for_tx, SyncObservation, WaitOutcome};
use ledger_workflow::session::{reset_plan, CacheView, Session};
use ledger_workflow::tx::{Intent, TransactionHandle, TransactionStatus};
use ledger_workflow::workflow::{
    apply_submission_ack, create_basic_account, create_network_account, create_network_note,
    create_private_note, create_public_account, submit, SubmitAck,
};

const COUNTER_CODE: &str = "export.increment_count\n  push.1 add\nend\n";
const INCREMENT_SCRIPT: &str = "begin\n  call.increment_count\nend\n";
const INCREMENT_NOTE: &str = "begin\n  call.increment_count\nend\n";
const LIBRARY_PATH: &str = "external_contract::counter_contract";

/// The state of `account` with its counter slot set to `count`, as the
/// remote authority reports it after committed increments.
fn counter_state(account: &Account, count: u64) -> Account {
    Account {
        id: account.id,
        kind: account.kind,
        storage: vec![Word { e0: 0, e1: 0, e2: 0, e3: count }],
        auth_code: account.auth_code,
    }
}

fn sync_round(
    tx: TransactionHandle,
    status: TransactionStatus,
    accounts: Vec<Account>,
) -> SyncObservation {
    SyncObservation {
        block_num: 1,
        tx_statuses: vec![(tx.id, status)],
        consumable_notes: vec![],
        committed_notes: vec![],
        accounts,
    }
}

fn increment_intent() -> Intent {
    let library = create_library(COUNTER_CODE.to_string(), LIBRARY_PATH).unwrap();
    let tx_script = compile_tx_script(INCREMENT_SCRIPT, &vec![library]).unwrap();
    Intent::RunScript(tx_script)
}

#[test]
fn increment_counter_with_script() {
    let mut session = Session::new();

    // Create the counter smart contract and register it.
    let (counter_contract, _counter_seed) = create_network_account();
    session.upsert_account(counter_contract.clone());
    assert_eq!(
        counter_contract.slot(0).unwrap(),
        Word { e0: 0, e1: 0, e2: 0, e3: 0 }
    );

    // Build and submit the increment transaction.
    let handle = submit(&mut session, counter_contract.id, increment_intent()).unwrap();
    assert!(apply_submission_ack(SubmitAck::Accepted).is_ok());

    // Wait for the transaction to be committed.
    let rounds = vec![
        Ok(sync_round(handle, TransactionStatus::Pending, vec![])),
        Ok(sync_round(
            handle,
            TransactionStatus::Committed { block: 7 },
            vec![counter_state(&counter_contract, 1)],
        )),
    ];
    let outcome = wait_for_tx(&mut session, &rounds, handle.id, None);
    assert_eq!(outcome, WaitOutcome::Completed { rounds: 2 });

    // Validate the updated state from a fresh session, importing purely
    // from the remote authority.
    session.reset();
    session
        .import_account(Some(counter_state(&counter_contract, 1)))
        .unwrap();
    let new_account_state = session.get_account(counter_contract.id).unwrap();
    let count: Word = new_account_state.slot(0).unwrap();
    let val = count.get(3).unwrap();
    assert_eq!(val, 1);
}

#[test]
fn increment_counter_with_network_note() {
    let mut session = Session::new();

    // Create the basic user account and the counter smart contract.
    let (alice_account, _key) = create_basic_account(&mut session);
    let (counter_contract, _counter_seed) = create_network_account();
    session.upsert_account(counter_contract.clone());

    // Deploy with an initial script increment and wait for it.
    let handle = submit(&mut session, counter_contract.id, increment_intent()).unwrap();
    let deploy_rounds = vec![Ok(sync_round(
        handle,
        TransactionStatus::Committed { block: 3 },
        vec![counter_state(&counter_contract, 1)],
    ))];
    let outcome = wait_for_tx(&mut session, &deploy_rounds, handle.id, None);
    assert_eq!(outcome, WaitOutcome::Completed { rounds: 1 });

    // Create the network note targeting the counter contract.
    let library = create_library(COUNTER_CODE.to_string(), LIBRARY_PATH).unwrap();
    let (increment_note, note_handle) = create_network_note(
        &mut session,
        INCREMENT_NOTE,
        &library,
        &alice_account,
        counter_contract.id,
    )
    .unwrap();
    assert_eq!(increment_note.metadata.tag, account_tag(counter_contract.id));

    // Wait for the note transaction, then for the network's consumption
    // window to pass; the remote reports the counter incremented again.
    let note_rounds = vec![
        Ok(sync_round(note_handle, TransactionStatus::Pending, vec![])),
        Ok(sync_round(
            note_handle,
            TransactionStatus::Committed { block: 5 },
            vec![counter_state(&counter_contract, 2)],
        )),
    ];
    let outcome = wait_for_tx(&mut session, &note_rounds, note_handle.id, None);
    assert_eq!(outcome, WaitOutcome::Completed { rounds: 2 });

    // Validate the updated state from a fresh session.
    session.reset();
    session
        .import_account(Some(counter_state(&counter_contract, 2)))
        .unwrap();
    let new_account_state = session.get_account(counter_contract.id);
    if let Some(account) = new_account_state {
        let count: Word = account.slot(0).unwrap();
        let val = count.get(3).unwrap();
        assert_eq!(val, 2);
    }
}

#[test]
fn increment_counter_with_private_note() {
    let mut session = Session::new();

    // Create the basic user account and a public counter contract.
    let (alice_account, _key) = create_basic_account(&mut session);
    let (counter_contract, _counter_seed) = create_public_account();
    session.upsert_account(counter_contract.clone());

    // Deploy with an initial script increment and wait for it.
    let handle = submit(&mut session, counter_contract.id, increment_intent()).unwrap();
    let deploy_rounds = vec![Ok(sync_round(
        handle,
        TransactionStatus::Committed { block: 3 },
        vec![counter_state(&counter_contract, 1)],
    ))];
    let outcome = wait_for_tx(&mut session, &deploy_rounds, handle.id, None);
    assert_eq!(outcome, WaitOutcome::Completed { rounds: 1 });

    // Create the private note; it is tagged by its creator.
    let library = create_library(COUNTER_CODE.to_string(), LIBRARY_PATH).unwrap();
    let increment_note = create_private_note(
        &mut session,
        INCREMENT_NOTE,
        &library,
        &alice_account,
        vec![],
    )
    .unwrap();
    assert_eq!(increment_note.metadata.tag, account_tag(alice_account.id));

    // Consume the private note against the counter contract.
    let consume_handle = submit(
        &mut session,
        counter_contract.id,
        Intent::ConsumeNotes(vec![(increment_note, None)]),
    )
    .unwrap();
    let consume_rounds = vec![Ok(sync_round(
        consume_handle,
        TransactionStatus::Committed { block: 6 },
        vec![counter_state(&counter_contract, 2)],
    ))];
    let outcome = wait_for_tx(&mut session, &consume_rounds, consume_handle.id, None);
    assert_eq!(outcome, WaitOutcome::Completed { rounds: 1 });

    // Validate the updated state from a fresh session.
    session.reset();
    session
        .import_account(Some(counter_state(&counter_contract, 2)))
        .unwrap();
    let new_account_state = session.get_account(counter_contract.id);
    if let Some(account) = new_account_state {
        let count: Word = account.slot(0).unwrap();
        let val = count.get(3).unwrap();
        assert_eq!(val, 2);
    }
}

#[test]
fn counter_scenario_with_fixed_seed() {
    // Build the counter contract from a fixed seed; its first slot starts
    // all-zero.
    let seed_s1 = Word { e0: 101, e1: 102, e2: 103, e3: 104 };
    let auth = AccountComponent::no_auth();
    let counter: AccountComponent = Counter::default().into();
    let contract =
        build_account(seed_s1, AccountKind::ImmutableNetwork, auth, vec![counter]).unwrap();
    assert_eq!(contract.slot(0).unwrap(), Word { e0: 0, e1: 0, e2: 0, e3: 0 });

    // Submit the custom-script increment intent and wait for commitment.
    let mut session = Session::new();
    session.upsert_account(contract.clone());
    let handle = submit(&mut session, contract.id, increment_intent()).unwrap();
    let rounds = vec![Ok(sync_round(
        handle,
        TransactionStatus::Committed { block: 2 },
        vec![counter_state(&contract, 1)],
    ))];
    let outcome = wait_for_tx(&mut session, &rounds, handle.id, None);
    assert_eq!(outcome, WaitOutcome::Completed { rounds: 1 });

    // After the commit the contract's first slot reads [0, 0, 0, 1].
    let observed = session.get_account(contract.id).unwrap();
    assert_eq!(observed.slot(0).unwrap(), Word { e0: 0, e1: 0, e2: 0, e3: 1 });
}

#[test]
fn network_note_increments_counter_by_exactly_one() {
    // The counter already stands at some value before the note.
    let mut session = Session::new();
    let (alice_account, _key) = create_basic_account(&mut session);
    let (counter_contract, _seed) = create_network_account();
    session.upsert_account(counter_state(&counter_contract, 5));
    let pre_value: Word = session
        .get_account(counter_contract.id)
        .unwrap()
        .slot(0)
        .unwrap();

    // The note is tagged by the target contract.
    let library = create_library(COUNTER_CODE.to_string(), LIBRARY_PATH).unwrap();
    let (note, note_handle) = create_network_note(
        &mut session,
        INCREMENT_NOTE,
        &library,
        &alice_account,
        counter_contract.id,
    )
    .unwrap();
    assert_eq!(note.metadata.tag, account_tag(counter_contract.id));

    // After commitment and the consumption window, the counter has grown
    // by exactly one relative to its pre-note value.
    let post_state = Account {
        id: counter_contract.id,
        kind: counter_contract.kind,
        storage: vec![increment_word(&pre_value)],
        auth_code: counter_contract.auth_code,
    };
    let rounds = vec![
        Ok(sync_round(note_handle, TransactionStatus::Pending, vec![])),
        Ok(sync_round(
            note_handle,
            TransactionStatus::Committed { block: 9 },
            vec![post_state],
        )),
    ];
    let outcome = wait_for_tx(&mut session, &rounds, note_handle.id, None);
    assert_eq!(outcome, WaitOutcome::Completed { rounds: 2 });
    let post_value = session
        .get_account(counter_contract.id)
        .unwrap()
        .slot(0)
        .unwrap();
    assert_eq!(post_value.get(3).unwrap(), pre_value.get(3).unwrap() + 1);
}

#[test]
fn reset_is_idempotent() {
    let mut session = Session::new();
    session.upsert_account(create_network_account().0);
    session.reset();
    assert!(session.is_empty());
    session.reset();
    assert!(session.is_empty());

    // Planning deletions for an already-empty cache removes nothing and
    // is not an error, however often it is planned.
    let empty_cache = CacheView { store_exists: false, keystore_files: vec![] };
    let first = reset_plan(None, &empty_cache);
    assert!(!first.remove_store);
    assert_eq!(first.remove_files.len(), 0);
    assert_eq!(first.store_path, "./store.sqlite3");
    let second = reset_plan(None, &empty_cache);
    assert!(!second.remove_store);
    assert_eq!(second.remove_files.len(), 0);
}

#[test]
fn reset_plan_lists_existing_cache_files() {
    let cache = CacheView {
        store_exists: true,
        keystore_files: vec!["./keystore/key0".to_string(), "./keystore/key1".to_string()],
    };
    let plan = reset_plan(Some("./other.sqlite3"), &cache);
    assert!(plan.remove_store);
    assert_eq!(plan.store_path, "./other.sqlite3");
    assert_eq!(
        plan.remove_files,
        vec!["./keystore/key0".to_string(), "./keystore/key1".to_string()]
    );
}

#[test]
fn submission_failures_are_fatal_and_exact() {
    let mut session = Session::new();
    let (counter_contract, _seed) = create_network_account();

    // Unknown account: local execution fails at once.
    let err = submit(&mut session, counter_contract.id, increment_intent()).unwrap_err();
    assert_eq!(err, SubmissionError::AccountNotFound);

    // Wrong artifact kind for a custom script.
    session.upsert_account(counter_contract.clone());
    let library = create_library(COUNTER_CODE.to_string(), LIBRARY_PATH).unwrap();
    let note_script =
        ledger_workflow::compiler::compile_note_script(INCREMENT_NOTE, &vec![library]).unwrap();
    let err = submit(
        &mut session,
        counter_contract.id,
        Intent::RunScript(note_script),
    )
    .unwrap_err();
    assert_eq!(err, SubmissionError::WrongArtifactKind);

    // Empty note sets cannot be submitted.
    let err = submit(&mut session, counter_contract.id, Intent::ProduceNotes(vec![])).unwrap_err();
    assert_eq!(err, SubmissionError::EmptyNoteSet);
    let err = submit(
        &mut session,
        counter_contract.id,
        Intent::ConsumeNotes(vec![]),
    )
    .unwrap_err();
    assert_eq!(err, SubmissionError::EmptyNoteSet);

    // A remote rejection is reported, not retried.
    assert_eq!(
        apply_submission_ack(SubmitAck::Rejected).unwrap_err(),
        SubmissionError::RemoteRejected
    );
}

#[test]
fn note_creation_failures_are_exact() {
    let mut session = Session::new();
    let (alice_account, _key) = create_basic_account(&mut session);
    let library = create_library(COUNTER_CODE.to_string(), LIBRARY_PATH).unwrap();
    let target = create_network_account().0.id;

    // An empty note source is a compile failure.
    let err = create_network_note(&mut session, "", &library, &alice_account, target).unwrap_err();
    assert_eq!(err, WorkflowError::Compile(CompileError::EmptySource));

    // A creator the session does not know is a submission failure.
    let stranger = create_network_account().0;
    let err = create_network_note(
        &mut session,
        INCREMENT_NOTE,
        &library,
        &stranger,
        target,
    )
    .unwrap_err();
    assert_eq!(
        err,
        WorkflowError::Submission(SubmissionError::AccountNotFound)
    );

    // The private variant fails the same way.
    let err =
        create_private_note(&mut session, "", &library, &alice_account, vec![]).unwrap_err();
    assert_eq!(err, WorkflowError::Compile(CompileError::EmptySource));
}

#[test]
fn import_of_unknown_account_is_not_found() {
    let mut session = Session::new();
    let err = session.import_account(None).unwrap_err();
    assert_eq!(
        err,
        WorkflowError::NotFound(ledger_workflow::errors::NotFoundError::Account)
    );
}
