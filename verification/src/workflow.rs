//! The transaction orchestrator and the workflow-level entity helpers.
//!
//! Submission assembles a transaction from an intent against one account
//! of the session, executes the local checks, and hands the result to the
//! remote authority: a successful call returns a handle with the stable
//! transaction id to poll for, and promises nothing about remote
//! acceptance — that is only known once a wait observes `Committed`.
//! Local failure is fatal and reported at once; a remote rejection is
//! reported and never retried automatically.  The helpers build the
//! workflow's standard entities: a basic wallet account, counter contract
//! accounts, and increment notes dispatched to the network or kept
//! private.

use vstd::prelude::*;
use crate::account::{
    build_account, comps_view, AccountComponent, AccountId, AccountKind, Account, Counter,
    counter_component_model, ComponentModel, components_storage, all_components, layout_ok,
    storage_all_valid, combined_storage, supports, FALCON_AUTH_CODE, NO_AUTH_CODE,
};
use crate::compiler::{compile_note_script, script_digest, ArtifactKind, Library};
use crate::errors::{CompileError, SubmissionError, WorkflowError};
use crate::field::Word;
use crate::note::{
    build_note, note_metadata_for, tag_of, ExecutionHint, Note, NoteDispatch,
};
use crate::rng::draw_word;
use crate::session::{
    accounts_upserted, has_account, has_tx, session_tracks, statuses_advanced, Session,
};
use crate::tx::{
    derive_tx_id, intent_error, intent_valid, status_transition_allowed, tx_id_of, validate_intent,
    Intent, IntentModel, TransactionHandle, TransactionId, TransactionStatus,
};

verus! {

/// How submission changes the session's transaction store, and nothing
/// else: a fresh id is appended as pending; an id already tracked —
/// a resubmission — keeps its recorded status, a terminal one in
/// particular.
pub open spec fn pending_recorded(
    old_txs: Seq<(TransactionId, TransactionStatus)>,
    new_txs: Seq<(TransactionId, TransactionStatus)>,
    id: TransactionId,
) -> bool {
    if has_tx(old_txs, id) {
        exists|i: int|
            0 <= i < old_txs.len() && (#[trigger] old_txs[i]).0 == id && new_txs == old_txs.update(
                i,
                (
                    id,
                    if status_transition_allowed(old_txs[i].1, TransactionStatus::Pending) {
                        TransactionStatus::Pending
                    } else {
                        old_txs[i].1
                    },
                ),
            )
    } else {
        new_txs == old_txs.push((id, TransactionStatus::Pending))
    }
}

/// Submits an intent against an account: builds the transaction request,
/// runs the local checks, records the transaction as pending, and returns
/// the handle to poll for.  The account must be known to the session and
/// the intent must pass local execution — either failure is fatal for
/// this attempt and leaves the session untouched.  Success promises a
/// stable id, not remote acceptance.
pub fn submit(session: &mut Session, account_id: AccountId, intent: Intent) -> (r: Result<
    TransactionHandle,
    SubmissionError,
>)
    requires
        old(session).wf(),
    ensures
        final(session).wf(),
        final(session).accounts@ == old(session).accounts@,
        final(session).notes@ == old(session).notes@,
        final(session).keys@ == old(session).keys@,
        r is Ok <==> (has_account(old(session).accounts@, account_id) && intent_valid(intent@)),
        r matches Err(e) ==> {
            &&& *final(session) == *old(session)
            &&& if !has_account(old(session).accounts@, account_id) {
                e == SubmissionError::AccountNotFound
            } else {
                e == intent_error(intent@) && !intent_valid(intent@)
            }
        },
        r matches Ok(h) ==> {
            &&& h.id == tx_id_of(account_id, intent@)
            &&& h.account == account_id
            &&& has_tx(final(session).transactions@, h.id)
            &&& statuses_advanced(old(session).transactions@, final(session).transactions@)
            &&& pending_recorded(old(session).transactions@, final(session).transactions@, h.id)
        },
{
    if session.get_account(account_id).is_none() {
        return Err(SubmissionError::AccountNotFound);
    }
    match validate_intent(&intent) {
        Ok(()) => (),
        Err(e) => {
            return Err(e);
        },
    }
    let id = derive_tx_id(account_id, &intent);
    session.record_status(id, TransactionStatus::Pending);
    Ok(TransactionHandle { id, account: account_id })
}

/// The remote authority's answer to a forwarded transaction.
#[derive(Clone, Copy, Debug, PartialEq, Eq, Structural)]
pub enum SubmitAck {
    Accepted,
    Rejected,
}

/// Turns the remote authority's answer into the submission outcome: a
/// rejection is reported as a [`SubmissionError`] and is never retried
/// here — the caller may re-submit with fresh state if desired.
pub fn apply_submission_ack(ack: SubmitAck) -> (r: Result<(), SubmissionError>)
    ensures
        r is Ok <==> ack == SubmitAck::Accepted,
        r matches Err(e) ==> e == SubmissionError::RemoteRejected,
{
    match ack {
        SubmitAck::Accepted => Ok(()),
        SubmitAck::Rejected => Err(SubmissionError::RemoteRejected),
    }
}

/// Proves that the fixed component lists the helpers build with always
/// pass the layout checks.
proof fn lemma_two_component_layout_ok(kind: AccountKind, auth: ComponentModel, c: ComponentModel)
    requires
        supports(auth, kind),
        supports(c, kind),
        storage_all_valid(auth.storage),
        storage_all_valid(c.storage),
        auth.storage.len() + c.storage.len() <= 255,
    ensures
        layout_ok(kind, auth, seq![c]),
        combined_storage(auth, seq![c]) == auth.storage + c.storage,
{
    let all = all_components(auth, seq![c]);
    assert(all.len() == 2);
    assert(all[0] == auth);
    assert(all[1] == c);
    assert forall|i: int| 0 <= i < all.len() implies supports(#[trigger] all[i], kind) by {
        if i == 0 {
        } else {
            assert(all[i] == c);
        }
    }
    assert(all.drop_last() =~= seq![auth]);
    assert(seq![auth].drop_last() =~= Seq::<ComponentModel>::empty());
    assert(components_storage(Seq::<ComponentModel>::empty()) =~= Seq::<Word>::empty());
    assert(components_storage(seq![auth]) =~= auth.storage);
    assert(components_storage(all) =~= auth.storage + c.storage);
    let stor = combined_storage(auth, seq![c]);
    assert forall|i: int| 0 <= i < stor.len() implies (#[trigger] stor[i]).is_valid() by {
        if i < auth.storage.len() {
            assert(stor[i] == auth.storage[i]);
        } else {
            assert(stor[i] == c.storage[i - auth.storage.len()]);
        }
    }
}

/// Creates a basic wallet account with signature authentication.
///
/// The account has updatable code, public storage, and the basic wallet
/// component; its authentication key is drawn fresh, stored in the
/// session's key material, and returned beside the account.  Its single
/// storage slot holds the public key; its id is derived from a fresh seed
/// and the component list.
pub fn create_basic_account(session: &mut Session) -> (r: (Account, Word))
    requires
        old(session).wf(),
    ensures
        final(session).wf(),
        r.0.kind == AccountKind::UpdatablePublic,
        r.0.auth_code == FALCON_AUTH_CODE,
        r.0.storage@ == seq![r.1],
        r.0.wf(),
        r.1.is_valid(),
        exists|seed: Word|
            r.0.built_from(
                seed,
                AccountKind::UpdatablePublic,
                AccountComponent::falcon_auth_model(r.1),
                seq![AccountComponent::basic_wallet_model()],
            ),
        session_tracks(final(session).accounts@, r.0),
        accounts_upserted(old(session).accounts@, final(session).accounts@, r.0),
        final(session).keys@ == old(session).keys@.push(r.1),
        final(session).transactions@ == old(session).transactions@,
        final(session).notes@ == old(session).notes@,
{
    let seed = draw_word();
    let key_pair = draw_word();
    let auth = AccountComponent::falcon_auth(key_pair);
    let wallet = AccountComponent::basic_wallet();
    let mut components: Vec<AccountComponent> = Vec::new();
    components.push(wallet);
    proof {
        assert(comps_view(components@) =~= seq![AccountComponent::basic_wallet_model()]);
        lemma_two_component_layout_ok(
            AccountKind::UpdatablePublic,
            AccountComponent::falcon_auth_model(key_pair),
            AccountComponent::basic_wallet_model(),
        );
        assert(combined_storage(
            AccountComponent::falcon_auth_model(key_pair),
            seq![AccountComponent::basic_wallet_model()],
        ) =~= seq![key_pair]);
    }
    let built = build_account(seed, AccountKind::UpdatablePublic, auth, components);
    let account = match built {
        Ok(a) => a,
        Err(_) => unreached(),
    };
    let copy = account.clone();
    let ghost cp = copy;
    let ghost before = session.accounts@;
    session.upsert_account(copy);
    proof {
        assert(crate::session::same_account_state(cp, account));
        if crate::session::has_account(before, cp.id) {
            let u = choose|u: int|
                0 <= u < before.len() && (#[trigger] before[u]).id == cp.id
                    && session.accounts@ == before.update(u, cp);
            assert(session.accounts@[u] == cp);
            assert(session_tracks(session.accounts@, account));
        } else {
            let n = before.len() as int;
            assert(session.accounts@[n] == cp);
            assert(session_tracks(session.accounts@, account));
        }
        assert(accounts_upserted(before, session.accounts@, account));
    }
    session.add_key(key_pair);
    (account, key_pair)
}

/// Creates a counter contract account that the network executes: code
/// immutable, storage visible to the network, no authentication, and one
/// counter slot initialized to zero.  The fresh seed the id was derived
/// from is returned beside the account.
pub fn create_network_account() -> (r: (Account, Word))
    ensures
        r.0.kind == AccountKind::ImmutableNetwork,
        r.0.auth_code == NO_AUTH_CODE,
        r.0.storage@ == seq![Word { e0: 0, e1: 0, e2: 0, e3: 0 }],
        r.0.wf(),
        r.0.built_from(
            r.1,
            AccountKind::ImmutableNetwork,
            AccountComponent::no_auth_model(),
            seq![counter_component_model(0)],
        ),
{
    build_counter_account(AccountKind::ImmutableNetwork)
}

/// Creates a public counter contract account: like the network account,
/// but consumed by explicit transactions rather than by the network.
pub fn create_public_account() -> (r: (Account, Word))
    ensures
        r.0.kind == AccountKind::ImmutablePublic,
        r.0.auth_code == NO_AUTH_CODE,
        r.0.storage@ == seq![Word { e0: 0, e1: 0, e2: 0, e3: 0 }],
        r.0.wf(),
        r.0.built_from(
            r.1,
            AccountKind::ImmutablePublic,
            AccountComponent::no_auth_model(),
            seq![counter_component_model(0)],
        ),
{
    build_counter_account(AccountKind::ImmutablePublic)
}

/// Builds a zero-initialized counter contract account of the given kind
/// from a fresh seed.
fn build_counter_account(kind: AccountKind) -> (r: (Account, Word))
    ensures
        r.0.kind == kind,
        r.0.auth_code == NO_AUTH_CODE,
        r.0.storage@ == seq![Word { e0: 0, e1: 0, e2: 0, e3: 0 }],
        r.0.wf(),
        r.0.built_from(
            r.1,
            kind,
            AccountComponent::no_auth_model(),
            seq![counter_component_model(0)],
        ),
{
    let seed = draw_word();
    let counter_component = Counter::default();
    let comp = counter_component.component();
    let auth = AccountComponent::no_auth();
    let mut components: Vec<AccountComponent> = Vec::new();
    components.push(comp);
    proof {
        assert(comps_view(components@) =~= seq![counter_component_model(0)]);
        assert(counter_component_model(0).storage =~= seq![
            Word { e0: 0, e1: 0, e2: 0, e3: 0 },
        ]);
        assert(storage_all_valid(counter_component_model(0).storage));
        lemma_two_component_layout_ok(
            kind,
            AccountComponent::no_auth_model(),
            counter_component_model(0),
        );
        assert(combined_storage(AccountComponent::no_auth_model(), seq![
            counter_component_model(0),
        ]) =~= seq![Word { e0: 0, e1: 0, e2: 0, e3: 0 }]);
    }
    let built = build_account(seed, kind, auth, components);
    let account = match built {
        Ok(a) => a,
        Err(_) => unreached(),
    };
    (account, seed)
}

/// Creates a note dispatched to the network and submits it.
///
/// The note's script is compiled from the given source against the given
/// account library, its tag is derived from the *target* account expected
/// to consume it, and a produce-notes transaction is submitted against
/// the creator.  The returned handle carries the stable transaction id to
/// poll for.  An empty source is a compile failure; a creator unknown to
/// the session is a submission failure; either leaves the session
/// untouched.
pub fn create_network_note(
    session: &mut Session,
    note_code: &str,
    account_library: &Library,
    creator_account: &Account,
    counter_contract_id: AccountId,
) -> (r: Result<(Note, TransactionHandle), WorkflowError>)
    requires
        old(session).wf(),
    ensures
        final(session).wf(),
        final(session).accounts@ == old(session).accounts@,
        final(session).notes@ == old(session).notes@,
        final(session).keys@ == old(session).keys@,
        r is Ok <==> (note_code@.len() > 0 && has_account(
            old(session).accounts@,
            creator_account.id,
        )),
        r matches Err(e) ==> {
            &&& *final(session) == *old(session)
            &&& if note_code@.len() == 0 {
                e == WorkflowError::Compile(CompileError::EmptySource)
            } else {
                e == WorkflowError::Submission(SubmissionError::AccountNotFound)
                    && !has_account(old(session).accounts@, creator_account.id)
            }
        },
        r matches Ok((n, h)) ==> {
            &&& n.metadata == note_metadata_for(
                creator_account.id,
                NoteDispatch::Network { target: counter_contract_id },
                ExecutionHint::NoHint,
            )
            &&& n.metadata.tag == tag_of(counter_contract_id)
            &&& n.recipient@.script.kind == ArtifactKind::NoteScript
            &&& n.recipient@.script.digest == script_digest(
                seq![account_library.digest],
                note_code@,
            )
            &&& n.recipient@.inputs.len() == 0
            &&& n.assets@.len() == 0
            &&& n.recipient@.serial.is_valid()
            &&& h.account == creator_account.id
            &&& h.id == tx_id_of(creator_account.id, IntentModel::ProduceNotes(seq![n@]))
            &&& has_tx(final(session).transactions@, h.id)
            &&& statuses_advanced(old(session).transactions@, final(session).transactions@)
            &&& pending_recorded(old(session).transactions@, final(session).transactions@, h.id)
        },
{
    let mut libraries: Vec<Library> = Vec::new();
    libraries.push(account_library.clone());
    proof {
        assert(crate::compiler::libs_digests(libraries@) =~= seq![account_library.digest]);
    }
    let script = match compile_note_script(note_code, &libraries) {
        Ok(s) => s,
        Err(e) => {
            return Err(WorkflowError::Compile(e));
        },
    };
    let note = match build_note(
        script,
        Vec::new(),
        Vec::new(),
        creator_account.id,
        NoteDispatch::Network { target: counter_contract_id },
        ExecutionHint::NoHint,
    ) {
        Ok(n) => n,
        Err(_) => unreached(),
    };
    let note_copy = note.clone();
    let mut notes: Vec<Note> = Vec::new();
    notes.push(note_copy);
    proof {
        assert(notes@.map_values(|n: Note| n@) =~= seq![note@]);
    }
    let handle = match submit(session, creator_account.id, Intent::ProduceNotes(notes)) {
        Ok(h) => h,
        Err(e) => {
            return Err(WorkflowError::Submission(e));
        },
    };
    Ok((note, handle))
}

/// Creates a private note and submits it.
///
/// The note's script is compiled from the given source against the given
/// account library, its tag is derived from the *creator* account, and a
/// produce-notes transaction carrying the note and the given assets is
/// submitted against the creator.  Failures mirror
/// [`create_network_note`].
pub fn create_private_note(
    session: &mut Session,
    note_code: &str,
    account_library: &Library,
    creator_account: &Account,
    assets: Vec<Word>,
) -> (r: Result<Note, WorkflowError>)
    requires
        old(session).wf(),
    ensures
        final(session).wf(),
        final(session).accounts@ == old(session).accounts@,
        final(session).notes@ == old(session).notes@,
        final(session).keys@ == old(session).keys@,
        r is Ok <==> (note_code@.len() > 0 && has_account(
            old(session).accounts@,
            creator_account.id,
        )),
        r matches Err(e) ==> {
            &&& *final(session) == *old(session)
            &&& if note_code@.len() == 0 {
                e == WorkflowError::Compile(CompileError::EmptySource)
            } else {
                e == WorkflowError::Submission(SubmissionError::AccountNotFound)
                    && !has_account(old(session).accounts@, creator_account.id)
            }
        },
        r matches Ok(n) ==> {
            &&& n.metadata == note_metadata_for(
                creator_account.id,
                NoteDispatch::Private,
                ExecutionHint::NoHint,
            )
            &&& n.metadata.tag == tag_of(creator_account.id)
            &&& n.recipient@.script.kind == ArtifactKind::NoteScript
            &&& n.recipient@.script.digest == script_digest(
                seq![account_library.digest],
                note_code@,
            )
            &&& n.recipient@.inputs.len() == 0
            &&& n.assets@ == assets@
            &&& n.recipient@.serial.is_valid()
            &&& has_tx(
                final(session).transactions@,
                tx_id_of(creator_account.id, IntentModel::ProduceNotes(seq![n@])),
            )
            &&& statuses_advanced(old(session).transactions@, final(session).transactions@)
            &&& pending_recorded(
                old(session).transactions@,
                final(session).transactions@,
                tx_id_of(creator_account.id, IntentModel::ProduceNotes(seq![n@])),
            )
        },
{
    let mut libraries: Vec<Library> = Vec::new();
    libraries.push(account_library.clone());
    proof {
        assert(crate::compiler::libs_digests(libraries@) =~= seq![account_library.digest]);
    }
    let script = match compile_note_script(note_code, &libraries) {
        Ok(s) => s,
        Err(e) => {
            return Err(WorkflowError::Compile(e));
        },
    };
    let note = match build_note(
        script,
        Vec::new(),
        assets,
        creator_account.id,
        NoteDispatch::Private,
        ExecutionHint::NoHint,
    ) {
        Ok(n) => n,
        Err(_) => unreached(),
    };
    let note_copy = note.clone();
    let mut notes: Vec<Note> = Vec::new();
    notes.push(note_copy);
    proof {
        assert(notes@.map_values(|n: Note| n@) =~= seq![note@]);
    }
    match submit(session, creator_account.id, Intent::ProduceNotes(notes)) {
        Ok(_) => Ok(note),
        Err(e) => Err(WorkflowError::Submission(e)),
    }
}

} // verus!
