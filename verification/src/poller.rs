//! The commitment poller.
//!
//! A wait blocks a workflow until a watched condition — a transaction
//! committed, a note observable and its transaction committed — becomes
//! true, by repeatedly resynchronizing the session from the remote
//! authority and re-evaluating the condition.  Each round either reports
//! an observation or fails; a failed resynchronization aborts the wait at
//! once (fail-fast), while an observation that does not yet meet the
//! condition simply continues the loop.  The wait takes an optional
//! deadline in rounds; without one it runs as long as rounds come —
//! the reference behaviour, preserved as the default.
//!
//! An open question of the design is deliberately kept: the loop does not
//! treat a transaction observed as `Discarded` as terminal — it looks
//! only for `Committed`, so a discarded transaction keeps the wait
//! pending until its deadline or its rounds run out.
//!
//! The functions here consume a finite script of rounds, as a scripted
//! remote authority produces; the application edge feeds a live remote's
//! answers through the same one-round logic.

use vstd::prelude::*;
use crate::account::Account;
use crate::errors::ResyncError;
use crate::session::{
    has_account, has_account_entry, has_note, has_tx, has_tx_entry, merged_status,
    same_account_state, session_tracks, statuses_advanced, tx_status_recorded,
    unique_account_ids, unique_tx_ids, Session,
};
use crate::tx::{status_transition_allowed, TransactionId, TransactionStatus};

verus! {

/// What one resynchronization reports: the latest block, status lookups
/// for watched transactions, the notes currently consumable for the
/// queried owner, the notes observed committed, and current account
/// states.
pub struct SyncObservation {
    pub block_num: u32,
    pub tx_statuses: Vec<(TransactionId, TransactionStatus)>,
    pub consumable_notes: Vec<u64>,
    pub committed_notes: Vec<u64>,
    pub accounts: Vec<Account>,
}

impl SyncObservation {
    /// A well-formed observation reports each transaction and account at
    /// most once.
    pub open spec fn wf(&self) -> bool {
        &&& unique_tx_ids(self.tx_statuses@)
        &&& unique_account_ids(self.accounts@)
    }
}

/// Whether the observation reports the transaction as committed.
pub open spec fn tx_committed_in(obs: SyncObservation, id: TransactionId) -> bool {
    exists|i: int|
        0 <= i < obs.tx_statuses@.len() && (#[trigger] obs.tx_statuses@[i]).0 == id
            && obs.tx_statuses@[i].1 is Committed
}

/// Re-evaluates the committed-transaction predicate on an observation.
pub fn transaction_committed(obs: &SyncObservation, id: TransactionId) -> (r: bool)
    ensures
        r == tx_committed_in(*obs, id),
{
    let mut i: usize = 0;
    while i < obs.tx_statuses.len()
        invariant
            i <= obs.tx_statuses.len(),
            forall|j: int|
                0 <= j < i ==> !((#[trigger] obs.tx_statuses@[j]).0 == id && obs.tx_statuses@[j].1
                    is Committed),
        decreases obs.tx_statuses.len() - i,
    {
        let (tid, st) = obs.tx_statuses[i];
        if tid.value == id.value && matches!(st, TransactionStatus::Committed { .. }) {
            proof {
                assert(obs.tx_statuses@[i as int].0 == id);
            }
            return true;
        }
        i = i + 1;
    }
    false
}

/// Whether the observation shows the note: consumable now, or already
/// committed.
pub open spec fn note_observable_in(obs: SyncObservation, note_id: u64) -> bool {
    has_note(obs.consumable_notes@, note_id) || has_note(obs.committed_notes@, note_id)
}

/// Scans a list of note ids.
fn contains_id(v: &Vec<u64>, id: u64) -> (r: bool)
    ensures
        r == has_note(v@, id),
{
    let mut i: usize = 0;
    while i < v.len()
        invariant
            i <= v.len(),
            forall|j: int| 0 <= j < i ==> #[trigger] v@[j] != id,
        decreases v.len() - i,
    {
        if v[i] == id {
            return true;
        }
        i = i + 1;
    }
    false
}

/// Re-evaluates the observable-note predicate on an observation.
pub fn note_observable(obs: &SyncObservation, note_id: u64) -> (r: bool)
    ensures
        r == note_observable_in(*obs, note_id),
{
    contains_id(&obs.consumable_notes, note_id) || contains_id(&obs.committed_notes, note_id)
}

/// The condition a note wait blocks on: the note observable and its
/// transaction committed.
pub open spec fn note_wait_met(obs: SyncObservation, note_id: u64, tx_id: TransactionId) -> bool {
    note_observable_in(obs, note_id) && tx_committed_in(obs, tx_id)
}

/// Whether the observation reports a status for this transaction id.
pub open spec fn reports_tx(obs: SyncObservation, id: TransactionId) -> bool {
    exists|k: int| 0 <= k < obs.tx_statuses@.len() && (#[trigger] obs.tx_statuses@[k]).0 == id
}

/// Whether the observation reports a state for this account id.
pub open spec fn reports_account(obs: SyncObservation, id: crate::account::AccountId) -> bool {
    exists|k: int| 0 <= k < obs.accounts@.len() && (#[trigger] obs.accounts@[k]).id == id
}

/// The session reflects everything one observation reported: each
/// reported account state is tracked as reported, each reported
/// transaction id is recorded, and each committed note id is known.
pub open spec fn observation_reconciled(session: Session, obs: SyncObservation) -> bool {
    &&& forall|k: int|
        0 <= k < obs.accounts@.len() ==> session_tracks(
            session.accounts@,
            #[trigger] obs.accounts@[k],
        )
    &&& forall|k: int|
        0 <= k < obs.tx_statuses@.len() ==> has_tx(
            session.transactions@,
            (#[trigger] obs.tx_statuses@[k]).0,
        )
    &&& forall|k: int|
        0 <= k < obs.committed_notes@.len() ==> has_note(
            session.notes@,
            #[trigger] obs.committed_notes@[k],
        )
}

/// Whether one of the first `t` status reports concerns this id.
spec fn tx_reported_before(
    sts: Seq<(TransactionId, TransactionStatus)>,
    t: int,
    id: TransactionId,
) -> bool {
    exists|k: int| 0 <= k < t && (#[trigger] sts[k]).0 == id
}

/// Reconciles the session with one observation: every reported account
/// state is recorded as reported, every reported transaction status is
/// recorded under the lifecycle merge, and every committed note becomes
/// known — and nothing else changes: an account or transaction the
/// observation does not mention keeps its entry exactly, notes only
/// accumulate, and nothing appears that was neither tracked before nor
/// reported.  Statuses move only along allowed lifecycle transitions: a
/// terminal status never changes.
pub fn apply_sync(session: &mut Session, obs: &SyncObservation)
    requires
        old(session).wf(),
        obs.wf(),
    ensures
        final(session).wf(),
        final(session).keys@ == old(session).keys@,
        statuses_advanced(old(session).transactions@, final(session).transactions@),
        observation_reconciled(*final(session), *obs),
        forall|k: int|
            0 <= k < obs.tx_statuses@.len() ==> tx_status_recorded(
                old(session).transactions@,
                final(session).transactions@,
                #[trigger] obs.tx_statuses@[k],
            ),
        forall|i: int|
            0 <= i < old(session).accounts@.len() && !reports_account(
                *obs,
                (#[trigger] old(session).accounts@[i]).id,
            ) ==> has_account_entry(final(session).accounts@, old(session).accounts@[i]),
        forall|i: int|
            0 <= i < old(session).transactions@.len() && !reports_tx(
                *obs,
                (#[trigger] old(session).transactions@[i]).0,
            ) ==> has_tx_entry(final(session).transactions@, old(session).transactions@[i]),
        old(session).notes@.len() <= final(session).notes@.len(),
        final(session).notes@.take(old(session).notes@.len() as int) == old(session).notes@,
        forall|j: int|
            0 <= j < final(session).accounts@.len() ==> has_account(
                old(session).accounts@,
                (#[trigger] final(session).accounts@[j]).id,
            ) || reports_account(*obs, final(session).accounts@[j].id),
        forall|j: int|
            0 <= j < final(session).transactions@.len() ==> has_tx(
                old(session).transactions@,
                (#[trigger] final(session).transactions@[j]).0,
            ) || reports_tx(*obs, final(session).transactions@[j].0),
        forall|j: int|
            0 <= j < final(session).notes@.len() ==> has_note(
                old(session).notes@,
                #[trigger] final(session).notes@[j],
            ) || has_note(obs.committed_notes@, final(session).notes@[j]),
{
    proof {
        assert forall|j: int|
            0 <= j < old(session).accounts@.len() && !reports_account(
                *obs,
                (#[trigger] old(session).accounts@[j]).id,
            ) implies has_account_entry(session.accounts@, old(session).accounts@[j]) by {
            assert(session.accounts@[j] == old(session).accounts@[j]);
        }
    }
    let mut i: usize = 0;
    while i < obs.accounts.len()
        invariant
            i <= obs.accounts.len(),
            obs.wf(),
            session.wf(),
            session.keys@ == old(session).keys@,
            session.transactions@ == old(session).transactions@,
            session.notes@ == old(session).notes@,
            forall|k: int|
                0 <= k < i ==> session_tracks(session.accounts@, #[trigger] obs.accounts@[k]),
            forall|j: int|
                0 <= j < session.accounts@.len() ==> has_account(
                    old(session).accounts@,
                    (#[trigger] session.accounts@[j]).id,
                ) || reports_account(*obs, session.accounts@[j].id),
            forall|j: int|
                0 <= j < old(session).accounts@.len() && !reports_account(
                    *obs,
                    (#[trigger] old(session).accounts@[j]).id,
                ) ==> has_account_entry(session.accounts@, old(session).accounts@[j]),
        decreases obs.accounts.len() - i,
    {
        let ghost before = session.accounts@;
        let copied = obs.accounts[i].clone();
        let ghost cp = copied;
        session.upsert_account(copied);
        proof {
            let a = obs.accounts@[i as int];
            assert(cp.id == a.id);
            assert(same_account_state(cp, a));
            assert(reports_account(*obs, cp.id));
            // The state just recorded is tracked.
            if has_account(before, cp.id) {
                let u = choose|u: int|
                    0 <= u < before.len() && (#[trigger] before[u]).id == cp.id
                        && session.accounts@ == before.update(u, cp);
                assert(session.accounts@[u] == cp);
            } else {
                assert(session.accounts@[before.len() as int] == cp);
            }
            assert(session_tracks(session.accounts@, a));
            // States recorded by earlier iterations stay tracked: the
            // observation reports each account id once.
            assert forall|k: int| 0 <= k < i + 1 implies session_tracks(
                session.accounts@,
                #[trigger] obs.accounts@[k],
            ) by {
                if k < i {
                    assert(obs.accounts@[k].id != obs.accounts@[i as int].id);
                    crate::session::lemma_tracked_preserved(
                        before,
                        session.accounts@,
                        cp,
                        obs.accounts@[k],
                    );
                }
            }
            // Accounts the observation does not mention are untouched.
            assert forall|j: int|
                0 <= j < old(session).accounts@.len() && !reports_account(
                    *obs,
                    (#[trigger] old(session).accounts@[j]).id,
                ) implies has_account_entry(session.accounts@, old(session).accounts@[j]) by {
                crate::session::lemma_account_entry_preserved(
                    before,
                    session.accounts@,
                    cp,
                    old(session).accounts@[j],
                );
            }
            // Provenance: everything tracked is old or reported.
            assert forall|j: int| 0 <= j < session.accounts@.len() implies has_account(
                old(session).accounts@,
                (#[trigger] session.accounts@[j]).id,
            ) || reports_account(*obs, session.accounts@[j].id) by {
                if has_account(before, cp.id) {
                    let u = choose|u: int|
                        0 <= u < before.len() && (#[trigger] before[u]).id == cp.id
                            && session.accounts@ == before.update(u, cp);
                    if j == u {
                        assert(session.accounts@[j].id == obs.accounts@[i as int].id);
                        assert(reports_account(*obs, session.accounts@[j].id));
                    } else {
                        assert(session.accounts@[j] == before[j]);
                    }
                } else {
                    if j < before.len() {
                        assert(session.accounts@[j] == before[j]);
                    } else {
                        assert(session.accounts@[j] == cp);
                        assert(reports_account(*obs, session.accounts@[j].id));
                    }
                }
            }
        }
        i = i + 1;
    }
    proof {
        crate::session::lemma_statuses_advanced_refl(session.transactions@);
    }
    let mut t: usize = 0;
    while t < obs.tx_statuses.len()
        invariant
            t <= obs.tx_statuses.len(),
            obs.wf(),
            session.wf(),
            session.keys@ == old(session).keys@,
            session.notes@ == old(session).notes@,
            forall|k: int|
                0 <= k < obs.accounts@.len() ==> session_tracks(
                    session.accounts@,
                    #[trigger] obs.accounts@[k],
                ),
            forall|j: int|
                0 <= j < session.accounts@.len() ==> has_account(
                    old(session).accounts@,
                    (#[trigger] session.accounts@[j]).id,
                ) || reports_account(*obs, session.accounts@[j].id),
            forall|j: int|
                0 <= j < old(session).accounts@.len() && !reports_account(
                    *obs,
                    (#[trigger] old(session).accounts@[j]).id,
                ) ==> has_account_entry(session.accounts@, old(session).accounts@[j]),
            statuses_advanced(old(session).transactions@, session.transactions@),
            forall|k: int|
                0 <= k < t ==> tx_status_recorded(
                    old(session).transactions@,
                    session.transactions@,
                    #[trigger] obs.tx_statuses@[k],
                ),
            forall|i2: int|
                0 <= i2 < old(session).transactions@.len() && !tx_reported_before(
                    obs.tx_statuses@,
                    t as int,
                    (#[trigger] old(session).transactions@[i2]).0,
                ) ==> has_tx_entry(session.transactions@, old(session).transactions@[i2]),
            forall|j: int|
                0 <= j < session.transactions@.len() ==> has_tx(
                    old(session).transactions@,
                    (#[trigger] session.transactions@[j]).0,
                ) || tx_reported_before(obs.tx_statuses@, t as int, session.transactions@[j].0),
        decreases obs.tx_statuses.len() - t,
    {
        let ghost old_txs = old(session).transactions@;
        let ghost before = session.transactions@;
        let (tid, st) = obs.tx_statuses[t];
        session.record_status(tid, st);
        proof {
            assert(tid == obs.tx_statuses@[t as int].0);
            assert(st == obs.tx_statuses@[t as int].1);
            // The id just recorded is not among the earlier reports.
            assert(!tx_reported_before(obs.tx_statuses@, t as int, tid)) by {
                if tx_reported_before(obs.tx_statuses@, t as int, tid) {
                    let k0 = choose|k0: int|
                        0 <= k0 < t && (#[trigger] obs.tx_statuses@[k0]).0 == tid;
                    assert(obs.tx_statuses@[k0].0 != obs.tx_statuses@[t as int].0);
                }
            }
            crate::session::lemma_statuses_advanced_transitive(
                old_txs,
                before,
                session.transactions@,
            );
            // Restate the recording in terms of `merged_status`.
            let ghost rec_shape = if has_tx(before, tid) {
                exists|u: int|
                    0 <= u < before.len() && (#[trigger] before[u]).0 == tid
                        && session.transactions@ == before.update(
                        u,
                        (tid, merged_status(before[u].1, st)),
                    )
            } else {
                session.transactions@ == before.push((tid, st))
            };
            assert(rec_shape);
            // The report just consumed is recorded with the lifecycle
            // merge over the status the session held for it before this
            // reconciliation.
            assert(tx_status_recorded(old_txs, session.transactions@, (tid, st))) by {
                if has_tx(old_txs, tid) {
                    let i0 = choose|i0: int|
                        0 <= i0 < old_txs.len() && (#[trigger] old_txs[i0]).0 == tid;
                    assert(has_tx_entry(before, old_txs[i0]));
                    let w = choose|w: int|
                        0 <= w < before.len() && #[trigger] before[w] == old_txs[i0];
                    assert(has_tx(before, tid));
                    let u = choose|u: int|
                        0 <= u < before.len() && (#[trigger] before[u]).0 == tid
                            && session.transactions@ == before.update(
                            u,
                            (tid, merged_status(before[u].1, st)),
                        );
                    if w != u {
                        if w < u {
                            assert(before[w].0 != before[u].0);
                        } else {
                            assert(before[u].0 != before[w].0);
                        }
                        assert(false);
                    }
                    assert(before[u].1 == old_txs[i0].1);
                    assert(session.transactions@[u] == (tid, merged_status(old_txs[i0].1, st)));
                    assert(has_tx_entry(
                        session.transactions@,
                        (tid, merged_status(old_txs[i0].1, st)),
                    ));
                } else {
                    assert(!has_tx(before, tid)) by {
                        if has_tx(before, tid) {
                            let j0 = choose|j0: int|
                                0 <= j0 < before.len() && (#[trigger] before[j0]).0 == tid;
                            assert(has_tx(old_txs, before[j0].0) || tx_reported_before(
                                obs.tx_statuses@,
                                t as int,
                                before[j0].0,
                            ));
                            assert(false);
                        }
                    }
                    assert(session.transactions@ == before.push((tid, st)));
                    assert(session.transactions@[before.len() as int] == (tid, st));
                    assert(has_tx_entry(session.transactions@, (tid, st)));
                }
            }
            // Reports consumed by earlier iterations stay recorded: the
            // observation reports each transaction id once.
            assert forall|k: int| 0 <= k < t + 1 implies tx_status_recorded(
                old_txs,
                session.transactions@,
                #[trigger] obs.tx_statuses@[k],
            ) by {
                if k < t {
                    let entry = obs.tx_statuses@[k];
                    assert(entry.0 != tid);
                    if has_tx(old_txs, entry.0) {
                        let i0 = choose|i0: int|
                            0 <= i0 < old_txs.len() && (#[trigger] old_txs[i0]).0 == entry.0
                                && has_tx_entry(
                                before,
                                (entry.0, merged_status(old_txs[i0].1, entry.1)),
                            );
                        crate::session::lemma_tx_entry_preserved(
                            before,
                            session.transactions@,
                            tid,
                            st,
                            (entry.0, merged_status(old_txs[i0].1, entry.1)),
                        );
                    } else {
                        crate::session::lemma_tx_entry_preserved(
                            before,
                            session.transactions@,
                            tid,
                            st,
                            entry,
                        );
                    }
                }
            }
            // Transactions the observation does not mention are untouched.
            assert forall|i2: int|
                0 <= i2 < old_txs.len() && !tx_reported_before(
                    obs.tx_statuses@,
                    t + 1,
                    (#[trigger] old_txs[i2]).0,
                ) implies has_tx_entry(session.transactions@, old_txs[i2]) by {
                assert(!tx_reported_before(obs.tx_statuses@, t as int, old_txs[i2].0));
                assert(old_txs[i2].0 != tid);
                crate::session::lemma_tx_entry_preserved(
                    before,
                    session.transactions@,
                    tid,
                    st,
                    old_txs[i2],
                );
            }
            // Provenance: everything recorded is old or reported so far.
            assert forall|j: int| 0 <= j < session.transactions@.len() implies has_tx(
                old_txs,
                (#[trigger] session.transactions@[j]).0,
            ) || tx_reported_before(obs.tx_statuses@, t + 1, session.transactions@[j].0) by {
                if has_tx(before, tid) {
                    let u = choose|u: int|
                        0 <= u < before.len() && (#[trigger] before[u]).0 == tid
                            && session.transactions@ == before.update(
                            u,
                            (tid, merged_status(before[u].1, st)),
                        );
                    if j == u {
                        assert(session.transactions@[j].0 == obs.tx_statuses@[t as int].0);
                        assert(tx_reported_before(
                            obs.tx_statuses@,
                            t + 1,
                            session.transactions@[j].0,
                        ));
                    } else {
                        assert(session.transactions@[j] == before[j]);
                        if !has_tx(old_txs, before[j].0) {
                            let k0 = choose|k0: int|
                                0 <= k0 < t && (#[trigger] obs.tx_statuses@[k0]).0 == before[j].0;
                            assert(tx_reported_before(
                                obs.tx_statuses@,
                                t + 1,
                                session.transactions@[j].0,
                            ));
                        }
                    }
                } else {
                    if j < before.len() {
                        assert(session.transactions@[j] == before[j]);
                        if !has_tx(old_txs, before[j].0) {
                            let k0 = choose|k0: int|
                                0 <= k0 < t && (#[trigger] obs.tx_statuses@[k0]).0 == before[j].0;
                            assert(tx_reported_before(
                                obs.tx_statuses@,
                                t + 1,
                                session.transactions@[j].0,
                            ));
                        }
                    } else {
                        assert(session.transactions@[j] == (tid, st));
                        assert(tx_reported_before(
                            obs.tx_statuses@,
                            t + 1,
                            session.transactions@[j].0,
                        ));
                    }
                }
            }
        }
        t = t + 1;
    }
    let mut c: usize = 0;
    while c < obs.committed_notes.len()
        invariant
            c <= obs.committed_notes.len(),
            obs.wf(),
            session.wf(),
            session.keys@ == old(session).keys@,
            forall|k: int|
                0 <= k < obs.accounts@.len() ==> session_tracks(
                    session.accounts@,
                    #[trigger] obs.accounts@[k],
                ),
            forall|j: int|
                0 <= j < session.accounts@.len() ==> has_account(
                    old(session).accounts@,
                    (#[trigger] session.accounts@[j]).id,
                ) || reports_account(*obs, session.accounts@[j].id),
            forall|j: int|
                0 <= j < old(session).accounts@.len() && !reports_account(
                    *obs,
                    (#[trigger] old(session).accounts@[j]).id,
                ) ==> has_account_entry(session.accounts@, old(session).accounts@[j]),
            statuses_advanced(old(session).transactions@, session.transactions@),
            forall|k: int|
                0 <= k < obs.tx_statuses@.len() ==> tx_status_recorded(
                    old(session).transactions@,
                    session.transactions@,
                    #[trigger] obs.tx_statuses@[k],
                ),
            forall|i2: int|
                0 <= i2 < old(session).transactions@.len() && !tx_reported_before(
                    obs.tx_statuses@,
                    obs.tx_statuses@.len() as int,
                    (#[trigger] old(session).transactions@[i2]).0,
                ) ==> has_tx_entry(session.transactions@, old(session).transactions@[i2]),
            forall|j: int|
                0 <= j < session.transactions@.len() ==> has_tx(
                    old(session).transactions@,
                    (#[trigger] session.transactions@[j]).0,
                ) || tx_reported_before(
                    obs.tx_statuses@,
                    obs.tx_statuses@.len() as int,
                    session.transactions@[j].0,
                ),
            forall|k: int|
                0 <= k < c ==> has_note(session.notes@, #[trigger] obs.committed_notes@[k]),
            forall|j: int|
                0 <= j < session.notes@.len() ==> has_note(
                    old(session).notes@,
                    #[trigger] session.notes@[j],
                ) || has_note(obs.committed_notes@, session.notes@[j]),
            old(session).notes@.len() <= session.notes@.len(),
            session.notes@.take(old(session).notes@.len() as int) == old(session).notes@,
        decreases obs.committed_notes.len() - c,
    {
        let ghost before = session.notes@;
        session.record_note(obs.committed_notes[c]);
        proof {
            assert(has_note(session.notes@, obs.committed_notes@[c as int]));
            assert forall|k: int| 0 <= k < c + 1 implies has_note(
                session.notes@,
                #[trigger] obs.committed_notes@[k],
            ) by {
                if k < c {
                    let id = obs.committed_notes@[k];
                    let w = choose|w: int| 0 <= w < before.len() && #[trigger] before[w] == id;
                    if has_note(before, obs.committed_notes@[c as int]) {
                        assert(session.notes@ == before);
                        assert(has_note(session.notes@, id));
                    } else {
                        assert(session.notes@[w] == before[w]);
                        assert(has_note(session.notes@, id));
                    }
                }
            }
            assert forall|j: int| 0 <= j < session.notes@.len() implies has_note(
                old(session).notes@,
                #[trigger] session.notes@[j],
            ) || has_note(obs.committed_notes@, session.notes@[j]) by {
                if j < before.len() {
                    assert(session.notes@[j] == before[j]);
                } else {
                    assert(session.notes@[j] == obs.committed_notes@[c as int]);
                    assert(has_note(obs.committed_notes@, session.notes@[j]));
                }
            }
            // Notes already known stay in place: the store only grows.
            assert(session.notes@.take(old(session).notes@.len() as int) =~= old(session).notes@);
        }
        c = c + 1;
    }
    proof {
        // The untouched and provenance facts over the whole report list.
        assert forall|i2: int|
            0 <= i2 < old(session).transactions@.len() && !reports_tx(
                *obs,
                (#[trigger] old(session).transactions@[i2]).0,
            ) implies has_tx_entry(session.transactions@, old(session).transactions@[i2]) by {
            let id = old(session).transactions@[i2].0;
            assert(!tx_reported_before(obs.tx_statuses@, obs.tx_statuses@.len() as int, id)) by {
                if tx_reported_before(obs.tx_statuses@, obs.tx_statuses@.len() as int, id) {
                    let k0 = choose|k0: int|
                        0 <= k0 < obs.tx_statuses@.len() && (#[trigger] obs.tx_statuses@[k0]).0
                            == id;
                    assert(reports_tx(*obs, id));
                }
            }
        }
        assert forall|j: int| 0 <= j < session.transactions@.len() implies has_tx(
            old(session).transactions@,
            (#[trigger] session.transactions@[j]).0,
        ) || reports_tx(*obs, session.transactions@[j].0) by {
            let id = session.transactions@[j].0;
            if !has_tx(old(session).transactions@, id) {
                let k0 = choose|k0: int|
                    0 <= k0 < obs.tx_statuses@.len() && (#[trigger] obs.tx_statuses@[k0]).0 == id;
                assert(reports_tx(*obs, id));
            }
        }
        // Every reported transaction id is recorded.
        assert forall|k: int| 0 <= k < obs.tx_statuses@.len() implies has_tx(
            session.transactions@,
            (#[trigger] obs.tx_statuses@[k]).0,
        ) by {
            let entry = obs.tx_statuses@[k];
            assert(tx_status_recorded(
                old(session).transactions@,
                session.transactions@,
                entry,
            ));
            if has_tx(old(session).transactions@, entry.0) {
                let i0 = choose|i0: int|
                    0 <= i0 < old(session).transactions@.len() && (#[trigger] old(
                        session,
                    ).transactions@[i0]).0 == entry.0 && has_tx_entry(
                        session.transactions@,
                        (entry.0, merged_status(old(session).transactions@[i0].1, entry.1)),
                    );
                let w = choose|w: int|
                    0 <= w < session.transactions@.len() && #[trigger] session.transactions@[w]
                        == (entry.0, merged_status(old(session).transactions@[i0].1, entry.1));
                assert(session.transactions@[w].0 == entry.0);
            } else {
                let w = choose|w: int|
                    0 <= w < session.transactions@.len() && #[trigger] session.transactions@[w]
                        == entry;
                assert(session.transactions@[w].0 == entry.0);
            }
        }
        assert(observation_reconciled(*session, *obs));
    }
}

/// The outcome of a wait.
#[derive(Debug, PartialEq, Eq)]
pub enum WaitOutcome {
    /// The condition became true; this many resynchronizations ran.
    Completed { rounds: usize },
    /// A resynchronization failed; the wait aborted on this round with
    /// the authority's error.
    Failed { error: ResyncError, rounds: usize },
    /// The deadline — or the scripted authority's rounds — ran out before
    /// the condition held.
    TimedOut { rounds: usize },
}

/// How many rounds a wait may consume: the deadline if one is given and
/// is nearer, else all the rounds there are.
pub open spec fn wait_limit(deadline: Option<usize>, len: nat) -> int {
    match deadline {
        Some(d) => if d < len {
            d as int
        } else {
            len as int
        },
        None => len as int,
    }
}

/// The first `k` rounds each reported an observation on which the wait's
/// condition did not yet hold.
pub open spec fn rounds_pending(
    rounds: Seq<Result<SyncObservation, ResyncError>>,
    met: spec_fn(SyncObservation) -> bool,
    k: int,
) -> bool {
    forall|j: int|
        0 <= j < k ==> ((#[trigger] rounds[j]) matches Ok(obs) && !met(obs))
}

/// What a wait's outcome says of the script it consumed.  Success comes
/// on the first round whose observation meets the condition; a failed
/// resynchronization aborts the wait on its own round, never later; a
/// timeout consumes the whole allowance without the condition holding.
/// Together with the outcome type's totality this pins the outcome of
/// every script.
pub open spec fn wait_contract(
    rounds: Seq<Result<SyncObservation, ResyncError>>,
    met: spec_fn(SyncObservation) -> bool,
    m: int,
    r: WaitOutcome,
) -> bool {
    &&& (r matches WaitOutcome::Completed { rounds: n } ==> {
        &&& 1 <= n <= m
        &&& rounds_pending(rounds, met, n - 1)
        &&& (rounds[n - 1] matches Ok(obs) && met(obs))
    })
    &&& (r matches WaitOutcome::Failed { error, rounds: n } ==> {
        &&& 1 <= n <= m
        &&& rounds_pending(rounds, met, n - 1)
        &&& (rounds[n - 1] matches Err(e0) && error.model() == e0.model())
    })
    &&& (r matches WaitOutcome::TimedOut { rounds: n } ==> {
        &&& n == m
        &&& rounds_pending(rounds, met, m)
    })
}

/// Waits for a transaction to be committed, against a script of
/// resynchronization rounds.  Each consumed observation is reconciled
/// into the session; the wait returns success on the first round that
/// reports the transaction committed, aborts at once on a failed round,
/// and times out when the deadline or the script runs out.
pub fn wait_for_tx(
    session: &mut Session,
    rounds: &Vec<Result<SyncObservation, ResyncError>>,
    tx_id: TransactionId,
    deadline: Option<usize>,
) -> (r: WaitOutcome)
    requires
        old(session).wf(),
        forall|k: int|
            0 <= k < rounds@.len() ==> ((#[trigger] rounds@[k]) matches Ok(obs) ==> obs.wf()),
    ensures
        final(session).wf(),
        final(session).keys@ == old(session).keys@,
        statuses_advanced(old(session).transactions@, final(session).transactions@),
        wait_contract(
            rounds@,
            |obs: SyncObservation| tx_committed_in(obs, tx_id),
            wait_limit(deadline, rounds@.len()),
            r,
        ),
        r is Completed ==> has_tx(final(session).transactions@, tx_id),
        r matches WaitOutcome::Completed { rounds: n } ==> (rounds@[n - 1] matches Ok(o)
            && observation_reconciled(*final(session), o)),
        r matches WaitOutcome::TimedOut { rounds: n } ==> n > 0 ==> (rounds@[n - 1] matches Ok(o)
            && observation_reconciled(*final(session), o)),
        r matches WaitOutcome::Failed { rounds: n, .. } ==> n > 1 ==> (rounds@[n - 2] matches Ok(o)
            && observation_reconciled(*final(session), o)),
{
    let ghost met = |obs: SyncObservation| tx_committed_in(obs, tx_id);
    let limit: usize = match deadline {
        Some(d) => if d < rounds.len() {
            d
        } else {
            rounds.len()
        },
        None => rounds.len(),
    };
    proof {
        crate::session::lemma_statuses_advanced_refl(session.transactions@);
    }
    let mut i: usize = 0;
    while i < limit
        invariant
            i <= limit,
            limit <= rounds@.len(),
            limit as int == wait_limit(deadline, rounds@.len()),
            session.wf(),
            session.keys@ == old(session).keys@,
            statuses_advanced(old(session).transactions@, session.transactions@),
            rounds_pending(rounds@, met, i as int),
            i > 0 ==> (rounds@[i - 1] matches Ok(o) && observation_reconciled(*session, o)),
            met == (|obs: SyncObservation| tx_committed_in(obs, tx_id)),
            forall|k: int|
                0 <= k < rounds@.len() ==> ((#[trigger] rounds@[k]) matches Ok(obs) ==> obs.wf()),
        decreases limit - i,
    {
        match &rounds[i] {
            Err(e) => {
                let err = e.clone();
                proof {
                    assert(rounds@[i as int] matches Err(e0) && err.model() == e0.model());
                }
                return WaitOutcome::Failed { error: err, rounds: i + 1 };
            },
            Ok(obs) => {
                proof {
                    assert(rounds@[i as int] == Ok::<SyncObservation, ResyncError>(*obs));
                    assert(obs.wf());
                }
                let ghost before = session.transactions@;
                apply_sync(session, obs);
                proof {
                    crate::session::lemma_statuses_advanced_transitive(
                        old(session).transactions@,
                        before,
                        session.transactions@,
                    );
                }
                if transaction_committed(obs, tx_id) {
                    proof {
                        assert(rounds@[i as int] matches Ok(o) && met(o));
                        let w = choose|w: int|
                            0 <= w < obs.tx_statuses@.len() && (#[trigger] obs.tx_statuses@[w]).0
                                == tx_id && obs.tx_statuses@[w].1 is Committed;
                        assert(has_tx(session.transactions@, obs.tx_statuses@[w].0));
                    }
                    return WaitOutcome::Completed { rounds: i + 1 };
                }
                proof {
                    assert(rounds@[i as int] matches Ok(o) && !met(o));
                    assert(rounds_pending(rounds@, met, i + 1));
                }
            },
        }
        i = i + 1;
    }
    WaitOutcome::TimedOut { rounds: limit }
}

/// Waits for a note to become observable with its transaction committed,
/// against a script of resynchronization rounds.  The condition and the
/// fail-fast and timeout behaviour follow [`wait_for_tx`].
pub fn wait_for_note(
    session: &mut Session,
    rounds: &Vec<Result<SyncObservation, ResyncError>>,
    expected_note_id: u64,
    tx_id: TransactionId,
    deadline: Option<usize>,
) -> (r: WaitOutcome)
    requires
        old(session).wf(),
        forall|k: int|
            0 <= k < rounds@.len() ==> ((#[trigger] rounds@[k]) matches Ok(obs) ==> obs.wf()),
    ensures
        final(session).wf(),
        final(session).keys@ == old(session).keys@,
        statuses_advanced(old(session).transactions@, final(session).transactions@),
        wait_contract(
            rounds@,
            |obs: SyncObservation| note_wait_met(obs, expected_note_id, tx_id),
            wait_limit(deadline, rounds@.len()),
            r,
        ),
        r is Completed ==> has_tx(final(session).transactions@, tx_id),
        r matches WaitOutcome::Completed { rounds: n } ==> (rounds@[n - 1] matches Ok(o)
            && observation_reconciled(*final(session), o)),
        r matches WaitOutcome::TimedOut { rounds: n } ==> n > 0 ==> (rounds@[n - 1] matches Ok(o)
            && observation_reconciled(*final(session), o)),
        r matches WaitOutcome::Failed { rounds: n, .. } ==> n > 1 ==> (rounds@[n - 2] matches Ok(o)
            && observation_reconciled(*final(session), o)),
{
    let ghost met = |obs: SyncObservation| note_wait_met(obs, expected_note_id, tx_id);
    let limit: usize = match deadline {
        Some(d) => if d < rounds.len() {
            d
        } else {
            rounds.len()
        },
        None => rounds.len(),
    };
    proof {
        crate::session::lemma_statuses_advanced_refl(session.transactions@);
    }
    let mut i: usize = 0;
    while i < limit
        invariant
            i <= limit,
            limit <= rounds@.len(),
            limit as int == wait_limit(deadline, rounds@.len()),
            session.wf(),
            session.keys@ == old(session).keys@,
            statuses_advanced(old(session).transactions@, session.transactions@),
            rounds_pending(rounds@, met, i as int),
            i > 0 ==> (rounds@[i - 1] matches Ok(o) && observation_reconciled(*session, o)),
            met == (|obs: SyncObservation| note_wait_met(obs, expected_note_id, tx_id)),
            forall|k: int|
                0 <= k < rounds@.len() ==> ((#[trigger] rounds@[k]) matches Ok(obs) ==> obs.wf()),
        decreases limit - i,
    {
        match &rounds[i] {
            Err(e) => {
                let err = e.clone();
                proof {
                    assert(rounds@[i as int] matches Err(e0) && err.model() == e0.model());
                }
                return WaitOutcome::Failed { error: err, rounds: i + 1 };
            },
            Ok(obs) => {
                proof {
                    assert(rounds@[i as int] == Ok::<SyncObservation, ResyncError>(*obs));
                    assert(obs.wf());
                }
                let ghost before = session.transactions@;
                apply_sync(session, obs);
                proof {
                    crate::session::lemma_statuses_advanced_transitive(
                        old(session).transactions@,
                        before,
                        session.transactions@,
                    );
                }
                let note_found = note_observable(obs, expected_note_id);
                let committed = transaction_committed(obs, tx_id);
                if note_found && committed {
                    proof {
                        assert(rounds@[i as int] matches Ok(o) && met(o));
                        let w = choose|w: int|
                            0 <= w < obs.tx_statuses@.len() && (#[trigger] obs.tx_statuses@[w]).0
                                == tx_id && obs.tx_statuses@[w].1 is Committed;
                        assert(has_tx(session.transactions@, obs.tx_statuses@[w].0));
                    }
                    return WaitOutcome::Completed { rounds: i + 1 };
                }
                proof {
                    assert(rounds@[i as int] matches Ok(o) && !met(o));
                    assert(rounds_pending(rounds@, met, i + 1));
                }
            },
        }
        i = i + 1;
    }
    WaitOutcome::TimedOut { rounds: limit }
}

/// Poll termination: against an authority whose script first meets the
/// condition on round `n` — every earlier round reports an observation
/// that does not meet it — a wait bound by the contract returns success
/// after exactly `n` resynchronizations, and not before.
pub proof fn lemma_poll_termination(
    rounds: Seq<Result<SyncObservation, ResyncError>>,
    met: spec_fn(SyncObservation) -> bool,
    m: int,
    n: int,
    r: WaitOutcome,
)
    requires
        wait_contract(rounds, met, m, r),
        1 <= n <= m,
        m <= rounds.len(),
        rounds_pending(rounds, met, n - 1),
        rounds[n - 1] matches Ok(obs) && met(obs),
    ensures
        r == (WaitOutcome::Completed { rounds: n as usize }),
{
    match r {
        WaitOutcome::Completed { rounds: k } => {
            if (k as int) < n {
                assert(rounds[k - 1] matches Ok(obs) && !met(obs));
                assert(false);
            }
            if (k as int) > n {
                assert(rounds[n - 1] matches Ok(obs) && !met(obs));
                assert(false);
            }
        },
        WaitOutcome::Failed { error, rounds: k } => {
            if (k as int) < n {
                assert(rounds[k - 1] matches Ok(obs) && !met(obs));
            } else if (k as int) == n {
                assert(rounds[n - 1] matches Err(e0));
            } else {
                assert(rounds[n - 1] matches Ok(obs) && !met(obs));
            }
            assert(false);
        },
        WaitOutcome::TimedOut { rounds: k } => {
            assert(n - 1 < m);
            assert(rounds[n - 1] matches Ok(obs) && !met(obs));
            assert(false);
        },
    }
}

/// Fail-fast on resynchronization error: if the authority's script errs
/// on its `k`-th round and no earlier round meets the condition, a wait
/// bound by the contract surfaces that error on round `k` — it neither
/// retries past it nor swallows it.
pub proof fn lemma_poll_fail_fast(
    rounds: Seq<Result<SyncObservation, ResyncError>>,
    met: spec_fn(SyncObservation) -> bool,
    m: int,
    k: int,
    r: WaitOutcome,
)
    requires
        wait_contract(rounds, met, m, r),
        1 <= k <= m,
        m <= rounds.len(),
        rounds_pending(rounds, met, k - 1),
        rounds[k - 1] is Err,
    ensures
        r matches WaitOutcome::Failed { error, rounds: n } ==> n == k as usize,
        r is Failed,
        (r matches WaitOutcome::Failed { error, rounds: n } && (rounds[k - 1] matches Err(e0)
            && error.model() == e0.model())),
{
    match r {
        WaitOutcome::Completed { rounds: n } => {
            if (n as int) < k {
                assert(rounds[n - 1] matches Ok(obs) && !met(obs));
            } else {
                assert(rounds[k - 1] matches Ok(obs) && !met(obs));
            }
            assert(false);
        },
        WaitOutcome::Failed { error, rounds: n } => {
            if (n as int) < k {
                assert(rounds[n - 1] matches Ok(obs) && !met(obs));
                assert(false);
            }
            if (n as int) > k {
                assert(rounds[k - 1] matches Ok(obs) && !met(obs));
                assert(false);
            }
        },
        WaitOutcome::TimedOut { rounds: n } => {
            assert(k - 1 < m);
            assert(rounds[k - 1] matches Ok(obs) && !met(obs));
            assert(false);
        },
    }
}

} // verus!
