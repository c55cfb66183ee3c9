//! The session: the local cache of synced ledger state.
//!
//! A session holds what one workflow phase has learned from the remote
//! authority — known accounts, known notes, known transactions — plus the
//! authentication key material created in the phase.  It is an explicit
//! value constructed, used, and discarded per phase; resetting it
//! discards everything, so the next phase rebuilds its view purely from
//! the remote authority.  Transaction statuses recorded in a session move
//! only along allowed lifecycle transitions: a terminal status never
//! changes.

use vstd::prelude::*;
use vstd::string::StringExecFns;
use crate::account::{Account, AccountId};
use crate::errors::{NotFoundError, WorkflowError};
use crate::field::Word;
use crate::tx::{status_transition_allowed, TransactionId, TransactionStatus};

verus! {

/// Whether an account with this id is known.
pub open spec fn has_account(s: Seq<Account>, id: AccountId) -> bool {
    exists|i: int| 0 <= i < s.len() && (#[trigger] s[i]).id == id
}

/// Whether a status for this transaction id is known.
pub open spec fn has_tx(s: Seq<(TransactionId, TransactionStatus)>, id: TransactionId) -> bool {
    exists|i: int| 0 <= i < s.len() && (#[trigger] s[i]).0 == id
}

/// Whether a note id is known.
pub open spec fn has_note(s: Seq<u64>, id: u64) -> bool {
    exists|i: int| 0 <= i < s.len() && #[trigger] s[i] == id
}

/// No two entries track the same account id.
pub open spec fn unique_account_ids(s: Seq<Account>) -> bool {
    forall|i: int, j: int|
        0 <= i < j < s.len() ==> (#[trigger] s[i]).id != (#[trigger] s[j]).id
}

/// No two entries track the same transaction id.
pub open spec fn unique_tx_ids(s: Seq<(TransactionId, TransactionStatus)>) -> bool {
    forall|i: int, j: int|
        0 <= i < j < s.len() ==> (#[trigger] s[i]).0 != (#[trigger] s[j]).0
}

/// No note id is tracked twice.
pub open spec fn unique_note_ids(s: Seq<u64>) -> bool {
    forall|i: int, j: int| 0 <= i < j < s.len() ==> #[trigger] s[i] != #[trigger] s[j]
}

/// Two accounts carry the same observable state: id, kind, storage
/// words, and authentication component.
pub open spec fn same_account_state(a: Account, b: Account) -> bool {
    &&& a.id == b.id
    &&& a.kind == b.kind
    &&& a.storage@ == b.storage@
    &&& a.auth_code == b.auth_code
}

/// The session tracks an account in this observable state.
pub open spec fn session_tracks(accounts: Seq<Account>, a: Account) -> bool {
    exists|i: int| 0 <= i < accounts.len() && same_account_state(#[trigger] accounts[i], a)
}

/// The account store after recording the state `a` and nothing else: a
/// copy of `a`'s state replaces the entry with `a`'s id, or is appended
/// if none was tracked; every other entry is untouched.
pub open spec fn accounts_upserted(old_s: Seq<Account>, new_s: Seq<Account>, a: Account) -> bool {
    exists|cp: Account|
        #[trigger] same_account_state(cp, a) && if has_account(old_s, a.id) {
            exists|i: int|
                0 <= i < old_s.len() && (#[trigger] old_s[i]).id == a.id && new_s == old_s.update(
                    i,
                    cp,
                )
        } else {
            new_s == old_s.push(cp)
        }
}

/// The account store holds exactly this entry somewhere.
pub open spec fn has_account_entry(accounts: Seq<Account>, entry: Account) -> bool {
    exists|j: int| 0 <= j < accounts.len() && #[trigger] accounts[j] == entry
}

/// The transaction store holds exactly this entry somewhere.
pub open spec fn has_tx_entry(
    txs: Seq<(TransactionId, TransactionStatus)>,
    entry: (TransactionId, TransactionStatus),
) -> bool {
    exists|j: int| 0 <= j < txs.len() && #[trigger] txs[j] == entry
}

/// The status the lifecycle records when `reported` arrives over
/// `current`: the report, unless `current` is terminal.
pub open spec fn merged_status(
    current: TransactionStatus,
    reported: TransactionStatus,
) -> TransactionStatus {
    if status_transition_allowed(current, reported) {
        reported
    } else {
        current
    }
}

/// The transaction store records the reported `entry`: a fresh id is
/// recorded with the reported status; a tracked id with the report
/// merged over its old status — the old status itself if terminal.
pub open spec fn tx_status_recorded(
    old_txs: Seq<(TransactionId, TransactionStatus)>,
    new_txs: Seq<(TransactionId, TransactionStatus)>,
    entry: (TransactionId, TransactionStatus),
) -> bool {
    if has_tx(old_txs, entry.0) {
        exists|i: int|
            0 <= i < old_txs.len() && (#[trigger] old_txs[i]).0 == entry.0 && has_tx_entry(
                new_txs,
                (entry.0, merged_status(old_txs[i].1, entry.1)),
            )
    } else {
        has_tx_entry(new_txs, entry)
    }
}

/// The given transaction is tracked, with a status that `from` may move
/// to along allowed lifecycle transitions.
pub open spec fn tracked_with_advance(
    txs: Seq<(TransactionId, TransactionStatus)>,
    id: TransactionId,
    from: TransactionStatus,
) -> bool {
    exists|j: int|
        0 <= j < txs.len() && (#[trigger] txs[j]).0 == id && status_transition_allowed(
            from,
            txs[j].1,
        )
}

/// Every transaction tracked before is still tracked, and its status has
/// moved only along allowed lifecycle transitions; in particular a
/// terminal status is unchanged.
pub open spec fn statuses_advanced(
    old_txs: Seq<(TransactionId, TransactionStatus)>,
    new_txs: Seq<(TransactionId, TransactionStatus)>,
) -> bool {
    forall|i: int|
        0 <= i < old_txs.len() ==> tracked_with_advance(
            new_txs,
            (#[trigger] old_txs[i]).0,
            old_txs[i].1,
        )
}

/// Leaving statuses untouched advances them trivially.
pub proof fn lemma_statuses_advanced_refl(txs: Seq<(TransactionId, TransactionStatus)>)
    ensures
        statuses_advanced(txs, txs),
{
    assert forall|i: int| 0 <= i < txs.len() implies tracked_with_advance(
        txs,
        (#[trigger] txs[i]).0,
        txs[i].1,
    ) by {
        assert(status_transition_allowed(txs[i].1, txs[i].1));
    }
}

/// Advancement composes: two reconciliations in a row advance statuses
/// as one does.
pub proof fn lemma_statuses_advanced_transitive(
    a: Seq<(TransactionId, TransactionStatus)>,
    b: Seq<(TransactionId, TransactionStatus)>,
    c: Seq<(TransactionId, TransactionStatus)>,
)
    requires
        statuses_advanced(a, b),
        statuses_advanced(b, c),
    ensures
        statuses_advanced(a, c),
{
    assert forall|i: int| 0 <= i < a.len() implies tracked_with_advance(
        c,
        (#[trigger] a[i]).0,
        a[i].1,
    ) by {
        assert(tracked_with_advance(b, a[i].0, a[i].1));
        let j1 = choose|j: int|
            0 <= j < b.len() && (#[trigger] b[j]).0 == a[i].0 && status_transition_allowed(
                a[i].1,
                b[j].1,
            );
        assert(tracked_with_advance(c, b[j1].0, b[j1].1));
        let j2 = choose|j: int|
            0 <= j < c.len() && (#[trigger] c[j]).0 == b[j1].0 && status_transition_allowed(
                b[j1].1,
                c[j].1,
            );
        assert(0 <= j2 < c.len() && c[j2].0 == a[i].0 && status_transition_allowed(
            a[i].1,
            c[j2].1,
        ));
    }
}

/// Under the session invariant a tracked state is the only state of its
/// id: any entry found for that id carries it.  This closes the loop from
/// a reconciled observation to what `get_account` returns.
pub proof fn lemma_tracked_state_is_found(
    accounts: Seq<Account>,
    state: Account,
    found: Account,
)
    requires
        unique_account_ids(accounts),
        session_tracks(accounts, state),
        has_account_entry(accounts, found),
        found.id == state.id,
    ensures
        same_account_state(found, state),
{
    let w = choose|w: int|
        0 <= w < accounts.len() && same_account_state(#[trigger] accounts[w], state);
    let v = choose|v: int| 0 <= v < accounts.len() && #[trigger] accounts[v] == found;
    if w != v {
        if w < v {
            assert(accounts[w].id != accounts[v].id);
        } else {
            assert(accounts[v].id != accounts[w].id);
        }
        assert(false);
    }
    assert(same_account_state(found, state));
}

/// An account entry whose id an upsert does not touch survives it
/// exactly.  The third argument is the upserted copy; the last two
/// conjuncts of the `requires` are the shape of `upsert_account`'s
/// postcondition.
pub(crate) proof fn lemma_account_entry_preserved(
    before: Seq<Account>,
    after: Seq<Account>,
    cp: Account,
    entry: Account,
)
    requires
        has_account_entry(before, entry),
        entry.id != cp.id,
        if has_account(before, cp.id) {
            exists|u: int|
                0 <= u < before.len() && (#[trigger] before[u]).id == cp.id && after
                    == before.update(u, cp)
        } else {
            after == before.push(cp)
        },
    ensures
        has_account_entry(after, entry),
{
    let w = choose|w: int| 0 <= w < before.len() && #[trigger] before[w] == entry;
    if has_account(before, cp.id) {
        let u = choose|u: int|
            0 <= u < before.len() && (#[trigger] before[u]).id == cp.id && after == before.update(
                u,
                cp,
            );
        assert(w != u);
        assert(after[w] == entry);
    } else {
        assert(after[w] == entry);
    }
}

/// A tracked account state whose id an upsert does not touch stays
/// tracked.
pub(crate) proof fn lemma_tracked_preserved(
    before: Seq<Account>,
    after: Seq<Account>,
    cp: Account,
    a: Account,
)
    requires
        session_tracks(before, a),
        a.id != cp.id,
        if has_account(before, cp.id) {
            exists|u: int|
                0 <= u < before.len() && (#[trigger] before[u]).id == cp.id && after
                    == before.update(u, cp)
        } else {
            after == before.push(cp)
        },
    ensures
        session_tracks(after, a),
{
    let w = choose|w: int| 0 <= w < before.len() && same_account_state(#[trigger] before[w], a);
    if has_account(before, cp.id) {
        let u = choose|u: int|
            0 <= u < before.len() && (#[trigger] before[u]).id == cp.id && after == before.update(
                u,
                cp,
            );
        assert(w != u);
        assert(after[w] == before[w]);
    } else {
        assert(after[w] == before[w]);
    }
    assert(same_account_state(after[w], a));
}

/// A transaction entry whose id a recording does not touch survives it
/// exactly.  The last conjunct of the `requires` is the shape of
/// `record_status`'s postcondition.
pub(crate) proof fn lemma_tx_entry_preserved(
    before: Seq<(TransactionId, TransactionStatus)>,
    after: Seq<(TransactionId, TransactionStatus)>,
    tid: TransactionId,
    st: TransactionStatus,
    entry: (TransactionId, TransactionStatus),
)
    requires
        has_tx_entry(before, entry),
        entry.0 != tid,
        if has_tx(before, tid) {
            exists|u: int|
                0 <= u < before.len() && (#[trigger] before[u]).0 == tid && after == before.update(
                    u,
                    (tid, merged_status(before[u].1, st)),
                )
        } else {
            after == before.push((tid, st))
        },
    ensures
        has_tx_entry(after, entry),
{
    let w = choose|w: int| 0 <= w < before.len() && #[trigger] before[w] == entry;
    if has_tx(before, tid) {
        let u = choose|u: int|
            0 <= u < before.len() && (#[trigger] before[u]).0 == tid && after == before.update(
                u,
                (tid, merged_status(before[u].1, st)),
            );
        assert(w != u);
        assert(after[w] == entry);
    } else {
        assert(after[w] == entry);
    }
}

/// The session value of one workflow phase.
pub struct Session {
    /// Accounts known to this session, with their observed state.
    pub accounts: Vec<Account>,
    /// Transactions this session has submitted or observed, with the
    /// last status recorded for each.
    pub transactions: Vec<(TransactionId, TransactionStatus)>,
    /// Note ids this session has observed as committed.
    pub notes: Vec<u64>,
    /// Authentication key material created in this phase.
    pub keys: Vec<Word>,
}

impl Session {
    /// The session invariant: no account, transaction, or note is
    /// tracked twice.
    pub open spec fn wf(&self) -> bool {
        &&& unique_account_ids(self.accounts@)
        &&& unique_tx_ids(self.transactions@)
        &&& unique_note_ids(self.notes@)
    }

    /// An empty session: nothing cached, no key material.
    pub open spec fn spec_is_empty(&self) -> bool {
        &&& self.accounts@.len() == 0
        &&& self.transactions@.len() == 0
        &&& self.notes@.len() == 0
        &&& self.keys@.len() == 0
    }

    /// Creates the empty session of a fresh workflow phase.
    pub fn new() -> (s: Session)
        ensures
            s.spec_is_empty(),
            s.wf(),
    {
        Session { accounts: Vec::new(), transactions: Vec::new(), notes: Vec::new(), keys: Vec::new() }
    }

    /// Checks whether the session caches nothing.
    pub fn is_empty(&self) -> (r: bool)
        ensures
            r == self.spec_is_empty(),
    {
        self.accounts.len() == 0 && self.transactions.len() == 0 && self.notes.len() == 0
            && self.keys.len() == 0
    }

    /// Discards all cached state and key material.  A reset never fails;
    /// resetting an already-empty session leaves it empty.
    pub fn reset(&mut self)
        ensures
            final(self).spec_is_empty(),
            final(self).wf(),
    {
        self.accounts = Vec::new();
        self.transactions = Vec::new();
        self.notes = Vec::new();
        self.keys = Vec::new();
    }

    /// Records an account state, replacing any state already tracked for
    /// the same id.
    pub fn upsert_account(&mut self, account: Account)
        requires
            old(self).wf(),
        ensures
            final(self).wf(),
            final(self).transactions@ == old(self).transactions@,
            final(self).notes@ == old(self).notes@,
            final(self).keys@ == old(self).keys@,
            has_account(final(self).accounts@, account.id),
            if has_account(old(self).accounts@, account.id) {
                exists|i: int|
                    0 <= i < old(self).accounts@.len() && (#[trigger] old(
                        self,
                    ).accounts@[i]).id == account.id && final(self).accounts@ == old(
                        self,
                    ).accounts@.update(i, account)
            } else {
                final(self).accounts@ == old(self).accounts@.push(account)
            },
    {
        let mut i: usize = 0;
        while i < self.accounts.len()
            invariant
                i <= self.accounts.len(),
                *self == *old(self),
                old(self).wf(),
                forall|j: int| 0 <= j < i ==> (#[trigger] self.accounts@[j]).id != account.id,
            decreases self.accounts.len() - i,
        {
            if self.accounts[i].id.prefix == account.id.prefix && self.accounts[i].id.suffix
                == account.id.suffix {
                proof {
                    assert(self.accounts@[i as int].id == account.id);
                }
                let ghost idx = i as int;
                self.accounts.set(i, account);
                proof {
                    assert(self.accounts@ == old(self).accounts@.update(idx, account));
                    assert(self.accounts@[idx] == account);
                    assert(has_account(self.accounts@, account.id));
                    assert(old(self).accounts@[idx].id == account.id);
                    assert forall|x: int, y: int|
                        0 <= x < y < self.accounts@.len() implies (#[trigger] self.accounts@[x]).id
                        != (#[trigger] self.accounts@[y]).id by {
                        assert(old(self).accounts@[x].id != old(self).accounts@[y].id);
                        if x == idx {
                            assert(self.accounts@[x].id == old(self).accounts@[x].id);
                        }
                        if y == idx {
                            assert(self.accounts@[y].id == old(self).accounts@[y].id);
                        }
                    }
                }
                return ;
            }
            i = i + 1;
        }
        assert(!has_account(self.accounts@, account.id));
        self.accounts.push(account);
        proof {
            let n = old(self).accounts@.len() as int;
            assert(self.accounts@[n] == account);
            assert(has_account(self.accounts@, account.id));
            assert forall|x: int, y: int|
                0 <= x < y < self.accounts@.len() implies (#[trigger] self.accounts@[x]).id != (
            #[trigger] self.accounts@[y]).id by {
                if y < n {
                    assert(old(self).accounts@[x].id != old(self).accounts@[y].id);
                } else {
                    assert(self.accounts@[y] == account);
                    assert(self.accounts@[x] == old(self).accounts@[x]);
                }
            }
        }
    }

    /// Looks up the state tracked for an account id.
    pub fn get_account(&self, id: AccountId) -> (r: Option<&Account>)
        ensures
            r is Some <==> has_account(self.accounts@, id),
            r matches Some(a) ==> a.id == id && exists|i: int|
                0 <= i < self.accounts@.len() && #[trigger] self.accounts@[i] == *a,
    {
        let mut i: usize = 0;
        while i < self.accounts.len()
            invariant
                i <= self.accounts.len(),
                forall|j: int| 0 <= j < i ==> (#[trigger] self.accounts@[j]).id != id,
            decreases self.accounts.len() - i,
        {
            if self.accounts[i].id.prefix == id.prefix && self.accounts[i].id.suffix == id.suffix {
                proof {
                    assert(self.accounts@[i as int].id == id);
                }
                return Some(&self.accounts[i]);
            }
            i = i + 1;
        }
        None
    }

    /// Imports an account from the remote authority's answer: records the
    /// state if the authority knows the id, and surfaces the absence as a
    /// [`NotFoundError`] otherwise.
    pub fn import_account(&mut self, response: Option<Account>) -> (r: Result<(), WorkflowError>)
        requires
            old(self).wf(),
        ensures
            final(self).wf(),
            r is Ok <==> response is Some,
            r matches Err(e) ==> {
                &&& e == WorkflowError::NotFound(NotFoundError::Account)
                &&& *final(self) == *old(self)
            },
            response matches Some(a) ==> {
                &&& session_tracks(final(self).accounts@, a)
                &&& if has_account(old(self).accounts@, a.id) {
                    exists|i: int|
                        0 <= i < old(self).accounts@.len() && (#[trigger] old(
                            self,
                        ).accounts@[i]).id == a.id && final(self).accounts@ == old(
                            self,
                        ).accounts@.update(i, a)
                } else {
                    final(self).accounts@ == old(self).accounts@.push(a)
                }
            },
            final(self).transactions@ == old(self).transactions@,
            final(self).notes@ == old(self).notes@,
            final(self).keys@ == old(self).keys@,
    {
        match response {
            Some(account) => {
                let ghost a = account;
                let ghost before = self.accounts@;
                self.upsert_account(account);
                proof {
                    assert(same_account_state(a, a));
                    if has_account(before, a.id) {
                        let u = choose|u: int|
                            0 <= u < before.len() && (#[trigger] before[u]).id == a.id
                                && self.accounts@ == before.update(u, a);
                        assert(self.accounts@[u] == a);
                        assert(session_tracks(self.accounts@, a));
                    } else {
                        let n = before.len() as int;
                        assert(self.accounts@[n] == a);
                        assert(session_tracks(self.accounts@, a));
                    }
                }
                Ok(())
            },
            None => Err(WorkflowError::NotFound(NotFoundError::Account)),
        }
    }

    /// Stores one key of authentication material.
    pub fn add_key(&mut self, key: Word)
        requires
            old(self).wf(),
        ensures
            final(self).wf(),
            final(self).keys@ == old(self).keys@.push(key),
            final(self).accounts@ == old(self).accounts@,
            final(self).transactions@ == old(self).transactions@,
            final(self).notes@ == old(self).notes@,
    {
        self.keys.push(key);
    }

    /// Records a status observed for a transaction.  A new id is added as
    /// observed; a tracked id moves only along allowed lifecycle
    /// transitions, so a terminal status never changes.
    pub fn record_status(&mut self, id: TransactionId, status: TransactionStatus)
        requires
            old(self).wf(),
        ensures
            final(self).wf(),
            final(self).accounts@ == old(self).accounts@,
            final(self).notes@ == old(self).notes@,
            final(self).keys@ == old(self).keys@,
            has_tx(final(self).transactions@, id),
            if has_tx(old(self).transactions@, id) {
                exists|i: int|
                    0 <= i < old(self).transactions@.len() && (#[trigger] old(
                        self,
                    ).transactions@[i]).0 == id && final(self).transactions@ == old(
                        self,
                    ).transactions@.update(
                        i,
                        (
                            id,
                            if status_transition_allowed(old(self).transactions@[i].1, status) {
                                status
                            } else {
                                old(self).transactions@[i].1
                            },
                        ),
                    )
            } else {
                final(self).transactions@ == old(self).transactions@.push((id, status))
            },
            tx_status_recorded(old(self).transactions@, final(self).transactions@, (id, status)),
            statuses_advanced(old(self).transactions@, final(self).transactions@),
    {
        let mut i: usize = 0;
        while i < self.transactions.len()
            invariant
                i <= self.transactions.len(),
                *self == *old(self),
                old(self).wf(),
                forall|j: int| 0 <= j < i ==> (#[trigger] self.transactions@[j]).0 != id,
            decreases self.transactions.len() - i,
        {
            let (tid, current) = self.transactions[i];
            if tid.value == id.value {
                proof {
                    assert(self.transactions@[i as int].0 == id);
                }
                let next = if matches!(current, TransactionStatus::Pending) {
                    status
                } else {
                    current
                };
                proof {
                    assert(next == if status_transition_allowed(current, status) {
                        status
                    } else {
                        current
                    });
                }
                let ghost idx = i as int;
                self.transactions.set(i, (id, next));
                proof {
                    assert(self.transactions@ == old(self).transactions@.update(idx, (id, next)));
                    assert(self.transactions@[idx] == (id, next));
                    assert(has_tx(self.transactions@, id));
                    assert(old(self).transactions@[idx].0 == id);
                    assert(has_tx_entry(
                        self.transactions@,
                        (id, merged_status(old(self).transactions@[idx].1, status)),
                    ));
                    assert(tx_status_recorded(
                        old(self).transactions@,
                        self.transactions@,
                        (id, status),
                    ));
                    assert forall|x: int, y: int|
                        0 <= x < y < self.transactions@.len() implies (#[trigger] self
                        .transactions@[x]).0 != (#[trigger] self.transactions@[y]).0 by {
                        assert(old(self).transactions@[x].0 != old(self).transactions@[y].0);
                        if x == idx {
                            assert(self.transactions@[x].0 == old(self).transactions@[x].0);
                        }
                        if y == idx {
                            assert(self.transactions@[y].0 == old(self).transactions@[y].0);
                        }
                    }
                    assert forall|a: int| 0 <= a < old(self).transactions@.len() implies
                        tracked_with_advance(
                        self.transactions@,
                        (#[trigger] old(self).transactions@[a]).0,
                        old(self).transactions@[a].1,
                    ) by {
                        if a == idx {
                            assert(self.transactions@[a].0 == old(self).transactions@[a].0);
                            assert(status_transition_allowed(
                                old(self).transactions@[a].1,
                                self.transactions@[a].1,
                            ));
                        } else {
                            assert(self.transactions@[a] == old(self).transactions@[a]);
                            assert(status_transition_allowed(
                                old(self).transactions@[a].1,
                                self.transactions@[a].1,
                            ));
                        }
                    }
                }
                return ;
            }
            i = i + 1;
        }
        assert(!has_tx(self.transactions@, id));
        self.transactions.push((id, status));
        proof {
            let n = old(self).transactions@.len() as int;
            assert(self.transactions@[n] == (id, status));
            assert(has_tx(self.transactions@, id));
            assert(has_tx_entry(self.transactions@, (id, status)));
            assert forall|x: int, y: int|
                0 <= x < y < self.transactions@.len() implies (#[trigger] self.transactions@[x]).0
                != (#[trigger] self.transactions@[y]).0 by {
                if y < n {
                    assert(old(self).transactions@[x].0 != old(self).transactions@[y].0);
                } else {
                    assert(self.transactions@[y] == (id, status));
                    assert(self.transactions@[x] == old(self).transactions@[x]);
                }
            }
            assert forall|a: int| 0 <= a < old(self).transactions@.len() implies
                tracked_with_advance(
                self.transactions@,
                (#[trigger] old(self).transactions@[a]).0,
                old(self).transactions@[a].1,
            ) by {
                assert(self.transactions@[a] == old(self).transactions@[a]);
                assert(status_transition_allowed(
                    old(self).transactions@[a].1,
                    self.transactions@[a].1,
                ));
            }
        }
    }

    /// Looks up the last status recorded for a transaction id.
    pub fn get_status(&self, id: TransactionId) -> (r: Option<TransactionStatus>)
        ensures
            r is Some <==> has_tx(self.transactions@, id),
            r matches Some(st) ==> exists|i: int|
                0 <= i < self.transactions@.len() && #[trigger] self.transactions@[i] == (id, st),
    {
        let mut i: usize = 0;
        while i < self.transactions.len()
            invariant
                i <= self.transactions.len(),
                forall|j: int| 0 <= j < i ==> (#[trigger] self.transactions@[j]).0 != id,
            decreases self.transactions.len() - i,
        {
            let (tid, st) = self.transactions[i];
            if tid.value == id.value {
                proof {
                    assert(self.transactions@[i as int] == (id, st));
                }
                return Some(st);
            }
            i = i + 1;
        }
        None
    }

    /// Records a note id observed as committed, once.
    pub fn record_note(&mut self, id: u64)
        requires
            old(self).wf(),
        ensures
            final(self).wf(),
            final(self).accounts@ == old(self).accounts@,
            final(self).transactions@ == old(self).transactions@,
            final(self).keys@ == old(self).keys@,
            has_note(final(self).notes@, id),
            if has_note(old(self).notes@, id) {
                final(self).notes@ == old(self).notes@
            } else {
                final(self).notes@ == old(self).notes@.push(id)
            },
    {
        let mut i: usize = 0;
        while i < self.notes.len()
            invariant
                i <= self.notes.len(),
                *self == *old(self),
                old(self).wf(),
                forall|j: int| 0 <= j < i ==> #[trigger] self.notes@[j] != id,
            decreases self.notes.len() - i,
        {
            if self.notes[i] == id {
                proof {
                    assert(self.notes@[i as int] == id);
                    assert(has_note(self.notes@, id));
                }
                return ;
            }
            i = i + 1;
        }
        assert(!has_note(self.notes@, id));
        self.notes.push(id);
        proof {
            let n = old(self).notes@.len() as int;
            assert(self.notes@[n] == id);
            assert(has_note(self.notes@, id));
            assert forall|x: int, y: int|
                0 <= x < y < self.notes@.len() implies #[trigger] self.notes@[x] != #[trigger] self
                .notes@[y] by {
                if y < n {
                    assert(old(self).notes@[x] != old(self).notes@[y]);
                } else {
                    assert(self.notes@[y] == id);
                    assert(self.notes@[x] == old(self).notes@[x]);
                }
            }
        }
    }
}

/// Two empty sessions cache the same (empty) view: resetting twice in a
/// row changes nothing after the first reset and never errors.
pub proof fn lemma_reset_idempotent(s1: Session, s2: Session)
    requires
        s1.spec_is_empty(),
        s2.spec_is_empty(),
    ensures
        s1.accounts@ =~= s2.accounts@,
        s1.transactions@ =~= s2.transactions@,
        s1.notes@ =~= s2.notes@,
        s1.keys@ =~= s2.keys@,
{
}

/// What the workflow sees of the local cache on disk: whether the synced
/// state store exists, and which key files the key store holds.
pub struct CacheView {
    pub store_exists: bool,
    pub keystore_files: Vec<String>,
}

/// The deletions a session reset performs on the cache: the store file if
/// it exists, and every key file.  A missing store is not an error: the
/// plan simply skips it.
pub struct ResetPlan {
    pub remove_store: bool,
    pub store_path: String,
    pub remove_files: Vec<String>,
}

/// Plans the deletions that clear a cache location.  The plan removes the
/// store exactly if it exists (a missing store is skipped, not an error),
/// removes every key file, and uses the given store path or the default.
/// Planning on an already-empty cache yields a plan that removes nothing.
pub fn reset_plan(store_path: Option<&str>, cache: &CacheView) -> (p: ResetPlan)
    ensures
        p.remove_store == cache.store_exists,
        p.store_path@ == (match store_path {
            Some(s) => s@,
            None => "./store.sqlite3"@,
        }),
        p.remove_files.deep_view() == cache.keystore_files.deep_view(),
        (!cache.store_exists && cache.keystore_files@.len() == 0) ==> (!p.remove_store
            && p.remove_files@.len() == 0),
{
    let path = match store_path {
        Some(s) => String::from_str(s),
        None => String::from_str("./store.sqlite3"),
    };
    let mut files: Vec<String> = Vec::new();
    let mut i: usize = 0;
    while i < cache.keystore_files.len()
        invariant
            i <= cache.keystore_files.len(),
            files.deep_view() =~= cache.keystore_files.deep_view().take(i as int),
        decreases cache.keystore_files.len() - i,
    {
        files.push(cache.keystore_files[i].clone());
        proof {
            let dv = cache.keystore_files.deep_view();
            assert(files.deep_view() =~= dv.take(i as int).push(dv[i as int]));
            assert(dv.take(i as int).push(dv[i as int]) =~= dv.take(i + 1));
        }
        i = i + 1;
    }
    proof {
        let dv = cache.keystore_files.deep_view();
        assert(dv.take(cache.keystore_files@.len() as int) =~= dv);
    }
    ResetPlan { remove_store: cache.store_exists, store_path: path, remove_files: files }
}

} // verus!
