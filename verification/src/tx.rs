//! Transactions: intents, requests, ids, and the status lifecycle.
//!
//! A transaction is submitted against exactly one account and carries an
//! intent: a custom script to run, notes to produce, or notes to consume.
//! Its id is a deterministic function of the account and the intent.  Its
//! status moves from `Pending` to `Committed` or `Discarded` and is
//! terminal there: no later observation may move it again.

use vstd::prelude::*;
use crate::account::AccountId;
use crate::compiler::{ArtifactKind, ScriptArtifact};
use crate::digest::{digest_words, spec_digest};
use crate::errors::SubmissionError;
use crate::note::{artifact_kind_code, note_id_of, Note, NoteModel};

verus! {

/// The id of a submitted transaction.
#[derive(Clone, Copy, Debug, PartialEq, Eq, Structural)]
pub struct TransactionId {
    pub value: u64,
}

/// The lifecycle status of a transaction.  `Committed` carries the block
/// that included the transaction.
#[derive(Clone, Copy, Debug, PartialEq, Eq, Structural)]
pub enum TransactionStatus {
    Pending,
    Committed { block: u32 },
    Discarded,
}

/// Whether a status is terminal: committed and discarded transactions
/// never change again.
pub open spec fn status_is_terminal(s: TransactionStatus) -> bool {
    s is Committed || s is Discarded
}

/// Which status changes the lifecycle allows: anything from `Pending`,
/// nothing from a terminal status.
pub open spec fn status_transition_allowed(from: TransactionStatus, to: TransactionStatus) -> bool {
    from is Pending || to == from
}

/// A terminal status is stable: no allowed transition leaves it.
pub proof fn lemma_terminal_status_stable(from: TransactionStatus, to: TransactionStatus)
    requires
        status_is_terminal(from),
        status_transition_allowed(from, to),
    ensures
        to == from,
{
}

/// An executable intent: a custom script, notes to produce, or notes
/// (each with an optional inclusion proof) to consume.
pub enum Intent {
    RunScript(ScriptArtifact),
    ProduceNotes(Vec<Note>),
    ConsumeNotes(Vec<(Note, Option<u64>)>),
}

/// The model of an intent.
pub enum IntentModel {
    RunScript(ScriptArtifact),
    ProduceNotes(Seq<NoteModel>),
    ConsumeNotes(Seq<(NoteModel, Option<u64>)>),
}

impl View for Intent {
    type V = IntentModel;

    open spec fn view(&self) -> IntentModel {
        match self {
            Intent::RunScript(a) => IntentModel::RunScript(*a),
            Intent::ProduceNotes(ns) => IntentModel::ProduceNotes(
                ns@.map_values(|n: Note| n@),
            ),
            Intent::ConsumeNotes(ps) => IntentModel::ConsumeNotes(
                ps@.map_values(|p: (Note, Option<u64>)| (p.0@, p.1)),
            ),
        }
    }
}

/// Whether local execution of an intent can succeed: a custom script must
/// be a transaction script, and a note set must not be empty.
pub open spec fn intent_valid(i: IntentModel) -> bool {
    match i {
        IntentModel::RunScript(a) => a.kind == ArtifactKind::TransactionScript,
        IntentModel::ProduceNotes(ns) => ns.len() > 0,
        IntentModel::ConsumeNotes(ps) => ps.len() > 0,
    }
}

/// The failure local execution reports for an invalid intent.
pub open spec fn intent_error(i: IntentModel) -> SubmissionError {
    match i {
        IntentModel::RunScript(_) => SubmissionError::WrongArtifactKind,
        IntentModel::ProduceNotes(_) => SubmissionError::EmptyNoteSet,
        IntentModel::ConsumeNotes(_) => SubmissionError::EmptyNoteSet,
    }
}

/// The ids of a note list, in order.
pub open spec fn note_ids(ns: Seq<NoteModel>) -> Seq<u64> {
    ns.map_values(|n: NoteModel| note_id_of(n.recipient, n.assets))
}

/// The id-derivation words of a consume list: for each entry its note id,
/// whether a proof is attached, and the proof word.
pub open spec fn consume_words(ps: Seq<(NoteModel, Option<u64>)>) -> Seq<u64>
    decreases ps.len(),
{
    if ps.len() == 0 {
        Seq::empty()
    } else {
        consume_words(ps.drop_last()) + entry_words(ps.last())
    }
}

/// The id-derivation words of one consume entry.
pub open spec fn entry_words(p: (NoteModel, Option<u64>)) -> Seq<u64> {
    seq![
        note_id_of(p.0.recipient, p.0.assets),
        if p.1 is Some {
            1u64
        } else {
            0u64
        },
        p.1.unwrap_or(0),
    ]
}

/// The words a transaction id is derived from: the account and the
/// intent, and nothing else.
pub open spec fn tx_words(account: AccountId, intent: IntentModel) -> Seq<u64> {
    seq![account.prefix, account.suffix] + match intent {
        IntentModel::RunScript(a) => seq![0u64, artifact_kind_code(a.kind), a.digest],
        IntentModel::ProduceNotes(ns) => seq![1u64, ns.len() as u64] + note_ids(ns),
        IntentModel::ConsumeNotes(ps) => seq![2u64, ps.len() as u64] + consume_words(ps),
    }
}

/// The id of a transaction: a deterministic function of the account it
/// is submitted against and the intent it carries.
pub open spec fn tx_id_of(account: AccountId, intent: IntentModel) -> TransactionId {
    TransactionId { value: spec_digest(tx_words(account, intent)) }
}

/// A handle returned by submission: the stable transaction id to poll
/// for, and the account the transaction was submitted against.
#[derive(Clone, Copy, Debug, PartialEq, Eq, Structural)]
pub struct TransactionHandle {
    pub id: TransactionId,
    pub account: AccountId,
}

/// Checks an intent as local execution does.
pub fn validate_intent(intent: &Intent) -> (r: Result<(), SubmissionError>)
    ensures
        r is Ok <==> intent_valid(intent@),
        r matches Err(e) ==> e == intent_error(intent@),
{
    match intent {
        Intent::RunScript(a) => {
            if matches!(a.kind, ArtifactKind::TransactionScript) {
                Ok(())
            } else {
                Err(SubmissionError::WrongArtifactKind)
            }
        },
        Intent::ProduceNotes(ns) => {
            if ns.len() > 0 {
                Ok(())
            } else {
                Err(SubmissionError::EmptyNoteSet)
            }
        },
        Intent::ConsumeNotes(ps) => {
            if ps.len() > 0 {
                Ok(())
            } else {
                Err(SubmissionError::EmptyNoteSet)
            }
        },
    }
}

/// Derives the id of the transaction carrying `intent` against `account`.
pub fn derive_tx_id(account: AccountId, intent: &Intent) -> (r: TransactionId)
    ensures
        r == tx_id_of(account, intent@),
{
    let mut v: Vec<u64> = Vec::new();
    v.push(account.prefix);
    v.push(account.suffix);
    match intent {
        Intent::RunScript(a) => {
            v.push(0);
            let kc: u64 = match a.kind {
                ArtifactKind::NoteScript => 0,
                ArtifactKind::TransactionScript => 1,
            };
            v.push(kc);
            v.push(a.digest);
            proof {
                assert(v@ =~= tx_words(account, intent@));
            }
        },
        Intent::ProduceNotes(ns) => {
            v.push(1);
            v.push(ns.len() as u64);
            let ghost nv = ns@.map_values(|n: Note| n@);
            let mut i: usize = 0;
            while i < ns.len()
                invariant
                    i <= ns.len(),
                    nv == ns@.map_values(|n: Note| n@),
                    v@ == seq![account.prefix, account.suffix, 1u64, nv.len() as u64] + note_ids(
                        nv.take(i as int),
                    ),
                decreases ns.len() - i,
            {
                let id = ns[i].id();
                v.push(id);
                proof {
                    assert(note_ids(nv.take(i + 1)) =~= note_ids(nv.take(i as int)).push(
                        note_id_of(nv[i as int].recipient, nv[i as int].assets),
                    ));
                    assert(v@ =~= seq![account.prefix, account.suffix, 1u64, nv.len() as u64]
                        + note_ids(nv.take(i + 1)));
                }
                i = i + 1;
            }
            proof {
                assert(nv.take(nv.len() as int) =~= nv);
                assert(v@ =~= tx_words(account, intent@));
            }
        },
        Intent::ConsumeNotes(ps) => {
            v.push(2);
            v.push(ps.len() as u64);
            let ghost pv = ps@.map_values(|p: (Note, Option<u64>)| (p.0@, p.1));
            let mut i: usize = 0;
            while i < ps.len()
                invariant
                    i <= ps.len(),
                    pv == ps@.map_values(|p: (Note, Option<u64>)| (p.0@, p.1)),
                    v@ == seq![account.prefix, account.suffix, 2u64, pv.len() as u64]
                        + consume_words(pv.take(i as int)),
                decreases ps.len() - i,
            {
                let id = ps[i].0.id();
                v.push(id);
                let (flag, val): (u64, u64) = match ps[i].1 {
                    Some(p) => (1, p),
                    None => (0, 0),
                };
                v.push(flag);
                v.push(val);
                proof {
                    assert(pv.take(i + 1).drop_last() =~= pv.take(i as int));
                    assert(pv.take(i + 1).last() == pv[i as int]);
                    assert(v@ =~= seq![account.prefix, account.suffix, 2u64, pv.len() as u64]
                        + consume_words(pv.take(i + 1)));
                }
                i = i + 1;
            }
            proof {
                assert(pv.take(pv.len() as int) =~= pv);
                assert(v@ =~= tx_words(account, intent@));
            }
        },
    }
    let d = digest_words(&v);
    TransactionId { value: d }
}

} // verus!
