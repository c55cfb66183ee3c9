//! The entity factory for notes.
//!
//! A note is a transferable intent: assets, metadata, and a recipient
//! descriptor made of a fresh random serial number, a compiled note
//! script, and an input list.  Its id is a deterministic function of the
//! recipient descriptor and the assets alone — never of the metadata or
//! of wall-clock time.  Its routing tag is derived from an account id: a
//! network note is tagged by the *target* account expected to consume it,
//! a private note by its *creator*.

use vstd::prelude::*;
use crate::account::{word_words, storage_words, AccountId};
use crate::compiler::{ArtifactKind, ScriptArtifact};
use crate::digest::{digest_words, spec_digest};
use crate::errors::CompileError;
use crate::field::Word;
use crate::rng::draw_word;

verus! {

/// The routing tag derived from an account id.
pub open spec fn tag_of(id: AccountId) -> u32 {
    (id.prefix & 0xffff_ffff) as u32
}

/// Derives the routing tag of an account id.
pub fn account_tag(id: AccountId) -> (r: u32)
    ensures
        r == tag_of(id),
{
    proof {
        let p = id.prefix;
        assert((p & 0xffff_ffff) <= 0xffff_ffff) by (bit_vector);
    }
    (id.prefix & 0xffff_ffff) as u32
}

/// Who can read a note's content on the ledger.
#[derive(Clone, Copy, Debug, PartialEq, Eq, Structural)]
pub enum NoteVisibility {
    Public,
    Private,
}

/// When the network should try to execute a note automatically.
#[derive(Clone, Copy, Debug, PartialEq, Eq, Structural)]
pub enum ExecutionHint {
    NoHint,
    Always,
}

/// How a note is dispatched, which fixes its visibility and its tag: a
/// network note targets the account expected to consume it; a private
/// note stays with its creator's tag.
#[derive(Clone, Copy, Debug, PartialEq, Eq, Structural)]
pub enum NoteDispatch {
    Network { target: AccountId },
    Private,
}

/// A note's metadata: its creator, its visibility, its routing tag, an
/// execution hint, and an auxiliary word (zero throughout this workflow).
#[derive(Clone, Copy, Debug, PartialEq, Eq, Structural)]
pub struct NoteMetadata {
    pub creator: AccountId,
    pub visibility: NoteVisibility,
    pub tag: u32,
    pub hint: ExecutionHint,
    pub aux: u64,
}

/// The recipient descriptor: the serial number drawn at build time, the
/// compiled note script, and the script's input list.
#[derive(Debug)]
pub struct NoteRecipient {
    pub serial: Word,
    pub script: ScriptArtifact,
    pub inputs: Vec<u64>,
}

/// The model of a recipient descriptor.
pub struct RecipientModel {
    pub serial: Word,
    pub script: ScriptArtifact,
    pub inputs: Seq<u64>,
}

impl View for NoteRecipient {
    type V = RecipientModel;

    open spec fn view(&self) -> RecipientModel {
        RecipientModel { serial: self.serial, script: self.script, inputs: self.inputs@ }
    }
}

/// A note: assets, metadata, and the recipient descriptor.
#[derive(Debug)]
pub struct Note {
    pub assets: Vec<Word>,
    pub metadata: NoteMetadata,
    pub recipient: NoteRecipient,
}

/// The model of a note.
pub struct NoteModel {
    pub assets: Seq<Word>,
    pub metadata: NoteMetadata,
    pub recipient: RecipientModel,
}

impl View for Note {
    type V = NoteModel;

    open spec fn view(&self) -> NoteModel {
        NoteModel { assets: self.assets@, metadata: self.metadata, recipient: self.recipient@ }
    }
}

/// The kind code of a script artifact in id derivation.
pub open spec fn artifact_kind_code(k: ArtifactKind) -> u64 {
    match k {
        ArtifactKind::NoteScript => 0,
        ArtifactKind::TransactionScript => 1,
    }
}

/// The words a note id is derived from: the recipient descriptor and the
/// assets, and nothing else.  Metadata never enters.
pub open spec fn note_words(recipient: RecipientModel, assets: Seq<Word>) -> Seq<u64> {
    word_words(recipient.serial) + seq![
        artifact_kind_code(recipient.script.kind),
        recipient.script.digest,
        recipient.inputs.len() as u64,
    ] + recipient.inputs + seq![assets.len() as u64] + storage_words(assets)
}

/// The id of a note: a deterministic function of its recipient descriptor
/// and its assets.
pub open spec fn note_id_of(recipient: RecipientModel, assets: Seq<Word>) -> u64 {
    spec_digest(note_words(recipient, assets))
}

/// A note id is independent of the note's metadata: two notes with the
/// same recipient descriptor and the same assets carry the same id,
/// whatever their metadata (in particular, whenever they were created).
pub proof fn lemma_note_id_ignores_metadata(n1: NoteModel, n2: NoteModel)
    requires
        n1.recipient == n2.recipient,
        n1.assets == n2.assets,
    ensures
        note_id_of(n1.recipient, n1.assets) == note_id_of(n2.recipient, n2.assets),
{
}

impl Note {
    /// Computes the note's id from its recipient descriptor and assets.
    pub fn id(&self) -> (r: u64)
        ensures
            r == note_id_of(self.recipient@, self.assets@),
    {
        let mut v: Vec<u64> = Vec::new();
        crate::account::push_word_words(&mut v, &self.recipient.serial);
        let kc: u64 = match self.recipient.script.kind {
            ArtifactKind::NoteScript => 0,
            ArtifactKind::TransactionScript => 1,
        };
        v.push(kc);
        v.push(self.recipient.script.digest);
        v.push(self.recipient.inputs.len() as u64);
        let mut i: usize = 0;
        while i < self.recipient.inputs.len()
            invariant
                i <= self.recipient.inputs.len(),
                v@ == word_words(self.recipient@.serial) + seq![
                    artifact_kind_code(self.recipient@.script.kind),
                    self.recipient@.script.digest,
                    self.recipient@.inputs.len() as u64,
                ] + self.recipient@.inputs.take(i as int),
            decreases self.recipient.inputs.len() - i,
        {
            v.push(self.recipient.inputs[i]);
            proof {
                assert(self.recipient@.inputs.take(i + 1) =~= self.recipient@.inputs.take(
                    i as int,
                ).push(self.recipient@.inputs[i as int]));
                assert(v@ =~= word_words(self.recipient@.serial) + seq![
                    artifact_kind_code(self.recipient@.script.kind),
                    self.recipient@.script.digest,
                    self.recipient@.inputs.len() as u64,
                ] + self.recipient@.inputs.take(i + 1));
            }
            i = i + 1;
        }
        proof {
            assert(self.recipient@.inputs.take(self.recipient@.inputs.len() as int)
                =~= self.recipient@.inputs);
        }
        v.push(self.assets.len() as u64);
        let mut j: usize = 0;
        while j < self.assets.len()
            invariant
                j <= self.assets.len(),
                v@ == word_words(self.recipient@.serial) + seq![
                    artifact_kind_code(self.recipient@.script.kind),
                    self.recipient@.script.digest,
                    self.recipient@.inputs.len() as u64,
                ] + self.recipient@.inputs + seq![self.assets@.len() as u64] + storage_words(
                    self.assets@.take(j as int),
                ),
            decreases self.assets.len() - j,
        {
            crate::account::push_word_words(&mut v, &self.assets[j]);
            proof {
                assert(self.assets@.take(j + 1).drop_last() =~= self.assets@.take(j as int));
                assert(self.assets@.take(j + 1).last() == self.assets@[j as int]);
                assert(v@ =~= word_words(self.recipient@.serial) + seq![
                    artifact_kind_code(self.recipient@.script.kind),
                    self.recipient@.script.digest,
                    self.recipient@.inputs.len() as u64,
                ] + self.recipient@.inputs + seq![self.assets@.len() as u64] + storage_words(
                    self.assets@.take(j + 1),
                ));
            }
            j = j + 1;
        }
        proof {
            assert(self.assets@.take(self.assets@.len() as int) =~= self.assets@);
            assert(v@ =~= note_words(self.recipient@, self.assets@));
        }
        digest_words(&v)
    }
}

impl Clone for Note {
    /// A copy of the note: same assets, metadata, and recipient.
    fn clone(&self) -> (r: Self)
        ensures
            r@ == self@,
    {
        let mut assets: Vec<Word> = Vec::new();
        let mut i: usize = 0;
        while i < self.assets.len()
            invariant
                i <= self.assets.len(),
                assets@ == self.assets@.take(i as int),
            decreases self.assets.len() - i,
        {
            assets.push(self.assets[i]);
            proof {
                assert(self.assets@.take(i + 1) =~= self.assets@.take(i as int).push(
                    self.assets@[i as int],
                ));
            }
            i = i + 1;
        }
        let mut inputs: Vec<u64> = Vec::new();
        let mut j: usize = 0;
        while j < self.recipient.inputs.len()
            invariant
                j <= self.recipient.inputs.len(),
                inputs@ == self.recipient.inputs@.take(j as int),
            decreases self.recipient.inputs.len() - j,
        {
            inputs.push(self.recipient.inputs[j]);
            proof {
                assert(self.recipient.inputs@.take(j + 1) =~= self.recipient.inputs@.take(
                    j as int,
                ).push(self.recipient.inputs@[j as int]));
            }
            j = j + 1;
        }
        proof {
            assert(self.assets@.take(self.assets@.len() as int) =~= self.assets@);
            assert(self.recipient.inputs@.take(self.recipient.inputs@.len() as int)
                =~= self.recipient.inputs@);
        }
        let r = Note {
            assets,
            metadata: self.metadata,
            recipient: NoteRecipient {
                serial: self.recipient.serial,
                script: self.recipient.script,
                inputs,
            },
        };
        proof {
            assert(r@ == self@);
        }
        r
    }
}

/// The metadata a build gives a note: a network note is public and tagged
/// by its target account; a private note is private and tagged by its
/// creator.
pub open spec fn note_metadata_for(
    creator: AccountId,
    dispatch: NoteDispatch,
    hint: ExecutionHint,
) -> NoteMetadata {
    match dispatch {
        NoteDispatch::Network { target } => NoteMetadata {
            creator,
            visibility: NoteVisibility::Public,
            tag: tag_of(target),
            hint,
            aux: 0,
        },
        NoteDispatch::Private => NoteMetadata {
            creator,
            visibility: NoteVisibility::Private,
            tag: tag_of(creator),
            hint,
            aux: 0,
        },
    }
}

/// Tag derivation: a note dispatched to the network and targeting account
/// `target` is tagged by the target's id; a private note created by
/// `creator` is tagged by the creator's id.
pub proof fn lemma_tag_derivation(creator: AccountId, target: AccountId, hint: ExecutionHint)
    ensures
        note_metadata_for(creator, NoteDispatch::Network { target }, hint).tag == tag_of(target),
        note_metadata_for(creator, NoteDispatch::Private, hint).tag == tag_of(creator),
        note_metadata_for(creator, NoteDispatch::Network { target }, hint).visibility
            == NoteVisibility::Public,
        note_metadata_for(creator, NoteDispatch::Private, hint).visibility
            == NoteVisibility::Private,
{
}

/// Assembles the note determined by a serial number, a compiled script,
/// inputs, assets, a creator, and a dispatch.  Fails exactly when the
/// script artifact is not valid for the note execution context.
pub fn assemble_note(
    serial: Word,
    script: ScriptArtifact,
    inputs: Vec<u64>,
    assets: Vec<Word>,
    creator: AccountId,
    dispatch: NoteDispatch,
    hint: ExecutionHint,
) -> (r: Result<Note, CompileError>)
    ensures
        r is Ok <==> script.kind == ArtifactKind::NoteScript,
        r matches Ok(n) ==> {
            &&& n.metadata == note_metadata_for(creator, dispatch, hint)
            &&& n.recipient@.serial == serial
            &&& n.recipient@.script == script
            &&& n.recipient@.inputs == inputs@
            &&& n.assets@ == assets@
        },
        r matches Err(e) ==> e == CompileError::WrongExecutionContext,
{
    if !matches!(script.kind, ArtifactKind::NoteScript) {
        return Err(CompileError::WrongExecutionContext);
    }
    let tag = match dispatch {
        NoteDispatch::Network { target } => account_tag(target),
        NoteDispatch::Private => account_tag(creator),
    };
    let visibility = match dispatch {
        NoteDispatch::Network { .. } => NoteVisibility::Public,
        NoteDispatch::Private => NoteVisibility::Private,
    };
    let metadata = NoteMetadata { creator, visibility, tag, hint, aux: 0 };
    Ok(Note { assets, metadata, recipient: NoteRecipient { serial, script, inputs } })
}

/// Builds a note, drawing one fresh random serial number — the only
/// non-deterministic input.  Everything but the serial is pinned: the
/// metadata follows the dispatch's tag rule, and the recipient carries
/// the given script and inputs.
pub fn build_note(
    script: ScriptArtifact,
    inputs: Vec<u64>,
    assets: Vec<Word>,
    creator: AccountId,
    dispatch: NoteDispatch,
    hint: ExecutionHint,
) -> (r: Result<Note, CompileError>)
    ensures
        r is Ok <==> script.kind == ArtifactKind::NoteScript,
        r matches Ok(n) ==> {
            &&& n.metadata == note_metadata_for(creator, dispatch, hint)
            &&& n.recipient@.script == script
            &&& n.recipient@.inputs == inputs@
            &&& n.assets@ == assets@
            &&& n.recipient@.serial.is_valid()
        },
        r matches Err(e) ==> e == CompileError::WrongExecutionContext,
{
    let serial = draw_word();
    assemble_note(serial, script, inputs, assets, creator, dispatch, hint)
}

} // verus!
