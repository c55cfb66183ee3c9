use ledger_workflow::account::{
    build_account, Account, AccountComponent, AccountId, AccountKind, CodeMutability, Counter,
    StorageVisibility,
};
use ledger_workflow::errors::ComponentLayoutError;
use ledger_workflow::field::{felt_add, increment_word, Word, FIELD_MODULUS};
use ledger_workflow::note::{
    account_tag, assemble_note, ExecutionHint, Note, NoteDispatch, NoteMetadata, NoteRecipient,
    NoteVisibility,
};
use ledger_workflow::compiler::{ArtifactKind, ScriptArtifact};
use ledger_workflow::telemetry::OpenTelemetry;

fn seed_one() -> Word {
    Word { e0: 1, e1: 2, e2: 3, e3: 4 }
}

fn counter_components() -> (AccountComponent, Vec<AccountComponent>) {
    let auth = AccountComponent::no_auth();
    let counter: AccountComponent = Counter::default().into();
    (auth, vec![counter])
}

#[test]
fn account_ids_are_deterministic() {
    let (auth1, comps1) = counter_components();
    let (auth2, comps2) = counter_components();
    let a1 = build_account(seed_one(), AccountKind::ImmutableNetwork, auth1, comps1).unwrap();
    let a2 = build_account(seed_one(), AccountKind::ImmutableNetwork, auth2, comps2).unwrap();
    assert_eq!(a1.id, a2.id);
}

#[test]
fn account_ids_differ_for_different_seeds() {
    let (auth1, comps1) = counter_components();
    let (auth2, comps2) = counter_components();
    let a1 = build_account(seed_one(), AccountKind::ImmutableNetwork, auth1, comps1).unwrap();
    let other_seed = Word { e0: 9, e1: 9, e2: 9, e3: 9 };
    let a2 = build_account(other_seed, AccountKind::ImmutableNetwork, auth2, comps2).unwrap();
    assert_ne!(a1.id, a2.id);
}

#[test]
fn counter_account_layout() {
    let (auth, comps) = counter_components();
    let a = build_account(seed_one(), AccountKind::ImmutableNetwork, auth, comps).unwrap();
    assert_eq!(a.kind, AccountKind::ImmutableNetwork);
    assert_eq!(a.storage.len(), 1);
    assert_eq!(a.storage[0], Word { e0: 0, e1: 0, e2: 0, e3: 0 });
    assert_eq!(a.kind.mutability(), CodeMutability::Immutable);
    assert_eq!(a.kind.visibility(), StorageVisibility::Network);
}

#[test]
fn counter_component_carries_initial_value() {
    let component: AccountComponent = Counter::new(7).into();
    assert_eq!(component.storage.len(), 1);
    assert_eq!(component.storage[0], Word { e0: 7, e1: 0, e2: 0, e3: 0 });
    let reduced: AccountComponent = Counter::new(FIELD_MODULUS).into();
    assert_eq!(reduced.storage[0], Word { e0: 0, e1: 0, e2: 0, e3: 0 });
}

#[test]
fn unsupported_component_is_rejected() {
    let updatable_only = AccountComponent {
        code: 9,
        storage: vec![],
        supports_updatable: true,
        supports_immutable: false,
    };
    let auth = AccountComponent::no_auth();
    let r = build_account(seed_one(), AccountKind::ImmutablePublic, auth, vec![updatable_only]);
    assert_eq!(
        r.unwrap_err(),
        ComponentLayoutError::UnsupportedComponent { index: 1 }
    );
}

#[test]
fn unsupported_auth_component_is_rejected() {
    let auth = AccountComponent {
        code: 9,
        storage: vec![],
        supports_updatable: true,
        supports_immutable: false,
    };
    let counter: AccountComponent = Counter::default().into();
    let r = build_account(seed_one(), AccountKind::ImmutableNetwork, auth, vec![counter]);
    assert_eq!(
        r.unwrap_err(),
        ComponentLayoutError::UnsupportedComponent { index: 0 }
    );
}

#[test]
fn invalid_slot_value_is_rejected() {
    let bad = AccountComponent {
        code: 9,
        storage: vec![Word { e0: u64::MAX, e1: 0, e2: 0, e3: 0 }],
        supports_updatable: true,
        supports_immutable: true,
    };
    let auth = AccountComponent::no_auth();
    let r = build_account(seed_one(), AccountKind::UpdatablePublic, auth, vec![bad]);
    assert_eq!(r.unwrap_err(), ComponentLayoutError::InvalidSlotValue { index: 0 });
}

#[test]
fn oversized_layout_is_rejected() {
    let wide = AccountComponent {
        code: 9,
        storage: vec![Word { e0: 0, e1: 0, e2: 0, e3: 0 }; 256],
        supports_updatable: true,
        supports_immutable: true,
    };
    let auth = AccountComponent::no_auth();
    let r = build_account(seed_one(), AccountKind::UpdatablePublic, auth, vec![wide]);
    assert_eq!(r.unwrap_err(), ComponentLayoutError::TooManySlots { total: 256 });
}

#[test]
fn equal_initial_values_yield_identical_components() {
    let a: AccountComponent = Counter::new(9).into();
    let b: AccountComponent = Counter::new(9).into();
    assert_eq!(a.code, b.code);
    assert_eq!(a.storage, b.storage);
    assert_eq!(a.supports_updatable, b.supports_updatable);
    assert_eq!(a.supports_immutable, b.supports_immutable);
    assert_eq!(a.storage, vec![Word { e0: 9, e1: 0, e2: 0, e3: 0 }]);
}

#[test]
fn tag_is_low_half_of_prefix() {
    let id = AccountId { prefix: 0x1234_5678_9abc_def0, suffix: 0 };
    assert_eq!(account_tag(id), 0x9abc_def0);
}

fn note_script() -> ScriptArtifact {
    ScriptArtifact { kind: ArtifactKind::NoteScript, digest: 42 }
}

#[test]
fn network_note_is_tagged_by_target() {
    let creator = AccountId { prefix: 11, suffix: 12 };
    let target = AccountId { prefix: 21, suffix: 22 };
    let note = assemble_note(
        Word { e0: 5, e1: 6, e2: 7, e3: 8 },
        note_script(),
        vec![],
        vec![],
        creator,
        NoteDispatch::Network { target },
        ExecutionHint::NoHint,
    )
    .unwrap();
    assert_eq!(note.metadata.tag, account_tag(target));
    assert_eq!(note.metadata.visibility, NoteVisibility::Public);
    assert_eq!(note.metadata.creator, creator);
}

#[test]
fn private_note_is_tagged_by_creator() {
    let creator = AccountId { prefix: 11, suffix: 12 };
    let note = assemble_note(
        Word { e0: 5, e1: 6, e2: 7, e3: 8 },
        note_script(),
        vec![],
        vec![],
        creator,
        NoteDispatch::Private,
        ExecutionHint::NoHint,
    )
    .unwrap();
    assert_eq!(note.metadata.tag, account_tag(creator));
    assert_eq!(note.metadata.visibility, NoteVisibility::Private);
}

#[test]
fn note_id_ignores_metadata() {
    let serial = Word { e0: 5, e1: 6, e2: 7, e3: 8 };
    let creator = AccountId { prefix: 11, suffix: 12 };
    let other = AccountId { prefix: 21, suffix: 22 };
    let recipient = |_creator: AccountId| NoteRecipient {
        serial,
        script: note_script(),
        inputs: vec![3, 4],
    };
    let n1 = Note {
        assets: vec![],
        metadata: NoteMetadata {
            creator,
            visibility: NoteVisibility::Public,
            tag: account_tag(other),
            hint: ExecutionHint::NoHint,
            aux: 0,
        },
        recipient: recipient(creator),
    };
    let n2 = Note {
        assets: vec![],
        metadata: NoteMetadata {
            creator: other,
            visibility: NoteVisibility::Private,
            tag: account_tag(creator),
            hint: ExecutionHint::Always,
            aux: 0,
        },
        recipient: recipient(other),
    };
    assert_eq!(n1.id(), n2.id());
}

#[test]
fn note_id_depends_on_serial() {
    let creator = AccountId { prefix: 11, suffix: 12 };
    let make = |serial: Word| {
        assemble_note(
            serial,
            note_script(),
            vec![],
            vec![],
            creator,
            NoteDispatch::Private,
            ExecutionHint::NoHint,
        )
        .unwrap()
    };
    let n1 = make(Word { e0: 1, e1: 0, e2: 0, e3: 0 });
    let n2 = make(Word { e0: 2, e1: 0, e2: 0, e3: 0 });
    assert_ne!(n1.id(), n2.id());
}

#[test]
fn word_access_and_arithmetic() {
    let w = Word { e0: 10, e1: 11, e2: 12, e3: 13 };
    assert_eq!(w.get(0), Some(10));
    assert_eq!(w.get(3), Some(13));
    assert_eq!(w.get(4), None);
    assert_eq!(felt_add(FIELD_MODULUS - 1, 1), 0);
    let wrapped = increment_word(&Word { e0: 0, e1: 0, e2: 0, e3: FIELD_MODULUS - 1 });
    assert_eq!(wrapped.e3, 0);
    let bumped = increment_word(&Word { e0: 0, e1: 0, e2: 0, e3: 5 });
    assert_eq!(bumped, Word { e0: 0, e1: 0, e2: 0, e3: 6 });
}

#[test]
fn account_clone_preserves_state() {
    let (auth, comps) = counter_components();
    let a = build_account(seed_one(), AccountKind::ImmutableNetwork, auth, comps).unwrap();
    let b: Account = a.clone();
    assert_eq!(a.id, b.id);
    assert_eq!(a.kind, b.kind);
    assert_eq!(a.storage, b.storage);
    assert_eq!(a.auth_code, b.auth_code);
}

#[test]
fn account_kind_combines_both_halves() {
    let kinds = [
        (CodeMutability::Updatable, StorageVisibility::Public),
        (CodeMutability::Updatable, StorageVisibility::Private),
        (CodeMutability::Updatable, StorageVisibility::Network),
        (CodeMutability::Immutable, StorageVisibility::Public),
        (CodeMutability::Immutable, StorageVisibility::Private),
        (CodeMutability::Immutable, StorageVisibility::Network),
    ];
    for (m, v) in kinds {
        let kind = AccountKind::from_parts(m, v);
        assert_eq!(kind.mutability(), m);
        assert_eq!(kind.visibility(), v);
    }
    assert_eq!(
        AccountKind::from_parts(CodeMutability::Immutable, StorageVisibility::Network),
        AccountKind::ImmutableNetwork
    );
}

#[test]
fn zero_word_is_the_fresh_slot() {
    assert_eq!(Word::zero(), Word { e0: 0, e1: 0, e2: 0, e3: 0 });
    let (auth, comps) = counter_components();
    let a = build_account(seed_one(), AccountKind::ImmutablePublic, auth, comps).unwrap();
    assert_eq!(a.storage[0], Word::zero());
}

#[test]
fn telemetry_switch() {
    assert!(OpenTelemetry::Enabled.is_enabled());
    assert!(!OpenTelemetry::Disabled.is_enabled());
}
