//! The entity factory for accounts.
//!
//! An account is a ledger identity: an id derived deterministically from a
//! seed and an ordered component list, a closed account kind (code
//! mutability crossed with storage visibility), a sequence of storage
//! words supplied by the components, and an attached authentication
//! component.  Building an account has no side effect; the caller
//! registers it with the remote authority on first submission.

use vstd::prelude::*;
use crate::digest::{digest_words, mix, spec_digest};
use crate::errors::ComponentLayoutError;
use crate::field::{Word, FIELD_MODULUS};

verus! {

/// Whether the account's code can change after deployment.
#[derive(Clone, Copy, Debug, PartialEq, Eq, Structural)]
pub enum CodeMutability {
    Updatable,
    Immutable,
}

/// Who can read the account's storage, and whether the network itself
/// executes notes against the account.
#[derive(Clone, Copy, Debug, PartialEq, Eq, Structural)]
pub enum StorageVisibility {
    Public,
    Private,
    Network,
}

/// The closed set of account kinds: code mutability crossed with storage
/// visibility.  Keeping the cross product as one enumeration rules out
/// invalid combinations at construction time.
#[derive(Clone, Copy, Debug, PartialEq, Eq, Structural)]
pub enum AccountKind {
    UpdatablePublic,
    UpdatablePrivate,
    UpdatableNetwork,
    ImmutablePublic,
    ImmutablePrivate,
    ImmutableNetwork,
}

impl AccountKind {
    /// The mutability half of the kind.
    pub open spec fn spec_mutability(self) -> CodeMutability {
        match self {
            AccountKind::UpdatablePublic => CodeMutability::Updatable,
            AccountKind::UpdatablePrivate => CodeMutability::Updatable,
            AccountKind::UpdatableNetwork => CodeMutability::Updatable,
            AccountKind::ImmutablePublic => CodeMutability::Immutable,
            AccountKind::ImmutablePrivate => CodeMutability::Immutable,
            AccountKind::ImmutableNetwork => CodeMutability::Immutable,
        }
    }

    /// Reads the mutability half of the kind.
    pub fn mutability(self) -> (r: CodeMutability)
        ensures
            r == self.spec_mutability(),
    {
        match self {
            AccountKind::UpdatablePublic => CodeMutability::Updatable,
            AccountKind::UpdatablePrivate => CodeMutability::Updatable,
            AccountKind::UpdatableNetwork => CodeMutability::Updatable,
            AccountKind::ImmutablePublic => CodeMutability::Immutable,
            AccountKind::ImmutablePrivate => CodeMutability::Immutable,
            AccountKind::ImmutableNetwork => CodeMutability::Immutable,
        }
    }

    /// The visibility half of the kind.
    pub open spec fn spec_visibility(self) -> StorageVisibility {
        match self {
            AccountKind::UpdatablePublic => StorageVisibility::Public,
            AccountKind::UpdatablePrivate => StorageVisibility::Private,
            AccountKind::UpdatableNetwork => StorageVisibility::Network,
            AccountKind::ImmutablePublic => StorageVisibility::Public,
            AccountKind::ImmutablePrivate => StorageVisibility::Private,
            AccountKind::ImmutableNetwork => StorageVisibility::Network,
        }
    }

    /// Reads the visibility half of the kind.
    pub fn visibility(self) -> (r: StorageVisibility)
        ensures
            r == self.spec_visibility(),
    {
        match self {
            AccountKind::UpdatablePublic => StorageVisibility::Public,
            AccountKind::UpdatablePrivate => StorageVisibility::Private,
            AccountKind::UpdatableNetwork => StorageVisibility::Network,
            AccountKind::ImmutablePublic => StorageVisibility::Public,
            AccountKind::ImmutablePrivate => StorageVisibility::Private,
            AccountKind::ImmutableNetwork => StorageVisibility::Network,
        }
    }

    /// The kind combining the two given halves.
    pub open spec fn spec_from_parts(m: CodeMutability, v: StorageVisibility) -> AccountKind {
        match (m, v) {
            (CodeMutability::Updatable, StorageVisibility::Public) => AccountKind::UpdatablePublic,
            (CodeMutability::Updatable, StorageVisibility::Private) => {
                AccountKind::UpdatablePrivate
            },
            (CodeMutability::Updatable, StorageVisibility::Network) => {
                AccountKind::UpdatableNetwork
            },
            (CodeMutability::Immutable, StorageVisibility::Public) => AccountKind::ImmutablePublic,
            (CodeMutability::Immutable, StorageVisibility::Private) => {
                AccountKind::ImmutablePrivate
            },
            (CodeMutability::Immutable, StorageVisibility::Network) => {
                AccountKind::ImmutableNetwork
            },
        }
    }

    /// Combines the two halves into a kind.
    pub fn from_parts(m: CodeMutability, v: StorageVisibility) -> (k: AccountKind)
        ensures
            k == AccountKind::spec_from_parts(m, v),
            k.spec_mutability() == m,
            k.spec_visibility() == v,
    {
        match (m, v) {
            (CodeMutability::Updatable, StorageVisibility::Public) => AccountKind::UpdatablePublic,
            (CodeMutability::Updatable, StorageVisibility::Private) => {
                AccountKind::UpdatablePrivate
            },
            (CodeMutability::Updatable, StorageVisibility::Network) => {
                AccountKind::UpdatableNetwork
            },
            (CodeMutability::Immutable, StorageVisibility::Public) => AccountKind::ImmutablePublic,
            (CodeMutability::Immutable, StorageVisibility::Private) => {
                AccountKind::ImmutablePrivate
            },
            (CodeMutability::Immutable, StorageVisibility::Network) => {
                AccountKind::ImmutableNetwork
            },
        }
    }

    /// The word encoding the kind in id derivation.
    pub open spec fn spec_kind_code(self) -> u64 {
        match self {
            AccountKind::UpdatablePublic => 0,
            AccountKind::UpdatablePrivate => 1,
            AccountKind::UpdatableNetwork => 2,
            AccountKind::ImmutablePublic => 3,
            AccountKind::ImmutablePrivate => 4,
            AccountKind::ImmutableNetwork => 5,
        }
    }

    /// Encodes the kind as one word of the id derivation.
    pub fn kind_code(self) -> (r: u64)
        ensures
            r == self.spec_kind_code(),
    {
        match self {
            AccountKind::UpdatablePublic => 0,
            AccountKind::UpdatablePrivate => 1,
            AccountKind::UpdatableNetwork => 2,
            AccountKind::ImmutablePublic => 3,
            AccountKind::ImmutablePrivate => 4,
            AccountKind::ImmutableNetwork => 5,
        }
    }
}

/// An account id: two field elements derived from the seed and the
/// ordered component list, and nothing else.
#[derive(Clone, Copy, Debug, PartialEq, Eq, Structural)]
pub struct AccountId {
    pub prefix: u64,
    pub suffix: u64,
}

/// The mathematical model of an account component: the identity of its
/// compiled code, its storage layout, and the account kinds it supports.
pub struct ComponentModel {
    pub code: u64,
    pub storage: Seq<Word>,
    pub supports_updatable: bool,
    pub supports_immutable: bool,
}

/// Code identity of the basic wallet component.
pub const WALLET_CODE: u64 = 1;

/// Code identity of the component that disables authentication.
pub const NO_AUTH_CODE: u64 = 2;

/// Code identity of the signature-scheme authentication component.
pub const FALCON_AUTH_CODE: u64 = 3;

/// Code identity of the counter contract component.
pub const COUNTER_CODE: u64 = 4;

/// An executable artifact plus the storage slots it brings to an account,
/// and the account kinds whose code may embed it.
#[derive(Debug)]
pub struct AccountComponent {
    pub code: u64,
    pub storage: Vec<Word>,
    pub supports_updatable: bool,
    pub supports_immutable: bool,
}

impl View for AccountComponent {
    type V = ComponentModel;

    open spec fn view(&self) -> ComponentModel {
        ComponentModel {
            code: self.code,
            storage: self.storage@,
            supports_updatable: self.supports_updatable,
            supports_immutable: self.supports_immutable,
        }
    }
}

/// Whether a component may stand in an account of the given kind.
pub open spec fn supports(c: ComponentModel, kind: AccountKind) -> bool {
    match kind.spec_mutability() {
        CodeMutability::Updatable => c.supports_updatable,
        CodeMutability::Immutable => c.supports_immutable,
    }
}

impl AccountComponent {
    /// Checks that this component may stand in an account of `kind`.
    pub fn supports_kind(&self, kind: AccountKind) -> (r: bool)
        ensures
            r == supports(self@, kind),
    {
        match kind.mutability() {
            CodeMutability::Updatable => self.supports_updatable,
            CodeMutability::Immutable => self.supports_immutable,
        }
    }

    /// The model of the basic wallet component: no storage, every kind.
    pub open spec fn basic_wallet_model() -> ComponentModel {
        ComponentModel {
            code: WALLET_CODE,
            storage: Seq::empty(),
            supports_updatable: true,
            supports_immutable: true,
        }
    }

    /// The basic wallet component.
    pub fn basic_wallet() -> (c: AccountComponent)
        ensures
            c@ == AccountComponent::basic_wallet_model(),
    {
        let c = AccountComponent {
            code: WALLET_CODE,
            storage: Vec::new(),
            supports_updatable: true,
            supports_immutable: true,
        };
        proof {
            assert(c@.storage =~= Seq::<Word>::empty());
        }
        c
    }

    /// The model of the component that disables authentication.
    pub open spec fn no_auth_model() -> ComponentModel {
        ComponentModel {
            code: NO_AUTH_CODE,
            storage: Seq::empty(),
            supports_updatable: true,
            supports_immutable: true,
        }
    }

    /// The authentication component that accepts every transaction.
    pub fn no_auth() -> (c: AccountComponent)
        ensures
            c@ == AccountComponent::no_auth_model(),
    {
        let c = AccountComponent {
            code: NO_AUTH_CODE,
            storage: Vec::new(),
            supports_updatable: true,
            supports_immutable: true,
        };
        proof {
            assert(c@.storage =~= Seq::<Word>::empty());
        }
        c
    }

    /// The model of the signature-scheme authentication component: one
    /// storage slot holding the public key.
    pub open spec fn falcon_auth_model(key: Word) -> ComponentModel {
        ComponentModel {
            code: FALCON_AUTH_CODE,
            storage: seq![key],
            supports_updatable: true,
            supports_immutable: true,
        }
    }

    /// The authentication component holding a signature public key.
    pub fn falcon_auth(key: Word) -> (c: AccountComponent)
        ensures
            c@ == AccountComponent::falcon_auth_model(key),
    {
        let mut storage: Vec<Word> = Vec::new();
        storage.push(key);
        let c = AccountComponent {
            code: FALCON_AUTH_CODE,
            storage,
            supports_updatable: true,
            supports_immutable: true,
        };
        proof {
            assert(c@.storage =~= seq![key]);
        }
        c
    }
}

/// The model of a counter component with the given declared initial
/// value: one storage slot whose first element carries the value reduced
/// into the field, every kind supported.
pub open spec fn counter_component_model(initial: u64) -> ComponentModel {
    ComponentModel {
        code: COUNTER_CODE,
        storage: seq![Word { e0: (initial % FIELD_MODULUS) as u64, e1: 0, e2: 0, e3: 0 }],
        supports_updatable: true,
        supports_immutable: true,
    }
}

/// Counter component for creating counter accounts.
///
/// This component supports all account types and provides a simple counter
/// functionality with a single storage slot.
pub struct Counter {
    initial_value: u64,
}

impl Counter {
    /// The initial value the counter was declared with.
    pub closed spec fn spec_initial_value(&self) -> u64 {
        self.initial_value
    }

    /// Creates a new [`Counter`] component with the specified initial value.
    pub fn new(initial_value: u64) -> (c: Self)
        ensures
            c.spec_initial_value() == initial_value,
    {
        Self { initial_value }
    }

    /// Creates a new [`Counter`] component with initial value of 0.
    pub fn default() -> (c: Self)
        ensures
            c.spec_initial_value() == 0,
    {
        Self::new(0)
    }

    /// The model of the counter component: one storage slot whose first
    /// element carries the reduced initial value, every kind supported.
    pub open spec fn component_model(&self) -> ComponentModel {
        counter_component_model(self.spec_initial_value())
    }

    /// The account component of this counter.
    pub fn component(&self) -> (c: AccountComponent)
        ensures
            c@ == self.component_model(),
    {
        let slot = Word { e0: self.initial_value % FIELD_MODULUS, e1: 0, e2: 0, e3: 0 };
        let mut storage: Vec<Word> = Vec::new();
        storage.push(slot);
        let c = AccountComponent {
            code: COUNTER_CODE,
            storage,
            supports_updatable: true,
            supports_immutable: true,
        };
        proof {
            assert(c@.storage =~= self.component_model().storage);
        }
        c
    }
}

impl From<Counter> for AccountComponent {
    /// The storage layout and code identity a counter brings to an
    /// account: one slot holding the reduced initial value, every kind
    /// supported.
    fn from(counter: Counter) -> (r: Self)
        ensures
            r@ == counter.component_model(),
    {
        counter.component()
    }
}

// A component holds a vector, and a vector value cannot be written down
// in a spec-level `from_spec`; the conversion's result is pinned by the
// `ensures` on `fn from` above instead.
impl vstd::std_specs::convert::FromSpecImpl<Counter> for AccountComponent {
    open spec fn obeys_from_spec() -> bool {
        false
    }

    open spec fn from_spec(v: Counter) -> Self {
        arbitrary()
    }
}

/// The component list as checked during a build: the authentication
/// component first, then the business components in order.
pub open spec fn all_components(auth: ComponentModel, comps: Seq<ComponentModel>) -> Seq<
    ComponentModel,
> {
    seq![auth] + comps
}

/// Every listed component supports the kind.
pub open spec fn all_supported(kind: AccountKind, all: Seq<ComponentModel>) -> bool {
    forall|i: int| 0 <= i < all.len() ==> supports(#[trigger] all[i], kind)
}

/// The storage words of a component list, in declaration order.
pub open spec fn components_storage(cs: Seq<ComponentModel>) -> Seq<Word>
    decreases cs.len(),
{
    if cs.len() == 0 {
        Seq::empty()
    } else {
        components_storage(cs.drop_last()) + cs.last().storage
    }
}

/// The account storage produced by a build: the authentication
/// component's slots, then each business component's slots in order.
pub open spec fn combined_storage(auth: ComponentModel, comps: Seq<ComponentModel>) -> Seq<Word> {
    components_storage(all_components(auth, comps))
}

/// Every storage word is a valid word of field elements.
pub open spec fn storage_all_valid(s: Seq<Word>) -> bool {
    forall|i: int| 0 <= i < s.len() ==> (#[trigger] s[i]).is_valid()
}

/// The greatest number of storage slots an account may hold.
pub const MAX_STORAGE_SLOTS: usize = 255;

/// Whether a component list supplies a storage layout compatible with the
/// kind: every component supports the kind, every declared word is valid,
/// and the slots fit the account's address space.
pub open spec fn layout_ok(
    kind: AccountKind,
    auth: ComponentModel,
    comps: Seq<ComponentModel>,
) -> bool {
    &&& all_supported(kind, all_components(auth, comps))
    &&& storage_all_valid(combined_storage(auth, comps))
    &&& combined_storage(auth, comps).len() <= MAX_STORAGE_SLOTS
}

/// The elements of one word, in order.
pub open spec fn word_words(w: Word) -> Seq<u64> {
    seq![w.e0, w.e1, w.e2, w.e3]
}

/// The storage words of a slot sequence, flattened in order.
pub open spec fn storage_words(s: Seq<Word>) -> Seq<u64>
    decreases s.len(),
{
    if s.len() == 0 {
        Seq::empty()
    } else {
        storage_words(s.drop_last()) + word_words(s.last())
    }
}

/// The encoding of one component in id derivation: its code, its slot
/// count, and its storage words.
pub open spec fn component_words(c: ComponentModel) -> Seq<u64> {
    seq![c.code, c.storage.len() as u64] + storage_words(c.storage)
}

/// The encoding of a component list in id derivation.
pub open spec fn components_words(cs: Seq<ComponentModel>) -> Seq<u64>
    decreases cs.len(),
{
    if cs.len() == 0 {
        Seq::empty()
    } else {
        components_words(cs.drop_last()) + component_words(cs.last())
    }
}

/// The full encoding an account id is derived from: the seed, the kind,
/// and the ordered component list with the authentication component first.
pub open spec fn account_words(
    seed: Word,
    kind: AccountKind,
    auth: ComponentModel,
    comps: Seq<ComponentModel>,
) -> Seq<u64> {
    word_words(seed) + seq![kind.spec_kind_code()] + components_words(all_components(auth, comps))
}

/// The id of the account built from a seed, a kind, and an ordered
/// component list.  It is a pure function of those inputs: the same
/// arguments always yield the same id.
pub open spec fn account_id_of(
    seed: Word,
    kind: AccountKind,
    auth: ComponentModel,
    comps: Seq<ComponentModel>,
) -> AccountId {
    let words = account_words(seed, kind, auth, comps);
    AccountId { prefix: spec_digest(words.push(1)), suffix: spec_digest(words.push(2)) }
}

/// The view of a component vector.
pub open spec fn comps_view(s: Seq<AccountComponent>) -> Seq<ComponentModel> {
    s.map_values(|c: AccountComponent| c@)
}

/// A ledger account: its derived id, its kind, its storage words, and the
/// code identity of its authentication component.
#[derive(Debug)]
pub struct Account {
    pub id: AccountId,
    pub kind: AccountKind,
    pub storage: Vec<Word>,
    pub auth_code: u64,
}

impl Account {
    /// A well-formed account holds only valid storage words, within the
    /// slot limit.
    pub open spec fn wf(&self) -> bool {
        &&& storage_all_valid(self.storage@)
        &&& self.storage@.len() <= MAX_STORAGE_SLOTS
    }

    /// Whether this account is the one built from the given seed, kind,
    /// and ordered component list.
    pub open spec fn built_from(
        &self,
        seed: Word,
        kind: AccountKind,
        auth: ComponentModel,
        comps: Seq<ComponentModel>,
    ) -> bool {
        &&& self.id == account_id_of(seed, kind, auth, comps)
        &&& self.kind == kind
        &&& self.storage@ == combined_storage(auth, comps)
        &&& self.auth_code == auth.code
    }

    /// Reads the storage word at `index`, or `None` past the layout.
    pub fn slot(&self, index: usize) -> (r: Option<Word>)
        ensures
            index < self.storage@.len() ==> r == Some(self.storage@[index as int]),
            index >= self.storage@.len() ==> r is None,
    {
        if index < self.storage.len() {
            Some(self.storage[index])
        } else {
            None
        }
    }
}

impl Clone for Account {
    /// A copy of the account: same id, kind, storage words, and
    /// authentication component.
    fn clone(&self) -> (r: Self)
        ensures
            r.id == self.id,
            r.kind == self.kind,
            r.storage@ == self.storage@,
            r.auth_code == self.auth_code,
    {
        let mut storage: Vec<Word> = Vec::new();
        let mut i: usize = 0;
        while i < self.storage.len()
            invariant
                i <= self.storage.len(),
                storage@ == self.storage@.take(i as int),
            decreases self.storage.len() - i,
        {
            storage.push(self.storage[i]);
            proof {
                assert(self.storage@.take(i + 1) =~= self.storage@.take(i as int).push(
                    self.storage@[i as int],
                ));
            }
            i = i + 1;
        }
        proof {
            assert(self.storage@.take(self.storage@.len() as int) =~= self.storage@);
        }
        Account { id: self.id, kind: self.kind, storage, auth_code: self.auth_code }
    }
}

/// Checks one word for element validity.
fn word_valid(w: &Word) -> (r: bool)
    ensures
        r == w.is_valid(),
{
    w.e0 < FIELD_MODULUS && w.e1 < FIELD_MODULUS && w.e2 < FIELD_MODULUS && w.e3 < FIELD_MODULUS
}

/// Appends one component's storage to the combined layout.
fn extend_storage(combined: &mut Vec<Word>, src: &Vec<Word>)
    ensures
        final(combined)@ == old(combined)@ + src@,
{
    let mut i: usize = 0;
    while i < src.len()
        invariant
            i <= src.len(),
            combined@ == old(combined)@ + src@.take(i as int),
        decreases src.len() - i,
    {
        combined.push(src[i]);
        proof {
            assert(src@.take(i + 1) =~= src@.take(i as int).push(src@[i as int]));
            assert(combined@ =~= old(combined)@ + src@.take(i + 1));
        }
        i = i + 1;
    }
    proof {
        assert(src@.take(src@.len() as int) =~= src@);
    }
}

/// Appends the id-derivation words of one slot word.
pub(crate) fn push_word_words(v: &mut Vec<u64>, w: &Word)
    ensures
        final(v)@ == old(v)@ + word_words(*w),
{
    v.push(w.e0);
    v.push(w.e1);
    v.push(w.e2);
    v.push(w.e3);
    proof {
        assert(v@ =~= old(v)@ + word_words(*w));
    }
}

/// Appends the id-derivation words of one component.
fn push_component_words(v: &mut Vec<u64>, c: &AccountComponent)
    ensures
        final(v)@ == old(v)@ + component_words(c@),
{
    v.push(c.code);
    v.push(c.storage.len() as u64);
    let mut i: usize = 0;
    while i < c.storage.len()
        invariant
            i <= c.storage.len(),
            v@ == old(v)@ + seq![c.code, c.storage@.len() as u64] + storage_words(
                c.storage@.take(i as int),
            ),
        decreases c.storage.len() - i,
    {
        push_word_words(v, &c.storage[i]);
        proof {
            assert(c.storage@.take(i + 1).drop_last() =~= c.storage@.take(i as int));
            assert(c.storage@.take(i + 1).last() == c.storage@[i as int]);
            assert(v@ =~= old(v)@ + seq![c.code, c.storage@.len() as u64] + storage_words(
                c.storage@.take(i + 1),
            ));
        }
        i = i + 1;
    }
    proof {
        assert(c.storage@.take(c.storage@.len() as int) =~= c.storage@);
        assert(v@ =~= old(v)@ + component_words(c@));
    }
}

/// Derives the account id from the seed, the kind, and the ordered
/// component list.
fn derive_account_id(
    seed: &Word,
    kind: AccountKind,
    auth: &AccountComponent,
    components: &Vec<AccountComponent>,
) -> (r: AccountId)
    ensures
        r == account_id_of(*seed, kind, auth@, comps_view(components@)),
{
    let ghost cv = comps_view(components@);
    let ghost all = all_components(auth@, cv);
    let mut v: Vec<u64> = Vec::new();
    push_word_words(&mut v, seed);
    v.push(kind.kind_code());
    push_component_words(&mut v, auth);
    proof {
        assert(all.take(1) =~= seq![auth@]);
        assert(seq![auth@].drop_last() =~= Seq::<ComponentModel>::empty());
        assert(components_words(Seq::<ComponentModel>::empty()) =~= Seq::<u64>::empty());
        assert(components_words(seq![auth@]) =~= component_words(auth@));
        assert(v@ =~= word_words(*seed) + seq![kind.spec_kind_code()] + components_words(
            all.take(1),
        ));
    }
    let mut i: usize = 0;
    while i < components.len()
        invariant
            i <= components.len(),
            cv == comps_view(components@),
            all == all_components(auth@, cv),
            v@ == word_words(*seed) + seq![kind.spec_kind_code()] + components_words(
                all.take(1 + i as int),
            ),
        decreases components.len() - i,
    {
        push_component_words(&mut v, &components[i]);
        proof {
            assert(all.take(1 + i + 1).drop_last() =~= all.take(1 + i as int));
            assert(all.take(1 + i + 1).last() == cv[i as int]);
            assert(v@ =~= word_words(*seed) + seq![kind.spec_kind_code()] + components_words(
                all.take(1 + i + 1),
            ));
        }
        i = i + 1;
    }
    proof {
        assert(all.take(all.len() as int) =~= all);
        assert(v@ =~= account_words(*seed, kind, auth@, cv));
    }
    let h = digest_words(&v);
    let prefix = mix(h, 1);
    let suffix = mix(h, 2);
    proof {
        let words = account_words(*seed, kind, auth@, cv);
        assert(words.push(1).drop_last() =~= words);
        assert(words.push(2).drop_last() =~= words);
    }
    AccountId { prefix, suffix }
}

/// Builds the account determined by a seed, a kind, an authentication
/// component, and an ordered list of business components.
///
/// The build fails with a [`ComponentLayoutError`] exactly when a
/// component does not support the kind, a declared storage word is
/// invalid, or the combined layout exceeds the slot limit; it has no side
/// effect either way.  On success the account's id is the pure function
/// [`account_id_of`] of the inputs, and its storage is the components'
/// layout in declaration order, authentication component first.
pub fn build_account(
    seed: Word,
    kind: AccountKind,
    auth: AccountComponent,
    components: Vec<AccountComponent>,
) -> (r: Result<Account, ComponentLayoutError>)
    ensures
        ({
            let cv = comps_view(components@);
            let all = all_components(auth@, cv);
            let stor = combined_storage(auth@, cv);
            &&& (r is Ok <==> layout_ok(kind, auth@, cv))
            &&& (r matches Ok(a) ==> a.built_from(seed, kind, auth@, cv) && a.wf())
            &&& (r matches Err(ComponentLayoutError::UnsupportedComponent { index }) ==> {
                &&& 0 <= index < all.len()
                &&& !supports(all[index as int], kind)
                &&& forall|j: int| 0 <= j < index ==> supports(#[trigger] all[j], kind)
            })
            &&& (r matches Err(ComponentLayoutError::InvalidSlotValue { index }) ==> {
                &&& all_supported(kind, all)
                &&& 0 <= index < stor.len()
                &&& !stor[index as int].is_valid()
                &&& forall|j: int| 0 <= j < index ==> (#[trigger] stor[j]).is_valid()
            })
            &&& (r matches Err(ComponentLayoutError::TooManySlots { total }) ==> {
                &&& all_supported(kind, all)
                &&& storage_all_valid(stor)
                &&& total == stor.len()
                &&& total > MAX_STORAGE_SLOTS
            })
        }),
{
    let ghost cv = comps_view(components@);
    let ghost all = all_components(auth@, cv);

    // Every component, the authentication component first, must support
    // the requested kind.
    if !auth.supports_kind(kind) {
        proof {
            assert(all[0] == auth@);
            assert(!all_supported(kind, all));
        }
        return Err(ComponentLayoutError::UnsupportedComponent { index: 0 });
    }
    let mut i: usize = 0;
    while i < components.len()
        invariant
            i <= components.len(),
            cv == comps_view(components@),
            all == all_components(auth@, cv),
            supports(auth@, kind),
            forall|j: int| 0 <= j < 1 + i ==> supports(#[trigger] all[j], kind),
        decreases components.len() - i,
    {
        if !components[i].supports_kind(kind) {
            proof {
                assert(all[1 + i as int] == cv[i as int]);
                assert(cv[i as int] == components@[i as int]@);
                assert(!all_supported(kind, all));
            }
            return Err(ComponentLayoutError::UnsupportedComponent { index: 1 + i });
        }
        i = i + 1;
    }
    proof {
        assert forall|j: int| 0 <= j < all.len() implies supports(#[trigger] all[j], kind) by {
            if j >= 1 {
                assert(all[j] == cv[j - 1]);
            }
        }
        assert(all_supported(kind, all));
    }

    // Gather the combined storage layout, authentication component first.
    let mut storage: Vec<Word> = Vec::new();
    extend_storage(&mut storage, &auth.storage);
    proof {
        assert(all.take(1) =~= seq![auth@]);
        assert(seq![auth@].drop_last() =~= Seq::<ComponentModel>::empty());
        assert(components_storage(Seq::<ComponentModel>::empty()) =~= Seq::<Word>::empty());
        assert(storage@ =~= components_storage(all.take(1)));
    }
    let mut i: usize = 0;
    while i < components.len()
        invariant
            i <= components.len(),
            cv == comps_view(components@),
            all == all_components(auth@, cv),
            all_supported(kind, all),
            storage@ == components_storage(all.take(1 + i as int)),
        decreases components.len() - i,
    {
        extend_storage(&mut storage, &components[i].storage);
        proof {
            assert(all.take(1 + i + 1).drop_last() =~= all.take(1 + i as int));
            assert(all.take(1 + i + 1).last() == cv[i as int]);
            assert(storage@ =~= components_storage(all.take(1 + i + 1)));
        }
        i = i + 1;
    }
    proof {
        assert(all.take(all.len() as int) =~= all);
        assert(storage@ == combined_storage(auth@, cv));
    }

    // Every declared word must be a valid word of field elements.
    let mut idx: usize = 0;
    while idx < storage.len()
        invariant
            idx <= storage.len(),
            cv == comps_view(components@),
            all == all_components(auth@, cv),
            all_supported(kind, all),
            storage@ == combined_storage(auth@, cv),
            forall|j: int| 0 <= j < idx ==> (#[trigger] storage@[j]).is_valid(),
        decreases storage.len() - idx,
    {
        if !word_valid(&storage[idx]) {
            proof {
                assert(!combined_storage(auth@, cv)[idx as int].is_valid());
                assert(!storage_all_valid(combined_storage(auth@, cv)));
            }
            return Err(ComponentLayoutError::InvalidSlotValue { index: idx });
        }
        idx = idx + 1;
    }
    assert(storage_all_valid(storage@));

    // The combined layout must fit the account's slot address space.
    if storage.len() > MAX_STORAGE_SLOTS {
        return Err(ComponentLayoutError::TooManySlots { total: storage.len() });
    }

    let id = derive_account_id(&seed, kind, &auth, &components);
    Ok(Account { id, kind, storage, auth_code: auth.code })
}

/// Determinism of account construction: two accounts built from the same
/// seed, kind, and ordered component list carry the same id.
pub proof fn lemma_account_id_deterministic(
    a1: Account,
    a2: Account,
    seed: Word,
    kind: AccountKind,
    auth: ComponentModel,
    comps: Seq<ComponentModel>,
)
    requires
        a1.built_from(seed, kind, auth, comps),
        a2.built_from(seed, kind, auth, comps),
    ensures
        a1.id == a2.id,
{
}

} // verus!
