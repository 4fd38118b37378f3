//! The tokens that an account holds.
//!
//! A token is named by an identifier and split into numbered instances.
//! Instance 0 is the fungible form of the token; the others are its
//! semi-fungible and non-fungible forms. Each instance has a balance and
//! metadata. The metadata of an instance is fixed while its balance is not
//! zero: crediting such an instance adds to the balance and nothing else.
//! An instance whose balance returns to zero stays in the store with the
//! metadata it had, until the next credit replaces them.

use crate::assoc::{AssocList, DeepClone};
use crate::big_nat::BigNat;
use vstd::prelude::*;

verus! {

/// The highest royalties an instance can have, in basis points.
pub const MAX_ROYALTIES: u64 = 10000;

/// Why the ledger refused to take an amount from an account.
#[derive(Clone, Copy, Debug, PartialEq, Eq, Structural)]
pub enum LedgerError {
    /// The native balance is smaller than the amount.
    InsufficientFunds,
    /// The balance of the token instance is smaller than the amount.
    InsufficientTokenFunds,
}

/// The bytes of an optional byte string.
pub open spec fn opt_bytes_view(o: Option<Vec<u8>>) -> Option<Seq<u8>> {
    match o {
        Some(v) => Some(v@),
        None => None,
    }
}

/// Copies an optional byte string.
pub fn clone_opt_bytes(o: &Option<Vec<u8>>) -> (r: Option<Vec<u8>>)
    ensures
        opt_bytes_view(r) == opt_bytes_view(*o),
{
    match o {
        Some(v) => Some(v.clone()),
        None => None,
    }
}

/// Copies a list of byte strings.
pub fn clone_byte_strings(v: &Vec<Vec<u8>>) -> (r: Vec<Vec<u8>>)
    ensures
        r.deep_view() == v.deep_view(),
{
    let r = v.clone();
    assert(r.deep_view() =~= v.deep_view());
    r
}

/// What the metadata of an instance say.
pub struct MetadataView {
    pub creator: Option<Seq<u8>>,
    pub royalties: nat,
    pub hash: Option<Seq<u8>>,
    pub uris: Seq<Seq<u8>>,
    pub attributes: Seq<u8>,
}

/// The metadata of a token instance. The royalties are at most
/// [`MAX_ROYALTIES`].
#[derive(Debug)]
pub struct DctInstanceMetadata {
    creator: Option<Vec<u8>>,
    royalties: u64,
    hash: Option<Vec<u8>>,
    uri: Vec<Vec<u8>>,
    attributes: Vec<u8>,
}

impl View for DctInstanceMetadata {
    type V = MetadataView;

    closed spec fn view(&self) -> MetadataView {
        MetadataView {
            creator: opt_bytes_view(self.creator),
            royalties: self.royalties as nat,
            hash: opt_bytes_view(self.hash),
            uris: self.uri.deep_view(),
            attributes: self.attributes@,
        }
    }
}

/// The metadata of an instance that was never given any.
pub open spec fn empty_metadata() -> MetadataView {
    MetadataView {
        creator: None,
        royalties: 0,
        hash: None,
        uris: Seq::empty(),
        attributes: Seq::empty(),
    }
}

impl DctInstanceMetadata {
    #[verifier::type_invariant]
    spec fn royalties_in_range(self) -> bool {
        self.royalties <= MAX_ROYALTIES
    }

    /// Metadata with the given contents, unless the royalties are above
    /// [`MAX_ROYALTIES`].
    pub fn new(
        creator: Option<Vec<u8>>,
        royalties: u64,
        hash: Option<Vec<u8>>,
        uri: Vec<Vec<u8>>,
        attributes: Vec<u8>,
    ) -> (r: Option<DctInstanceMetadata>)
        ensures
            r is Some <==> royalties <= MAX_ROYALTIES,
            r matches Some(m) ==> m@ == (MetadataView {
                creator: opt_bytes_view(creator),
                royalties: royalties as nat,
                hash: opt_bytes_view(hash),
                uris: uri.deep_view(),
                attributes: attributes@,
            }),
    {
        if royalties <= MAX_ROYALTIES {
            Some(DctInstanceMetadata { creator, royalties, hash, uri, attributes })
        } else {
            None
        }
    }

    /// Metadata without creator, hash, URIs or attributes, and with no
    /// royalties.
    pub fn empty() -> (r: DctInstanceMetadata)
        ensures
            r@ == empty_metadata(),
    {
        let r = DctInstanceMetadata {
            creator: None,
            royalties: 0,
            hash: None,
            uri: Vec::new(),
            attributes: Vec::new(),
        };
        assert(r.uri.deep_view() =~= Seq::<Seq<u8>>::empty());
        r
    }

    /// The address that created the instance.
    pub fn creator(&self) -> (r: &Option<Vec<u8>>)
        ensures
            opt_bytes_view(*r) == self@.creator,
    {
        &self.creator
    }

    /// The royalties, in basis points.
    pub fn royalties(&self) -> (r: u64)
        ensures
            r == self@.royalties,
            r <= MAX_ROYALTIES,
    {
        proof {
            use_type_invariant(self);
        }
        self.royalties
    }

    /// The hash of the content.
    pub fn hash(&self) -> (r: &Option<Vec<u8>>)
        ensures
            opt_bytes_view(*r) == self@.hash,
    {
        &self.hash
    }

    /// The URIs, in the order in which they were given.
    pub fn uri(&self) -> (r: &Vec<Vec<u8>>)
        ensures
            r.deep_view() == self@.uris,
    {
        &self.uri
    }

    /// The attribute bytes.
    pub fn attributes(&self) -> (r: &Vec<u8>)
        ensures
            r@ == self@.attributes,
    {
        &self.attributes
    }
}

impl DeepClone for DctInstanceMetadata {
    fn deep_clone(&self) -> (r: Self) {
        proof {
            use_type_invariant(self);
        }
        DctInstanceMetadata {
            creator: clone_opt_bytes(&self.creator),
            royalties: self.royalties,
            hash: clone_opt_bytes(&self.hash),
            uri: clone_byte_strings(&self.uri),
            attributes: self.attributes.clone(),
        }
    }
}

/// What an instance holds.
pub struct InstanceView {
    pub balance: nat,
    pub metadata: MetadataView,
}

/// One numbered instance of a token.
#[derive(Debug)]
pub struct DctInstance {
    pub balance: BigNat,
    pub metadata: DctInstanceMetadata,
}

impl View for DctInstance {
    type V = InstanceView;

    open spec fn view(&self) -> InstanceView {
        InstanceView { balance: self.balance@, metadata: self.metadata@ }
    }
}

impl DeepClone for DctInstance {
    fn deep_clone(&self) -> (r: Self) {
        DctInstance { balance: self.balance.clone(), metadata: self.metadata.deep_clone() }
    }
}

/// What an account knows of one token.
pub struct TokenView {
    pub identifier: Seq<u8>,
    pub instances: Map<u64, InstanceView>,
    pub last_nonce: u64,
    pub roles: Seq<Seq<u8>>,
    pub frozen: bool,
}

/// The instances, the roles and the flags of one token in one account.
pub struct DctData {
    pub token_identifier: Vec<u8>,
    pub instances: AssocList<u64, DctInstance>,
    /// The highest instance number that the account has created.
    pub last_nonce: u64,
    /// The names of the roles that the account has for the token.
    pub roles: Vec<Vec<u8>>,
    pub frozen: bool,
}

impl View for DctData {
    type V = TokenView;

    open spec fn view(&self) -> TokenView {
        TokenView {
            identifier: self.token_identifier@,
            instances: self.instances@,
            last_nonce: self.last_nonce,
            roles: self.roles.deep_view(),
            frozen: self.frozen,
        }
    }
}

/// A token of which nothing is held: no instance, no role, not frozen.
pub open spec fn new_token(identifier: Seq<u8>, last_nonce: u64) -> TokenView {
    TokenView {
        identifier,
        instances: Map::empty(),
        last_nonce,
        roles: Seq::empty(),
        frozen: false,
    }
}

/// What a query finds for a token that the account does not know.
pub open spec fn default_token() -> TokenView {
    new_token(Seq::empty(), 0)
}

impl DctData {
    /// A token of which nothing is held.
    pub fn new(token_identifier: Vec<u8>, last_nonce: u64) -> (r: DctData)
        ensures
            r@ == new_token(token_identifier@, last_nonce),
    {
        let r = DctData {
            token_identifier,
            instances: AssocList::new(),
            last_nonce,
            roles: Vec::new(),
            frozen: false,
        };
        assert(r.roles.deep_view() =~= Seq::<Seq<u8>>::empty());
        r
    }
}

impl Default for DctData {
    fn default() -> (r: DctData)
        ensures
            r@ == default_token(),
    {
        DctData::new(Vec::new(), 0)
    }
}

impl DeepClone for DctData {
    fn deep_clone(&self) -> (r: Self) {
        DctData {
            token_identifier: self.token_identifier.clone(),
            instances: self.instances.deep_clone(),
            last_nonce: self.last_nonce,
            roles: clone_byte_strings(&self.roles),
            frozen: self.frozen,
        }
    }
}

/// The token at `identifier`, or the default where there is none.
pub open spec fn token_or_default(tokens: Map<Seq<u8>, TokenView>, identifier: Seq<u8>) -> TokenView {
    if tokens.dom().contains(identifier) {
        tokens[identifier]
    } else {
        default_token()
    }
}

/// The balance of an instance, which is zero where the token or the
/// instance is unknown.
pub open spec fn balance_of(tokens: Map<Seq<u8>, TokenView>, identifier: Seq<u8>, nonce: u64) -> nat {
    if tokens.dom().contains(identifier) && tokens[identifier].instances.dom().contains(nonce) {
        tokens[identifier].instances[nonce].balance
    } else {
        0
    }
}

/// An instance after `amount` was credited to it with `metadata`: an
/// instance that holds something keeps its metadata, any other takes the new
/// ones.
pub open spec fn credited_instance(
    instances: Map<u64, InstanceView>,
    nonce: u64,
    amount: nat,
    metadata: MetadataView,
) -> InstanceView {
    if instances.dom().contains(nonce) && instances[nonce].balance > 0 {
        InstanceView {
            balance: instances[nonce].balance + amount,
            metadata: instances[nonce].metadata,
        }
    } else {
        InstanceView { balance: amount, metadata }
    }
}

/// The tokens of an account after a credit. A token that the account did not
/// know is created with `nonce` as its last instance number.
pub open spec fn credited(
    tokens: Map<Seq<u8>, TokenView>,
    identifier: Seq<u8>,
    nonce: u64,
    amount: nat,
    metadata: MetadataView,
) -> Map<Seq<u8>, TokenView> {
    let token = if tokens.dom().contains(identifier) {
        tokens[identifier]
    } else {
        new_token(identifier, nonce)
    };
    let instance = credited_instance(token.instances, nonce, amount, metadata);
    tokens.insert(
        identifier,
        TokenView { instances: token.instances.insert(nonce, instance), ..token },
    )
}

/// The tokens of an account after `amount` was taken from an instance that
/// holds at least as much. Taking zero from an unknown instance changes
/// nothing.
pub open spec fn debited(
    tokens: Map<Seq<u8>, TokenView>,
    identifier: Seq<u8>,
    nonce: u64,
    amount: nat,
) -> Map<Seq<u8>, TokenView> {
    if tokens.dom().contains(identifier) && tokens[identifier].instances.dom().contains(nonce) {
        let token = tokens[identifier];
        let instance = token.instances[nonce];
        tokens.insert(
            identifier,
            TokenView {
                instances: token.instances.insert(
                    nonce,
                    InstanceView {
                        balance: (instance.balance - amount) as nat,
                        metadata: instance.metadata,
                    },
                ),
                ..token
            },
        )
    } else {
        tokens
    }
}

/// All the tokens of one account, by identifier.
pub struct AccountDct {
    pub tokens: AssocList<Vec<u8>, DctData>,
}

impl View for AccountDct {
    type V = Map<Seq<u8>, TokenView>;

    open spec fn view(&self) -> Map<Seq<u8>, TokenView> {
        self.tokens@
    }
}

impl DeepClone for AccountDct {
    fn deep_clone(&self) -> (r: Self) {
        AccountDct { tokens: self.tokens.deep_clone() }
    }
}

impl AccountDct {
    /// The store of an account that holds no token.
    pub fn new() -> (r: AccountDct)
        ensures
            r@ == Map::<Seq<u8>, TokenView>::empty(),
    {
        AccountDct { tokens: AssocList::new() }
    }

    /// The token at `identifier`, where the account knows it.
    pub fn get_by_identifier(&self, identifier: &Vec<u8>) -> (r: Option<&DctData>)
        ensures
            match r {
                Some(token) => self@.dom().contains(identifier@) && token@ == self@[identifier@],
                None => !self@.dom().contains(identifier@),
            },
    {
        self.tokens.get(identifier)
    }

    /// The token at `identifier`, or the default where the account does not
    /// know it.
    pub fn get_by_identifier_or_default(&self, identifier: &Vec<u8>) -> (r: DctData)
        ensures
            r@ == token_or_default(self@, identifier@),
    {
        match self.tokens.get(identifier) {
            Some(token) => token.deep_clone(),
            None => DctData::default(),
        }
    }

    /// The balance of an instance; zero where the token or the instance is
    /// unknown.
    pub fn get_dct_balance(&self, identifier: &Vec<u8>, nonce: u64) -> (r: BigNat)
        ensures
            r@ == balance_of(self@, identifier@, nonce),
    {
        match self.tokens.get(identifier) {
            Some(token) => match token.instances.get(&nonce) {
                Some(instance) => instance.balance.clone(),
                None => BigNat::zero(),
            },
            None => BigNat::zero(),
        }
    }

    /// Adds `amount` to an instance, creating the token and the instance
    /// where they are missing. An instance that holds something keeps its
    /// metadata; any other takes `metadata`.
    pub fn credit(
        &mut self,
        identifier: &Vec<u8>,
        nonce: u64,
        amount: &BigNat,
        metadata: DctInstanceMetadata,
    )
        ensures
            final(self)@ == credited(old(self)@, identifier@, nonce, amount@, metadata@),
    {
        let mut token = match self.tokens.remove(identifier) {
            Some(token) => token,
            None => DctData::new(identifier.clone(), nonce),
        };
        let ghost before = token@;
        let instance = match token.instances.remove(&nonce) {
            Some(instance) => {
                if instance.balance.is_zero() {
                    DctInstance { balance: amount.clone(), metadata }
                } else {
                    DctInstance {
                        balance: instance.balance.add(amount),
                        metadata: instance.metadata,
                    }
                }
            },
            None => DctInstance { balance: amount.clone(), metadata },
        };
        token.instances.insert(nonce, instance);
        proof {
            assert(token@.instances =~= before.instances.insert(nonce, instance@));
            assert(instance@ == credited_instance(before.instances, nonce, amount@, metadata@));
        }
        self.tokens.insert(identifier.clone(), token);
        proof {
            assert(self@ =~= credited(old(self)@, identifier@, nonce, amount@, metadata@));
        }
    }

    /// Takes `amount` from an instance, unless the instance holds less.
    pub fn debit(&mut self, identifier: &Vec<u8>, nonce: u64, amount: &BigNat) -> (r: Result<
        (),
        LedgerError,
    >)
        ensures
            match r {
                Ok(()) => balance_of(old(self)@, identifier@, nonce) >= amount@ && final(self)@
                    == debited(old(self)@, identifier@, nonce, amount@),
                Err(e) => e == LedgerError::InsufficientTokenFunds && balance_of(
                    old(self)@,
                    identifier@,
                    nonce,
                ) < amount@ && final(self)@ == old(self)@,
            },
    {
        let balance = self.get_dct_balance(identifier, nonce);
        let rest = match balance.checked_sub(amount) {
            Some(rest) => rest,
            None => {
                return Err(LedgerError::InsufficientTokenFunds);
            },
        };
        let mut token = match self.tokens.remove(identifier) {
            Some(token) => token,
            None => {
                assert(self@ =~= old(self)@);
                return Ok(());
            },
        };
        let ghost before = token@;
        match token.instances.remove(&nonce) {
            Some(instance) => {
                let updated = DctInstance { balance: rest, metadata: instance.metadata };
                token.instances.insert(nonce, updated);
                proof {
                    assert(token@.instances =~= before.instances.insert(nonce, updated@));
                }
            },
            None => {
                assert(token@.instances =~= before.instances);
            },
        }
        self.tokens.insert(identifier.clone(), token);
        proof {
            assert(self@ =~= debited(old(self)@, identifier@, nonce, amount@));
        }
        Ok(())
    }
}

} // verus!
