//! What contract code learns when it asks about a token instance, and the
//! roles that an account has for a token.

use crate::arena::{
    frame_allocated, frame_written, Arena, ArenaValue, FrameView, ValueView,
    NEW_HANDLE_START_FROM,
};
use crate::assoc::bytes_eq;
use crate::big_nat::BigNat;
use crate::dct::{DctData, DctInstance, InstanceView, TokenView};
use crate::debug_api::DebugApi;
use crate::managed::{
    type_of_nonce, zero_address, BigUint, DctTokenType, ManagedAddress, ManagedBuffer, ManagedVec,
};
use vstd::prelude::*;
use vstd::string::StringSliceAdditionalSpecFns;

verus! {

/// No role.
pub const ROLE_NONE: u32 = 0;

/// The role of minting units of a fungible token.
pub const ROLE_MINT: u32 = 1;

/// The role of burning units of a fungible token.
pub const ROLE_BURN: u32 = 2;

/// The role of creating instances.
pub const ROLE_NFT_CREATE: u32 = 4;

/// The role of adding units to an instance.
pub const ROLE_NFT_ADD_QUANTITY: u32 = 8;

/// The role of burning units of an instance.
pub const ROLE_NFT_BURN: u32 = 16;

/// A role that an account can have for a token.
#[derive(Clone, Copy, Debug, PartialEq, Eq, Structural)]
pub enum DctLocalRole {
    NoRole,
    Mint,
    Burn,
    NftCreate,
    NftAddQuantity,
    NftBurn,
}

/// The role that a name stands for; no role for a name outside the
/// vocabulary.
pub open spec fn role_of_name(name: Seq<u8>) -> DctLocalRole {
    if name == "DCTRoleLocalMint".spec_bytes() {
        DctLocalRole::Mint
    } else if name == "DCTRoleLocalBurn".spec_bytes() {
        DctLocalRole::Burn
    } else if name == "DCTRoleNFTCreate".spec_bytes() {
        DctLocalRole::NftCreate
    } else if name == "DCTRoleNFTAddQuantity".spec_bytes() {
        DctLocalRole::NftAddQuantity
    } else if name == "DCTRoleNFTBurn".spec_bytes() {
        DctLocalRole::NftBurn
    } else {
        DctLocalRole::NoRole
    }
}

/// The bit of a role in a set of roles.
pub open spec fn flag_of_role(role: DctLocalRole) -> u32 {
    match role {
        DctLocalRole::NoRole => ROLE_NONE,
        DctLocalRole::Mint => ROLE_MINT,
        DctLocalRole::Burn => ROLE_BURN,
        DctLocalRole::NftCreate => ROLE_NFT_CREATE,
        DctLocalRole::NftAddQuantity => ROLE_NFT_ADD_QUANTITY,
        DctLocalRole::NftBurn => ROLE_NFT_BURN,
    }
}

/// The set of the roles that the names stand for, as bits.
pub open spec fn role_flags(names: Seq<Seq<u8>>) -> u32
    decreases names.len(),
{
    if names.len() == 0 {
        ROLE_NONE
    } else {
        role_flags(names.drop_last()) | flag_of_role(role_of_name(names.last()))
    }
}

impl DctLocalRole {
    /// The role that `name` stands for; no role for a name outside the
    /// vocabulary.
    pub fn from_name(name: &[u8]) -> (r: DctLocalRole)
        ensures
            r == role_of_name(name@),
    {
        if bytes_eq(name, "DCTRoleLocalMint".as_bytes()) {
            DctLocalRole::Mint
        } else if bytes_eq(name, "DCTRoleLocalBurn".as_bytes()) {
            DctLocalRole::Burn
        } else if bytes_eq(name, "DCTRoleNFTCreate".as_bytes()) {
            DctLocalRole::NftCreate
        } else if bytes_eq(name, "DCTRoleNFTAddQuantity".as_bytes()) {
            DctLocalRole::NftAddQuantity
        } else if bytes_eq(name, "DCTRoleNFTBurn".as_bytes()) {
            DctLocalRole::NftBurn
        } else {
            DctLocalRole::NoRole
        }
    }

    /// The set that holds this role alone.
    pub fn to_flag(&self) -> (r: DctLocalRoleFlags)
        ensures
            r.bits == flag_of_role(*self),
    {
        match self {
            DctLocalRole::NoRole => DctLocalRoleFlags { bits: ROLE_NONE },
            DctLocalRole::Mint => DctLocalRoleFlags { bits: ROLE_MINT },
            DctLocalRole::Burn => DctLocalRoleFlags { bits: ROLE_BURN },
            DctLocalRole::NftCreate => DctLocalRoleFlags { bits: ROLE_NFT_CREATE },
            DctLocalRole::NftAddQuantity => DctLocalRoleFlags { bits: ROLE_NFT_ADD_QUANTITY },
            DctLocalRole::NftBurn => DctLocalRoleFlags { bits: ROLE_NFT_BURN },
        }
    }
}

/// A set of roles, one bit for each.
#[derive(Clone, Copy, Debug, PartialEq, Eq, Structural)]
pub struct DctLocalRoleFlags {
    pub bits: u32,
}

impl DctLocalRoleFlags {
    /// The set of the roles that `names` stand for.
    pub fn from_names(names: &Vec<Vec<u8>>) -> (r: DctLocalRoleFlags)
        ensures
            r.bits == role_flags(names.deep_view()),
    {
        let n = names.len();
        let ghost all = names.deep_view();
        let mut result: u32 = ROLE_NONE;
        let mut i: usize = 0;
        proof {
            assert(all.take(0) =~= Seq::<Seq<u8>>::empty());
        }
        while i < n
            invariant
                n == names@.len(),
                all == names.deep_view(),
                all.len() == n,
                i <= n,
                result == role_flags(all.take(i as int)),
            decreases n - i,
        {
            let role = DctLocalRole::from_name(names[i].as_slice());
            proof {
                assert(all.take(i + 1).drop_last() =~= all.take(i as int));
                assert(all.take(i + 1).last() == names@[i as int]@);
            }
            result = result | role.to_flag().bits;
            i = i + 1;
        }
        proof {
            assert(all.take(n as int) =~= all);
        }
        DctLocalRoleFlags { bits: result }
    }

    /// Tells whether the set holds every role of `other`.
    pub fn has_role(&self, other: &DctLocalRoleFlags) -> (r: bool)
        ensures
            r == (self.bits & other.bits == other.bits),
    {
        self.bits & other.bits == other.bits
    }
}

/// What contract code learns about a token instance. The numbers and the
/// byte strings are handles.
#[derive(Clone, Copy, Debug, PartialEq, Eq, Structural)]
pub struct DctTokenData {
    pub token_type: DctTokenType,
    pub amount: BigUint,
    pub frozen: bool,
    pub hash: ManagedBuffer,
    pub name: ManagedBuffer,
    pub attributes: ManagedBuffer,
    pub creator: ManagedAddress,
    pub royalties: BigUint,
    pub uris: ManagedVec,
}

/// The bytes of an optional byte string, empty where there is none.
pub open spec fn bytes_or_empty(o: Option<Seq<u8>>) -> Seq<u8> {
    match o {
        Some(b) => b,
        None => Seq::empty(),
    }
}

/// The handle of the value allocated `k` allocations after `frame`.
pub open spec fn handle_after(frame: FrameView, k: int) -> i32 {
    (NEW_HANDLE_START_FROM + frame.fresh + k) as i32
}

/// The frame after each of the byte strings was allocated in it, in their
/// order.
pub open spec fn buffers_allocated(frame: FrameView, buffers: Seq<Seq<u8>>) -> FrameView
    decreases buffers.len(),
{
    if buffers.len() == 0 {
        frame
    } else {
        frame_allocated(
            buffers_allocated(frame, buffers.drop_last()),
            ValueView::Buffer(buffers.last()),
        )
    }
}

/// Allocating byte strings allocates one value for each.
pub proof fn lemma_buffers_allocated_fresh(frame: FrameView, buffers: Seq<Seq<u8>>)
    ensures
        buffers_allocated(frame, buffers).fresh == frame.fresh + buffers.len(),
    decreases buffers.len(),
{
    if buffers.len() > 0 {
        lemma_buffers_allocated_fresh(frame, buffers.drop_last());
    }
}

/// The frame after the data of an instance were allocated in it: the
/// creator (the zero address where there is none), the list of the URIs,
/// each URI, the balance, the hash (empty where there is none), the name of
/// the token, the attributes, the royalties. The list of the URIs then
/// holds the handles of the URIs.
pub open spec fn instance_data_allocated(
    frame: FrameView,
    name: Seq<u8>,
    instance: InstanceView,
) -> FrameView {
    let creator = match instance.metadata.creator {
        Some(c) => c,
        None => zero_address(),
    };
    let uris = instance.metadata.uris;
    let f1 = frame_allocated(frame, ValueView::Buffer(creator));
    let f2 = frame_allocated(f1, ValueView::HandleVec(Seq::empty()));
    let f3 = frame_written(
        buffers_allocated(f2, uris),
        handle_after(frame, 1),
        ValueView::HandleVec(Seq::new(uris.len(), |i: int| handle_after(frame, 2 + i))),
    );
    let f4 = frame_allocated(f3, ValueView::BigInt(instance.balance));
    let f5 = frame_allocated(f4, ValueView::Buffer(bytes_or_empty(instance.metadata.hash)));
    let f6 = frame_allocated(f5, ValueView::Buffer(name));
    let f7 = frame_allocated(f6, ValueView::Buffer(instance.metadata.attributes));
    frame_allocated(f7, ValueView::BigInt(instance.metadata.royalties))
}

/// The data that name the values of [`instance_data_allocated`].
pub open spec fn instance_data(
    frame: FrameView,
    token: TokenView,
    nonce: u64,
    instance: InstanceView,
) -> DctTokenData {
    let k = instance.metadata.uris.len() as int;
    DctTokenData {
        token_type: type_of_nonce(nonce),
        amount: BigUint { handle: handle_after(frame, 2 + k) },
        frozen: token.frozen,
        hash: ManagedBuffer { handle: handle_after(frame, 3 + k) },
        name: ManagedBuffer { handle: handle_after(frame, 4 + k) },
        attributes: ManagedBuffer { handle: handle_after(frame, 5 + k) },
        creator: ManagedAddress { handle: handle_after(frame, 0) },
        royalties: BigUint { handle: handle_after(frame, 6 + k) },
        uris: ManagedVec { handle: handle_after(frame, 1) },
    }
}

/// The frame after the data of an instance that is not there were
/// allocated in it: a zero balance, an empty hash, an empty name, empty
/// attributes, the zero address as creator, no royalties, an empty list of
/// URIs.
pub open spec fn default_data_allocated(frame: FrameView) -> FrameView {
    let f1 = frame_allocated(frame, ValueView::BigInt(0));
    let f2 = frame_allocated(f1, ValueView::Buffer(Seq::empty()));
    let f3 = frame_allocated(f2, ValueView::Buffer(Seq::empty()));
    let f4 = frame_allocated(f3, ValueView::Buffer(Seq::empty()));
    let f5 = frame_allocated(f4, ValueView::Buffer(zero_address()));
    let f6 = frame_allocated(f5, ValueView::BigInt(0));
    frame_allocated(f6, ValueView::HandleVec(Seq::empty()))
}

/// The data that name the values of [`default_data_allocated`].
pub open spec fn default_data(frame: FrameView, token_type: DctTokenType) -> DctTokenData {
    DctTokenData {
        token_type,
        amount: BigUint { handle: handle_after(frame, 0) },
        frozen: false,
        hash: ManagedBuffer { handle: handle_after(frame, 1) },
        name: ManagedBuffer { handle: handle_after(frame, 2) },
        attributes: ManagedBuffer { handle: handle_after(frame, 3) },
        creator: ManagedAddress { handle: handle_after(frame, 4) },
        royalties: BigUint { handle: handle_after(frame, 5) },
        uris: ManagedVec { handle: handle_after(frame, 6) },
    }
}

impl DctTokenData {
    /// Allocates the data of an instance that is not there, and names them
    /// with the kind `token_type`.
    pub fn default_with_type(arena: &mut Arena, token_type: DctTokenType) -> (r: DctTokenData)
        requires
            old(arena).has_room(7),
        ensures
            r == default_data(old(arena).top(), token_type),
            final(arena)@ == old(arena).with_top(default_data_allocated(old(arena).top())),
    {
        let amount = BigUint::zero(arena);
        let hash = ManagedBuffer { handle: arena.allocate() };
        let name = ManagedBuffer { handle: arena.allocate() };
        let attributes = ManagedBuffer { handle: arena.allocate() };
        let creator = ManagedAddress::zero(arena);
        let royalties = BigUint::zero(arena);
        let uris = ManagedVec { handle: arena.insert_new(ArenaValue::HandleVec(Vec::new())) };
        proof {
            assert(arena@ =~= old(arena).with_top(default_data_allocated(old(arena).top())));
        }
        DctTokenData {
            token_type,
            amount,
            frozen: false,
            hash,
            name,
            attributes,
            creator,
            royalties,
            uris,
        }
    }
}

impl DebugApi {
    /// Allocates the data of `instance`, instance `nonce` of the token
    /// `dct_data` whose name is `token_identifier_value`, and names them.
    pub fn dct_token_data_from_instance(
        arena: &mut Arena,
        token_identifier_value: Vec<u8>,
        dct_data: &DctData,
        nonce: u64,
        instance: &DctInstance,
    ) -> (r: DctTokenData)
        requires
            old(arena).has_room(7 + instance@.metadata.uris.len()),
        ensures
            r == instance_data(old(arena).top(), dct_data@, nonce, instance@),
            final(arena)@ == old(arena).with_top(
                instance_data_allocated(old(arena).top(), token_identifier_value@, instance@),
            ),
    {
        let ghost start = arena.top();
        let ghost all = instance@.metadata.uris;
        let creator = match instance.metadata.creator() {
            Some(creator) => ManagedAddress::from_address(arena, creator),
            None => ManagedAddress::zero(arena),
        };
        let uris = ManagedVec { handle: arena.insert_new(ArenaValue::HandleVec(Vec::new())) };
        let ghost second = arena.top();
        let uri = instance.metadata.uri();
        let n = uri.len();
        let mut handles: Vec<i32> = Vec::new();
        let mut i: usize = 0;
        proof {
            assert(all.take(0) =~= Seq::<Seq<u8>>::empty());
            assert(arena@ =~= old(arena).with_top(buffers_allocated(second, all.take(0))));
        }
        while i < n
            invariant
                n == uri@.len(),
                all == uri.deep_view(),
                all.len() == n,
                start == old(arena).top(),
                second.fresh == start.fresh + 2,
                old(arena).has_room(7 + n as nat),
                i <= n,
                arena@.len() == old(arena)@.len(),
                arena@ == old(arena).with_top(buffers_allocated(second, all.take(i as int))),
                handles@.len() == i,
                forall|j: int| 0 <= j < i ==> #[trigger] handles@[j] == handle_after(start, 2 + j),
            decreases n - i,
        {
            proof {
                lemma_buffers_allocated_fresh(second, all.take(i as int));
                assert(all.take(i + 1).drop_last() =~= all.take(i as int));
                assert(all.take(i + 1).last() == uri@[i as int]@);
            }
            let handle = arena.insert_new(ArenaValue::Buffer(uri[i].clone()));
            handles.push(handle);
            proof {
                assert(arena@ =~= old(arena).with_top(buffers_allocated(second, all.take(i + 1))));
            }
            i = i + 1;
        }
        proof {
            assert(all.take(n as int) =~= all);
            lemma_buffers_allocated_fresh(second, all);
            arena.lemma_well_formed();
            assert(handles@ =~= Seq::new(all.len(), |i: int| handle_after(start, 2 + i)));
        }
        arena.write(uris.handle, ArenaValue::HandleVec(handles));
        let amount = BigUint::from_big_nat(arena, instance.balance.clone());
        let hash = match instance.metadata.hash() {
            Some(hash) => ManagedBuffer::new_from_bytes(arena, hash.as_slice()),
            None => ManagedBuffer { handle: arena.allocate() },
        };
        let name = ManagedBuffer { handle: arena.insert_new(ArenaValue::Buffer(token_identifier_value)) };
        let attributes = ManagedBuffer::new_from_bytes(
            arena,
            instance.metadata.attributes().as_slice(),
        );
        let royalties = BigUint::from_big_nat(arena, BigNat::from_u64(instance.metadata.royalties()));
        proof {
            assert(arena@ =~= old(arena).with_top(
                instance_data_allocated(start, token_identifier_value@, instance@),
            ));
        }
        DctTokenData {
            token_type: DctTokenType::based_on_token_nonce(nonce),
            amount,
            frozen: dct_data.frozen,
            hash,
            name,
            attributes,
            creator,
            royalties,
            uris,
        }
    }
}

} // verus!
