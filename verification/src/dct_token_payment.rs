//! One token payment, as contract code holds it.

use crate::arena::{
    big_int_at, buffer_at, frame_allocated, holds_big_int, holds_buffer, next_handle, Arena,
    ValueView,
};
use crate::managed::{moax_name, BigUint, DctTokenType, TokenIdentifier};
use crate::managed_vec_item::{
    be_bytes_u64, handle_bytes, handle_of_bytes, managed_vec_item_from_slice,
    managed_vec_item_to_slice, u64_of_be_bytes, ManagedVecItem,
};
use vstd::prelude::*;

verus! {

/// The kind of a payment of `amount` units of instance `nonce` of the token
/// named `identifier`. A payment of nothing, or of the native currency, has
/// no valid kind; a payment of one unit of an instance other than 0 is
/// non-fungible.
pub open spec fn payment_type(identifier: Seq<u8>, nonce: u64, amount: nat) -> DctTokenType {
    if amount != 0 && identifier != moax_name() {
        if nonce == 0 {
            DctTokenType::Fungible
        } else if amount == 1 {
            DctTokenType::NonFungible
        } else {
            DctTokenType::SemiFungible
        }
    } else {
        DctTokenType::Invalid
    }
}

/// The sixteen bytes that lay a payment out in a list: the handle of the
/// identifier, the instance number, the handle of the amount.
pub open spec fn payment_payload(identifier: i32, nonce: u64, amount: i32) -> Seq<u8> {
    handle_bytes(identifier) + be_bytes_u64(nonce) + handle_bytes(amount)
}

/// A payment: its kind, the token, the instance, the amount.
#[derive(Clone, Copy, Debug, PartialEq, Eq, Structural)]
pub struct DctTokenPayment {
    pub token_type: DctTokenType,
    pub token_identifier: TokenIdentifier,
    pub token_nonce: u64,
    pub amount: BigUint,
}

/// A payment as three values: the token, the instance, the amount.
#[derive(Clone, Copy, Debug, PartialEq, Eq, Structural)]
pub struct DctTokenPaymentMultiValue {
    pub token_identifier: TokenIdentifier,
    pub token_nonce: u64,
    pub amount: BigUint,
}

impl DctTokenPayment {
    /// The payment of nothing: zero units of the native currency. The name
    /// and the zero are allocated in this order.
    pub fn no_payment(arena: &mut Arena) -> (r: DctTokenPayment)
        requires
            old(arena).has_room(2),
        ensures
            r.token_type == DctTokenType::Invalid,
            r.token_identifier.handle == next_handle(old(arena).top()),
            r.token_nonce == 0,
            r.amount.handle == next_handle(old(arena).top()) + 1,
            final(arena)@ == old(arena).with_top(
                frame_allocated(
                    frame_allocated(old(arena).top(), ValueView::Buffer(moax_name())),
                    ValueView::BigInt(0),
                ),
            ),
    {
        let token_identifier = TokenIdentifier::moax(arena);
        let amount = BigUint::zero(arena);
        DctTokenPayment { token_type: DctTokenType::Invalid, token_identifier, token_nonce: 0, amount }
    }

    /// The payment of `amount` units of instance `token_nonce` of the token
    /// `token_identifier`, with the kind that these three tell.
    pub fn new(
        arena: &Arena,
        token_identifier: TokenIdentifier,
        token_nonce: u64,
        amount: BigUint,
    ) -> (r: DctTokenPayment)
        requires
            arena@.len() > 0,
            holds_buffer(arena.top(), token_identifier.handle),
            holds_big_int(arena.top(), amount.handle),
        ensures
            r.token_type == payment_type(
                buffer_at(arena.top(), token_identifier.handle),
                token_nonce,
                big_int_at(arena.top(), amount.handle),
            ),
            r.token_identifier == token_identifier,
            r.token_nonce == token_nonce,
            r.amount == amount,
    {
        let value = arena.read_big_int(amount.handle);
        let token_type = if !value.is_zero() && token_identifier.is_dct(arena) {
            if token_nonce == 0 {
                DctTokenType::Fungible
            } else if value.to_u64() == Some(1) {
                DctTokenType::NonFungible
            } else {
                DctTokenType::SemiFungible
            }
        } else {
            DctTokenType::Invalid
        };
        DctTokenPayment { token_type, token_identifier, token_nonce, amount }
    }

    /// The payment as three values.
    pub fn into_multi_value(self) -> (r: DctTokenPaymentMultiValue)
        ensures
            r.token_identifier == self.token_identifier,
            r.token_nonce == self.token_nonce,
            r.amount == self.amount,
    {
        DctTokenPaymentMultiValue {
            token_identifier: self.token_identifier,
            token_nonce: self.token_nonce,
            amount: self.amount,
        }
    }
}

impl ManagedVecItem for DctTokenPayment {
    open spec fn payload_len() -> nat {
        16
    }

    open spec fn payload(&self) -> Seq<u8> {
        payment_payload(self.token_identifier.handle, self.token_nonce, self.amount.handle)
    }

    fn payload_size() -> (r: usize) {
        16
    }

    fn skips_reserialization() -> (r: bool)
        ensures
            !r,
    {
        false
    }

    /// The payment that sixteen bytes lay out. The bytes do not hold the
    /// kind: it is taken to be semi-fungible for an instance other than 0,
    /// and fungible for instance 0.
    fn from_byte_reader(bytes: &[u8]) -> (r: Self)
        ensures
            r.token_identifier.handle == handle_of_bytes(bytes@.subrange(0, 4)),
            r.token_nonce == u64_of_be_bytes(bytes@.subrange(4, 12)),
            r.amount.handle == handle_of_bytes(bytes@.subrange(12, 16)),
            r.token_type == (if r.token_nonce > 0 {
                DctTokenType::SemiFungible
            } else {
                DctTokenType::Fungible
            }),
    {
        let mut index: usize = 0;
        let token_identifier: TokenIdentifier = managed_vec_item_from_slice(bytes, &mut index);
        let token_nonce: u64 = managed_vec_item_from_slice(bytes, &mut index);
        let amount: BigUint = managed_vec_item_from_slice(bytes, &mut index);
        let token_type = if token_nonce > 0 {
            DctTokenType::SemiFungible
        } else {
            DctTokenType::Fungible
        };
        proof {
            crate::managed_vec_item::lemma_u32_round_trip(
                crate::managed_vec_item::handle_to_u32(token_identifier.handle),
            );
            crate::managed_vec_item::lemma_u32_round_trip(
                crate::managed_vec_item::handle_to_u32(amount.handle),
            );
            crate::managed_vec_item::lemma_u64_round_trip(token_nonce);
            crate::managed_vec_item::lemma_handle_round_trip(token_identifier.handle, 0);
            crate::managed_vec_item::lemma_handle_round_trip(amount.handle, 0);
            assert(bytes@ =~= bytes@.subrange(0, 4) + bytes@.subrange(4, 12) + bytes@.subrange(
                12,
                16,
            ));
        }
        DctTokenPayment { token_type, token_identifier, token_nonce, amount }
    }

    fn to_byte_writer(&self) -> (r: Vec<u8>) {
        let mut arr: Vec<u8> = vec![0u8, 0u8, 0u8, 0u8, 0u8, 0u8, 0u8, 0u8, 0u8, 0u8, 0u8, 0u8, 0u8,
            0u8, 0u8, 0u8];
        let mut index: usize = 0;
        assert(arr@.len() == 16);
        managed_vec_item_to_slice(&mut arr, &mut index, &self.token_identifier);
        managed_vec_item_to_slice(&mut arr, &mut index, &self.token_nonce);
        managed_vec_item_to_slice(&mut arr, &mut index, &self.amount);
        assert(arr@.len() == 16);
        assert(Self::payload_len() == 16);
        proof {
            crate::managed_vec_item::lemma_u32_round_trip(
                crate::managed_vec_item::handle_to_u32(self.token_identifier.handle),
            );
            crate::managed_vec_item::lemma_u32_round_trip(
                crate::managed_vec_item::handle_to_u32(self.amount.handle),
            );
            crate::managed_vec_item::lemma_u64_round_trip(self.token_nonce);
            assert(arr@ =~= self.payload());
        }
        arr
    }
}

} // verus!
