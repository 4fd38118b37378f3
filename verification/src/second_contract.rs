//! A contract that keeps the identifier of one token in its storage, and
//! takes payments of that token only.

use crate::arena::{buffer_at, holds_buffer};
use crate::debug_api::DebugApi;
use crate::managed::{moax_name, TokenIdentifier};
use crate::call_value::token_name;
use crate::payable_features::only_frame_changed;
use crate::tx::{TxError, TxErrorView, TxStatus};
use crate::world::{storage_value, storage_written, WorldView};
use vstd::prelude::*;
use vstd::string::StringSliceAdditionalSpecFns;

verus! {

/// The key under which the contract keeps the identifier of its token.
pub open spec fn token_name_key() -> Seq<u8> {
    "dctTokenName".spec_bytes()
}

/// The message for a payment of another token than the contract takes.
pub open spec fn wrong_token_message() -> Seq<u8> {
    "Wrong dct token".spec_bytes()
}

/// The message of the function that takes no payment at all.
pub open spec fn rejected_message() -> Seq<u8> {
    "Rejected".spec_bytes()
}

/// The token that the contract at `address` takes: what it keeps under
/// [`token_name_key`], or the native currency where it keeps nothing.
pub open spec fn contract_token(world: WorldView, address: Seq<u8>) -> Seq<u8> {
    let stored = storage_value(world, address, token_name_key());
    if stored.len() == 0 {
        moax_name()
    } else {
        stored
    }
}

/// The functions of the contract.
pub trait SecondContract {
    /// Sets the contract up: the token `dct_token_identifier` is the token
    /// that it takes from now on.
    fn init(&self, api: &mut DebugApi, dct_token_identifier: TokenIdentifier)
        requires
            old(api).arena@.len() > 0,
            holds_buffer(old(api).arena.top(), dct_token_identifier.handle),
        ensures
            final(api).world@ == storage_written(
                old(api).world@,
                old(api).input@.to,
                token_name_key(),
                buffer_at(old(api).arena.top(), dct_token_identifier.handle),
            ),
            final(api).arena@ == old(api).arena@,
            final(api).input@ == old(api).input@,
            final(api).call_value@ == old(api).call_value@,
    {
        self.set_contract_dct_token_identifier(api, &dct_token_identifier);
    }

    /// Takes a payment of the token of the contract, and gives up on a
    /// payment of anything else.
    fn accept_dct_payment(&self, api: &mut DebugApi) -> (r: Result<(), TxError>)
        requires
            old(api).arena.has_room(2),
        ensures
            only_frame_changed(*old(api), *final(api)),
            match r {
                Ok(()) => token_name(old(api).call_value@) == contract_token(
                    old(api).world@,
                    old(api).input@.to,
                ),
                Err(e) => token_name(old(api).call_value@) != contract_token(
                    old(api).world@,
                    old(api).input@.to,
                ) && e@ == (TxErrorView {
                    status: TxStatus::UserError,
                    message: wrong_token_message(),
                }),
            },
    {
        let (_, actual_token_identifier) = api.call_value.payment_token_pair(&mut api.arena);
        proof {
            old(api).arena.lemma_well_formed();
        }
        let expected_token_identifier = self.get_contract_dct_token_identifier(api);
        let same = crate::assoc::bytes_eq(
            api.arena.read_buffer(actual_token_identifier.handle).as_slice(),
            api.arena.read_buffer(expected_token_identifier.handle).as_slice(),
        );
        proof {
            assert(final(api).arena@.drop_last() =~= old(api).arena@.drop_last());
        }
        if same {
            Ok(())
        } else {
            Err(TxError::user_error("Wrong dct token".as_bytes_vec()))
        }
    }

    /// Takes no payment: gives up whatever the call carries.
    fn reject_dct_payment(&self, api: &mut DebugApi) -> (r: Result<(), TxError>)
        ensures
            *final(api) == *old(api),
            r matches Err(e) && e@ == (TxErrorView {
                status: TxStatus::UserError,
                message: rejected_message(),
            }),
    {
        Err(TxError::user_error("Rejected".as_bytes_vec()))
    }

    /// Keeps the token `dct_token_identifier` as the token of the contract.
    fn set_contract_dct_token_identifier(
        &self,
        api: &mut DebugApi,
        dct_token_identifier: &TokenIdentifier,
    )
        requires
            old(api).arena@.len() > 0,
            holds_buffer(old(api).arena.top(), dct_token_identifier.handle),
        ensures
            final(api).world@ == storage_written(
                old(api).world@,
                old(api).input@.to,
                token_name_key(),
                buffer_at(old(api).arena.top(), dct_token_identifier.handle),
            ),
            final(api).arena@ == old(api).arena@,
            final(api).input@ == old(api).input@,
            final(api).call_value@ == old(api).call_value@,
    {
        let name = dct_token_identifier.as_name(&api.arena);
        api.storage_store(&"dctTokenName".as_bytes_vec(), name);
    }

    /// Allocates the token of the contract and returns its handle.
    fn get_contract_dct_token_identifier(&self, api: &mut DebugApi) -> (r: TokenIdentifier)
        requires
            old(api).arena.has_room(1),
        ensures
            r.handle == crate::arena::next_handle(old(api).arena.top()),
            final(api).arena@ == old(api).arena.with_top(
                crate::arena::frame_allocated(
                    old(api).arena.top(),
                    crate::arena::ValueView::Buffer(
                        contract_token(old(api).world@, old(api).input@.to),
                    ),
                ),
            ),
            final(api).world@ == old(api).world@,
            final(api).input@ == old(api).input@,
            final(api).call_value@ == old(api).call_value@,
    {
        let stored = api.storage_load(&"dctTokenName".as_bytes_vec());
        TokenIdentifier::from_dct_bytes(&mut api.arena, stored.as_slice())
    }
}

/// The contract.
pub struct ContractObj;

impl SecondContract for ContractObj {

}

} // verus!
