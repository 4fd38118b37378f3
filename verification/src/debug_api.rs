//! What running contract code can ask about the call, the ledger and the
//! blocks.

use crate::arena::{
    buffer_at, frame_written, holds_buffer, Arena, ArenaValue, ValueView,
};
use crate::call_value::CallValueWrapper;
use crate::dct::{balance_of, token_or_default, InstanceView, TokenView};
use crate::dct_token_data::{
    default_data, default_data_allocated, instance_data, instance_data_allocated, role_flags,
    DctLocalRoleFlags, DctTokenData,
};
use crate::managed::{
    dct_identifier_of, type_of_nonce, DctTokenType, ManagedAddress, TokenIdentifier,
};
use crate::tx::TxInput;
use crate::world::{
    account_of, native_balance, storage_value, storage_written, AccountView, BlockchainMock,
    WorldView,
};
use vstd::prelude::*;

verus! {

/// What a running call can reach: the ledger as the call sees it, the
/// input of the call, the payment that came with it, and the arena.
pub struct DebugApi {
    pub world: BlockchainMock,
    pub input: TxInput,
    pub call_value: CallValueWrapper,
    pub arena: Arena,
}

/// The account of the contract that is running.
pub open spec fn contract_account(world: WorldView, input: crate::tx::TxInputView) -> AccountView {
    account_of(world.accounts, input.to)
}

/// The token that a query by handle asks about, in the account of the
/// running contract.
pub open spec fn queried_token(api: DebugApi, token_id_handle: i32) -> TokenView {
    token_or_default(
        contract_account(api.world@, api.input@).dct,
        dct_identifier_of(buffer_at(api.arena.top(), token_id_handle)),
    )
}

/// The instance that a query asks about, where the account holds it.
pub open spec fn queried_instance(
    world: WorldView,
    address: Seq<u8>,
    identifier: Seq<u8>,
    nonce: u64,
) -> Option<InstanceView> {
    let dct = account_of(world.accounts, address).dct;
    if dct.dom().contains(identifier) && dct[identifier].instances.dom().contains(nonce) {
        Some(dct[identifier].instances[nonce])
    } else {
        None
    }
}

/// The number of values that the answer to a query about an instance
/// allocates.
pub open spec fn token_data_room(
    world: WorldView,
    address: Seq<u8>,
    identifier: Seq<u8>,
    nonce: u64,
) -> nat {
    match queried_instance(world, address, identifier, nonce) {
        Some(instance) => 7 + instance.metadata.uris.len(),
        None => 7,
    }
}

impl DebugApi {
    /// The address that sent the call.
    pub fn get_caller_legacy(&self) -> (r: Vec<u8>)
        ensures
            r@ == self.input@.from,
    {
        self.input.from.clone()
    }

    /// The address of the contract that is running.
    pub fn get_sc_address_legacy(&self) -> (r: Vec<u8>)
        ensures
            r@ == self.input@.to,
    {
        self.input.to.clone()
    }

    /// Tells whether the running contract has an owner.
    pub fn has_owner_address(&self) -> (r: bool)
        ensures
            r == contract_account(self.world@, self.input@).owner is Some,
    {
        match self.world.accounts.get(&self.input.to) {
            Some(account) => account.contract_owner.is_some(),
            None => false,
        }
    }

    /// The owner of the running contract, which must have one.
    pub fn get_owner_address_legacy(&self) -> (r: Vec<u8>)
        requires
            contract_account(self.world@, self.input@).owner is Some,
        ensures
            Some(r@) == contract_account(self.world@, self.input@).owner,
    {
        match self.world.accounts.get(&self.input.to) {
            Some(account) => match &account.contract_owner {
                Some(owner) => owner.clone(),
                None => unreached(),
            },
            None => unreached(),
        }
    }

    /// Puts the native balance of the running contract at `dest`. The
    /// balance of another account cannot be asked for: `address` must be
    /// the address of the contract.
    pub fn load_balance_legacy(&mut self, dest: i32, address: &Vec<u8>)
        requires
            address@ == old(self).input@.to,
            old(self).arena.valid(dest),
        ensures
            final(self).arena@ == old(self).arena.with_top(
                frame_written(
                    old(self).arena.top(),
                    dest,
                    ValueView::BigInt(native_balance(old(self).world@, address@)),
                ),
            ),
            final(self).world@ == old(self).world@,
            final(self).input@ == old(self).input@,
            final(self).call_value@ == old(self).call_value@,
    {
        let moax_balance = self.world.get_moax_balance(address);
        self.arena.write(dest, ArenaValue::BigInt(moax_balance));
    }

    /// The hash of the call.
    pub fn get_tx_hash_legacy(&self) -> (r: Vec<u8>)
        ensures
            r@ == self.input@.tx_hash,
    {
        self.input.tx_hash.clone()
    }

    /// The gas that is left: all the gas of the call, since none is
    /// metered.
    pub fn get_gas_left(&self) -> (r: u64)
        ensures
            r == self.input@.gas_limit,
    {
        self.input.gas_limit
    }

    /// The time stamp of the current block.
    pub fn get_block_timestamp(&self) -> (r: u64)
        ensures
            r == self.world@.current_block_info.block_timestamp,
    {
        self.world.current_block_info.block_timestamp
    }

    /// The nonce of the current block.
    pub fn get_block_nonce(&self) -> (r: u64)
        ensures
            r == self.world@.current_block_info.block_nonce,
    {
        self.world.current_block_info.block_nonce
    }

    /// The round of the current block.
    pub fn get_block_round(&self) -> (r: u64)
        ensures
            r == self.world@.current_block_info.block_round,
    {
        self.world.current_block_info.block_round
    }

    /// The epoch of the current block.
    pub fn get_block_epoch(&self) -> (r: u64)
        ensures
            r == self.world@.current_block_info.block_epoch,
    {
        self.world.current_block_info.block_epoch
    }

    /// The random seed of the current block.
    pub fn get_block_random_seed_legacy(&self) -> (r: Vec<u8>)
        ensures
            r@ == self.world@.current_block_info.block_random_seed,
    {
        self.world.current_block_info.block_random_seed.clone()
    }

    /// The time stamp of the previous block.
    pub fn get_prev_block_timestamp(&self) -> (r: u64)
        ensures
            r == self.world@.previous_block_info.block_timestamp,
    {
        self.world.previous_block_info.block_timestamp
    }

    /// The nonce of the previous block.
    pub fn get_prev_block_nonce(&self) -> (r: u64)
        ensures
            r == self.world@.previous_block_info.block_nonce,
    {
        self.world.previous_block_info.block_nonce
    }

    /// The round of the previous block.
    pub fn get_prev_block_round(&self) -> (r: u64)
        ensures
            r == self.world@.previous_block_info.block_round,
    {
        self.world.previous_block_info.block_round
    }

    /// The epoch of the previous block.
    pub fn get_prev_block_epoch(&self) -> (r: u64)
        ensures
            r == self.world@.previous_block_info.block_epoch,
    {
        self.world.previous_block_info.block_epoch
    }

    /// The random seed of the previous block.
    pub fn get_prev_block_random_seed_legacy(&self) -> (r: Vec<u8>)
        ensures
            r@ == self.world@.previous_block_info.block_random_seed,
    {
        self.world.previous_block_info.block_random_seed.clone()
    }

    /// The highest instance number that the running contract has created of
    /// a token; zero for a token that it does not know. The address at
    /// `address_handle` must be the address of the contract.
    pub fn get_current_dct_nft_nonce(&self, address_handle: i32, token_id_handle: i32) -> (r: u64)
        requires
            self.arena@.len() > 0,
            holds_buffer(self.arena.top(), address_handle),
            holds_buffer(self.arena.top(), token_id_handle),
            buffer_at(self.arena.top(), address_handle) == self.input@.to,
        ensures
            r == queried_token(*self, token_id_handle).last_nonce,
    {
        let identifier = TokenIdentifier::from_raw_handle(token_id_handle).to_dct_identifier(
            &self.arena,
        );
        match self.world.accounts.get(&self.input.to) {
            Some(account) => account.dct.get_by_identifier_or_default(&identifier).last_nonce,
            None => 0,
        }
    }

    /// Puts at `dest` the balance that the running contract has of an
    /// instance; zero for an instance that it does not know. The address at
    /// `address_handle` must be the address of the contract.
    pub fn load_dct_balance(
        &mut self,
        address_handle: i32,
        token_id_handle: i32,
        nonce: u64,
        dest: i32,
    )
        requires
            old(self).arena@.len() > 0,
            holds_buffer(old(self).arena.top(), address_handle),
            holds_buffer(old(self).arena.top(), token_id_handle),
            buffer_at(old(self).arena.top(), address_handle) == old(self).input@.to,
            old(self).arena.valid(dest),
        ensures
            final(self).arena@ == old(self).arena.with_top(
                frame_written(
                    old(self).arena.top(),
                    dest,
                    ValueView::BigInt(
                        balance_of(
                            contract_account(old(self).world@, old(self).input@).dct,
                            dct_identifier_of(buffer_at(old(self).arena.top(), token_id_handle)),
                            nonce,
                        ),
                    ),
                ),
            ),
            final(self).world@ == old(self).world@,
            final(self).input@ == old(self).input@,
            final(self).call_value@ == old(self).call_value@,
    {
        let identifier = TokenIdentifier::from_raw_handle(token_id_handle).to_dct_identifier(
            &self.arena,
        );
        let dct_balance = self.world.get_dct_balance(&self.input.to, &identifier, nonce);
        self.arena.write(dest, ArenaValue::BigInt(dct_balance));
    }

    /// What the account at `address` holds of instance `nonce` of `token`.
    /// The data are allocated and named by handles. Of an instance that the
    /// account does not hold, the data are empty, and the kind is the kind
    /// that `nonce` tells; of a token that the account does not know, the
    /// data are empty and the kind is fungible.
    pub fn get_dct_token_data(
        &mut self,
        address: &ManagedAddress,
        token: &TokenIdentifier,
        nonce: u64,
    ) -> (r: DctTokenData)
        requires
            old(self).arena@.len() > 0,
            holds_buffer(old(self).arena.top(), address.handle),
            holds_buffer(old(self).arena.top(), token.handle),
            old(self).arena.has_room(
                token_data_room(
                    old(self).world@,
                    buffer_at(old(self).arena.top(), address.handle),
                    dct_identifier_of(buffer_at(old(self).arena.top(), token.handle)),
                    nonce,
                ),
            ),
        ensures
            final(self).world@ == old(self).world@,
            final(self).input@ == old(self).input@,
            final(self).call_value@ == old(self).call_value@,
            ({
                let top = old(self).arena.top();
                let owner = buffer_at(top, address.handle);
                let identifier = dct_identifier_of(buffer_at(top, token.handle));
                let dct = account_of(old(self).world@.accounts, owner).dct;
                match queried_instance(old(self).world@, owner, identifier, nonce) {
                    Some(instance) => r == instance_data(top, dct[identifier], nonce, instance)
                        && final(self).arena@ == old(self).arena.with_top(
                        instance_data_allocated(top, identifier, instance),
                    ),
                    None => r == default_data(
                        top,
                        if dct.dom().contains(identifier) {
                            type_of_nonce(nonce)
                        } else {
                            DctTokenType::Fungible
                        },
                    ) && final(self).arena@ == old(self).arena.with_top(
                        default_data_allocated(top),
                    ),
                }
            }),
    {
        let owner = address.to_address(&self.arena);
        let token_identifier_value = token.to_dct_identifier(&self.arena);
        match self.world.accounts.get(&owner) {
            Some(account) => match account.dct.get_by_identifier(&token_identifier_value) {
                Some(dct_data) => match dct_data.instances.get(&nonce) {
                    Some(instance) => DebugApi::dct_token_data_from_instance(
                        &mut self.arena,
                        token_identifier_value,
                        dct_data,
                        nonce,
                        instance,
                    ),
                    None => DctTokenData::default_with_type(
                        &mut self.arena,
                        DctTokenType::based_on_token_nonce(nonce),
                    ),
                },
                None => DctTokenData::default_with_type(&mut self.arena, DctTokenType::Fungible),
            },
            None => DctTokenData::default_with_type(&mut self.arena, DctTokenType::Fungible),
        }
    }

    /// Stores `value` under `key` in the account of the running contract.
    pub fn storage_store(&mut self, key: &Vec<u8>, value: Vec<u8>)
        ensures
            final(self).world@ == storage_written(
                old(self).world@,
                old(self).input@.to,
                key@,
                value@,
            ),
            final(self).arena@ == old(self).arena@,
            final(self).input@ == old(self).input@,
            final(self).call_value@ == old(self).call_value@,
    {
        self.world.storage_store(&self.input.to, key, value);
    }

    /// What the account of the running contract stores under `key`;
    /// nothing where it stores nothing there.
    pub fn storage_load(&self, key: &Vec<u8>) -> (r: Vec<u8>)
        ensures
            r@ == storage_value(self.world@, self.input@.to, key@),
    {
        self.world.storage_load(&self.input.to, key)
    }

    /// The roles that the running contract has for the token at
    /// `token_id_handle`; none for a token that it does not know.
    pub fn get_dct_local_roles(&self, token_id_handle: i32) -> (r: DctLocalRoleFlags)
        requires
            self.arena@.len() > 0,
            holds_buffer(self.arena.top(), token_id_handle),
        ensures
            r.bits == role_flags(queried_token(*self, token_id_handle).roles),
    {
        let identifier = TokenIdentifier::from_raw_handle(token_id_handle).to_dct_identifier(
            &self.arena,
        );
        match self.world.accounts.get(&self.input.to) {
            Some(account) => match account.dct.get_by_identifier(&identifier) {
                Some(dct_data) => DctLocalRoleFlags::from_names(&dct_data.roles),
                None => DctLocalRoleFlags { bits: crate::dct_token_data::ROLE_NONE },
            },
            None => DctLocalRoleFlags { bits: crate::dct_token_data::ROLE_NONE },
        }
    }
}

} // verus!
