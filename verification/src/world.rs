//! The ledger: the accounts by address, and the block fixtures.
//!
//! An account that the ledger does not hold reads as the default account:
//! nonce zero, no balance, no token, no storage, no code. The operations
//! that change an account create it where it is missing.

use crate::assoc::{AssocList, DeepClone};
use crate::big_nat::BigNat;
use crate::dct::{
    balance_of, clone_opt_bytes, credited, debited, opt_bytes_view, AccountDct,
    DctInstanceMetadata, LedgerError, MetadataView, TokenView,
};
use vstd::prelude::*;

verus! {

/// The number of bytes of an address.
pub const ADDRESS_LEN: usize = 32;

/// What an account holds.
pub struct AccountView {
    pub nonce: u64,
    pub balance: nat,
    pub dct: Map<Seq<u8>, TokenView>,
    pub storage: Map<Seq<u8>, Seq<u8>>,
    pub code: Option<Seq<u8>>,
    pub owner: Option<Seq<u8>>,
}

/// The record of one address.
pub struct AccountData {
    pub nonce: u64,
    pub moax_balance: BigNat,
    pub dct: AccountDct,
    pub storage: AssocList<Vec<u8>, Vec<u8>>,
    /// Names the code of the account, where it is a contract.
    pub contract_path: Option<Vec<u8>>,
    pub contract_owner: Option<Vec<u8>>,
}

impl View for AccountData {
    type V = AccountView;

    open spec fn view(&self) -> AccountView {
        AccountView {
            nonce: self.nonce,
            balance: self.moax_balance@,
            dct: self.dct@,
            storage: self.storage@,
            code: opt_bytes_view(self.contract_path),
            owner: opt_bytes_view(self.contract_owner),
        }
    }
}

/// The account of an address that the ledger does not hold.
pub open spec fn default_account() -> AccountView {
    AccountView {
        nonce: 0,
        balance: 0,
        dct: Map::empty(),
        storage: Map::empty(),
        code: None,
        owner: None,
    }
}

impl Default for AccountData {
    fn default() -> (r: AccountData)
        ensures
            r@ == default_account(),
    {
        AccountData {
            nonce: 0,
            moax_balance: BigNat::zero(),
            dct: AccountDct::new(),
            storage: AssocList::new(),
            contract_path: None,
            contract_owner: None,
        }
    }
}

impl DeepClone for AccountData {
    fn deep_clone(&self) -> (r: Self) {
        AccountData {
            nonce: self.nonce,
            moax_balance: self.moax_balance.clone(),
            dct: self.dct.deep_clone(),
            storage: self.storage.deep_clone(),
            contract_path: clone_opt_bytes(&self.contract_path),
            contract_owner: clone_opt_bytes(&self.contract_owner),
        }
    }
}

/// The fixtures of one block.
pub struct BlockInfoView {
    pub block_timestamp: u64,
    pub block_nonce: u64,
    pub block_round: u64,
    pub block_epoch: u64,
    pub block_random_seed: Seq<u8>,
}

/// The fixtures of one block: set before a run, read during it.
pub struct BlockInfo {
    pub block_timestamp: u64,
    pub block_nonce: u64,
    pub block_round: u64,
    pub block_epoch: u64,
    pub block_random_seed: Vec<u8>,
}

impl View for BlockInfo {
    type V = BlockInfoView;

    open spec fn view(&self) -> BlockInfoView {
        BlockInfoView {
            block_timestamp: self.block_timestamp,
            block_nonce: self.block_nonce,
            block_round: self.block_round,
            block_epoch: self.block_epoch,
            block_random_seed: self.block_random_seed@,
        }
    }
}

/// The fixtures of a block of which nothing was set.
pub open spec fn default_block_info() -> BlockInfoView {
    BlockInfoView {
        block_timestamp: 0,
        block_nonce: 0,
        block_round: 0,
        block_epoch: 0,
        block_random_seed: Seq::empty(),
    }
}

impl BlockInfo {
    /// The fixtures of a block of which nothing was set.
    pub fn new() -> (r: BlockInfo)
        ensures
            r@ == default_block_info(),
    {
        BlockInfo {
            block_timestamp: 0,
            block_nonce: 0,
            block_round: 0,
            block_epoch: 0,
            block_random_seed: Vec::new(),
        }
    }
}

impl DeepClone for BlockInfo {
    fn deep_clone(&self) -> (r: Self) {
        BlockInfo {
            block_timestamp: self.block_timestamp,
            block_nonce: self.block_nonce,
            block_round: self.block_round,
            block_epoch: self.block_epoch,
            block_random_seed: self.block_random_seed.clone(),
        }
    }
}

/// The whole state that transactions run against.
pub struct WorldView {
    pub accounts: Map<Seq<u8>, AccountView>,
    pub previous_block_info: BlockInfoView,
    pub current_block_info: BlockInfoView,
}

/// The accounts and the block fixtures.
pub struct BlockchainMock {
    pub accounts: AssocList<Vec<u8>, AccountData>,
    pub previous_block_info: BlockInfo,
    pub current_block_info: BlockInfo,
}

impl View for BlockchainMock {
    type V = WorldView;

    open spec fn view(&self) -> WorldView {
        WorldView {
            accounts: self.accounts@,
            previous_block_info: self.previous_block_info@,
            current_block_info: self.current_block_info@,
        }
    }
}

impl DeepClone for BlockchainMock {
    fn deep_clone(&self) -> (r: Self) {
        BlockchainMock {
            accounts: self.accounts.deep_clone(),
            previous_block_info: self.previous_block_info.deep_clone(),
            current_block_info: self.current_block_info.deep_clone(),
        }
    }
}

/// The account at `address`, or the default account where there is none.
pub open spec fn account_of(accounts: Map<Seq<u8>, AccountView>, address: Seq<u8>) -> AccountView {
    if accounts.dom().contains(address) {
        accounts[address]
    } else {
        default_account()
    }
}

/// The ledger in which the account at `address` is `account`.
pub open spec fn with_account_set(w: WorldView, address: Seq<u8>, account: AccountView) -> WorldView {
    WorldView { accounts: w.accounts.insert(address, account), ..w }
}

/// The ledger after `amount` was added to the native balance at `address`.
pub open spec fn native_credited(w: WorldView, address: Seq<u8>, amount: nat) -> WorldView {
    let account = account_of(w.accounts, address);
    with_account_set(w, address, AccountView { balance: account.balance + amount, ..account })
}

/// The ledger after `amount` was taken from the native balance at
/// `address`, which holds at least as much.
pub open spec fn native_debited(w: WorldView, address: Seq<u8>, amount: nat) -> WorldView {
    let account = account_of(w.accounts, address);
    with_account_set(
        w,
        address,
        AccountView { balance: (account.balance - amount) as nat, ..account },
    )
}

/// The ledger after the nonce at `address` went up by one.
pub open spec fn nonce_increased(w: WorldView, address: Seq<u8>) -> WorldView {
    let account = account_of(w.accounts, address);
    with_account_set(w, address, AccountView { nonce: (account.nonce + 1) as u64, ..account })
}

/// The ledger after a credit of tokens to `address`.
pub open spec fn dct_credited(
    w: WorldView,
    address: Seq<u8>,
    identifier: Seq<u8>,
    nonce: u64,
    amount: nat,
    metadata: MetadataView,
) -> WorldView {
    let account = account_of(w.accounts, address);
    with_account_set(
        w,
        address,
        AccountView { dct: credited(account.dct, identifier, nonce, amount, metadata), ..account },
    )
}

/// The ledger after tokens were taken from `address`, which holds at least
/// as many.
pub open spec fn dct_debited(
    w: WorldView,
    address: Seq<u8>,
    identifier: Seq<u8>,
    nonce: u64,
    amount: nat,
) -> WorldView {
    let account = account_of(w.accounts, address);
    with_account_set(
        w,
        address,
        AccountView { dct: debited(account.dct, identifier, nonce, amount), ..account },
    )
}

/// The ledger after `value` was stored under `key` in the account at
/// `address`.
pub open spec fn storage_written(
    w: WorldView,
    address: Seq<u8>,
    key: Seq<u8>,
    value: Seq<u8>,
) -> WorldView {
    let account = account_of(w.accounts, address);
    with_account_set(
        w,
        address,
        AccountView { storage: account.storage.insert(key, value), ..account },
    )
}

/// The native balance at `address`.
pub open spec fn native_balance(w: WorldView, address: Seq<u8>) -> nat {
    account_of(w.accounts, address).balance
}

/// The balance of a token instance at `address`.
pub open spec fn dct_balance(w: WorldView, address: Seq<u8>, identifier: Seq<u8>, nonce: u64) -> nat {
    balance_of(account_of(w.accounts, address).dct, identifier, nonce)
}

/// The nonce at `address`.
pub open spec fn nonce_of(w: WorldView, address: Seq<u8>) -> u64 {
    account_of(w.accounts, address).nonce
}

impl BlockchainMock {
    /// The ledger without any account, with default block fixtures.
    pub fn new() -> (r: BlockchainMock)
        ensures
            r@.accounts == Map::<Seq<u8>, AccountView>::empty(),
            r@.previous_block_info == default_block_info(),
            r@.current_block_info == default_block_info(),
    {
        BlockchainMock {
            accounts: AssocList::new(),
            previous_block_info: BlockInfo::new(),
            current_block_info: BlockInfo::new(),
        }
    }

    /// Takes the account at `address` out of the ledger, or makes the
    /// default account where there is none.
    fn take_account(&mut self, address: &Vec<u8>) -> (r: AccountData)
        ensures
            r@ == account_of(old(self)@.accounts, address@),
            final(self)@ == (WorldView {
                accounts: old(self)@.accounts.remove(address@),
                ..old(self)@
            }),
    {
        match self.accounts.remove(address) {
            Some(account) => account,
            None => AccountData::default(),
        }
    }

    /// Puts `account` at `address`, in place of what was there.
    pub fn add_account(&mut self, address: &Vec<u8>, account: AccountData)
        ensures
            final(self)@ == with_account_set(old(self)@, address@, account@),
    {
        self.accounts.insert(address.clone(), account);
    }

    /// Tells whether the ledger holds an account at `address`.
    pub fn account_exists(&self, address: &Vec<u8>) -> (r: bool)
        ensures
            r == self@.accounts.dom().contains(address@),
    {
        self.accounts.contains_key(address)
    }

    /// A copy of the account at `address`; the default account where the
    /// ledger holds none.
    pub fn get_account(&self, address: &Vec<u8>) -> (r: AccountData)
        ensures
            r@ == account_of(self@.accounts, address@),
    {
        match self.accounts.get(address) {
            Some(account) => account.deep_clone(),
            None => AccountData::default(),
        }
    }

    /// Runs `f` on the account at `address` (the default account where the
    /// ledger holds none) and hands back what `f` returns. `f` sees the
    /// record as a whole, between two operations of the ledger.
    pub fn with_account<R, F: FnOnce(&AccountData) -> R>(&self, address: &Vec<u8>, f: F) -> (r: R)
        requires
            forall|a: AccountData|
                a@ == account_of(self@.accounts, address@) ==> call_requires(f, (&a,)),
        ensures
            exists|a: AccountData|
                a@ == account_of(self@.accounts, address@) && call_ensures(f, (&a,), r),
    {
        match self.accounts.get(address) {
            Some(account) => f(account),
            None => {
                let account = AccountData::default();
                f(&account)
            },
        }
    }

    /// The nonce at `address`.
    pub fn get_nonce(&self, address: &Vec<u8>) -> (r: u64)
        ensures
            r == nonce_of(self@, address@),
    {
        match self.accounts.get(address) {
            Some(account) => account.nonce,
            None => 0,
        }
    }

    /// The native balance at `address`.
    pub fn get_moax_balance(&self, address: &Vec<u8>) -> (r: BigNat)
        ensures
            r@ == native_balance(self@, address@),
    {
        match self.accounts.get(address) {
            Some(account) => account.moax_balance.clone(),
            None => BigNat::zero(),
        }
    }

    /// The balance of a token instance at `address`.
    pub fn get_dct_balance(&self, address: &Vec<u8>, identifier: &Vec<u8>, nonce: u64) -> (r:
        BigNat)
        ensures
            r@ == dct_balance(self@, address@, identifier@, nonce),
    {
        match self.accounts.get(address) {
            Some(account) => account.dct.get_dct_balance(identifier, nonce),
            None => BigNat::zero(),
        }
    }

    /// Adds `amount` to the native balance at `address`.
    pub fn credit_native(&mut self, address: &Vec<u8>, amount: &BigNat)
        ensures
            final(self)@ == native_credited(old(self)@, address@, amount@),
    {
        let mut account = self.take_account(address);
        account.moax_balance = account.moax_balance.add(amount);
        self.accounts.insert(address.clone(), account);
        proof {
            assert(self@.accounts =~= native_credited(old(self)@, address@, amount@).accounts);
        }
    }

    /// Takes `amount` from the native balance at `address`, unless the
    /// balance is smaller.
    pub fn debit_native(&mut self, address: &Vec<u8>, amount: &BigNat) -> (r: Result<
        (),
        LedgerError,
    >)
        ensures
            match r {
                Ok(()) => native_balance(old(self)@, address@) >= amount@ && final(self)@
                    == native_debited(old(self)@, address@, amount@),
                Err(e) => e == LedgerError::InsufficientFunds && native_balance(
                    old(self)@,
                    address@,
                ) < amount@ && final(self)@ == old(self)@,
            },
    {
        let balance = self.get_moax_balance(address);
        match balance.checked_sub(amount) {
            Some(rest) => {
                let mut account = self.take_account(address);
                account.moax_balance = rest;
                self.accounts.insert(address.clone(), account);
                proof {
                    assert(self@.accounts =~= native_debited(
                        old(self)@,
                        address@,
                        amount@,
                    ).accounts);
                }
                Ok(())
            },
            None => Err(LedgerError::InsufficientFunds),
        }
    }

    /// Adds one to the nonce at `address`.
    pub fn increase_account_nonce(&mut self, address: &Vec<u8>)
        requires
            nonce_of(old(self)@, address@) < u64::MAX,
        ensures
            final(self)@ == nonce_increased(old(self)@, address@),
    {
        let mut account = self.take_account(address);
        account.nonce = account.nonce + 1;
        self.accounts.insert(address.clone(), account);
        proof {
            assert(self@.accounts =~= nonce_increased(old(self)@, address@).accounts);
        }
    }

    /// Credits a validator's reward: `amount` is added to the native balance
    /// at `address` and nothing else changes.
    pub fn increase_validator_reward(&mut self, address: &Vec<u8>, amount: &BigNat)
        ensures
            final(self)@ == native_credited(old(self)@, address@, amount@),
    {
        self.credit_native(address, amount);
    }

    /// Adds `amount` to a token instance at `address`.
    pub fn credit_dct(
        &mut self,
        address: &Vec<u8>,
        identifier: &Vec<u8>,
        nonce: u64,
        amount: &BigNat,
        metadata: DctInstanceMetadata,
    )
        ensures
            final(self)@ == dct_credited(
                old(self)@,
                address@,
                identifier@,
                nonce,
                amount@,
                metadata@,
            ),
    {
        let mut account = self.take_account(address);
        account.dct.credit(identifier, nonce, amount, metadata);
        self.accounts.insert(address.clone(), account);
        proof {
            assert(self@.accounts =~= dct_credited(
                old(self)@,
                address@,
                identifier@,
                nonce,
                amount@,
                metadata@,
            ).accounts);
        }
    }

    /// Takes `amount` from a token instance at `address`, unless the
    /// instance holds less.
    pub fn debit_dct(
        &mut self,
        address: &Vec<u8>,
        identifier: &Vec<u8>,
        nonce: u64,
        amount: &BigNat,
    ) -> (r: Result<(), LedgerError>)
        ensures
            match r {
                Ok(()) => dct_balance(old(self)@, address@, identifier@, nonce) >= amount@
                    && final(self)@ == dct_debited(
                    old(self)@,
                    address@,
                    identifier@,
                    nonce,
                    amount@,
                ),
                Err(e) => e == LedgerError::InsufficientTokenFunds && dct_balance(
                    old(self)@,
                    address@,
                    identifier@,
                    nonce,
                ) < amount@ && final(self)@ == old(self)@,
            },
    {
        let balance = self.get_dct_balance(address, identifier, nonce);
        if balance.less_than(amount) {
            return Err(LedgerError::InsufficientTokenFunds);
        }
        let mut account = self.take_account(address);
        let done = account.dct.debit(identifier, nonce, amount);
        self.accounts.insert(address.clone(), account);
        proof {
            assert(self@.accounts =~= dct_debited(
                old(self)@,
                address@,
                identifier@,
                nonce,
                amount@,
            ).accounts);
        }
        Ok(())
    }

    /// Stores `value` under `key` in the account at `address`.
    pub fn storage_store(&mut self, address: &Vec<u8>, key: &Vec<u8>, value: Vec<u8>)
        ensures
            final(self)@ == storage_written(old(self)@, address@, key@, value@),
    {
        let mut account = self.take_account(address);
        account.storage.insert(key.clone(), value);
        self.accounts.insert(address.clone(), account);
        proof {
            assert(self@.accounts =~= storage_written(
                old(self)@,
                address@,
                key@,
                value@,
            ).accounts);
        }
    }

    /// What the account at `address` stores under `key`; nothing where it
    /// stores nothing there.
    pub fn storage_load(&self, address: &Vec<u8>, key: &Vec<u8>) -> (r: Vec<u8>)
        ensures
            r@ == storage_value(self@, address@, key@),
    {
        match self.accounts.get(address) {
            Some(account) => match account.storage.get(key) {
                Some(value) => value.clone(),
                None => Vec::new(),
            },
            None => Vec::new(),
        }
    }
}

/// What the account at `address` stores under `key`: the empty string where
/// it stores nothing there.
pub open spec fn storage_value(w: WorldView, address: Seq<u8>, key: Seq<u8>) -> Seq<u8> {
    let storage = account_of(w.accounts, address).storage;
    if storage.dom().contains(key) {
        storage[key]
    } else {
        Seq::empty()
    }
}

} // verus!
