//! The execution of one call against the ledger.
//!
//! A call goes through these states. *Received*: a call that does not have
//! the shape of a call fails and touches nothing. *Nonce applied*: the
//! sender's nonce goes up by one, whatever follows. *Dispatched*: the
//! payment moves from the sender to the recipient and, where the recipient
//! has code and the call names a function, that function runs in a frame of
//! its own. *Committed*: after a success the ledger is as the call left
//! it. *Rolled back*: after a failure the ledger is as it was when the call
//! was dispatched, so that all that is left of the call is the nonce.

use crate::arena::{new_frame, Arena};
use crate::assoc::DeepClone;
use crate::big_nat::BigNat;
use crate::call_value::{payment_conflict_message, CallValueView, CallValueWrapper};
use crate::dct::{empty_metadata, DctInstanceMetadata, LedgerError, MetadataView};
use crate::debug_api::{queried_instance, DebugApi};
use crate::tx::{
    failure_result, payment_conflict, status_of, success_result, transfers_view, well_formed,
    TransferView, TxError, TxErrorView, TxInput, TxInputDct, TxInputView, TxResult, TxResultView,
    TxStatus,
};
use crate::world::{
    account_of, dct_balance, dct_credited, dct_debited, native_balance, native_credited,
    native_debited, nonce_increased, nonce_of, BlockchainMock, WorldView,
};
use vstd::prelude::*;
use vstd::string::StringSliceAdditionalSpecFns;

verus! {

/// Tells whether two ledgers have the same nonces and the same block
/// fixtures.
pub open spec fn fixtures_kept(pre: WorldView, post: WorldView) -> bool {
    &&& forall|a: Seq<u8>| #[trigger] nonce_of(post, a) == nonce_of(pre, a)
    &&& post.previous_block_info == pre.previous_block_info
    &&& post.current_block_info == pre.current_block_info
}

/// The metadata that units of an instance take along when they leave
/// `address`: those of the instance, or none where `address` does not hold
/// the instance.
pub open spec fn metadata_of(
    w: WorldView,
    address: Seq<u8>,
    identifier: Seq<u8>,
    nonce: u64,
) -> MetadataView {
    match queried_instance(w, address, identifier, nonce) {
        Some(instance) => instance.metadata,
        None => empty_metadata(),
    }
}

/// The ledger after the native amount of a call went from the sender to the
/// recipient, or the error where the sender holds less.
pub open spec fn native_transferred(w: WorldView, input: TxInputView) -> Result<
    WorldView,
    LedgerError,
> {
    if native_balance(w, input.from) < input.moax_value {
        Err(LedgerError::InsufficientFunds)
    } else {
        Ok(
            native_credited(
                native_debited(w, input.from, input.moax_value),
                input.to,
                input.moax_value,
            ),
        )
    }
}

/// The ledger after one token transfer went from `from` to `to`, with the
/// metadata that `from` had for the instance, or the error where `from`
/// holds less.
pub open spec fn dct_transferred(w: WorldView, from: Seq<u8>, to: Seq<u8>, t: TransferView) -> Result<
    WorldView,
    LedgerError,
> {
    if dct_balance(w, from, t.identifier, t.nonce) < t.amount {
        Err(LedgerError::InsufficientTokenFunds)
    } else {
        Ok(
            dct_credited(
                dct_debited(w, from, t.identifier, t.nonce, t.amount),
                to,
                t.identifier,
                t.nonce,
                t.amount,
                metadata_of(w, from, t.identifier, t.nonce),
            ),
        )
    }
}

/// The ledger after the token transfers went from `from` to `to`, one
/// after the other, or the error of the first that `from` could not cover.
pub open spec fn all_dct_transferred(
    w: WorldView,
    from: Seq<u8>,
    to: Seq<u8>,
    transfers: Seq<TransferView>,
) -> Result<WorldView, LedgerError>
    decreases transfers.len(),
{
    if transfers.len() == 0 {
        Ok(w)
    } else {
        match all_dct_transferred(w, from, to, transfers.drop_last()) {
            Ok(w1) => dct_transferred(w1, from, to, transfers.last()),
            Err(e) => Err(e),
        }
    }
}

/// The ledger after the whole payment of a call went from the sender to the
/// recipient: the native amount first, then the token transfers in their
/// order.
pub open spec fn transfers_applied(w: WorldView, input: TxInputView) -> Result<WorldView, LedgerError> {
    match native_transferred(w, input) {
        Ok(w1) => all_dct_transferred(w1, input.from, input.to, input.dct_values),
        Err(e) => Err(e),
    }
}

/// Tells whether the call runs code: the recipient has code and the call
/// names a function.
pub open spec fn calls_code(w: WorldView, input: TxInputView) -> bool {
    account_of(w.accounts, input.to).code is Some && input.func_name.len() > 0
}

/// A token transfer changes no nonce and no block fixture.
pub proof fn lemma_dct_transferred_keeps_fixtures(
    w: WorldView,
    from: Seq<u8>,
    to: Seq<u8>,
    t: TransferView,
)
    ensures
        dct_transferred(w, from, to, t) matches Ok(w1) ==> fixtures_kept(w, w1),
{
    if dct_transferred(w, from, to, t) is Ok {
        let w0 = dct_debited(w, from, t.identifier, t.nonce, t.amount);
        let w1 = dct_credited(
            w0,
            to,
            t.identifier,
            t.nonce,
            t.amount,
            metadata_of(w, from, t.identifier, t.nonce),
        );
        assert forall|a: Seq<u8>| #[trigger] nonce_of(w1, a) == nonce_of(w, a) by {
            assert(nonce_of(w0, a) == nonce_of(w, a));
        }
    }
}

/// Token transfers change no nonce and no block fixture.
pub proof fn lemma_all_dct_transferred_keeps_fixtures(
    w: WorldView,
    from: Seq<u8>,
    to: Seq<u8>,
    transfers: Seq<TransferView>,
)
    ensures
        all_dct_transferred(w, from, to, transfers) matches Ok(w1) ==> fixtures_kept(w, w1),
    decreases transfers.len(),
{
    if transfers.len() > 0 {
        lemma_all_dct_transferred_keeps_fixtures(w, from, to, transfers.drop_last());
        match all_dct_transferred(w, from, to, transfers.drop_last()) {
            Ok(w1) => {
                lemma_dct_transferred_keeps_fixtures(w1, from, to, transfers.last());
                match dct_transferred(w1, from, to, transfers.last()) {
                    Ok(w2) => {
                        assert forall|a: Seq<u8>| #[trigger] nonce_of(w2, a) == nonce_of(w, a) by {
                            assert(nonce_of(w1, a) == nonce_of(w, a));
                        }
                    },
                    Err(_) => {},
                }
            },
            Err(_) => {},
        }
    }
}

/// The payment of a call changes no nonce and no block fixture.
pub proof fn lemma_transfers_applied_keeps_fixtures(w: WorldView, input: TxInputView)
    ensures
        transfers_applied(w, input) matches Ok(w1) ==> fixtures_kept(w, w1),
{
    match native_transferred(w, input) {
        Ok(w1) => {
            let w0 = native_debited(w, input.from, input.moax_value);
            assert forall|a: Seq<u8>| #[trigger] nonce_of(w1, a) == nonce_of(w, a) by {
                assert(nonce_of(w0, a) == nonce_of(w, a));
            }
            lemma_all_dct_transferred_keeps_fixtures(w1, input.from, input.to, input.dct_values);
            match all_dct_transferred(w1, input.from, input.to, input.dct_values) {
                Ok(w2) => {
                    assert forall|a: Seq<u8>| #[trigger] nonce_of(w2, a) == nonce_of(w, a) by {
                        assert(nonce_of(w1, a) == nonce_of(w, a));
                    }
                },
                Err(_) => {},
            }
        },
        Err(_) => {},
    }
}

/// Where the first transfers of a list fail, the whole list fails in the
/// same way.
pub proof fn lemma_all_dct_transferred_prefix(
    w: WorldView,
    from: Seq<u8>,
    to: Seq<u8>,
    transfers: Seq<TransferView>,
    k: int,
)
    requires
        0 <= k <= transfers.len(),
        all_dct_transferred(w, from, to, transfers.take(k)) is Err,
    ensures
        all_dct_transferred(w, from, to, transfers) == all_dct_transferred(
            w,
            from,
            to,
            transfers.take(k),
        ),
    decreases transfers.len() - k,
{
    if k == transfers.len() {
        assert(transfers.take(k) =~= transfers);
    } else {
        assert(transfers.take(k + 1).drop_last() =~= transfers.take(k));
        lemma_all_dct_transferred_prefix(w, from, to, transfers, k + 1);
    }
}

/// A copy of the metadata that units of an instance take along when they
/// leave `address`.
fn instance_metadata(
    world: &BlockchainMock,
    address: &Vec<u8>,
    identifier: &Vec<u8>,
    nonce: u64,
) -> (r: DctInstanceMetadata)
    ensures
        r@ == metadata_of(world@, address@, identifier@, nonce),
{
    match world.accounts.get(address) {
        Some(account) => match account.dct.get_by_identifier(identifier) {
            Some(token) => match token.instances.get(&nonce) {
                Some(instance) => instance.metadata.deep_clone(),
                None => DctInstanceMetadata::empty(),
            },
            None => DctInstanceMetadata::empty(),
        },
        None => DctInstanceMetadata::empty(),
    }
}

/// Moves the payment of `input` from the sender to the recipient. After an
/// error the ledger holds the transfers made before the one that failed.
pub fn apply_transfers(world: &mut BlockchainMock, input: &TxInput) -> (r: Result<(), LedgerError>)
    ensures
        match r {
            Ok(()) => transfers_applied(old(world)@, input@) == Ok::<WorldView, LedgerError>(
                final(world)@,
            ),
            Err(e) => transfers_applied(old(world)@, input@) == Err::<WorldView, LedgerError>(e),
        },
{
    match world.debit_native(&input.from, &input.moax_value) {
        Ok(()) => {},
        Err(e) => {
            return Err(e);
        },
    }
    world.credit_native(&input.to, &input.moax_value);
    let ghost w1 = world@;
    let ghost all = input@.dct_values;
    let n = input.dct_values.len();
    let mut i: usize = 0;
    proof {
        assert(all.take(0) =~= Seq::<TransferView>::empty());
    }
    while i < n
        invariant
            n == input.dct_values@.len(),
            all == input@.dct_values,
            all.len() == n,
            i <= n,
            native_transferred(old(world)@, input@) == Ok::<WorldView, LedgerError>(w1),
            all_dct_transferred(w1, input@.from, input@.to, all.take(i as int)) == Ok::<
                WorldView,
                LedgerError,
            >(world@),
        decreases n - i,
    {
        let transfer = &input.dct_values[i];
        proof {
            assert(all.take(i + 1).drop_last() =~= all.take(i as int));
            assert(all.take(i + 1).last() == transfer@);
        }
        let metadata = instance_metadata(world, &input.from, &transfer.token_identifier, transfer.nonce);
        match world.debit_dct(&input.from, &transfer.token_identifier, transfer.nonce, &transfer.value) {
            Ok(()) => {},
            Err(e) => {
                proof {
                    lemma_all_dct_transferred_prefix(w1, input@.from, input@.to, all, i + 1);
                }
                return Err(e);
            },
        }
        world.credit_dct(
            &input.to,
            &transfer.token_identifier,
            transfer.nonce,
            &transfer.value,
            metadata,
        );
        i = i + 1;
    }
    proof {
        assert(all.take(n as int) =~= all);
    }
    Ok(())
}

/// Tells whether a call is ready for its function to run: the arena has a
/// new frame on top, and the payment is the payment of the call.
pub open spec fn entry_ready(api: DebugApi) -> bool {
    &&& api.arena@.len() > 0
    &&& api.arena.top() == new_frame()
    &&& api.call_value@ == (CallValueView {
        moax_value: api.input@.moax_value,
        dct_values: api.input@.dct_values,
    })
}

/// What a function must leave as it found it: the nonces and the block
/// fixtures of the ledger, and every frame of the arena but its own.
pub open spec fn entry_kept(before: DebugApi, after: DebugApi) -> bool {
    &&& fixtures_kept(before.world@, after.world@)
    &&& after.arena@.len() == before.arena@.len()
    &&& after.arena@.drop_last() == before.arena@.drop_last()
}

/// The code of the contracts. The executor hands a call to the code of the
/// recipient through this trait.
pub trait ContractMap {
    /// Runs the function `func_name` of the code named `code`. Returns
    /// nothing where there is no such code or no such function; else what
    /// the function returned, or the error with which it gave up.
    fn call_contract(&self, code: &Vec<u8>, func_name: &Vec<u8>, api: &mut DebugApi) -> (r: Option<
        Result<Vec<Vec<u8>>, TxError>,
    >)
        requires
            entry_ready(*old(api)),
        ensures
            entry_kept(*old(api), *final(api)),
    ;
}

/// No code at all: every call finds no function.
pub struct NoContracts;

impl ContractMap for NoContracts {
    fn call_contract(&self, code: &Vec<u8>, func_name: &Vec<u8>, api: &mut DebugApi) -> (r: Option<
        Result<Vec<Vec<u8>>, TxError>,
    >)
        ensures
            r is None,
            *final(api) == *old(api),
    {
        None
    }
}

/// The message for a call that names a function that the code does not
/// have.
pub open spec fn function_not_found_message() -> Seq<u8> {
    "invalid function (not found)".spec_bytes()
}

/// The message for a call that does not have the shape of a call.
pub open spec fn malformed_input_message() -> Seq<u8> {
    "malformed transaction input".spec_bytes()
}

/// The result of a call after its function ran, and the ledger that stays.
/// `outcome` is what the code returned, `snapshot` the ledger as it was
/// when the call was dispatched, `after` the ledger as the function left
/// it. A function that was not found, or that gave up, leaves the
/// snapshot; a function that returned leaves what it left.
pub fn finish_call(
    outcome: Option<Result<Vec<Vec<u8>>, TxError>>,
    snapshot: BlockchainMock,
    after: BlockchainMock,
) -> (r: (TxResult, BlockchainMock))
    ensures
        match outcome {
            None => r.0@ == failure_result(
                TxErrorView {
                    status: TxStatus::FunctionNotFound,
                    message: function_not_found_message(),
                },
            ) && r.1@ == snapshot@,
            Some(Err(e)) => r.0@ == failure_result(e@) && r.1@ == snapshot@,
            Some(Ok(values)) => r.0@ == success_result(values.deep_view()) && r.1@ == after@,
        },
        r.0@.status != TxStatus::Success ==> r.1@ == snapshot@,
        r.0@.status == TxStatus::Success ==> r.1@ == after@,
{
    match outcome {
        None => (
            TxResult::failure(
                TxError::new(
                    TxStatus::FunctionNotFound,
                    "invalid function (not found)".as_bytes_vec(),
                ),
            ),
            snapshot,
        ),
        Some(Err(e)) => (TxResult::failure(e), snapshot),
        Some(Ok(values)) => (TxResult::success(values), after),
    }
}

/// Tells whether a call dispatched against the ledger `pre` gets as far as
/// running code: it carries one kind of payment, the sender can cover it,
/// and once it has moved the recipient has code and the call names a
/// function.
pub open spec fn runs_code(pre: WorldView, input: TxInputView) -> bool {
    &&& !payment_conflict(input)
    &&& transfers_applied(pre, input) matches Ok(w1)
    &&& calls_code(w1, input)
}

/// How a call that does not get as far as running code ends, and the
/// ledger it leaves. A call that carries two kinds of payment fails before
/// anything moves. A call whose payment the sender cannot cover fails with
/// the error of the ledger. Both leave the ledger as it was. Any other such
/// call succeeds, returns nothing, and leaves the ledger with the payment
/// moved.
pub open spec fn plain_outcome(pre: WorldView, input: TxInputView) -> (TxResultView, WorldView) {
    if payment_conflict(input) {
        (
            failure_result(
                TxErrorView {
                    status: TxStatus::PaymentConflict,
                    message: payment_conflict_message(),
                },
            ),
            pre,
        )
    } else {
        match transfers_applied(pre, input) {
            Err(e) => (
                failure_result(TxErrorView { status: status_of(e), message: Seq::empty() }),
                pre,
            ),
            Ok(w1) => (success_result(Seq::empty()), w1),
        }
    }
}

/// What holds of a call that was dispatched against the ledger `pre`, and
/// ended with `result` and the ledger `post`. A call that fails leaves the
/// ledger as it was. A call that does not get as far as running code ends as
/// [`plain_outcome`] says. A call that runs code ends as the code decides;
/// whatever the code does, no nonce and no block fixture changes.
pub open spec fn call_dispatched(
    pre: WorldView,
    input: TxInputView,
    result: TxResultView,
    post: WorldView,
) -> bool {
    &&& fixtures_kept(pre, post)
    &&& result.status != TxStatus::Success ==> post == pre
    &&& !runs_code(pre, input) ==> (result, post) == plain_outcome(pre, input)
}

/// Where a call stands once it was dispatched as far as it goes without
/// running code.
pub enum Dispatch {
    /// The call is over.
    Done { result: TxResult, state: BlockchainMock, arena: Arena },
    /// The function `func_name` of the code `code` is to run on `api`.
    /// `snapshot` is the ledger as it was when the call was dispatched.
    Call { code: Vec<u8>, func_name: Vec<u8>, api: DebugApi, snapshot: BlockchainMock },
}

/// Dispatches a call as far as it goes without running code. A call that
/// does not get as far as running code is over, and ends as
/// [`plain_outcome`] says, with the arena as it was. For any other call the
/// payment has moved, a new frame is open on top of the arena, and the
/// function that the call names is to run on the ledger, the call, its
/// payment and the arena.
pub fn begin_dispatch(tx_input: TxInput, state: BlockchainMock, arena: Arena) -> (r: Dispatch)
    ensures
        match r {
            Dispatch::Done { result, state: after, arena: left } => {
                &&& !runs_code(state@, tx_input@)
                &&& (result@, after@) == plain_outcome(state@, tx_input@)
                &&& left@ == arena@
            },
            Dispatch::Call { code, func_name, api, snapshot } => {
                &&& runs_code(state@, tx_input@)
                &&& snapshot@ == state@
                &&& transfers_applied(state@, tx_input@) == Ok::<WorldView, LedgerError>(
                    api.world@,
                )
                &&& api.input@ == tx_input@
                &&& api.arena@ == arena@.push(new_frame())
                &&& entry_ready(api)
                &&& account_of(api.world@.accounts, tx_input@.to).code == Some(code@)
                &&& func_name@ == tx_input@.func_name
            },
        },
{
    if tx_input.has_payment_conflict() {
        let e = TxError::new(
            TxStatus::PaymentConflict,
            "call carries both a native amount and tokens".as_bytes_vec(),
        );
        return Dispatch::Done { result: TxResult::failure(e), state, arena };
    }
    let snapshot = state.deep_clone();
    let mut world = state;
    match apply_transfers(&mut world, &tx_input) {
        Ok(()) => {},
        Err(e) => {
            return Dispatch::Done {
                result: TxResult::failure(TxError::from_ledger(e)),
                state: snapshot,
                arena,
            };
        },
    }
    let code = match world.accounts.get(&tx_input.to) {
        Some(account) => crate::dct::clone_opt_bytes(&account.contract_path),
        None => None,
    };
    match code {
        Some(code) => {
            if tx_input.func_name.len() > 0 {
                let call_value = match CallValueWrapper::new(&tx_input) {
                    Ok(call_value) => call_value,
                    Err(e) => {
                        return Dispatch::Done {
                            result: TxResult::failure(e),
                            state: snapshot,
                            arena,
                        };
                    },
                };
                let func_name = tx_input.func_name.clone();
                let mut arena = arena;
                arena.push_frame();
                let api = DebugApi { world, input: tx_input, call_value, arena };
                return Dispatch::Call { code, func_name, api, snapshot };
            }
        },
        None => {},
    }
    let values: Vec<Vec<u8>> = Vec::new();
    assert(values.deep_view() =~= Seq::<Seq<u8>>::empty());
    Dispatch::Done { result: TxResult::success(values), state: world, arena }
}

/// Ends a call whose function has run: closes the frame of the function,
/// and commits or rolls back as [`finish_call`] says. `outcome` is what the
/// code returned, `snapshot` the ledger as it was when the call was
/// dispatched, `api` what the function ran on.
pub fn end_dispatch(
    outcome: Option<Result<Vec<Vec<u8>>, TxError>>,
    snapshot: BlockchainMock,
    api: DebugApi,
) -> (r: (TxResult, BlockchainMock, Arena))
    requires
        api.arena@.len() > 0,
    ensures
        r.2@ == api.arena@.drop_last(),
        match outcome {
            None => r.0@ == failure_result(
                TxErrorView {
                    status: TxStatus::FunctionNotFound,
                    message: function_not_found_message(),
                },
            ) && r.1@ == snapshot@,
            Some(Err(e)) => r.0@ == failure_result(e@) && r.1@ == snapshot@,
            Some(Ok(values)) => r.0@ == success_result(values.deep_view()) && r.1@ == api.world@,
        },
{
    let DebugApi { world, input: _, call_value: _, arena } = api;
    let mut arena = arena;
    arena.pop_frame();
    let (result, state) = finish_call(outcome, snapshot, world);
    (result, state, arena)
}

/// Dispatches a call whose nonce was applied: moves the payment, runs the
/// function where there is one to run, and commits or rolls back. The
/// function runs in a new frame on top of `arena`, which is closed when it
/// is done.
pub fn dispatch<C: ContractMap>(
    contracts: &C,
    tx_input: TxInput,
    state: BlockchainMock,
    arena: Arena,
) -> (r: (TxResult, BlockchainMock, Arena))
    ensures
        r.2@ == arena@,
        call_dispatched(state@, tx_input@, r.0@, r.1@),
{
    proof {
        lemma_transfers_applied_keeps_fixtures(state@, tx_input@);
    }
    match begin_dispatch(tx_input, state, arena) {
        Dispatch::Done { result, state: after, arena } => (result, after, arena),
        Dispatch::Call { code, func_name, api, snapshot } => {
            let mut api = api;
            let ghost transferred = api.world@;
            let outcome = contracts.call_contract(&code, &func_name, &mut api);
            proof {
                assert(api.arena@.drop_last() =~= arena@);
                assert forall|a: Seq<u8>| #[trigger]
                    nonce_of(api.world@, a) == nonce_of(state@, a) by {
                    assert(nonce_of(transferred, a) == nonce_of(state@, a));
                }
            }
            end_dispatch(outcome, snapshot, api)
        },
    }
}

/// Dispatches a call whose nonce was applied, in an arena of its own.
pub fn execute_sc_call<C: ContractMap>(contracts: &C, tx_input: TxInput, state: BlockchainMock) -> (r:
    (TxResult, BlockchainMock))
    ensures
        call_dispatched(state@, tx_input@, r.0@, r.1@),
{
    let (result, state, _) = dispatch(contracts, tx_input, state, Arena::new());
    (result, state)
}

/// Tells whether a call left the nonces as a call must: the nonce of the
/// sender is one more than it was, every other nonce is what it was.
pub open spec fn nonce_applied_once(pre: WorldView, input: TxInputView, post: WorldView) -> bool {
    forall|a: Seq<u8>| #[trigger]
        nonce_of(post, a) == if a == input.from {
            nonce_of(pre, a) + 1
        } else {
            nonce_of(pre, a) as int
        }
}

/// What holds of a call that was run against the ledger `pre` from its
/// receipt to its end, and ended with `result` and the ledger `post`. A
/// call that does not have the shape of a call fails and leaves the ledger
/// as it was. Any other call takes one nonce of its sender and is then
/// dispatched, so that a failure leaves nothing but the nonce.
pub open spec fn transaction_ran(
    pre: WorldView,
    input: TxInputView,
    result: TxResultView,
    post: WorldView,
) -> bool {
    if well_formed(input) {
        &&& nonce_applied_once(pre, input, post)
        &&& call_dispatched(nonce_increased(pre, input.from), input, result, post)
    } else {
        &&& result == failure_result(
            TxErrorView { status: TxStatus::MalformedInput, message: malformed_input_message() },
        )
        &&& post == pre
    }
}

/// Runs a call from its receipt to its end. A call that does not have the
/// shape of a call fails and leaves the ledger as it is. Any other call
/// takes one nonce of its sender, and is then dispatched.
pub fn run_transaction<C: ContractMap>(contracts: &C, tx_input: TxInput, state: BlockchainMock) -> (r:
    (TxResult, BlockchainMock))
    requires
        well_formed(tx_input@) ==> nonce_of(state@, tx_input@.from) < u64::MAX,
    ensures
        transaction_ran(state@, tx_input@, r.0@, r.1@),
{
    if !tx_input.is_well_formed() {
        return (
            TxResult::failure(
                TxError::new(TxStatus::MalformedInput, "malformed transaction input".as_bytes_vec()),
            ),
            state,
        );
    }
    let ghost before = state@;
    let mut state = state;
    state.increase_account_nonce(&tx_input.from);
    let ghost applied = state@;
    let ghost sender = tx_input@.from;
    let (result, state) = execute_sc_call(contracts, tx_input, state);
    proof {
        assert forall|a: Seq<u8>| #[trigger]
            nonce_of(state@, a) == if a == sender {
                nonce_of(before, a) + 1
            } else {
                nonce_of(before, a) as int
            } by {
            assert(nonce_of(state@, a) == nonce_of(applied, a));
        }
    }
    (result, state)
}

/// The number of calls that can be nested in one another.
pub const MAX_CALL_DEPTH: usize = 32;

/// The message for a nested call that would be nested too deep.
pub open spec fn call_depth_message() -> Seq<u8> {
    "call depth limit reached".spec_bytes()
}

/// The call that running code makes when it calls `to`: the running
/// contract is the sender, and the gas fields and the hash are those of the
/// running call.
pub open spec fn nested_input(
    running: TxInputView,
    to: Seq<u8>,
    moax_value: nat,
    dct_values: Seq<TransferView>,
    func_name: Seq<u8>,
    args: Seq<Seq<u8>>,
) -> TxInputView {
    TxInputView {
        from: running.to,
        to,
        moax_value,
        dct_values,
        func_name,
        args,
        gas_limit: running.gas_limit,
        gas_price: running.gas_price,
        tx_hash: running.tx_hash,
    }
}

impl DebugApi {
    /// Runs a nested call on behalf of the running contract, and returns how
    /// it ended. The nested call goes through the states of any call but
    /// one: it takes no nonce. It sees the ledger as the running call left
    /// it, and runs in a frame of its own. After a failure the ledger is as
    /// it was before the nested call; what the running code makes of the
    /// failure is up to it. A call nested deeper than [`MAX_CALL_DEPTH`]
    /// fails without being dispatched.
    pub fn execute_on_dest_context<C: ContractMap>(
        &mut self,
        contracts: &C,
        to: &Vec<u8>,
        moax_value: &BigNat,
        dct_values: Vec<TxInputDct>,
        func_name: &Vec<u8>,
        args: Vec<Vec<u8>>,
    ) -> (r: TxResult)
        ensures
            final(self).arena@ == old(self).arena@,
            final(self).input@ == old(self).input@,
            final(self).call_value@ == old(self).call_value@,
            fixtures_kept(old(self).world@, final(self).world@),
            r@.status != TxStatus::Success ==> final(self).world@ == old(self).world@,
            ({
                let input = nested_input(
                    old(self).input@,
                    to@,
                    moax_value@,
                    transfers_view(dct_values@),
                    func_name@,
                    args.deep_view(),
                );
                let world = old(self).world@;
                if !well_formed(input) {
                    r@ == failure_result(
                        TxErrorView {
                            status: TxStatus::MalformedInput,
                            message: malformed_input_message(),
                        },
                    )
                } else if old(self).arena@.len() >= MAX_CALL_DEPTH {
                    r@ == failure_result(
                        TxErrorView { status: TxStatus::UserError, message: call_depth_message() },
                    )
                } else {
                    call_dispatched(world, input, r@, final(self).world@)
                }
            }),
    {
        let input = TxInput {
            from: self.input.to.clone(),
            to: to.clone(),
            moax_value: moax_value.clone(),
            dct_values,
            func_name: func_name.clone(),
            args,
            gas_limit: self.input.gas_limit,
            gas_price: self.input.gas_price,
            tx_hash: self.input.tx_hash.clone(),
        };
        if !input.is_well_formed() {
            return TxResult::failure(
                TxError::new(TxStatus::MalformedInput, "malformed transaction input".as_bytes_vec()),
            );
        }
        if self.arena.depth() >= MAX_CALL_DEPTH {
            return TxResult::failure(
                TxError::user_error("call depth limit reached".as_bytes_vec()),
            );
        }
        let mut world = BlockchainMock::new();
        core::mem::swap(&mut self.world, &mut world);
        let mut arena = Arena::new();
        core::mem::swap(&mut self.arena, &mut arena);
        let (result, world, arena) = dispatch(contracts, input, world, arena);
        self.world = world;
        self.arena = arena;
        result
    }
}

/// A plain transfer: a payment from one address to another.
pub struct TxTransfer {
    pub from: Vec<u8>,
    pub to: Vec<u8>,
    pub moax_value: BigNat,
    pub dct_value: Vec<TxInputDct>,
    pub gas_limit: u64,
    pub gas_price: u64,
}

/// The hash of a call that has none: thirty-two zero bytes.
pub open spec fn zero_hash() -> Seq<u8> {
    Seq::new(32, |i: int| 0u8)
}

/// The call that makes a plain transfer: no function, no argument, the
/// zero hash.
pub open spec fn transfer_input(t: TxTransfer) -> TxInputView {
    TxInputView {
        from: t.from@,
        to: t.to@,
        moax_value: t.moax_value@,
        dct_values: transfers_view(t.dct_value@),
        func_name: Seq::empty(),
        args: Seq::empty(),
        gas_limit: t.gas_limit,
        gas_price: t.gas_price,
        tx_hash: zero_hash(),
    }
}

/// The validator's reward: an amount for an address.
pub struct TxValidatorReward {
    pub to: Vec<u8>,
    pub moax_value: BigNat,
}

/// Runs a plain transfer as a call without a function.
pub fn execute(state: BlockchainMock, tx_transfer: &TxTransfer) -> (r: (TxResult, BlockchainMock))
    requires
        well_formed(transfer_input(*tx_transfer)) ==> nonce_of(state@, tx_transfer.from@)
            < u64::MAX,
    ensures
        ({
            let input = transfer_input(*tx_transfer);
            let applied = nonce_increased(state@, input.from);
            if !well_formed(input) {
                r.0@.status == TxStatus::MalformedInput && r.1@ == state@
            } else if payment_conflict(input) {
                r.0@.status == TxStatus::PaymentConflict && r.1@ == applied
            } else {
                match transfers_applied(applied, input) {
                    Err(e) => r.0@.status == status_of(e) && r.1@ == applied,
                    Ok(w1) => r.0@ == success_result(Seq::empty()) && r.1@ == w1,
                }
            }
        }),
{
    let mut tx_hash: Vec<u8> = Vec::new();
    let mut i: usize = 0;
    while i < 32
        invariant
            i <= 32,
            tx_hash@.len() == i,
            forall|j: int| 0 <= j < i ==> tx_hash@[j] == 0u8,
        decreases 32 - i,
    {
        tx_hash.push(0u8);
        i = i + 1;
    }
    let args: Vec<Vec<u8>> = Vec::new();
    let tx_input = TxInput {
        from: tx_transfer.from.clone(),
        to: tx_transfer.to.clone(),
        moax_value: tx_transfer.moax_value.clone(),
        dct_values: crate::tx::clone_transfers(&tx_transfer.dct_value),
        func_name: Vec::new(),
        args,
        gas_limit: tx_transfer.gas_limit,
        gas_price: tx_transfer.gas_price,
        tx_hash,
    };
    proof {
        assert(tx_input.args.deep_view() =~= Seq::<Seq<u8>>::empty());
        assert(tx_input.tx_hash@ =~= zero_hash());
        assert(tx_input@ == transfer_input(*tx_transfer));
    }
    run_transaction(&NoContracts, tx_input, state)
}

impl BlockchainMock {
    /// Runs a plain transfer against the ledger and returns how it ended.
    pub fn denali_transfer(&mut self, tx_transfer: &TxTransfer) -> (r: TxResult)
        requires
            well_formed(transfer_input(*tx_transfer)) ==> nonce_of(old(self)@, tx_transfer.from@)
                < u64::MAX,
        ensures
            ({
                let input = transfer_input(*tx_transfer);
                let applied = nonce_increased(old(self)@, input.from);
                if !well_formed(input) {
                    r@.status == TxStatus::MalformedInput && final(self)@ == old(self)@
                } else if payment_conflict(input) {
                    r@.status == TxStatus::PaymentConflict && final(self)@ == applied
                } else {
                    match transfers_applied(applied, input) {
                        Err(e) => r@.status == status_of(e) && final(self)@ == applied,
                        Ok(w1) => r@ == success_result(Seq::empty()) && final(self)@ == w1,
                    }
                }
            }),
    {
        let mut state = BlockchainMock::new();
        core::mem::swap(self, &mut state);
        let (result, mut state) = execute(state, tx_transfer);
        core::mem::swap(self, &mut state);
        result
    }

    /// Credits a validator's reward: the amount is added to the native
    /// balance of the address. No nonce changes and no call is dispatched.
    pub fn denali_validator_reward(&mut self, reward: &TxValidatorReward)
        ensures
            final(self)@ == native_credited(old(self)@, reward.to@, reward.moax_value@),
    {
        self.increase_validator_reward(&reward.to, &reward.moax_value);
    }
}

} // verus!
