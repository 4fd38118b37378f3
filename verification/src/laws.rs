//! What holds of the ledger, the arena and the executor whatever the calls
//! are.

use crate::arena::{
    big_int_at, buffer_at, frame_well_formed, holds_big_int, holds_buffer, initial_slot,
    is_reserved, new_frame, FrameView, FRAME_CAPACITY,
};
use crate::call_value::{
    lemma_transfers_materialized_fresh, next_handle_after, record_handles, transfers_materialized,
};
use crate::dct_token_payment::payment_payload;
use crate::managed_vec_item::{
    be_bytes_u64, handle_bytes, handle_of_bytes, handle_to_u32, lemma_handle_round_trip,
    lemma_u32_round_trip, lemma_u64_round_trip, u64_of_be_bytes,
};
use crate::dct::{balance_of, credited, MetadataView, TokenView};
use crate::executor::{
    all_dct_transferred, dct_transferred, native_transferred, transaction_ran, transfers_applied,
};
use crate::tx::{payment_conflict, well_formed, TransferView, TxInputView, TxResultView, TxStatus};
use crate::world::{
    account_of, dct_balance, dct_credited, dct_debited, native_balance, native_debited,
    nonce_increased, nonce_of, WorldView,
};
use vstd::prelude::*;

verus! {

/// The number of the calls of `inputs` that `sender` sent.
pub open spec fn sent_by(inputs: Seq<TxInputView>, sender: Seq<u8>) -> nat
    decreases inputs.len(),
{
    if inputs.len() == 0 {
        0
    } else {
        sent_by(inputs.drop_last(), sender) + if inputs.last().from == sender {
            1nat
        } else {
            0nat
        }
    }
}

/// Every call that has the shape of a call takes exactly one nonce of its
/// sender, whether it succeeds or fails, and no nonce of anybody else. So
/// after a sequence of such calls, run one after the other, the nonce of an
/// account is its nonce before the first call plus the number of calls that
/// the account sent. Here `worlds[k]` is the ledger before call `k`, and
/// `worlds[k + 1]` the ledger after it.
pub proof fn lemma_nonce_counts_calls(
    worlds: Seq<WorldView>,
    inputs: Seq<TxInputView>,
    results: Seq<TxResultView>,
    sender: Seq<u8>,
)
    requires
        worlds.len() == inputs.len() + 1,
        results.len() == inputs.len(),
        forall|k: int|
            0 <= k < inputs.len() ==> well_formed(#[trigger] inputs[k]) && transaction_ran(
                worlds[k],
                inputs[k],
                results[k],
                worlds[k + 1],
            ),
    ensures
        nonce_of(worlds.last(), sender) == nonce_of(worlds[0], sender) + sent_by(inputs, sender),
    decreases inputs.len(),
{
    if inputs.len() > 0 {
        let n = inputs.len() - 1;
        let front_inputs = inputs.drop_last();
        let front_worlds = worlds.drop_last();
        let front_results = results.drop_last();
        assert forall|k: int| 0 <= k < front_inputs.len() implies well_formed(
            #[trigger] front_inputs[k],
        ) && transaction_ran(
            front_worlds[k],
            front_inputs[k],
            front_results[k],
            front_worlds[k + 1],
        ) by {
            assert(well_formed(inputs[k]));
        }
        lemma_nonce_counts_calls(front_worlds, front_inputs, front_results, sender);
        assert(well_formed(inputs[n]));
        assert(transaction_ran(worlds[n], inputs[n], results[n], worlds[n + 1]));
        assert(nonce_of(worlds[n + 1], sender) == if sender == inputs[n].from {
            nonce_of(worlds[n], sender) + 1
        } else {
            nonce_of(worlds[n], sender) as int
        });
    }
}

/// A call that fails leaves every native balance and every token balance
/// as it was before the call.
pub proof fn lemma_failure_keeps_balances(
    pre: WorldView,
    input: TxInputView,
    result: TxResultView,
    post: WorldView,
    address: Seq<u8>,
    identifier: Seq<u8>,
    nonce: u64,
)
    requires
        transaction_ran(pre, input, result, post),
        result.status != TxStatus::Success,
    ensures
        native_balance(post, address) == native_balance(pre, address),
        dct_balance(post, address, identifier, nonce) == dct_balance(
            pre,
            address,
            identifier,
            nonce,
        ),
        well_formed(input) ==> post == nonce_increased(pre, input.from),
        !well_formed(input) ==> post == pre,
{
}

/// A call that succeeds without running code leaves the ledger with the
/// nonce taken and the payment moved, and nothing else.
pub proof fn lemma_plain_success_moves_payment(
    pre: WorldView,
    input: TxInputView,
    result: TxResultView,
    post: WorldView,
)
    requires
        transaction_ran(pre, input, result, post),
        result.status == TxStatus::Success,
        account_of(pre.accounts, input.to).code is None || input.func_name.len() == 0,
    ensures
        well_formed(input),
        !payment_conflict(input),
        transfers_applied(nonce_increased(pre, input.from), input) == Ok::<
            WorldView,
            crate::dct::LedgerError,
        >(post),
{
    let applied = nonce_increased(pre, input.from);
    match transfers_applied(applied, input) {
        Ok(w1) => {
            lemma_transfers_keep_code(applied, input, input.to);
        },
        Err(_) => {},
    }
}

/// The payment of a call changes the code of no account.
pub proof fn lemma_transfers_keep_code(w: WorldView, input: TxInputView, address: Seq<u8>)
    ensures
        transfers_applied(w, input) matches Ok(w1) ==> account_of(w1.accounts, address).code
            == account_of(w.accounts, address).code,
{
    match native_transferred(w, input) {
        Ok(w1) => {
            let w0 = native_debited(w, input.from, input.moax_value);
            assert(account_of(w0.accounts, address).code == account_of(w.accounts, address).code);
            assert(account_of(w1.accounts, address).code == account_of(w.accounts, address).code);
            lemma_all_dct_keep_code(w1, input.from, input.to, input.dct_values, address);
        },
        Err(_) => {},
    }
}

/// Token transfers change the code of no account.
pub proof fn lemma_all_dct_keep_code(
    w: WorldView,
    from: Seq<u8>,
    to: Seq<u8>,
    transfers: Seq<TransferView>,
    address: Seq<u8>,
)
    ensures
        all_dct_transferred(w, from, to, transfers) matches Ok(w1) ==> account_of(
            w1.accounts,
            address,
        ).code == account_of(w.accounts, address).code,
    decreases transfers.len(),
{
    if transfers.len() > 0 {
        lemma_all_dct_keep_code(w, from, to, transfers.drop_last(), address);
        match all_dct_transferred(w, from, to, transfers.drop_last()) {
            Ok(w1) => {
                let t = transfers.last();
                let w0 = dct_debited(w1, from, t.identifier, t.nonce, t.amount);
                assert(account_of(w0.accounts, address).code == account_of(
                    w1.accounts,
                    address,
                ).code);
            },
            Err(_) => {},
        }
    }
}

/// The native amount of a call leaves the sender and reaches the
/// recipient: the balance of the sender goes down by the amount, the
/// balance of the recipient goes up by it, and no other balance changes. A
/// sender that pays itself keeps what it had.
pub proof fn lemma_native_transfer_balances(w: WorldView, input: TxInputView, address: Seq<u8>)
    requires
        native_transferred(w, input) is Ok,
    ensures
        ({
            let w1 = native_transferred(w, input)->Ok_0;
            let before = native_balance(w, address) as int;
            let after = native_balance(w1, address) as int;
            let out = if address == input.from {
                input.moax_value as int
            } else {
                0
            };
            let into = if address == input.to {
                input.moax_value as int
            } else {
                0
            };
            after == before - out + into
        }),
{
    let w0 = native_debited(w, input.from, input.moax_value);
    assert(native_balance(w0, address) == if address == input.from {
        native_balance(w, address) - input.moax_value
    } else {
        native_balance(w, address) as int
    });
}

/// A token transfer leaves the sender and reaches the recipient: of the
/// instance that is transferred, the balance of the sender goes down by
/// the amount and the balance of the recipient goes up by it. No other
/// balance of any token changes.
pub proof fn lemma_dct_transfer_balances(
    w: WorldView,
    from: Seq<u8>,
    to: Seq<u8>,
    t: TransferView,
    address: Seq<u8>,
    identifier: Seq<u8>,
    nonce: u64,
)
    requires
        dct_transferred(w, from, to, t) is Ok,
    ensures
        ({
            let w1 = dct_transferred(w, from, to, t)->Ok_0;
            let before = dct_balance(w, address, identifier, nonce) as int;
            let after = dct_balance(w1, address, identifier, nonce) as int;
            let same = identifier == t.identifier && nonce == t.nonce;
            let out = if same && address == from {
                t.amount as int
            } else {
                0
            };
            let into = if same && address == to {
                t.amount as int
            } else {
                0
            };
            after == before - out + into
        }),
{
    let w0 = dct_debited(w, from, t.identifier, t.nonce, t.amount);
    let same = identifier == t.identifier && nonce == t.nonce;
    assert(dct_balance(w0, address, identifier, nonce) == if same && address == from {
        dct_balance(w, address, identifier, nonce) - t.amount
    } else {
        dct_balance(w, address, identifier, nonce) as int
    });
}

/// The sum of the amounts of the transfers of instance `nonce` of the token
/// `identifier` among `transfers`.
pub open spec fn total_transferred(
    transfers: Seq<TransferView>,
    identifier: Seq<u8>,
    nonce: u64,
) -> nat
    decreases transfers.len(),
{
    if transfers.len() == 0 {
        0
    } else {
        let last = transfers.last();
        total_transferred(transfers.drop_last(), identifier, nonce) + if last.identifier
            == identifier && last.nonce == nonce {
            last.amount
        } else {
            0
        }
    }
}

/// Token transfers move what they say and nothing else: of each instance,
/// the balance of the sender goes down by the sum of the amounts
/// transferred of it, the balance of the recipient goes up by that sum, and
/// no other balance changes. No native balance changes.
pub proof fn lemma_all_dct_transfer_balances(
    w: WorldView,
    from: Seq<u8>,
    to: Seq<u8>,
    transfers: Seq<TransferView>,
    address: Seq<u8>,
    identifier: Seq<u8>,
    nonce: u64,
)
    requires
        all_dct_transferred(w, from, to, transfers) is Ok,
    ensures
        ({
            let w1 = all_dct_transferred(w, from, to, transfers)->Ok_0;
            let total = total_transferred(transfers, identifier, nonce) as int;
            let out = if address == from {
                total
            } else {
                0
            };
            let into = if address == to {
                total
            } else {
                0
            };
            &&& dct_balance(w1, address, identifier, nonce) == dct_balance(
                w,
                address,
                identifier,
                nonce,
            ) - out + into
            &&& native_balance(w1, address) == native_balance(w, address)
        }),
    decreases transfers.len(),
{
    if transfers.len() > 0 {
        let front = transfers.drop_last();
        let mid = all_dct_transferred(w, from, to, front)->Ok_0;
        lemma_all_dct_transfer_balances(w, from, to, front, address, identifier, nonce);
        lemma_dct_transfer_balances(mid, from, to, transfers.last(), address, identifier, nonce);
        let t = transfers.last();
        let w0 = dct_debited(mid, from, t.identifier, t.nonce, t.amount);
        assert(native_balance(w0, address) == native_balance(mid, address));
    }
}

/// The payment of a call moves what the call declares and nothing else.
/// The native balance of the sender goes down by the native amount and that
/// of the recipient goes up by it. Of each token instance, the balance of
/// the sender goes down by the sum of the amounts transferred of it, and
/// that of the recipient goes up by that sum. No other balance changes; a
/// sender that pays itself keeps what it had.
pub proof fn lemma_payment_moves_balances(
    w: WorldView,
    input: TxInputView,
    address: Seq<u8>,
    identifier: Seq<u8>,
    nonce: u64,
)
    requires
        transfers_applied(w, input) is Ok,
    ensures
        ({
            let w1 = transfers_applied(w, input)->Ok_0;
            let total = total_transferred(input.dct_values, identifier, nonce) as int;
            let sent = address == input.from;
            let got = address == input.to;
            &&& native_balance(w1, address) == native_balance(w, address) - (if sent {
                input.moax_value as int
            } else {
                0
            }) + (if got {
                input.moax_value as int
            } else {
                0
            })
            &&& dct_balance(w1, address, identifier, nonce) == dct_balance(
                w,
                address,
                identifier,
                nonce,
            ) - (if sent {
                total
            } else {
                0
            }) + (if got {
                total
            } else {
                0
            })
        }),
{
    let mid = native_transferred(w, input)->Ok_0;
    lemma_native_transfer_balances(w, input, address);
    let w0 = native_debited(w, input.from, input.moax_value);
    assert(dct_balance(w0, address, identifier, nonce) == dct_balance(
        w,
        address,
        identifier,
        nonce,
    ));
    assert(dct_balance(mid, address, identifier, nonce) == dct_balance(
        w,
        address,
        identifier,
        nonce,
    ));
    lemma_all_dct_transfer_balances(
        mid,
        input.from,
        input.to,
        input.dct_values,
        address,
        identifier,
        nonce,
    );
}

/// Crediting an instance that holds something changes its balance and
/// nothing else: the creator, the royalties, the hash, the URIs and the
/// attributes stay what they were, whatever metadata come with the credit.
pub proof fn lemma_credit_keeps_metadata(
    tokens: Map<Seq<u8>, TokenView>,
    identifier: Seq<u8>,
    nonce: u64,
    amount: nat,
    metadata: MetadataView,
)
    requires
        balance_of(tokens, identifier, nonce) > 0,
    ensures
        ({
            let after = credited(tokens, identifier, nonce, amount, metadata);
            &&& after.dom() == tokens.dom()
            &&& after[identifier].instances.dom() == tokens[identifier].instances.dom()
            &&& after[identifier].instances[nonce].metadata
                == tokens[identifier].instances[nonce].metadata
            &&& after[identifier].instances[nonce].balance
                == tokens[identifier].instances[nonce].balance + amount
        }),
{
    let after = credited(tokens, identifier, nonce, amount, metadata);
    assert(after.dom() =~= tokens.dom());
    assert(after[identifier].instances.dom() =~= tokens[identifier].instances.dom());
}

/// A credit changes no other instance and no other token: not their
/// balances, not their metadata.
pub proof fn lemma_credit_keeps_others(
    tokens: Map<Seq<u8>, TokenView>,
    identifier: Seq<u8>,
    nonce: u64,
    amount: nat,
    metadata: MetadataView,
    other_identifier: Seq<u8>,
    other_nonce: u64,
)
    requires
        other_identifier != identifier || other_nonce != nonce,
        tokens.dom().contains(other_identifier),
        tokens[other_identifier].instances.dom().contains(other_nonce),
    ensures
        ({
            let after = credited(tokens, identifier, nonce, amount, metadata);
            &&& after.dom().contains(other_identifier)
            &&& after[other_identifier].instances.dom().contains(other_nonce)
            &&& after[other_identifier].instances[other_nonce]
                == tokens[other_identifier].instances[other_nonce]
        }),
{
}

/// In the ledger, crediting an instance that holds something changes its
/// balance and nothing else of it.
pub proof fn lemma_ledger_credit_keeps_metadata(
    w: WorldView,
    address: Seq<u8>,
    identifier: Seq<u8>,
    nonce: u64,
    amount: nat,
    metadata: MetadataView,
)
    requires
        dct_balance(w, address, identifier, nonce) > 0,
    ensures
        ({
            let after = dct_credited(w, address, identifier, nonce, amount, metadata);
            let before_dct = account_of(w.accounts, address).dct;
            let after_dct = account_of(after.accounts, address).dct;
            &&& after_dct[identifier].instances[nonce].metadata
                == before_dct[identifier].instances[nonce].metadata
            &&& dct_balance(after, address, identifier, nonce) == dct_balance(
                w,
                address,
                identifier,
                nonce,
            ) + amount
        }),
{
    lemma_credit_keeps_metadata(
        account_of(w.accounts, address).dct,
        identifier,
        nonce,
        amount,
        metadata,
    );
}

/// A call that carries both a native amount and token transfers is
/// refused before anything moves and before any code runs: it fails with
/// `PaymentConflict`, and all that it leaves is the nonce.
pub proof fn lemma_payment_conflict_rejected(
    pre: WorldView,
    input: TxInputView,
    result: TxResultView,
    post: WorldView,
)
    requires
        transaction_ran(pre, input, result, post),
        well_formed(input),
        payment_conflict(input),
    ensures
        result.status == TxStatus::PaymentConflict,
        post == nonce_increased(pre, input.from),
{
}

/// The token transfers of a call can be read back in the order in which the
/// call carries them: once they are laid out in a frame, the three values
/// allocated for transfer `i` are its identifier, its amount, and the
/// record that names the two and holds its instance number.
pub proof fn lemma_transfers_read_back(frame: FrameView, transfers: Seq<TransferView>, i: int)
    requires
        frame_well_formed(frame),
        frame.fresh + 3 * transfers.len() <= FRAME_CAPACITY,
        0 <= i < transfers.len(),
    ensures
        ({
            let after = transfers_materialized(frame, transfers);
            let identifier = next_handle_after(frame.fresh, 3 * i) as i32;
            let amount = next_handle_after(frame.fresh, 3 * i + 1) as i32;
            let record = record_handles(frame.fresh, transfers.len())[i];
            &&& frame_well_formed(after)
            &&& record == next_handle_after(frame.fresh, 3 * i + 2)
            &&& holds_buffer(after, identifier)
            &&& buffer_at(after, identifier) == transfers[i].identifier
            &&& holds_big_int(after, amount)
            &&& big_int_at(after, amount) == transfers[i].amount
            &&& holds_buffer(after, record)
            &&& buffer_at(after, record) == payment_payload(identifier, transfers[i].nonce, amount)
        }),
    decreases transfers.len(),
{
    let front = transfers.drop_last();
    lemma_transfers_materialized_fresh(frame, front);
    lemma_transfers_materialized_well_formed(frame, front);
    lemma_transfers_materialized_well_formed(frame, transfers);
    if i < transfers.len() - 1 {
        lemma_transfers_read_back(frame, front, i);
    }
}

/// Laying transfers out leaves a frame whose handles are the reserved
/// slots and the handles of the values allocated in it.
pub proof fn lemma_transfers_materialized_well_formed(
    frame: FrameView,
    transfers: Seq<TransferView>,
)
    requires
        frame_well_formed(frame),
        frame.fresh + 3 * transfers.len() <= FRAME_CAPACITY,
    ensures
        frame_well_formed(transfers_materialized(frame, transfers)),
    decreases transfers.len(),
{
    if transfers.len() > 0 {
        lemma_transfers_materialized_well_formed(frame, transfers.drop_last());
        lemma_transfers_materialized_fresh(frame, transfers.drop_last());
    }
}

/// The record of a payment holds what the payment holds: reading the
/// sixteen bytes gives back the handle of the identifier, the instance
/// number and the handle of the amount.
pub proof fn lemma_payment_payload_round_trip(identifier: i32, nonce: u64, amount: i32)
    ensures
        payment_payload(identifier, nonce, amount).len() == 16,
        handle_of_bytes(payment_payload(identifier, nonce, amount).subrange(0, 4)) == identifier,
        u64_of_be_bytes(payment_payload(identifier, nonce, amount).subrange(4, 12)) == nonce,
        handle_of_bytes(payment_payload(identifier, nonce, amount).subrange(12, 16)) == amount,
{
    let p = payment_payload(identifier, nonce, amount);
    lemma_u32_round_trip(handle_to_u32(identifier));
    lemma_u32_round_trip(handle_to_u32(amount));
    lemma_u64_round_trip(nonce);
    lemma_handle_round_trip(identifier, 0);
    lemma_handle_round_trip(amount, 0);
    assert(p.subrange(0, 4) =~= handle_bytes(identifier));
    assert(p.subrange(4, 12) =~= be_bytes_u64(nonce));
    assert(p.subrange(12, 16) =~= handle_bytes(amount));
}

/// A frame that was just opened holds the reserved slots in their initial
/// state and nothing else, whatever the frames below hold. So a call sees
/// no value of the call that called it, nor of any call that ran before,
/// and two calls that do the same get the same handles.
pub proof fn lemma_new_frame_is_isolated(below: Seq<FrameView>, other: Seq<FrameView>, handle: i32)
    ensures
        below.push(new_frame()).last() == other.push(new_frame()).last(),
        below.push(new_frame()).last().fresh == 0,
        below.push(new_frame()).last().entries.dom().contains(handle) <==> is_reserved(handle),
        is_reserved(handle) ==> below.push(new_frame()).last().entries[handle] == initial_slot(
            handle,
        ),
        below.push(new_frame()).drop_last() == below,
{
    assert(below.push(new_frame()).drop_last() =~= below);
}

} // verus!
