//! The code of three contracts, as the executor calls it.
//!
//! A call names a function. The code finds the function, holds the payment
//! of the call against what the function takes, reads the arguments of the
//! function from the call, runs it, and returns what it returned as byte
//! buffers: a number as its shortest big-endian bytes, a token as its name,
//! a truth value as one byte or none, a token transfer as its identifier,
//! the eight bytes of its instance number, and its amount.

use crate::arena::{
    big_int_at, buffer_at, frame_well_formed, frame_written, handle_vec_at, holds_big_int,
    holds_buffer, holds_handle_vec, Arena, FrameView, ValueView, CALL_VALUE_MOAX,
    CALL_VALUE_MULTI_DCT, FRAME_CAPACITY,
};
use crate::assoc::bytes_eq;
use crate::big_nat::be_value;
use crate::call_value::{
    bad_token_provided, next_handle_after, non_payable_func_dct, non_payable_func_moax,
    payment_amount, record_handles, single_dct_expected, token_name, transfers_materialized,
    CallValueView,
};
use crate::dct_token_payment::{payment_payload, DctTokenPayment};
use crate::debug_api::DebugApi;
use crate::executor::{entry_kept, entry_ready, ContractMap};
use crate::laws::{lemma_payment_payload_round_trip, lemma_transfers_read_back};
use crate::managed::{
    moax_name, valid_dct_identifier, BigUint, ManagedBuffer, ManagedVec, TokenIdentifier,
};
use crate::managed_vec_item::{be_bytes_u64, ManagedVecItem};
use crate::payable_features::{is_single_transfer_of, payable_features_token, PayableFeatures};
use crate::second_contract::{
    contract_token, rejected_message, token_name_key, wrong_token_message, SecondContract,
};
use crate::token_identifier_features::TokenIdentifierFeatures;
use crate::tx::{TransferView, TxError, TxErrorView, TxStatus};
use crate::world::storage_written;
use vstd::prelude::*;
use vstd::string::StringSliceAdditionalSpecFns;

verus! {

/// The name of the code of the contract of the payable functions.
pub open spec fn payable_features_code() -> Seq<u8> {
    "payable-features".spec_bytes()
}

/// The name of the code of the contract that takes one token.
pub open spec fn second_contract_code() -> Seq<u8> {
    "second-contract".spec_bytes()
}

/// The name of the code of the functions on token identifiers.
pub open spec fn basic_features_code() -> Seq<u8> {
    "basic-features".spec_bytes()
}

/// The message for a call with another number of arguments than the function
/// takes.
pub open spec fn wrong_number_of_arguments() -> Seq<u8> {
    "wrong number of arguments".spec_bytes()
}

/// The message for a call with more token transfers than a frame can hold.
pub open spec fn too_many_transfers() -> Seq<u8> {
    "too many token transfers".spec_bytes()
}

/// Tells whether `bytes` are the shortest big-endian bytes of `x`.
pub open spec fn is_be_bytes(bytes: Seq<u8>, x: nat) -> bool {
    be_value(bytes) == x && (bytes.len() > 0 ==> bytes[0] != 0)
}

/// Tells whether `values` return an amount and a token.
pub open spec fn encodes_pair(values: Seq<Seq<u8>>, amount: nat, token: Seq<u8>) -> bool {
    &&& values.len() == 2
    &&& is_be_bytes(values[0], amount)
    &&& values[1] == token
}

/// Tells whether `values`, from position `start` on, return the token
/// transfers `transfers` in their order, three buffers for each.
pub open spec fn encodes_transfers(
    values: Seq<Seq<u8>>,
    start: int,
    transfers: Seq<TransferView>,
) -> bool {
    &&& values.len() == start + 3 * transfers.len()
    &&& forall|i: int|
        0 <= i < transfers.len() ==> {
            &&& values[start + 3 * i] == (#[trigger] transfers[i]).identifier
            &&& values[start + 3 * i + 1] == be_bytes_u64(transfers[i].nonce)
            &&& is_be_bytes(values[start + 3 * i + 2], transfers[i].amount)
        }
}

/// What a function takes as payment.
pub enum PaymentPolicy {
    /// Any payment.
    Any,
    /// The native currency only.
    Moax,
    /// The token of the contract only.
    Token,
}

/// What the function `name` of the payable functions takes, where it is one
/// of those that return the amount and the token of the payment.
pub open spec fn pair_policy(name: Seq<u8>) -> Option<PaymentPolicy> {
    if name == "payable_any_1".spec_bytes() || name == "payable_any_2".spec_bytes() || name
        == "payable_any_3".spec_bytes() || name == "payable_any_4".spec_bytes() {
        Some(PaymentPolicy::Any)
    } else if name == "payable_moax_1".spec_bytes() || name == "payable_moax_2".spec_bytes()
        || name == "payable_moax_3".spec_bytes() || name == "payable_moax_4".spec_bytes() {
        Some(PaymentPolicy::Moax)
    } else if name == "payable_token_1".spec_bytes() || name == "payable_token_2".spec_bytes()
        || name == "payable_token_3".spec_bytes() || name == "payable_token_4".spec_bytes() {
        Some(PaymentPolicy::Token)
    } else {
        None
    }
}

/// What a function that returns the amount and the token of the payment
/// returns for the payment `cv`, where it takes `policy`.
pub open spec fn pair_outcome(
    policy: PaymentPolicy,
    cv: CallValueView,
    r: Result<Vec<Vec<u8>>, TxError>,
) -> bool {
    match policy {
        PaymentPolicy::Any => r matches Ok(values) && encodes_pair(
            values.deep_view(),
            payment_amount(cv),
            token_name(cv),
        ),
        PaymentPolicy::Moax => match r {
            Ok(values) => cv.dct_values.len() == 0 && encodes_pair(
                values.deep_view(),
                cv.moax_value,
                moax_name(),
            ),
            Err(e) => cv.dct_values.len() > 0 && e@ == (TxErrorView {
                status: TxStatus::NonPayableOrWrongToken,
                message: non_payable_func_dct(),
            }),
        },
        PaymentPolicy::Token => match r {
            Ok(values) => is_single_transfer_of(cv, payable_features_token()) && encodes_pair(
                values.deep_view(),
                cv.dct_values[0].amount,
                payable_features_token(),
            ),
            Err(e) => !is_single_transfer_of(cv, payable_features_token()) && e@
                == (TxErrorView {
                status: TxStatus::NonPayableOrWrongToken,
                message: if cv.dct_values.len() != 1 {
                    single_dct_expected()
                } else {
                    bad_token_provided()
                },
            }),
        },
    }
}

/// What the code of the payable functions returns for the function `name`
/// and the payment `cv`.
pub open spec fn payable_outcome(
    name: Seq<u8>,
    cv: CallValueView,
    r: Option<Result<Vec<Vec<u8>>, TxError>>,
) -> bool {
    match pair_policy(name) {
        Some(policy) => r matches Some(inner) && pair_outcome(policy, cv, inner),
        None => if name == "init".spec_bytes() {
            r matches Some(Ok(values)) && values.deep_view() == Seq::<Seq<u8>>::empty()
        } else if name == "echo_call_value".spec_bytes() {
            r matches Some(inner) && match inner {
                Ok(values) => 3 * cv.dct_values.len() <= FRAME_CAPACITY && is_be_bytes(
                    values.deep_view()[0],
                    cv.moax_value,
                ) && encodes_transfers(values.deep_view(), 1, cv.dct_values),
                Err(e) => 3 * cv.dct_values.len() > FRAME_CAPACITY && e@ == (TxErrorView {
                    status: TxStatus::UserError,
                    message: too_many_transfers(),
                }),
            }
        } else if name == "payment_multiple".spec_bytes() {
            r matches Some(inner) && match inner {
                Ok(values) => 3 * cv.dct_values.len() <= FRAME_CAPACITY && encodes_transfers(
                    values.deep_view(),
                    0,
                    cv.dct_values,
                ),
                Err(e) => 3 * cv.dct_values.len() > FRAME_CAPACITY && e@ == (TxErrorView {
                    status: TxStatus::UserError,
                    message: too_many_transfers(),
                }),
            }
        } else {
            r is None
        },
    }
}

/// Tells whether transfer `i` of `transfers` is laid out in `frame` after
/// `base` other values: its identifier, its amount, and the record that
/// names the two and holds its instance number.
pub open spec fn payment_laid_out(
    frame: FrameView,
    base: nat,
    transfers: Seq<TransferView>,
    i: int,
) -> bool {
    let identifier = next_handle_after(base, 3 * i) as i32;
    let amount = next_handle_after(base, 3 * i + 1) as i32;
    let record = next_handle_after(base, 3 * i + 2) as i32;
    &&& holds_buffer(frame, record)
    &&& buffer_at(frame, record) == payment_payload(identifier, transfers[i].nonce, amount)
    &&& holds_buffer(frame, identifier)
    &&& buffer_at(frame, identifier) == transfers[i].identifier
    &&& holds_big_int(frame, amount)
    &&& big_int_at(frame, amount) == transfers[i].amount
}

/// Tells whether the list at `list` names the records of the token
/// transfers `transfers`, laid out in `frame` after `base` other values.
pub open spec fn payments_laid_out(
    frame: FrameView,
    list: i32,
    base: nat,
    transfers: Seq<TransferView>,
) -> bool {
    &&& holds_handle_vec(frame, list)
    &&& handle_vec_at(frame, list) == record_handles(base, transfers.len())
    &&& forall|i: int|
        0 <= i < transfers.len() ==> #[trigger] payment_laid_out(frame, base, transfers, i)
}

/// Transfer `i` of the token transfers of a call can be read back once the
/// transfers are laid out and the list of their records is in its reserved
/// slot.
pub proof fn lemma_payment_laid_out_at(frame: FrameView, transfers: Seq<TransferView>, i: int)
    requires
        frame_well_formed(frame),
        frame.fresh + 3 * transfers.len() <= FRAME_CAPACITY,
        0 <= i < transfers.len(),
    ensures
        payment_laid_out(
            frame_written(
                transfers_materialized(frame, transfers),
                CALL_VALUE_MULTI_DCT,
                ValueView::HandleVec(record_handles(frame.fresh, transfers.len())),
            ),
            frame.fresh,
            transfers,
            i,
        ),
{
    lemma_transfers_read_back(frame, transfers, i);
    let after = transfers_materialized(frame, transfers);
    let identifier = next_handle_after(frame.fresh, 3 * i);
    assert(crate::arena::NEW_HANDLE_START_FROM <= identifier);
    assert(identifier + 2 <= i32::MAX);
    assert(record_handles(frame.fresh, transfers.len())[i] == (identifier + 2) as i32);
    assert(after.entries.dom().contains(identifier as i32));
    assert(after.entries.dom().contains((identifier + 1) as i32));
    assert(after.entries.dom().contains((identifier + 2) as i32));
}

/// Once the token transfers of a call are laid out and the list of their
/// records is in its reserved slot, the list names the records of the
/// transfers, in their order.
pub proof fn lemma_payments_laid_out(frame: FrameView, transfers: Seq<TransferView>)
    requires
        frame_well_formed(frame),
        frame.fresh + 3 * transfers.len() <= FRAME_CAPACITY,
    ensures
        payments_laid_out(
            frame_written(
                transfers_materialized(frame, transfers),
                CALL_VALUE_MULTI_DCT,
                ValueView::HandleVec(record_handles(frame.fresh, transfers.len())),
            ),
            CALL_VALUE_MULTI_DCT,
            frame.fresh,
            transfers,
        ),
{
    let last = frame_written(
        transfers_materialized(frame, transfers),
        CALL_VALUE_MULTI_DCT,
        ValueView::HandleVec(record_handles(frame.fresh, transfers.len())),
    );
    crate::laws::lemma_transfers_materialized_well_formed(frame, transfers);
    assert(holds_handle_vec(last, CALL_VALUE_MULTI_DCT));
    assert(handle_vec_at(last, CALL_VALUE_MULTI_DCT) == record_handles(
        frame.fresh,
        transfers.len(),
    ));
    assert forall|i: int| 0 <= i < transfers.len() implies #[trigger] payment_laid_out(
        last,
        frame.fresh,
        transfers,
        i,
    ) by {
        lemma_payment_laid_out_at(frame, transfers, i);
    }
}

/// The two buffers that return the amount and the token that `pair` names.
fn encode_pair(arena: &Arena, pair: (BigUint, TokenIdentifier)) -> (r: Vec<Vec<u8>>)
    requires
        arena@.len() > 0,
        holds_big_int(arena.top(), pair.0.handle),
        holds_buffer(arena.top(), pair.1.handle),
    ensures
        encodes_pair(
            r.deep_view(),
            big_int_at(arena.top(), pair.0.handle),
            buffer_at(arena.top(), pair.1.handle),
        ),
{
    let amount = pair.0.to_big_nat(arena).to_bytes_be();
    let token = pair.1.as_name(arena);
    let mut values: Vec<Vec<u8>> = Vec::new();
    values.push(amount);
    values.push(token);
    proof {
        assert(values.deep_view()[0] == amount@);
        assert(values.deep_view()[1] == token@);
    }
    values
}

/// Adds to `values` the buffers that return the token transfers whose
/// records the list `list` names.
fn encode_payments(
    arena: &Arena,
    list: ManagedVec,
    values: &mut Vec<Vec<u8>>,
    Ghost(base): Ghost<nat>,
    Ghost(transfers): Ghost<Seq<TransferView>>,
)
    requires
        arena@.len() > 0,
        payments_laid_out(arena.top(), list.handle, base, transfers),
        base + 3 * transfers.len() <= FRAME_CAPACITY,
    ensures
        final(values).deep_view().len() == old(values).deep_view().len() + 3 * transfers.len(),
        forall|j: int|
            0 <= j < old(values).deep_view().len() ==> final(values).deep_view()[j] == old(
                values,
            ).deep_view()[j],
        encodes_transfers(final(values).deep_view(), old(values).deep_view().len() as int, transfers),
{
    let n = list.len(arena);
    let ghost start = values.deep_view().len() as int;
    let ghost before = values.deep_view();
    let mut i: usize = 0;
    while i < n
        invariant
            arena@.len() > 0,
            payments_laid_out(arena.top(), list.handle, base, transfers),
            base + 3 * transfers.len() <= FRAME_CAPACITY,
            n == transfers.len(),
            i <= n,
            start == before.len(),
            values.deep_view().len() == start + 3 * i,
            forall|j: int| 0 <= j < start ==> values.deep_view()[j] == before[j],
            forall|k: int|
                0 <= k < i ==> {
                    &&& values.deep_view()[start + 3 * k] == (#[trigger] transfers[k]).identifier
                    &&& values.deep_view()[start + 3 * k + 1] == be_bytes_u64(transfers[k].nonce)
                    &&& is_be_bytes(values.deep_view()[start + 3 * k + 2], transfers[k].amount)
                },
        decreases n - i,
    {
        let ghost earlier = values.deep_view();
        let record = list.get(arena, i);
        proof {
            assert(payment_laid_out(arena.top(), base, transfers, i as int));
            lemma_payment_payload_round_trip(
                next_handle_after(base, 3 * i) as i32,
                transfers[i as int].nonce,
                next_handle_after(base, 3 * i + 1) as i32,
            );
        }
        let payment = DctTokenPayment::from_byte_reader(arena.read_buffer(record).as_slice());
        let identifier = payment.token_identifier.as_name(arena);
        let nonce = payment.token_nonce.to_byte_writer();
        let amount = payment.amount.to_big_nat(arena).to_bytes_be();
        values.push(identifier);
        values.push(nonce);
        values.push(amount);
        proof {
            let now = values.deep_view();
            assert(now.len() == start + 3 * (i + 1));
            assert forall|j: int| 0 <= j < start + 3 * i implies now[j] == earlier[j] by {}
            assert(now[start + 3 * i] == identifier@);
            assert(now[start + 3 * i + 1] == nonce@);
            assert(now[start + 3 * i + 2] == amount@);
            assert forall|k: int| 0 <= k < i + 1 implies {
                &&& now[start + 3 * k] == (#[trigger] transfers[k]).identifier
                &&& now[start + 3 * k + 1] == be_bytes_u64(transfers[k].nonce)
                &&& is_be_bytes(now[start + 3 * k + 2], transfers[k].amount)
            } by {
                if k < i {
                    assert(now[start + 3 * k] == earlier[start + 3 * k]);
                    assert(now[start + 3 * k + 1] == earlier[start + 3 * k + 1]);
                    assert(now[start + 3 * k + 2] == earlier[start + 3 * k + 2]);
                }
            }
        }
        i = i + 1;
    }
}

/// The error of a call with more token transfers than a frame can hold.
fn too_many_transfers_error() -> (e: TxError)
    ensures
        e@ == (TxErrorView { status: TxStatus::UserError, message: too_many_transfers() }),
{
    TxError::user_error("too many token transfers".as_bytes_vec())
}

/// The code of the three contracts.
pub struct FeatureContracts;

impl FeatureContracts {
    /// Runs the function `func_name` of the payable functions.
    pub fn call_payable_features(&self, func_name: &Vec<u8>, api: &mut DebugApi) -> (r: Option<
        Result<Vec<Vec<u8>>, TxError>,
    >)
        requires
            entry_ready(*old(api)),
        ensures
            entry_kept(*old(api), *final(api)),
            final(api).world@ == old(api).world@,
            payable_outcome(func_name@, old(api).call_value@, r),
    {
        let contract = crate::payable_features::ContractObj;
        let name = func_name.as_slice();
        proof {
            old(api).arena.lemma_well_formed();
        }
        if bytes_eq(name, "payable_any_1".as_bytes()) {
            let pair = contract.payable_any_1(api);
            Some(Ok(encode_pair(&api.arena, pair)))
        } else if bytes_eq(name, "payable_any_2".as_bytes()) {
            let pair = contract.payable_any_2(api);
            Some(Ok(encode_pair(&api.arena, pair)))
        } else if bytes_eq(name, "payable_any_3".as_bytes()) {
            let pair = contract.payable_any_3(api);
            Some(Ok(encode_pair(&api.arena, pair)))
        } else if bytes_eq(name, "payable_any_4".as_bytes()) {
            let pair = contract.payable_any_4(api);
            Some(Ok(encode_pair(&api.arena, pair)))
        } else if bytes_eq(name, "payable_moax_1".as_bytes()) {
            match contract.payable_moax_1(api) {
                Ok(pair) => Some(Ok(encode_pair(&api.arena, pair))),
                Err(e) => Some(Err(e)),
            }
        } else if bytes_eq(name, "payable_moax_2".as_bytes()) {
            match contract.payable_moax_2(api) {
                Ok(pair) => Some(Ok(encode_pair(&api.arena, pair))),
                Err(e) => Some(Err(e)),
            }
        } else if bytes_eq(name, "payable_moax_3".as_bytes()) {
            match contract.payable_moax_3(api) {
                Ok(pair) => Some(Ok(encode_pair(&api.arena, pair))),
                Err(e) => Some(Err(e)),
            }
        } else if bytes_eq(name, "payable_moax_4".as_bytes()) {
            match contract.payable_moax_4(api) {
                Ok(pair) => Some(Ok(encode_pair(&api.arena, pair))),
                Err(e) => Some(Err(e)),
            }
        } else if bytes_eq(name, "payable_token_1".as_bytes()) {
            match contract.payable_token_1(api) {
                Ok(pair) => Some(Ok(encode_pair(&api.arena, pair))),
                Err(e) => Some(Err(e)),
            }
        } else if bytes_eq(name, "payable_token_2".as_bytes()) {
            match contract.payable_token_2(api) {
                Ok(pair) => Some(Ok(encode_pair(&api.arena, pair))),
                Err(e) => Some(Err(e)),
            }
        } else if bytes_eq(name, "payable_token_3".as_bytes()) {
            match contract.payable_token_3(api) {
                Ok(pair) => Some(Ok(encode_pair(&api.arena, pair))),
                Err(e) => Some(Err(e)),
            }
        } else if bytes_eq(name, "payable_token_4".as_bytes()) {
            match contract.payable_token_4(api) {
                Ok(pair) => Some(Ok(encode_pair(&api.arena, pair))),
                Err(e) => Some(Err(e)),
            }
        } else if bytes_eq(name, "init".as_bytes()) {
            contract.init(api);
            let values: Vec<Vec<u8>> = Vec::new();
            assert(values.deep_view() =~= Seq::<Seq<u8>>::empty());
            Some(Ok(values))
        } else if bytes_eq(name, "echo_call_value".as_bytes()) {
            let n = api.call_value.dct_num_transfers();
            if n > FRAME_CAPACITY / 3 {
                return Some(Err(too_many_transfers_error()));
            }
            let ghost transfers = api.call_value@.dct_values;
            let ghost first = frame_written(
                old(api).arena.top(),
                CALL_VALUE_MOAX,
                ValueView::BigInt(old(api).call_value@.moax_value),
            );
            let (moax, list) = contract.echo_call_value(api);
            proof {
                assert(first.entries.dom() =~= old(api).arena.top().entries.dom());
                lemma_payments_laid_out(first, transfers);
            }
            let mut values: Vec<Vec<u8>> = Vec::new();
            let amount = moax.to_big_nat(&api.arena).to_bytes_be();
            values.push(amount);
            proof {
                assert(values.deep_view()[0] == amount@);
            }
            encode_payments(&api.arena, list, &mut values, Ghost(0nat), Ghost(transfers));
            Some(Ok(values))
        } else if bytes_eq(name, "payment_multiple".as_bytes()) {
            let n = api.call_value.dct_num_transfers();
            if n > FRAME_CAPACITY / 3 {
                return Some(Err(too_many_transfers_error()));
            }
            let ghost transfers = api.call_value@.dct_values;
            let list = contract.payment_multiple(api);
            proof {
                lemma_payments_laid_out(old(api).arena.top(), transfers);
            }
            let mut values: Vec<Vec<u8>> = Vec::new();
            encode_payments(&api.arena, list, &mut values, Ghost(0nat), Ghost(transfers));
            Some(Ok(values))
        } else {
            None
        }
    }

    /// Runs the function `func_name` of the contract that takes one token.
    /// `init` takes one argument, the identifier of the token, and with the
    /// function that returns the token it takes no payment.
    pub fn call_second_contract(&self, func_name: &Vec<u8>, api: &mut DebugApi) -> (r: Option<
        Result<Vec<Vec<u8>>, TxError>,
    >)
        requires
            entry_ready(*old(api)),
        ensures
            entry_kept(*old(api), *final(api)),
            second_outcome(func_name@, *old(api), r, final(api).world@),
    {
        let contract = crate::second_contract::ContractObj;
        let name = func_name.as_slice();
        proof {
            old(api).arena.lemma_well_formed();
        }
        if bytes_eq(name, "init".as_bytes()) {
            match api.call_value.check_not_payable() {
                Ok(()) => {},
                Err(e) => {
                    return Some(Err(e));
                },
            }
            if api.input.args.len() != 1 {
                return Some(Err(TxError::user_error("wrong number of arguments".as_bytes_vec())));
            }
            proof {
                assert(api.input@.args[0] == api.input.args@[0]@);
                assert(api.input@ == old(api).input@);
            }
            let identifier = TokenIdentifier::from_dct_bytes(
                &mut api.arena,
                api.input.args[0].as_slice(),
            );
            contract.init(api, identifier);
            proof {
                assert(final(api).arena@.drop_last() =~= old(api).arena@.drop_last());
                lemma_storage_keeps_fixtures(
                    old(api).world@,
                    old(api).input@.to,
                    token_name_key(),
                    decoded_identifier(old(api).input@.args[0]),
                );
            }
            let values: Vec<Vec<u8>> = Vec::new();
            assert(values.deep_view() =~= Seq::<Seq<u8>>::empty());
            Some(Ok(values))
        } else if bytes_eq(name, "acceptDctPayment".as_bytes()) {
            match contract.accept_dct_payment(api) {
                Ok(()) => {
                    let values: Vec<Vec<u8>> = Vec::new();
                    assert(values.deep_view() =~= Seq::<Seq<u8>>::empty());
                    Some(Ok(values))
                },
                Err(e) => Some(Err(e)),
            }
        } else if bytes_eq(name, "rejectDctPayment".as_bytes()) {
            match contract.reject_dct_payment(api) {
                Ok(()) => {
                    let values: Vec<Vec<u8>> = Vec::new();
                    Some(Ok(values))
                },
                Err(e) => Some(Err(e)),
            }
        } else if bytes_eq(name, "getdctTokenName".as_bytes()) {
            match api.call_value.check_not_payable() {
                Ok(()) => {},
                Err(e) => {
                    return Some(Err(e));
                },
            }
            let token = contract.get_contract_dct_token_identifier(api);
            let mut values: Vec<Vec<u8>> = Vec::new();
            let bytes = token.as_name(&api.arena);
            values.push(bytes);
            proof {
                assert(final(api).arena@.drop_last() =~= old(api).arena@.drop_last());
                assert(values.deep_view().len() == 1);
                assert(values.deep_view()[0] == bytes@);
                assert(values.deep_view() =~= seq![bytes@]);
            }
            Some(Ok(values))
        } else {
            None
        }
    }

    /// Runs the function `func_name` of the functions on token
    /// identifiers. None of them takes a payment; those that examine an
    /// identifier take it as their one argument.
    pub fn call_token_identifier_features(&self, func_name: &Vec<u8>, api: &mut DebugApi) -> (r:
        Option<Result<Vec<Vec<u8>>, TxError>>)
        requires
            entry_ready(*old(api)),
        ensures
            entry_kept(*old(api), *final(api)),
            final(api).world@ == old(api).world@,
            identifier_outcome(func_name@, *old(api), r),
    {
        let contract = crate::token_identifier_features::ContractObj;
        let name = func_name.as_slice();
        proof {
            old(api).arena.lemma_well_formed();
        }
        let first = bytes_eq(name, "token_identifier_is_valid_1".as_bytes());
        let second = bytes_eq(name, "token_identifier_is_valid_2".as_bytes());
        if bytes_eq(name, "token_identifier_moax".as_bytes()) {
            match api.call_value.check_not_payable() {
                Ok(()) => {},
                Err(e) => {
                    return Some(Err(e));
                },
            }
            let token = contract.token_identifier_moax(api);
            let mut values: Vec<Vec<u8>> = Vec::new();
            let bytes = token.as_name(&api.arena);
            values.push(bytes);
            proof {
                assert(final(api).arena@.drop_last() =~= old(api).arena@.drop_last());
                assert(values.deep_view().len() == 1);
                assert(values.deep_view()[0] == bytes@);
                assert(values.deep_view() =~= seq![bytes@]);
            }
            Some(Ok(values))
        } else if first || second {
            match api.call_value.check_not_payable() {
                Ok(()) => {},
                Err(e) => {
                    return Some(Err(e));
                },
            }
            if api.input.args.len() != 1 {
                return Some(Err(TxError::user_error("wrong number of arguments".as_bytes_vec())));
            }
            proof {
                assert(api.input@.args[0] == api.input.args@[0]@);
                assert(api.input@ == old(api).input@);
            }
            let valid = if first {
                let token = TokenIdentifier::from_dct_bytes(
                    &mut api.arena,
                    api.input.args[0].as_slice(),
                );
                contract.token_identifier_is_valid_1(api, token)
            } else {
                let buffer = ManagedBuffer::new_from_bytes(
                    &mut api.arena,
                    api.input.args[0].as_slice(),
                );
                contract.token_identifier_is_valid_2(api, buffer)
            };
            let mut values: Vec<Vec<u8>> = Vec::new();
            let bytes: Vec<u8> = if valid {
                vec![1u8]
            } else {
                Vec::new()
            };
            values.push(bytes);
            proof {
                assert(final(api).arena@.drop_last() =~= old(api).arena@.drop_last());
                assert(values.deep_view().len() == 1);
                assert(values.deep_view()[0] == bytes@);
                assert(values.deep_view() =~= seq![bytes@]);
                assert(bytes@ =~= truth_bytes(valid));
            }
            Some(Ok(values))
        } else {
            None
        }
    }
}

/// The token that an argument names: the native currency for the empty
/// argument, the bytes of the argument for any other.
pub open spec fn decoded_identifier(arg: Seq<u8>) -> Seq<u8> {
    if arg.len() == 0 {
        moax_name()
    } else {
        arg
    }
}

/// The bytes that return a truth value: one byte for true, none for false.
pub open spec fn truth_bytes(b: bool) -> Seq<u8> {
    if b {
        seq![1u8]
    } else {
        Seq::empty()
    }
}

/// The error of a function that takes no payment, for the payment `cv`,
/// which is not empty.
pub open spec fn not_payable_error(cv: CallValueView) -> TxErrorView {
    TxErrorView {
        status: TxStatus::NonPayableOrWrongToken,
        message: if cv.moax_value > 0 {
            non_payable_func_moax()
        } else {
            non_payable_func_dct()
        },
    }
}

/// Tells whether the payment is empty.
pub open spec fn no_payment(cv: CallValueView) -> bool {
    cv.moax_value == 0 && cv.dct_values.len() == 0
}

/// What a function that takes no payment and one argument returns before it
/// runs, where it does not run: the error of the payment, or the error of
/// the number of arguments.
pub open spec fn refused(api: DebugApi, r: Result<Vec<Vec<u8>>, TxError>) -> bool {
    if !no_payment(api.call_value@) {
        r matches Err(e) && e@.status == TxStatus::NonPayableOrWrongToken && e@.message
            == not_payable_error(api.call_value@).message
    } else {
        &&& api.input@.args.len() != 1
        &&& r matches Err(e)
        &&& e@ == (TxErrorView {
            status: TxStatus::UserError,
            message: wrong_number_of_arguments(),
        })
    }
}

/// What the code of the contract that takes one token returns for the
/// function `name`, and the ledger that it leaves.
pub open spec fn second_outcome(
    name: Seq<u8>,
    api: DebugApi,
    r: Option<Result<Vec<Vec<u8>>, TxError>>,
    after: crate::world::WorldView,
) -> bool {
    let cv = api.call_value@;
    let own = contract_token(api.world@, api.input@.to);
    if name == "init".spec_bytes() {
        r matches Some(inner) && if no_payment(cv) && api.input@.args.len() == 1 {
            inner matches Ok(values) && values.deep_view() == Seq::<Seq<u8>>::empty() && after
                == storage_written(
                api.world@,
                api.input@.to,
                token_name_key(),
                decoded_identifier(api.input@.args[0]),
            )
        } else {
            refused(api, inner) && after == api.world@
        }
    } else if name == "acceptDctPayment".spec_bytes() {
        &&& after == api.world@
        &&& r matches Some(inner)
        &&& match inner {
            Ok(values) => token_name(cv) == own && values.deep_view() == Seq::<Seq<u8>>::empty(),
            Err(e) => token_name(cv) != own && e@ == (TxErrorView {
                status: TxStatus::UserError,
                message: wrong_token_message(),
            }),
        }
    } else if name == "rejectDctPayment".spec_bytes() {
        &&& after == api.world@
        &&& r matches Some(Err(e))
        &&& e@ == (TxErrorView { status: TxStatus::UserError, message: rejected_message() })
    } else if name == "getdctTokenName".spec_bytes() {
        &&& after == api.world@
        &&& r matches Some(inner)
        &&& match inner {
            Ok(values) => no_payment(cv) && values.deep_view() == seq![own],
            Err(e) => !no_payment(cv) && e@.status == TxStatus::NonPayableOrWrongToken
                && e@.message == not_payable_error(cv).message,
        }
    } else {
        r is None && after == api.world@
    }
}

/// What the code of the functions on token identifiers returns for the
/// function `name`.
pub open spec fn identifier_outcome(
    name: Seq<u8>,
    api: DebugApi,
    r: Option<Result<Vec<Vec<u8>>, TxError>>,
) -> bool {
    let cv = api.call_value@;
    if name == "token_identifier_moax".spec_bytes() {
        r matches Some(inner) && match inner {
            Ok(values) => no_payment(cv) && values.deep_view() == seq![moax_name()],
            Err(e) => !no_payment(cv) && e@.status == TxStatus::NonPayableOrWrongToken
                && e@.message == not_payable_error(cv).message,
        }
    } else if name == "token_identifier_is_valid_1".spec_bytes() {
        r matches Some(inner) && if no_payment(cv) && api.input@.args.len() == 1 {
            inner matches Ok(values) && values.deep_view() == seq![
                truth_bytes(valid_dct_identifier(decoded_identifier(api.input@.args[0]))),
            ]
        } else {
            refused(api, inner)
        }
    } else if name == "token_identifier_is_valid_2".spec_bytes() {
        r matches Some(inner) && if no_payment(cv) && api.input@.args.len() == 1 {
            inner matches Ok(values) && values.deep_view() == seq![
                truth_bytes(valid_dct_identifier(api.input@.args[0])),
            ]
        } else {
            refused(api, inner)
        }
    } else {
        r is None
    }
}

/// Storing a value changes no nonce and no block fixture.
pub proof fn lemma_storage_keeps_fixtures(
    w: crate::world::WorldView,
    address: Seq<u8>,
    key: Seq<u8>,
    value: Seq<u8>,
)
    ensures
        crate::executor::fixtures_kept(w, storage_written(w, address, key, value)),
{
}

/// What the code of the three contracts returns for the function `name` of
/// the code `code`, and the ledger that it leaves.
pub open spec fn features_outcome(
    code: Seq<u8>,
    name: Seq<u8>,
    api: DebugApi,
    r: Option<Result<Vec<Vec<u8>>, TxError>>,
    after: crate::world::WorldView,
) -> bool {
    if code == payable_features_code() {
        payable_outcome(name, api.call_value@, r) && after == api.world@
    } else if code == second_contract_code() {
        second_outcome(name, api, r, after)
    } else if code == basic_features_code() {
        identifier_outcome(name, api, r) && after == api.world@
    } else {
        r is None && after == api.world@
    }
}

impl ContractMap for FeatureContracts {
    fn call_contract(&self, code: &Vec<u8>, func_name: &Vec<u8>, api: &mut DebugApi) -> (r: Option<
        Result<Vec<Vec<u8>>, TxError>,
    >)
        ensures
            features_outcome(code@, func_name@, *old(api), r, final(api).world@),
    {
        if bytes_eq(code.as_slice(), "payable-features".as_bytes()) {
            self.call_payable_features(func_name, api)
        } else if bytes_eq(code.as_slice(), "second-contract".as_bytes()) {
            self.call_second_contract(func_name, api)
        } else if bytes_eq(code.as_slice(), "basic-features".as_bytes()) {
            self.call_token_identifier_features(func_name, api)
        } else {
            None
        }
    }
}

} // verus!
