//! What goes into the execution of one call and what comes out of it.

use crate::assoc::DeepClone;
use crate::big_nat::BigNat;
use crate::dct::{clone_byte_strings, LedgerError};
use crate::world::ADDRESS_LEN;
use vstd::prelude::*;

verus! {

/// One token transfer of a call, as the contracts speak of it.
pub struct TransferView {
    pub identifier: Seq<u8>,
    pub nonce: u64,
    pub amount: nat,
}

/// One token transfer that a call carries.
#[derive(Debug)]
pub struct TxInputDct {
    pub token_identifier: Vec<u8>,
    pub nonce: u64,
    pub value: BigNat,
}

impl View for TxInputDct {
    type V = TransferView;

    open spec fn view(&self) -> TransferView {
        TransferView { identifier: self.token_identifier@, nonce: self.nonce, amount: self.value@ }
    }
}

impl DeepClone for TxInputDct {
    fn deep_clone(&self) -> (r: Self) {
        TxInputDct {
            token_identifier: self.token_identifier.clone(),
            nonce: self.nonce,
            value: self.value.clone(),
        }
    }
}

/// The transfers of a list, in its order.
pub open spec fn transfers_view(transfers: Seq<TxInputDct>) -> Seq<TransferView> {
    Seq::new(transfers.len(), |i: int| transfers[i]@)
}

/// Copies a list of transfers.
pub fn clone_transfers(transfers: &Vec<TxInputDct>) -> (r: Vec<TxInputDct>)
    ensures
        transfers_view(r@) == transfers_view(transfers@),
{
    let n = transfers.len();
    let mut r: Vec<TxInputDct> = Vec::new();
    let mut i: usize = 0;
    while i < n
        invariant
            n == transfers@.len(),
            i <= n,
            r@.len() == i,
            forall|j: int| 0 <= j < i ==> (#[trigger] r@[j])@ == transfers@[j]@,
        decreases n - i,
    {
        r.push(transfers[i].deep_clone());
        i = i + 1;
    }
    assert(transfers_view(r@) =~= transfers_view(transfers@));
    r
}

/// A call, as the contracts speak of it.
pub struct TxInputView {
    pub from: Seq<u8>,
    pub to: Seq<u8>,
    pub moax_value: nat,
    pub dct_values: Seq<TransferView>,
    pub func_name: Seq<u8>,
    pub args: Seq<Seq<u8>>,
    pub gas_limit: u64,
    pub gas_price: u64,
    pub tx_hash: Seq<u8>,
}

/// One call: who sends what to whom, and which function is to run with
/// which arguments. An empty function name asks for a plain transfer.
#[derive(Debug)]
pub struct TxInput {
    pub from: Vec<u8>,
    pub to: Vec<u8>,
    pub moax_value: BigNat,
    pub dct_values: Vec<TxInputDct>,
    pub func_name: Vec<u8>,
    pub args: Vec<Vec<u8>>,
    pub gas_limit: u64,
    pub gas_price: u64,
    pub tx_hash: Vec<u8>,
}

impl View for TxInput {
    type V = TxInputView;

    open spec fn view(&self) -> TxInputView {
        TxInputView {
            from: self.from@,
            to: self.to@,
            moax_value: self.moax_value@,
            dct_values: transfers_view(self.dct_values@),
            func_name: self.func_name@,
            args: self.args.deep_view(),
            gas_limit: self.gas_limit,
            gas_price: self.gas_price,
            tx_hash: self.tx_hash@,
        }
    }
}

impl DeepClone for TxInput {
    fn deep_clone(&self) -> (r: Self) {
        TxInput {
            from: self.from.clone(),
            to: self.to.clone(),
            moax_value: self.moax_value.clone(),
            dct_values: clone_transfers(&self.dct_values),
            func_name: self.func_name.clone(),
            args: clone_byte_strings(&self.args),
            gas_limit: self.gas_limit,
            gas_price: self.gas_price,
            tx_hash: self.tx_hash.clone(),
        }
    }
}

/// Tells whether a call has the shape of a call: a sender and a recipient,
/// each an address of [`ADDRESS_LEN`] bytes. Amounts cannot be negative and
/// the gas fields cannot be out of range, by their types.
pub open spec fn well_formed(input: TxInputView) -> bool {
    input.from.len() == ADDRESS_LEN && input.to.len() == ADDRESS_LEN
}

/// Tells whether a call carries both a native amount and token transfers,
/// which no call may.
pub open spec fn payment_conflict(input: TxInputView) -> bool {
    input.moax_value > 0 && input.dct_values.len() > 0
}

impl TxInput {
    /// Tells whether the call has the shape of a call.
    pub fn is_well_formed(&self) -> (r: bool)
        ensures
            r == well_formed(self@),
    {
        self.from.len() == ADDRESS_LEN && self.to.len() == ADDRESS_LEN
    }

    /// Tells whether the call carries both a native amount and token
    /// transfers.
    pub fn has_payment_conflict(&self) -> (r: bool)
        ensures
            r == payment_conflict(self@),
    {
        !self.moax_value.is_zero() && self.dct_values.len() > 0
    }
}

/// How the execution of a call ended.
#[derive(Clone, Copy, Debug, PartialEq, Eq, Structural)]
pub enum TxStatus {
    /// The call ran to its end and its effects stay.
    Success,
    /// The call did not have the shape of a call; nothing was touched.
    MalformedInput,
    /// The sender's native balance did not cover the amount.
    InsufficientFunds,
    /// The sender's balance of a token did not cover a transfer.
    InsufficientTokenFunds,
    /// The recipient's code has no function of the given name.
    FunctionNotFound,
    /// The call carried both a native amount and token transfers.
    PaymentConflict,
    /// The function does not take the payment that the call carried.
    NonPayableOrWrongToken,
    /// The function gave up of its own accord.
    UserError,
}

/// The status that reports an error of the ledger.
pub open spec fn status_of(e: LedgerError) -> TxStatus {
    match e {
        LedgerError::InsufficientFunds => TxStatus::InsufficientFunds,
        LedgerError::InsufficientTokenFunds => TxStatus::InsufficientTokenFunds,
    }
}

/// An error as the contracts speak of it.
pub struct TxErrorView {
    pub status: TxStatus,
    pub message: Seq<u8>,
}

/// Why a function gave up: a status, which is never `Success`, and a
/// message for the caller.
#[derive(Debug)]
pub struct TxError {
    status: TxStatus,
    message: Vec<u8>,
}

impl View for TxError {
    type V = TxErrorView;

    closed spec fn view(&self) -> TxErrorView {
        TxErrorView { status: self.status, message: self.message@ }
    }
}

impl TxError {
    #[verifier::type_invariant]
    spec fn is_failure(self) -> bool {
        self.status != TxStatus::Success
    }

    /// The error with the given status and message; a status of `Success`
    /// is taken for `UserError`.
    pub fn new(status: TxStatus, message: Vec<u8>) -> (r: TxError)
        ensures
            r@.message == message@,
            r@.status == (if status == TxStatus::Success {
                TxStatus::UserError
            } else {
                status
            }),
    {
        match status {
            TxStatus::Success => TxError { status: TxStatus::UserError, message },
            _ => TxError { status, message },
        }
    }

    /// The error of a function that gives up of its own accord.
    pub fn user_error(message: Vec<u8>) -> (r: TxError)
        ensures
            r@ == (TxErrorView { status: TxStatus::UserError, message: message@ }),
    {
        TxError { status: TxStatus::UserError, message }
    }

    /// The error that reports an error of the ledger, without a message.
    pub fn from_ledger(e: LedgerError) -> (r: TxError)
        ensures
            r@ == (TxErrorView { status: status_of(e), message: Seq::empty() }),
    {
        match e {
            LedgerError::InsufficientFunds => TxError {
                status: TxStatus::InsufficientFunds,
                message: Vec::new(),
            },
            LedgerError::InsufficientTokenFunds => TxError {
                status: TxStatus::InsufficientTokenFunds,
                message: Vec::new(),
            },
        }
    }

    /// The status, which is not `Success`.
    pub fn status(&self) -> (r: TxStatus)
        ensures
            r == self@.status,
            r != TxStatus::Success,
    {
        proof {
            use_type_invariant(self);
        }
        self.status
    }

    /// The message.
    pub fn message(&self) -> (r: &Vec<u8>)
        ensures
            r@ == self@.message,
    {
        &self.message
    }

    /// The message, leaving the error behind.
    pub fn into_message(self) -> (r: Vec<u8>)
        ensures
            r@ == self@.message,
    {
        self.message
    }
}

/// A result as the contracts speak of it.
pub struct TxResultView {
    pub status: TxStatus,
    pub message: Seq<u8>,
    pub values: Seq<Seq<u8>>,
    pub gas_used: u64,
}

/// What the execution of a call gives: how it ended, the message of the
/// failure, the buffers that the function returned, and the gas used. No gas
/// is metered, so the gas used is always zero.
#[derive(Debug)]
pub struct TxResult {
    pub result_status: TxStatus,
    pub result_message: Vec<u8>,
    pub result_values: Vec<Vec<u8>>,
    pub gas_used: u64,
}

impl View for TxResult {
    type V = TxResultView;

    open spec fn view(&self) -> TxResultView {
        TxResultView {
            status: self.result_status,
            message: self.result_message@,
            values: self.result_values.deep_view(),
            gas_used: self.gas_used,
        }
    }
}

/// The result of a call that succeeded and returned `values`.
pub open spec fn success_result(values: Seq<Seq<u8>>) -> TxResultView {
    TxResultView { status: TxStatus::Success, message: Seq::empty(), values, gas_used: 0 }
}

/// The result of a call that failed with `e`.
pub open spec fn failure_result(e: TxErrorView) -> TxResultView {
    TxResultView { status: e.status, message: e.message, values: Seq::empty(), gas_used: 0 }
}

impl TxResult {
    /// The result of a call that succeeded and returned `values`.
    pub fn success(values: Vec<Vec<u8>>) -> (r: TxResult)
        ensures
            r@ == success_result(values.deep_view()),
    {
        TxResult {
            result_status: TxStatus::Success,
            result_message: Vec::new(),
            result_values: values,
            gas_used: 0,
        }
    }

    /// The result of a call that failed with `e`.
    pub fn failure(e: TxError) -> (r: TxResult)
        ensures
            r@ == failure_result(e@),
            r@.status != TxStatus::Success,
    {
        let status = e.status();
        let r = TxResult {
            result_status: status,
            result_message: e.into_message(),
            result_values: Vec::new(),
            gas_used: 0,
        };
        assert(r.result_values.deep_view() =~= Seq::<Seq<u8>>::empty());
        r
    }

    /// Tells whether the call succeeded.
    pub fn is_success(&self) -> (r: bool)
        ensures
            r == (self@.status == TxStatus::Success),
    {
        match self.result_status {
            TxStatus::Success => true,
            _ => false,
        }
    }
}

} // verus!
