//! The payment that came with the call that is running.
//!
//! A [`CallValueWrapper`] is made from the input of the call. It knows the
//! native amount and the token transfers, and hands them to contract code as
//! handles: the amounts go to the reserved slots of the frame on top, and
//! what has no reserved slot is allocated there. A call carries a native
//! amount or token transfers, never both.

use crate::arena::{
    frame_allocated, frame_written, next_handle, Arena, ArenaValue, FrameView, ValueView,
    CALL_VALUE_MOAX, CALL_VALUE_MULTI_DCT, CALL_VALUE_SINGLE_DCT, MBUF_TEMPORARY_1,
};
use crate::assoc::bytes_eq;
use crate::big_nat::BigNat;
use crate::dct_token_payment::{payment_payload, payment_type, DctTokenPayment};
use crate::managed::{
    moax_name, type_of_nonce, BigUint, DctTokenType, ManagedVec, TokenIdentifier,
};
use crate::managed_vec_item::ManagedVecItem;
use crate::tx::{
    clone_transfers, payment_conflict, transfers_view, TransferView, TxError, TxErrorView, TxInput,
    TxInputDct, TxStatus,
};
use vstd::prelude::*;
use vstd::slice::slice_to_vec;
use vstd::string::StringSliceAdditionalSpecFns;

verus! {

/// The payment of a call, as the contracts speak of it.
pub struct CallValueView {
    pub moax_value: nat,
    pub dct_values: Seq<TransferView>,
}

/// The message for a function that takes no native amount and got one.
pub open spec fn non_payable_func_moax() -> Seq<u8> {
    "function does not accept MOAX payment".spec_bytes()
}

/// The message for a function that takes no tokens and got some.
pub open spec fn non_payable_func_dct() -> Seq<u8> {
    "function does not accept DCT payment".spec_bytes()
}

/// The message for a function that takes one token transfer and got none or
/// several.
pub open spec fn single_dct_expected() -> Seq<u8> {
    "function expects single DCT payment".spec_bytes()
}

/// The message for a function that got another token than it takes.
pub open spec fn bad_token_provided() -> Seq<u8> {
    "bad call value token provided".spec_bytes()
}

/// The message for a call that carries both a native amount and tokens.
pub open spec fn payment_conflict_message() -> Seq<u8> {
    "call carries both a native amount and tokens".spec_bytes()
}

/// The amount of the first token transfer; zero where there is none.
pub open spec fn single_dct_value(cv: CallValueView) -> nat {
    if cv.dct_values.len() > 0 {
        cv.dct_values[0].amount
    } else {
        0
    }
}

/// The token of the payment: the identifier of the first token transfer,
/// or the name of the native currency where there is no transfer.
pub open spec fn token_name(cv: CallValueView) -> Seq<u8> {
    if cv.dct_values.len() > 0 {
        cv.dct_values[0].identifier
    } else {
        moax_name()
    }
}

/// The instance number of the first token transfer; zero where there is
/// none.
pub open spec fn token_nonce(cv: CallValueView) -> u64 {
    if cv.dct_values.len() > 0 {
        cv.dct_values[0].nonce
    } else {
        0
    }
}

/// The kind of the first token transfer, as its instance number tells it;
/// fungible where there is no transfer.
pub open spec fn token_type(cv: CallValueView) -> DctTokenType {
    if cv.dct_values.len() > 0 {
        type_of_nonce(cv.dct_values[0].nonce)
    } else {
        DctTokenType::Fungible
    }
}

/// The amount of the payment: the native amount where there is no token
/// transfer, else the amount of the first transfer.
pub open spec fn payment_amount(cv: CallValueView) -> nat {
    if cv.dct_values.len() > 0 {
        cv.dct_values[0].amount
    } else {
        cv.moax_value
    }
}

/// The reserved slot that takes the amount of the payment.
pub open spec fn payment_slot(cv: CallValueView) -> i32 {
    if cv.dct_values.len() > 0 {
        CALL_VALUE_SINGLE_DCT
    } else {
        CALL_VALUE_MOAX
    }
}

/// The frame after one transfer was laid out in it: its identifier, its
/// amount, and the sixteen bytes that name the two, allocated in this order.
pub open spec fn transfer_materialized(frame: FrameView, t: TransferView) -> FrameView {
    let identifier = next_handle(frame) as i32;
    let amount = (next_handle(frame) + 1) as i32;
    frame_allocated(
        frame_allocated(
            frame_allocated(frame, ValueView::Buffer(t.identifier)),
            ValueView::BigInt(t.amount),
        ),
        ValueView::Buffer(payment_payload(identifier, t.nonce, amount)),
    )
}

/// The frame after the transfers were laid out in it, in their order.
pub open spec fn transfers_materialized(frame: FrameView, transfers: Seq<TransferView>) -> FrameView
    decreases transfers.len(),
{
    if transfers.len() == 0 {
        frame
    } else {
        transfer_materialized(
            transfers_materialized(frame, transfers.drop_last()),
            transfers.last(),
        )
    }
}

/// The handles of the sixteen-byte records of `n` transfers laid out in a
/// frame that held `fresh` values before.
pub open spec fn record_handles(fresh: nat, n: nat) -> Seq<i32> {
    Seq::new(n, |i: int| (next_handle_after(fresh, 3 * i + 2)) as i32)
}

/// The handle of the value allocated `k` allocations after a frame held
/// `fresh` values.
pub open spec fn next_handle_after(fresh: nat, k: int) -> int {
    crate::arena::NEW_HANDLE_START_FROM + fresh + k
}

/// Laying transfers out allocates three values for each.
pub proof fn lemma_transfers_materialized_fresh(frame: FrameView, transfers: Seq<TransferView>)
    ensures
        transfers_materialized(frame, transfers).fresh == frame.fresh + 3 * transfers.len(),
    decreases transfers.len(),
{
    if transfers.len() > 0 {
        lemma_transfers_materialized_fresh(frame, transfers.drop_last());
    }
}

/// Laying transfers out changes no value that the frame held before.
pub proof fn lemma_transfers_materialized_keep(
    frame: FrameView,
    transfers: Seq<TransferView>,
    handle: i32,
)
    requires
        crate::arena::frame_well_formed(frame),
        frame.entries.dom().contains(handle),
        frame.fresh + 3 * transfers.len() <= crate::arena::FRAME_CAPACITY,
    ensures
        transfers_materialized(frame, transfers).entries.dom().contains(handle),
        transfers_materialized(frame, transfers).entries[handle] == frame.entries[handle],
    decreases transfers.len(),
{
    if transfers.len() > 0 {
        lemma_transfers_materialized_keep(frame, transfers.drop_last(), handle);
        lemma_transfers_materialized_fresh(frame, transfers.drop_last());
    }
}

/// The payment that came with the running call.
pub struct CallValueWrapper {
    moax_value: BigNat,
    dct_values: Vec<TxInputDct>,
}

impl View for CallValueWrapper {
    type V = CallValueView;

    closed spec fn view(&self) -> CallValueView {
        CallValueView {
            moax_value: self.moax_value@,
            dct_values: transfers_view(self.dct_values@),
        }
    }
}

impl CallValueWrapper {
    #[verifier::type_invariant]
    spec fn one_kind_of_payment(self) -> bool {
        !(self.moax_value@ > 0 && self.dct_values@.len() > 0)
    }

    /// The payment of the call `input`, unless the call carries both a
    /// native amount and token transfers.
    pub fn new(input: &TxInput) -> (r: Result<CallValueWrapper, TxError>)
        ensures
            match r {
                Ok(cv) => !payment_conflict(input@) && cv@ == (CallValueView {
                    moax_value: input@.moax_value,
                    dct_values: input@.dct_values,
                }),
                Err(e) => payment_conflict(input@) && e@ == (TxErrorView {
                    status: TxStatus::PaymentConflict,
                    message: payment_conflict_message(),
                }),
            },
    {
        if input.has_payment_conflict() {
            Err(
                TxError::new(
                    TxStatus::PaymentConflict,
                    "call carries both a native amount and tokens".as_bytes_vec(),
                ),
            )
        } else {
            let dct_values = clone_transfers(&input.dct_values);
            assert(dct_values@.len() == transfers_view(dct_values@).len());
            Ok(CallValueWrapper { moax_value: input.moax_value.clone(), dct_values })
        }
    }

    /// The number of token transfers. Where there are any, the native
    /// amount is zero.
    pub fn dct_num_transfers(&self) -> (r: usize)
        ensures
            r == self@.dct_values.len(),
            r > 0 ==> self@.moax_value == 0,
    {
        proof {
            use_type_invariant(self);
        }
        self.dct_values.len()
    }

    /// For a function that takes no payment: gives up where the call
    /// carries a native amount or tokens.
    pub fn check_not_payable(&self) -> (r: Result<(), TxError>)
        ensures
            match r {
                Ok(()) => self@.moax_value == 0 && self@.dct_values.len() == 0,
                Err(e) => e@.status == TxStatus::NonPayableOrWrongToken && if self@.moax_value
                    > 0 {
                    e@.message == non_payable_func_moax()
                } else {
                    self@.dct_values.len() > 0 && e@.message == non_payable_func_dct()
                },
            },
    {
        if !self.moax_value.is_zero() {
            return Err(
                TxError::new(
                    TxStatus::NonPayableOrWrongToken,
                    "function does not accept MOAX payment".as_bytes_vec(),
                ),
            );
        }
        if self.dct_values.len() > 0 {
            return Err(
                TxError::new(
                    TxStatus::NonPayableOrWrongToken,
                    "function does not accept DCT payment".as_bytes_vec(),
                ),
            );
        }
        Ok(())
    }

    /// Puts the native amount in its reserved slot and returns the handle
    /// of the slot. The amount is zero where the call carries tokens.
    pub fn moax_value(&self, arena: &mut Arena) -> (r: BigUint)
        requires
            old(arena)@.len() > 0,
        ensures
            r.handle == CALL_VALUE_MOAX,
            final(arena)@ == old(arena).with_top(
                frame_written(
                    old(arena).top(),
                    CALL_VALUE_MOAX,
                    ValueView::BigInt(self@.moax_value),
                ),
            ),
            self@.dct_values.len() > 0 ==> self@.moax_value == 0,
    {
        proof {
            use_type_invariant(self);
            arena.lemma_well_formed();
        }
        arena.write(CALL_VALUE_MOAX, ArenaValue::BigInt(self.moax_value.clone()));
        BigUint { handle: CALL_VALUE_MOAX }
    }

    /// Lays all token transfers out in the frame, in the order in which the
    /// call carries them, puts the list of their records in its reserved
    /// slot and returns the handle of the slot. For each transfer three
    /// values are allocated: the identifier, the amount, and a record of
    /// sixteen bytes that names the two and holds the instance number.
    pub fn all_dct_transfers(&self, arena: &mut Arena) -> (r: ManagedVec)
        requires
            old(arena).has_room(3 * self@.dct_values.len()),
        ensures
            r.handle == CALL_VALUE_MULTI_DCT,
            final(arena)@ == old(arena).with_top(
                frame_written(
                    transfers_materialized(old(arena).top(), self@.dct_values),
                    CALL_VALUE_MULTI_DCT,
                    ValueView::HandleVec(
                        record_handles(old(arena).top().fresh, self@.dct_values.len()),
                    ),
                ),
            ),
    {
        let n = self.dct_values.len();
        let ghost start = arena.top();
        let ghost all = self@.dct_values;
        let mut handles: Vec<i32> = Vec::new();
        let mut i: usize = 0;
        proof {
            assert(all.take(0) =~= Seq::<TransferView>::empty());
            assert(arena@ =~= old(arena).with_top(start));
        }
        while i < n
            invariant
                n == self.dct_values@.len(),
                all == self@.dct_values,
                all.len() == n,
                start == old(arena).top(),
                old(arena).has_room(3 * n as nat),
                i <= n,
                arena@.len() == old(arena)@.len(),
                arena@ == old(arena).with_top(transfers_materialized(start, all.take(i as int))),
                handles@.len() == i,
                forall|j: int|
                    0 <= j < i ==> #[trigger] handles@[j] == next_handle_after(
                        start.fresh,
                        3 * j + 2,
                    ),
            decreases n - i,
        {
            let transfer = &self.dct_values[i];
            let ghost before = arena.top();
            proof {
                lemma_transfers_materialized_fresh(start, all.take(i as int));
                assert(all.take(i + 1).drop_last() =~= all.take(i as int));
                assert(all.take(i + 1).last() == transfer@);
            }
            let identifier = arena.insert_new(ArenaValue::Buffer(transfer.token_identifier.clone()));
            let amount = arena.insert_new(ArenaValue::BigInt(transfer.value.clone()));
            let payment = DctTokenPayment {
                token_type: DctTokenType::based_on_token_nonce(transfer.nonce),
                token_identifier: TokenIdentifier { handle: identifier },
                token_nonce: transfer.nonce,
                amount: BigUint { handle: amount },
            };
            let record = arena.insert_new(ArenaValue::Buffer(payment.to_byte_writer()));
            handles.push(record);
            proof {
                assert(arena.top() == transfer_materialized(before, transfer@));
                assert(arena@ =~= old(arena).with_top(
                    transfers_materialized(start, all.take(i + 1)),
                ));
            }
            i = i + 1;
        }
        proof {
            assert(all.take(n as int) =~= all);
            lemma_transfers_materialized_fresh(start, all);
            arena.lemma_well_formed();
            assert(handles@ =~= record_handles(start.fresh, n as nat));
        }
        arena.write(CALL_VALUE_MULTI_DCT, ArenaValue::HandleVec(handles));
        proof {
            assert(arena@ =~= old(arena).with_top(
                frame_written(
                    transfers_materialized(start, all),
                    CALL_VALUE_MULTI_DCT,
                    ValueView::HandleVec(record_handles(start.fresh, n as nat)),
                ),
            ));
        }
        ManagedVec { handle: CALL_VALUE_MULTI_DCT }
    }

    /// Puts the amount of the first token transfer in its reserved slot, or
    /// zero where the call carries no tokens, and returns the handle of the
    /// slot. Meant for calls with at most one transfer.
    pub fn dct_value(&self, arena: &mut Arena) -> (r: BigUint)
        requires
            old(arena)@.len() > 0,
        ensures
            r.handle == CALL_VALUE_SINGLE_DCT,
            final(arena)@ == old(arena).with_top(
                frame_written(
                    old(arena).top(),
                    CALL_VALUE_SINGLE_DCT,
                    ValueView::BigInt(single_dct_value(self@)),
                ),
            ),
    {
        let value = if self.dct_values.len() > 0 {
            self.dct_values[0].value.clone()
        } else {
            BigNat::zero()
        };
        proof {
            arena.lemma_well_formed();
        }
        arena.write(CALL_VALUE_SINGLE_DCT, ArenaValue::BigInt(value));
        BigUint { handle: CALL_VALUE_SINGLE_DCT }
    }

    /// Allocates the token of the payment and returns its handle: the
    /// identifier of the first token transfer, or the name of the native
    /// currency where the call carries no tokens.
    pub fn token(&self, arena: &mut Arena) -> (r: TokenIdentifier)
        requires
            old(arena).has_room(1),
        ensures
            r.handle == next_handle(old(arena).top()),
            final(arena)@ == old(arena).with_top(
                frame_allocated(old(arena).top(), ValueView::Buffer(token_name(self@))),
            ),
    {
        if self.dct_values.len() == 0 {
            TokenIdentifier::moax(arena)
        } else {
            TokenIdentifier {
                handle: arena.insert_new(
                    ArenaValue::Buffer(self.dct_values[0].token_identifier.clone()),
                ),
            }
        }
    }

    /// The instance number of the first token transfer; zero where the call
    /// carries no tokens.
    pub fn dct_token_nonce(&self) -> (r: u64)
        ensures
            r == token_nonce(self@),
    {
        if self.dct_values.len() > 0 {
            self.dct_values[0].nonce
        } else {
            0
        }
    }

    /// The kind of the first token transfer; fungible where the call
    /// carries no tokens.
    pub fn dct_token_type(&self) -> (r: DctTokenType)
        ensures
            r == token_type(self@),
    {
        if self.dct_values.len() > 0 {
            DctTokenType::based_on_token_nonce(self.dct_values[0].nonce)
        } else {
            DctTokenType::Fungible
        }
    }

    /// For a function that takes the native currency only: gives up where
    /// the call carries tokens, else does what [`Self::moax_value`] does.
    pub fn require_moax(&self, arena: &mut Arena) -> (r: Result<BigUint, TxError>)
        requires
            old(arena)@.len() > 0,
        ensures
            match r {
                Ok(value) => self@.dct_values.len() == 0 && value.handle == CALL_VALUE_MOAX
                    && final(arena)@ == old(arena).with_top(
                    frame_written(
                        old(arena).top(),
                        CALL_VALUE_MOAX,
                        ValueView::BigInt(self@.moax_value),
                    ),
                ),
                Err(e) => self@.dct_values.len() > 0 && e@ == (TxErrorView {
                    status: TxStatus::NonPayableOrWrongToken,
                    message: non_payable_func_dct(),
                }) && final(arena)@ == old(arena)@,
            },
    {
        if self.dct_values.len() > 0 {
            return Err(
                TxError::new(
                    TxStatus::NonPayableOrWrongToken,
                    "function does not accept DCT payment".as_bytes_vec(),
                ),
            );
        }
        Ok(self.moax_value(arena))
    }

    /// For a function that takes the token `token` only. Puts `token` in
    /// the temporary slot. Then gives up unless the call carries exactly
    /// one token transfer and that transfer is of `token`; else puts the
    /// amount of the transfer in its reserved slot and returns the handle of
    /// the slot.
    pub fn require_dct(&self, arena: &mut Arena, token: &[u8]) -> (r: Result<BigUint, TxError>)
        requires
            old(arena)@.len() > 0,
        ensures
            match r {
                Ok(value) => self@.dct_values.len() == 1 && self@.dct_values[0].identifier
                    == token@ && value.handle == CALL_VALUE_SINGLE_DCT && final(arena)@ == old(
                    arena,
                ).with_top(
                    frame_written(
                        frame_written(
                            old(arena).top(),
                            MBUF_TEMPORARY_1,
                            ValueView::Buffer(token@),
                        ),
                        CALL_VALUE_SINGLE_DCT,
                        ValueView::BigInt(self@.dct_values[0].amount),
                    ),
                ),
                Err(e) => e@.status == TxStatus::NonPayableOrWrongToken && final(arena)@ == old(
                    arena,
                ).with_top(
                    frame_written(old(arena).top(), MBUF_TEMPORARY_1, ValueView::Buffer(token@)),
                ) && if self@.dct_values.len() != 1 {
                    e@.message == single_dct_expected()
                } else {
                    self@.dct_values[0].identifier != token@ && e@.message == bad_token_provided()
                },
            },
    {
        proof {
            arena.lemma_well_formed();
        }
        arena.write(MBUF_TEMPORARY_1, ArenaValue::Buffer(slice_to_vec(token)));
        if self.dct_values.len() != 1 {
            return Err(
                TxError::new(
                    TxStatus::NonPayableOrWrongToken,
                    "function expects single DCT payment".as_bytes_vec(),
                ),
            );
        }
        if !bytes_eq(self.dct_values[0].token_identifier.as_slice(), token) {
            return Err(
                TxError::new(
                    TxStatus::NonPayableOrWrongToken,
                    "bad call value token provided".as_bytes_vec(),
                ),
            );
        }
        let value = self.dct_value(arena);
        proof {
            assert(arena@ =~= old(arena).with_top(
                frame_written(
                    frame_written(old(arena).top(), MBUF_TEMPORARY_1, ValueView::Buffer(token@)),
                    CALL_VALUE_SINGLE_DCT,
                    ValueView::BigInt(self@.dct_values[0].amount),
                ),
            ));
        }
        Ok(value)
    }

    /// The amount and the token of the payment, whatever its kind. The
    /// amount is put in its reserved slot, then the token is allocated.
    pub fn payment_token_pair(&self, arena: &mut Arena) -> (r: (BigUint, TokenIdentifier))
        requires
            old(arena).has_room(1),
        ensures
            r.0.handle == payment_slot(self@),
            r.1.handle == next_handle(old(arena).top()),
            final(arena)@ == old(arena).with_top(
                frame_allocated(
                    frame_written(
                        old(arena).top(),
                        payment_slot(self@),
                        ValueView::BigInt(payment_amount(self@)),
                    ),
                    ValueView::Buffer(token_name(self@)),
                ),
            ),
    {
        if self.dct_values.len() == 0 {
            let amount = self.moax_value(arena);
            let token = TokenIdentifier::moax(arena);
            proof {
                assert(arena@ =~= old(arena).with_top(
                    frame_allocated(
                        frame_written(
                            old(arena).top(),
                            CALL_VALUE_MOAX,
                            ValueView::BigInt(self@.moax_value),
                        ),
                        ValueView::Buffer(moax_name()),
                    ),
                ));
            }
            (amount, token)
        } else {
            let amount = self.dct_value(arena);
            let token = self.token(arena);
            proof {
                assert(arena@ =~= old(arena).with_top(
                    frame_allocated(
                        frame_written(
                            old(arena).top(),
                            CALL_VALUE_SINGLE_DCT,
                            ValueView::BigInt(single_dct_value(self@)),
                        ),
                        ValueView::Buffer(token_name(self@)),
                    ),
                ));
            }
            (amount, token)
        }
    }

    /// The payment, whatever its kind. The token is allocated, then the
    /// amount is put in its reserved slot.
    pub fn payment(&self, arena: &mut Arena) -> (r: DctTokenPayment)
        requires
            old(arena).has_room(1),
        ensures
            r.token_type == payment_type(
                token_name(self@),
                token_nonce(self@),
                payment_amount(self@),
            ),
            r.token_identifier.handle == next_handle(old(arena).top()),
            r.token_nonce == token_nonce(self@),
            r.amount.handle == payment_slot(self@),
            final(arena)@ == old(arena).with_top(
                frame_written(
                    frame_allocated(old(arena).top(), ValueView::Buffer(token_name(self@))),
                    payment_slot(self@),
                    ValueView::BigInt(payment_amount(self@)),
                ),
            ),
    {
        proof {
            arena.lemma_well_formed();
        }
        let token = self.token(arena);
        let nonce = self.dct_token_nonce();
        let amount = if self.dct_values.len() == 0 {
            self.moax_value(arena)
        } else {
            self.dct_value(arena)
        };
        proof {
            assert(arena@ =~= old(arena).with_top(
                frame_written(
                    frame_allocated(old(arena).top(), ValueView::Buffer(token_name(self@))),
                    payment_slot(self@),
                    ValueView::BigInt(payment_amount(self@)),
                ),
            ));
        }
        DctTokenPayment::new(arena, token, nonce, amount)
    }

    /// The token, the instance number and the amount of the payment. The
    /// amount is put in its reserved slot, then the token is allocated.
    pub fn payment_as_tuple(&self, arena: &mut Arena) -> (r: (TokenIdentifier, u64, BigUint))
        requires
            old(arena).has_room(1),
        ensures
            r.0.handle == next_handle(old(arena).top()),
            r.1 == token_nonce(self@),
            r.2.handle == payment_slot(self@),
            final(arena)@ == old(arena).with_top(
                frame_allocated(
                    frame_written(
                        old(arena).top(),
                        payment_slot(self@),
                        ValueView::BigInt(payment_amount(self@)),
                    ),
                    ValueView::Buffer(token_name(self@)),
                ),
            ),
    {
        let (amount, token) = self.payment_token_pair(arena);
        let nonce = self.dct_token_nonce();
        (token, nonce, amount)
    }
}

} // verus!
