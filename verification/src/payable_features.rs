//! A contract whose functions do nothing but read the payment of the call,
//! each in another way.
//!
//! A function takes any payment, or the native currency only, or the token
//! [`payable_features_token`] only. A function that does not take the
//! payment of the call gives up before it does anything else. Every
//! function returns the amount and the token of the payment, as handles.

use crate::arena::{
    big_int_at, buffer_at, holds_big_int, holds_buffer, FrameView, CALL_VALUE_MOAX,
    CALL_VALUE_MULTI_DCT,
};
use crate::call_value::{
    bad_token_provided, non_payable_func_dct, payment_amount, single_dct_expected, token_name,
    CallValueView,
};
use crate::debug_api::DebugApi;
use crate::managed::{moax_name, BigUint, ManagedVec, TokenIdentifier};
use crate::tx::{TxError, TxStatus};
use vstd::prelude::*;
use vstd::string::StringSliceAdditionalSpecFns;

verus! {

/// The one token that the functions for a token take.
pub open spec fn payable_features_token() -> Seq<u8> {
    "PAYABLE-FEATURES-TOKEN".spec_bytes()
}

/// Tells whether a function left alone what is not its own: the ledger,
/// the call, its payment, and every frame of the arena but the one on top.
pub open spec fn only_frame_changed(before: DebugApi, after: DebugApi) -> bool {
    &&& after.world@ == before.world@
    &&& after.input@ == before.input@
    &&& after.call_value@ == before.call_value@
    &&& after.arena@.len() == before.arena@.len()
    &&& after.arena@.drop_last() == before.arena@.drop_last()
}

/// Tells whether the handles of `pair` name the number `amount` and the
/// bytes `token` in `frame`.
pub open spec fn pair_names(
    frame: FrameView,
    pair: (BigUint, TokenIdentifier),
    amount: nat,
    token: Seq<u8>,
) -> bool {
    &&& holds_big_int(frame, pair.0.handle)
    &&& big_int_at(frame, pair.0.handle) == amount
    &&& holds_buffer(frame, pair.1.handle)
    &&& buffer_at(frame, pair.1.handle) == token
}

/// Tells whether the payment is one transfer of the token `token`.
pub open spec fn is_single_transfer_of(cv: CallValueView, token: Seq<u8>) -> bool {
    cv.dct_values.len() == 1 && cv.dct_values[0].identifier == token
}

/// What a function for the native currency returns: it gives up where the
/// call carries tokens, else returns the native amount and the name of the
/// native currency.
pub open spec fn moax_outcome(
    before: DebugApi,
    after: DebugApi,
    r: Result<(BigUint, TokenIdentifier), TxError>,
) -> bool {
    let cv = before.call_value@;
    &&& only_frame_changed(before, after)
    &&& match r {
        Ok(pair) => cv.dct_values.len() == 0 && pair_names(
            after.arena.top(),
            pair,
            cv.moax_value,
            moax_name(),
        ),
        Err(e) => cv.dct_values.len() > 0 && e@.status == TxStatus::NonPayableOrWrongToken
            && e@.message == non_payable_func_dct(),
    }
}

/// What a function for the token returns: it gives up unless the call
/// carries exactly one transfer, of the token; else it returns the amount of
/// the transfer and the token.
pub open spec fn token_outcome(
    before: DebugApi,
    after: DebugApi,
    r: Result<(BigUint, TokenIdentifier), TxError>,
) -> bool {
    let cv = before.call_value@;
    &&& only_frame_changed(before, after)
    &&& match r {
        Ok(pair) => is_single_transfer_of(cv, payable_features_token()) && pair_names(
            after.arena.top(),
            pair,
            cv.dct_values[0].amount,
            payable_features_token(),
        ),
        Err(e) => !is_single_transfer_of(cv, payable_features_token()) && e@.status
            == TxStatus::NonPayableOrWrongToken && e@.message == (if cv.dct_values.len() != 1 {
            single_dct_expected()
        } else {
            bad_token_provided()
        }),
    }
}

/// The functions of the contract.
pub trait PayableFeatures {
    /// Sets the contract up; there is nothing to set up.
    fn init(&self, api: &mut DebugApi)
        ensures
            *final(api) == *old(api),
    {
    }

    /// Takes any payment. Returns the native amount and the list of all
    /// token transfers.
    fn echo_call_value(&self, api: &mut DebugApi) -> (r: (BigUint, ManagedVec))
        requires
            old(api).arena.has_room(3 * old(api).call_value@.dct_values.len()),
        ensures
            only_frame_changed(*old(api), *final(api)),
            r.0.handle == CALL_VALUE_MOAX,
            r.1.handle == CALL_VALUE_MULTI_DCT,
            holds_big_int(final(api).arena.top(), CALL_VALUE_MOAX),
            big_int_at(final(api).arena.top(), CALL_VALUE_MOAX) == old(api).call_value@.moax_value,
            final(api).arena@ == old(api).arena.with_top(
                crate::arena::frame_written(
                    crate::call_value::transfers_materialized(
                        crate::arena::frame_written(
                            old(api).arena.top(),
                            CALL_VALUE_MOAX,
                            crate::arena::ValueView::BigInt(old(api).call_value@.moax_value),
                        ),
                        old(api).call_value@.dct_values,
                    ),
                    CALL_VALUE_MULTI_DCT,
                    crate::arena::ValueView::HandleVec(
                        crate::call_value::record_handles(
                            old(api).arena.top().fresh,
                            old(api).call_value@.dct_values.len(),
                        ),
                    ),
                ),
            ),
    {
        let moax = api.call_value.moax_value(&mut api.arena);
        let transfers = api.call_value.all_dct_transfers(&mut api.arena);
        proof {
            old(api).arena.lemma_well_formed();
            let written = crate::arena::frame_written(
                old(api).arena.top(),
                CALL_VALUE_MOAX,
                crate::arena::ValueView::BigInt(old(api).call_value@.moax_value),
            );
            assert(written.entries.dom() =~= old(api).arena.top().entries.dom());
            assert(crate::arena::frame_well_formed(written));
            crate::call_value::lemma_transfers_materialized_keep(
                crate::arena::frame_written(
                    old(api).arena.top(),
                    CALL_VALUE_MOAX,
                    crate::arena::ValueView::BigInt(old(api).call_value@.moax_value),
                ),
                old(api).call_value@.dct_values,
                CALL_VALUE_MOAX,
            );
            assert(final(api).arena@.drop_last() =~= old(api).arena@.drop_last());
        }
        (moax, transfers)
    }

    /// Takes any payment. Returns the list of all token transfers.
    fn payment_multiple(&self, api: &mut DebugApi) -> (r: ManagedVec)
        requires
            old(api).arena.has_room(3 * old(api).call_value@.dct_values.len()),
        ensures
            only_frame_changed(*old(api), *final(api)),
            r.handle == CALL_VALUE_MULTI_DCT,
            final(api).arena@ == old(api).arena.with_top(
                crate::arena::frame_written(
                    crate::call_value::transfers_materialized(
                        old(api).arena.top(),
                        old(api).call_value@.dct_values,
                    ),
                    CALL_VALUE_MULTI_DCT,
                    crate::arena::ValueView::HandleVec(
                        crate::call_value::record_handles(
                            old(api).arena.top().fresh,
                            old(api).call_value@.dct_values.len(),
                        ),
                    ),
                ),
            ),
    {
        let payments = api.call_value.all_dct_transfers(&mut api.arena);
        proof {
            assert(final(api).arena@.drop_last() =~= old(api).arena@.drop_last());
        }
        payments
    }

    /// Takes any payment, and is handed its amount and its token.
    fn payable_any_1(&self, api: &mut DebugApi) -> (r: (BigUint, TokenIdentifier))
        requires
            old(api).arena.has_room(1),
        ensures
            only_frame_changed(*old(api), *final(api)),
            pair_names(
                final(api).arena.top(),
                r,
                payment_amount(old(api).call_value@),
                token_name(old(api).call_value@),
            ),
    {
        let (payment, token) = api.call_value.payment_token_pair(&mut api.arena);
        proof {
            old(api).arena.lemma_well_formed();
            assert(final(api).arena@.drop_last() =~= old(api).arena@.drop_last());
        }
        (payment, token)
    }

    /// Takes any payment, is handed its amount, and asks for its token.
    fn payable_any_2(&self, api: &mut DebugApi) -> (r: (BigUint, TokenIdentifier))
        requires
            old(api).arena.has_room(2),
        ensures
            only_frame_changed(*old(api), *final(api)),
            pair_names(
                final(api).arena.top(),
                r,
                payment_amount(old(api).call_value@),
                token_name(old(api).call_value@),
            ),
    {
        let (payment, _) = api.call_value.payment_token_pair(&mut api.arena);
        let token = api.call_value.token(&mut api.arena);
        proof {
            old(api).arena.lemma_well_formed();
            assert(final(api).arena@.drop_last() =~= old(api).arena@.drop_last());
        }
        (payment, token)
    }

    /// Takes any payment, is handed its token, and asks for its amount.
    fn payable_any_3(&self, api: &mut DebugApi) -> (r: (BigUint, TokenIdentifier))
        requires
            old(api).arena.has_room(2),
        ensures
            only_frame_changed(*old(api), *final(api)),
            pair_names(
                final(api).arena.top(),
                r,
                payment_amount(old(api).call_value@),
                token_name(old(api).call_value@),
            ),
    {
        let (_, token) = api.call_value.payment_token_pair(&mut api.arena);
        let (payment, _) = api.call_value.payment_token_pair(&mut api.arena);
        proof {
            old(api).arena.lemma_well_formed();
            assert(final(api).arena@.drop_last() =~= old(api).arena@.drop_last());
        }
        (payment, token)
    }

    /// Takes any payment, and asks for its amount and its token.
    fn payable_any_4(&self, api: &mut DebugApi) -> (r: (BigUint, TokenIdentifier))
        requires
            old(api).arena.has_room(1),
        ensures
            only_frame_changed(*old(api), *final(api)),
            pair_names(
                final(api).arena.top(),
                r,
                payment_amount(old(api).call_value@),
                token_name(old(api).call_value@),
            ),
    {
        let pair = api.call_value.payment_token_pair(&mut api.arena);
        proof {
            old(api).arena.lemma_well_formed();
            assert(final(api).arena@.drop_last() =~= old(api).arena@.drop_last());
        }
        pair
    }

    /// Takes the native currency, is handed its name, and asks for the
    /// amount.
    fn payable_moax_1(&self, api: &mut DebugApi) -> (r: Result<(BigUint, TokenIdentifier), TxError>)
        requires
            old(api).arena.has_room(1),
        ensures
            moax_outcome(*old(api), *final(api), r),
    {
        match api.call_value.require_moax(&mut api.arena) {
            Ok(_) => {},
            Err(e) => {
                return Err(e);
            },
        }
        let token = TokenIdentifier::moax(&mut api.arena);
        let payment = api.call_value.moax_value(&mut api.arena);
        proof {
            old(api).arena.lemma_well_formed();
            assert(final(api).arena@.drop_last() =~= old(api).arena@.drop_last());
        }
        Ok((payment, token))
    }

    /// Takes the native currency, is handed the amount, and asks for the
    /// token.
    fn payable_moax_2(&self, api: &mut DebugApi) -> (r: Result<(BigUint, TokenIdentifier), TxError>)
        requires
            old(api).arena.has_room(1),
        ensures
            moax_outcome(*old(api), *final(api), r),
    {
        let payment = match api.call_value.require_moax(&mut api.arena) {
            Ok(payment) => payment,
            Err(e) => {
                return Err(e);
            },
        };
        let token = api.call_value.token(&mut api.arena);
        proof {
            old(api).arena.lemma_well_formed();
            assert(final(api).arena@.drop_last() =~= old(api).arena@.drop_last());
        }
        Ok((payment, token))
    }

    /// Takes the native currency, is handed its name, and asks for the
    /// amount.
    fn payable_moax_3(&self, api: &mut DebugApi) -> (r: Result<(BigUint, TokenIdentifier), TxError>)
        requires
            old(api).arena.has_room(1),
        ensures
            moax_outcome(*old(api), *final(api), r),
    {
        match api.call_value.require_moax(&mut api.arena) {
            Ok(_) => {},
            Err(e) => {
                return Err(e);
            },
        }
        let token = TokenIdentifier::moax(&mut api.arena);
        let payment = api.call_value.moax_value(&mut api.arena);
        proof {
            old(api).arena.lemma_well_formed();
            assert(final(api).arena@.drop_last() =~= old(api).arena@.drop_last());
        }
        Ok((payment, token))
    }

    /// Takes the native currency, and asks for the amount and for the
    /// token.
    fn payable_moax_4(&self, api: &mut DebugApi) -> (r: Result<(BigUint, TokenIdentifier), TxError>)
        requires
            old(api).arena.has_room(1),
        ensures
            moax_outcome(*old(api), *final(api), r),
    {
        match api.call_value.require_moax(&mut api.arena) {
            Ok(_) => {},
            Err(e) => {
                return Err(e);
            },
        }
        let payment = api.call_value.moax_value(&mut api.arena);
        let token = api.call_value.token(&mut api.arena);
        proof {
            old(api).arena.lemma_well_formed();
            assert(final(api).arena@.drop_last() =~= old(api).arena@.drop_last());
        }
        Ok((payment, token))
    }

    /// Takes the token, and is handed the amount and the token.
    fn payable_token_1(&self, api: &mut DebugApi) -> (r: Result<(BigUint, TokenIdentifier), TxError>)
        requires
            old(api).arena.has_room(1),
        ensures
            token_outcome(*old(api), *final(api), r),
    {
        let payment = match api.call_value.require_dct(
            &mut api.arena,
            "PAYABLE-FEATURES-TOKEN".as_bytes(),
        ) {
            Ok(payment) => payment,
            Err(e) => {
                proof {
                    assert(final(api).arena@.drop_last() =~= old(api).arena@.drop_last());
                }
                return Err(e);
            },
        };
        let token = TokenIdentifier::from_dct_bytes(
            &mut api.arena,
            "PAYABLE-FEATURES-TOKEN".as_bytes(),
        );
        proof {
            old(api).arena.lemma_well_formed();
            lemma_token_not_empty();
            assert(final(api).arena@.drop_last() =~= old(api).arena@.drop_last());
        }
        Ok((payment, token))
    }

    /// Takes the token, is handed the amount, and asks for the token.
    fn payable_token_2(&self, api: &mut DebugApi) -> (r: Result<(BigUint, TokenIdentifier), TxError>)
        requires
            old(api).arena.has_room(1),
        ensures
            token_outcome(*old(api), *final(api), r),
    {
        let payment = match api.call_value.require_dct(
            &mut api.arena,
            "PAYABLE-FEATURES-TOKEN".as_bytes(),
        ) {
            Ok(payment) => payment,
            Err(e) => {
                proof {
                    assert(final(api).arena@.drop_last() =~= old(api).arena@.drop_last());
                }
                return Err(e);
            },
        };
        let token = api.call_value.token(&mut api.arena);
        proof {
            old(api).arena.lemma_well_formed();
            assert(final(api).arena@.drop_last() =~= old(api).arena@.drop_last());
        }
        Ok((payment, token))
    }

    /// Takes the token, is handed the token, and asks for the amount.
    fn payable_token_3(&self, api: &mut DebugApi) -> (r: Result<(BigUint, TokenIdentifier), TxError>)
        requires
            old(api).arena.has_room(1),
        ensures
            token_outcome(*old(api), *final(api), r),
    {
        match api.call_value.require_dct(&mut api.arena, "PAYABLE-FEATURES-TOKEN".as_bytes()) {
            Ok(_) => {},
            Err(e) => {
                proof {
                    assert(final(api).arena@.drop_last() =~= old(api).arena@.drop_last());
                }
                return Err(e);
            },
        }
        let token = TokenIdentifier::from_dct_bytes(
            &mut api.arena,
            "PAYABLE-FEATURES-TOKEN".as_bytes(),
        );
        let payment = api.call_value.dct_value(&mut api.arena);
        proof {
            old(api).arena.lemma_well_formed();
            lemma_token_not_empty();
            assert(final(api).arena@.drop_last() =~= old(api).arena@.drop_last());
        }
        Ok((payment, token))
    }

    /// Takes the token, and asks for the amount and for the token.
    fn payable_token_4(&self, api: &mut DebugApi) -> (r: Result<(BigUint, TokenIdentifier), TxError>)
        requires
            old(api).arena.has_room(1),
        ensures
            token_outcome(*old(api), *final(api), r),
    {
        match api.call_value.require_dct(&mut api.arena, "PAYABLE-FEATURES-TOKEN".as_bytes()) {
            Ok(_) => {},
            Err(e) => {
                proof {
                    assert(final(api).arena@.drop_last() =~= old(api).arena@.drop_last());
                }
                return Err(e);
            },
        }
        let payment = api.call_value.dct_value(&mut api.arena);
        let token = api.call_value.token(&mut api.arena);
        proof {
            old(api).arena.lemma_well_formed();
            assert(final(api).arena@.drop_last() =~= old(api).arena@.drop_last());
        }
        Ok((payment, token))
    }
}

/// The name of the token is not the empty string.
pub proof fn lemma_token_not_empty()
    ensures
        payable_features_token().len() > 0,
{
    reveal_strlit("PAYABLE-FEATURES-TOKEN");
    vstd::string::is_ascii_spec_bytes("PAYABLE-FEATURES-TOKEN");
    assert(vstd::string::is_ascii("PAYABLE-FEATURES-TOKEN"));
}

/// The contract.
pub struct ContractObj;

impl PayableFeatures for ContractObj {

}

} // verus!
