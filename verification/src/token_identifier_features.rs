//! Functions that make and examine token identifiers.

use crate::arena::{buffer_at, frame_allocated, holds_buffer, next_handle, ValueView};
use crate::debug_api::DebugApi;
use crate::managed::{moax_name, valid_dct_identifier, ManagedBuffer, TokenIdentifier};
use vstd::prelude::*;

verus! {

/// The functions.
pub trait TokenIdentifierFeatures {
    /// Allocates the name of the native currency and returns its handle.
    fn token_identifier_moax(&self, api: &mut DebugApi) -> (r: TokenIdentifier)
        requires
            old(api).arena.has_room(1),
        ensures
            r.handle == next_handle(old(api).arena.top()),
            final(api).arena@ == old(api).arena.with_top(
                frame_allocated(old(api).arena.top(), ValueView::Buffer(moax_name())),
            ),
            final(api).world@ == old(api).world@,
            final(api).input@ == old(api).input@,
            final(api).call_value@ == old(api).call_value@,
    {
        TokenIdentifier::moax(&mut api.arena)
    }

    /// Tells whether `token_id` names a well-formed token identifier.
    fn token_identifier_is_valid_1(&self, api: &DebugApi, token_id: TokenIdentifier) -> (r: bool)
        requires
            api.arena@.len() > 0,
            holds_buffer(api.arena.top(), token_id.handle),
        ensures
            r == valid_dct_identifier(buffer_at(api.arena.top(), token_id.handle)),
    {
        token_id.is_valid_dct_identifier(&api.arena)
    }

    /// Tells whether the bytes of `bytes` are a well-formed token
    /// identifier.
    fn token_identifier_is_valid_2(&self, api: &DebugApi, bytes: ManagedBuffer) -> (r: bool)
        requires
            api.arena@.len() > 0,
            holds_buffer(api.arena.top(), bytes.handle),
        ensures
            r == valid_dct_identifier(buffer_at(api.arena.top(), bytes.handle)),
    {
        TokenIdentifier::from_raw_handle(bytes.get_raw_handle()).is_valid_dct_identifier(&api.arena)
    }
}

/// The contract.
pub struct ContractObj;

impl TokenIdentifierFeatures for ContractObj {

}

} // verus!
