//! The typed handles that contract code holds in place of values.
//!
//! Contract code never owns a number or a byte buffer. It owns a handle, and
//! the arena owns what the handle names. Each type below wraps the handle of
//! one kind of value; making a value of such a type from data allocates that
//! data in the frame on top.

use crate::arena::{
    big_int_at, buffer_at, frame_allocated, handle_vec_at, holds_big_int, holds_buffer,
    holds_handle_vec, next_handle, Arena, ArenaValue, ValueView,
};
use crate::big_nat::BigNat;
use crate::world::ADDRESS_LEN;
use vstd::prelude::*;
use vstd::slice::slice_to_vec;
use vstd::string::StringSliceAdditionalSpecFns;

verus! {

/// The identifier that stands for the native currency.
pub open spec fn moax_name() -> Seq<u8> {
    "MOAX".spec_bytes()
}

/// The kind of a token payment.
#[derive(Clone, Copy, Debug, PartialEq, Eq, Structural)]
pub enum DctTokenType {
    Fungible,
    NonFungible,
    SemiFungible,
    Meta,
    Invalid,
}

/// The kind that an instance number alone tells: instance 0 is fungible,
/// every other instance is not.
pub open spec fn type_of_nonce(nonce: u64) -> DctTokenType {
    if nonce == 0 {
        DctTokenType::Fungible
    } else {
        DctTokenType::NonFungible
    }
}

impl DctTokenType {
    /// The kind that an instance number alone tells.
    pub fn based_on_token_nonce(nonce: u64) -> (r: DctTokenType)
        ensures
            r == type_of_nonce(nonce),
    {
        if nonce == 0 {
            DctTokenType::Fungible
        } else {
            DctTokenType::NonFungible
        }
    }
}

/// The handle of a number.
#[derive(Clone, Copy, Debug, PartialEq, Eq, Structural)]
pub struct BigUint {
    pub handle: i32,
}

impl BigUint {
    /// The typed handle for `handle`.
    pub fn from_raw_handle(handle: i32) -> (r: BigUint)
        ensures
            r.handle == handle,
    {
        BigUint { handle }
    }

    /// The handle.
    pub fn get_raw_handle(&self) -> (r: i32)
        ensures
            r == self.handle,
    {
        self.handle
    }

    /// Allocates `value` and returns its handle.
    pub fn from_big_nat(arena: &mut Arena, value: BigNat) -> (r: BigUint)
        requires
            old(arena).has_room(1),
        ensures
            r.handle == next_handle(old(arena).top()),
            final(arena)@ == old(arena).with_top(
                frame_allocated(old(arena).top(), ValueView::BigInt(value@)),
            ),
    {
        BigUint { handle: arena.insert_new(ArenaValue::BigInt(value)) }
    }

    /// Allocates the number `value` and returns its handle.
    pub fn from_u64(arena: &mut Arena, value: u64) -> (r: BigUint)
        requires
            old(arena).has_room(1),
        ensures
            r.handle == next_handle(old(arena).top()),
            final(arena)@ == old(arena).with_top(
                frame_allocated(old(arena).top(), ValueView::BigInt(value as nat)),
            ),
    {
        BigUint::from_big_nat(arena, BigNat::from_u64(value))
    }

    /// Allocates the number zero and returns its handle.
    pub fn zero(arena: &mut Arena) -> (r: BigUint)
        requires
            old(arena).has_room(1),
        ensures
            r.handle == next_handle(old(arena).top()),
            final(arena)@ == old(arena).with_top(
                frame_allocated(old(arena).top(), ValueView::BigInt(0)),
            ),
    {
        BigUint::from_big_nat(arena, BigNat::zero())
    }

    /// A copy of the number that the handle names.
    pub fn to_big_nat(&self, arena: &Arena) -> (r: BigNat)
        requires
            arena@.len() > 0,
            holds_big_int(arena.top(), self.handle),
        ensures
            r@ == big_int_at(arena.top(), self.handle),
    {
        arena.read_big_int(self.handle).clone()
    }
}

/// The handle of a byte buffer.
#[derive(Clone, Copy, Debug, PartialEq, Eq, Structural)]
pub struct ManagedBuffer {
    pub handle: i32,
}

impl ManagedBuffer {
    /// The typed handle for `handle`.
    pub fn from_raw_handle(handle: i32) -> (r: ManagedBuffer)
        ensures
            r.handle == handle,
    {
        ManagedBuffer { handle }
    }

    /// The handle.
    pub fn get_raw_handle(&self) -> (r: i32)
        ensures
            r == self.handle,
    {
        self.handle
    }

    /// Allocates a buffer that holds `bytes` and returns its handle.
    pub fn new_from_bytes(arena: &mut Arena, bytes: &[u8]) -> (r: ManagedBuffer)
        requires
            old(arena).has_room(1),
        ensures
            r.handle == next_handle(old(arena).top()),
            final(arena)@ == old(arena).with_top(
                frame_allocated(old(arena).top(), ValueView::Buffer(bytes@)),
            ),
    {
        ManagedBuffer { handle: arena.insert_new(ArenaValue::Buffer(slice_to_vec(bytes))) }
    }

    /// A copy of the bytes that the handle names.
    pub fn to_vec(&self, arena: &Arena) -> (r: Vec<u8>)
        requires
            arena@.len() > 0,
            holds_buffer(arena.top(), self.handle),
        ensures
            r@ == buffer_at(arena.top(), self.handle),
    {
        arena.read_buffer(self.handle).clone()
    }
}

/// The address of [`ADDRESS_LEN`] zero bytes.
pub open spec fn zero_address() -> Seq<u8> {
    Seq::new(ADDRESS_LEN as nat, |i: int| 0u8)
}

/// The handle of a byte buffer that holds an address.
#[derive(Clone, Copy, Debug, PartialEq, Eq, Structural)]
pub struct ManagedAddress {
    pub handle: i32,
}

impl ManagedAddress {
    /// The typed handle for `handle`.
    pub fn from_raw_handle(handle: i32) -> (r: ManagedAddress)
        ensures
            r.handle == handle,
    {
        ManagedAddress { handle }
    }

    /// The handle.
    pub fn get_raw_handle(&self) -> (r: i32)
        ensures
            r == self.handle,
    {
        self.handle
    }

    /// Allocates a buffer that holds `address` and returns its handle.
    pub fn from_address(arena: &mut Arena, address: &Vec<u8>) -> (r: ManagedAddress)
        requires
            old(arena).has_room(1),
        ensures
            r.handle == next_handle(old(arena).top()),
            final(arena)@ == old(arena).with_top(
                frame_allocated(old(arena).top(), ValueView::Buffer(address@)),
            ),
    {
        ManagedAddress { handle: arena.insert_new(ArenaValue::Buffer(address.clone())) }
    }

    /// Allocates a buffer that holds the address of zero bytes and returns
    /// its handle.
    pub fn zero(arena: &mut Arena) -> (r: ManagedAddress)
        requires
            old(arena).has_room(1),
        ensures
            r.handle == next_handle(old(arena).top()),
            final(arena)@ == old(arena).with_top(
                frame_allocated(old(arena).top(), ValueView::Buffer(zero_address())),
            ),
    {
        let mut bytes: Vec<u8> = Vec::new();
        let mut i: usize = 0;
        while i < ADDRESS_LEN
            invariant
                i <= ADDRESS_LEN,
                bytes@.len() == i,
                forall|j: int| 0 <= j < i ==> bytes@[j] == 0u8,
            decreases ADDRESS_LEN - i,
        {
            bytes.push(0u8);
            i = i + 1;
        }
        assert(bytes@ =~= zero_address());
        ManagedAddress { handle: arena.insert_new(ArenaValue::Buffer(bytes)) }
    }

    /// A copy of the address that the handle names.
    pub fn to_address(&self, arena: &Arena) -> (r: Vec<u8>)
        requires
            arena@.len() > 0,
            holds_buffer(arena.top(), self.handle),
        ensures
            r@ == buffer_at(arena.top(), self.handle),
    {
        arena.read_buffer(self.handle).clone()
    }
}

/// The smallest number of characters of the ticker of a token.
pub const TICKER_MIN_LENGTH: usize = 3;

/// The largest number of characters of the ticker of a token.
pub const TICKER_MAX_LENGTH: usize = 10;

/// The number of characters that follow the dash of an identifier.
pub const ADDITIONAL_RANDOM_CHARS_LENGTH: usize = 6;

/// The smallest number of characters of an identifier: the shortest
/// ticker, the dash, and the characters that follow it.
pub const IDENTIFIER_MIN_LENGTH: usize = TICKER_MIN_LENGTH + ADDITIONAL_RANDOM_CHARS_LENGTH + 1;

/// The largest number of characters of an identifier: the longest ticker,
/// the dash, and the characters that follow it.
pub const IDENTIFIER_MAX_LENGTH: usize = TICKER_MAX_LENGTH + ADDITIONAL_RANDOM_CHARS_LENGTH + 1;

/// Tells whether `c` can stand in a ticker: a capital letter or a digit.
pub open spec fn is_ticker_char(c: u8) -> bool {
    ('A' as u8 <= c <= 'Z' as u8) || ('0' as u8 <= c <= '9' as u8)
}

/// Tells whether `c` can follow the dash: a small letter or a digit.
pub open spec fn is_random_char(c: u8) -> bool {
    ('a' as u8 <= c <= 'z' as u8) || ('0' as u8 <= c <= '9' as u8)
}

/// Tells whether `name` is a well-formed token identifier: a ticker of
/// three to ten capital letters and digits, a dash, and six small letters
/// and digits.
pub open spec fn valid_dct_identifier(name: Seq<u8>) -> bool {
    let n = name.len() as int;
    let dash = n - ADDITIONAL_RANDOM_CHARS_LENGTH - 1;
    &&& IDENTIFIER_MIN_LENGTH <= n <= IDENTIFIER_MAX_LENGTH
    &&& forall|j: int| 0 <= j < dash ==> is_ticker_char(#[trigger] name[j])
    &&& name[dash] == '-' as u8
    &&& forall|j: int| dash < j < n ==> is_random_char(#[trigger] name[j])
}

/// The identifier of a token as a call names it: the empty string for the
/// native currency, the bytes themselves for any other.
pub open spec fn dct_identifier_of(name: Seq<u8>) -> Seq<u8> {
    if name == moax_name() {
        Seq::empty()
    } else {
        name
    }
}

/// The handle of a byte buffer that holds the identifier of a token, or
/// the name of the native currency.
#[derive(Clone, Copy, Debug, PartialEq, Eq, Structural)]
pub struct TokenIdentifier {
    pub handle: i32,
}

impl TokenIdentifier {
    /// The typed handle for `handle`.
    pub fn from_raw_handle(handle: i32) -> (r: TokenIdentifier)
        ensures
            r.handle == handle,
    {
        TokenIdentifier { handle }
    }

    /// The handle.
    pub fn get_raw_handle(&self) -> (r: i32)
        ensures
            r == self.handle,
    {
        self.handle
    }

    /// Allocates a buffer that holds the name of the native currency and
    /// returns its handle.
    pub fn moax(arena: &mut Arena) -> (r: TokenIdentifier)
        requires
            old(arena).has_room(1),
        ensures
            r.handle == next_handle(old(arena).top()),
            final(arena)@ == old(arena).with_top(
                frame_allocated(old(arena).top(), ValueView::Buffer(moax_name())),
            ),
    {
        TokenIdentifier { handle: arena.insert_new(ArenaValue::Buffer("MOAX".as_bytes_vec())) }
    }

    /// Allocates a buffer that holds the identifier `bytes` and returns its
    /// handle. The empty identifier stands for the native currency and is
    /// held as its name.
    pub fn from_dct_bytes(arena: &mut Arena, bytes: &[u8]) -> (r: TokenIdentifier)
        requires
            old(arena).has_room(1),
        ensures
            r.handle == next_handle(old(arena).top()),
            final(arena)@ == old(arena).with_top(
                frame_allocated(
                    old(arena).top(),
                    ValueView::Buffer(
                        if bytes@.len() == 0 {
                            moax_name()
                        } else {
                            bytes@
                        },
                    ),
                ),
            ),
    {
        if bytes.len() == 0 {
            TokenIdentifier::moax(arena)
        } else {
            TokenIdentifier { handle: arena.insert_new(ArenaValue::Buffer(slice_to_vec(bytes))) }
        }
    }

    /// Tells whether the handle names the native currency.
    pub fn is_moax(&self, arena: &Arena) -> (r: bool)
        requires
            arena@.len() > 0,
            holds_buffer(arena.top(), self.handle),
        ensures
            r == (buffer_at(arena.top(), self.handle) == moax_name()),
    {
        crate::assoc::bytes_eq(arena.read_buffer(self.handle).as_slice(), "MOAX".as_bytes())
    }

    /// Tells whether the handle names a token, not the native currency.
    pub fn is_dct(&self, arena: &Arena) -> (r: bool)
        requires
            arena@.len() > 0,
            holds_buffer(arena.top(), self.handle),
        ensures
            r == (buffer_at(arena.top(), self.handle) != moax_name()),
    {
        !self.is_moax(arena)
    }

    /// A copy of the bytes that the handle names.
    pub fn as_name(&self, arena: &Arena) -> (r: Vec<u8>)
        requires
            arena@.len() > 0,
            holds_buffer(arena.top(), self.handle),
        ensures
            r@ == buffer_at(arena.top(), self.handle),
    {
        arena.read_buffer(self.handle).clone()
    }

    /// Tells whether the handle names a well-formed token identifier.
    pub fn is_valid_dct_identifier(&self, arena: &Arena) -> (r: bool)
        requires
            arena@.len() > 0,
            holds_buffer(arena.top(), self.handle),
        ensures
            r == valid_dct_identifier(buffer_at(arena.top(), self.handle)),
    {
        let name = arena.read_buffer(self.handle);
        let n = name.len();
        if n < IDENTIFIER_MIN_LENGTH || n > IDENTIFIER_MAX_LENGTH {
            return false;
        }
        let dash = n - ADDITIONAL_RANDOM_CHARS_LENGTH - 1;
        let mut i: usize = 0;
        while i < dash
            invariant
                n == name@.len(),
                dash == n - ADDITIONAL_RANDOM_CHARS_LENGTH - 1,
                IDENTIFIER_MIN_LENGTH <= n <= IDENTIFIER_MAX_LENGTH,
                i <= dash,
                name@ == buffer_at(arena.top(), self.handle),
                forall|j: int| 0 <= j < i ==> is_ticker_char(#[trigger] name@[j]),
            decreases dash - i,
        {
            let c = name[i];
            if !((c >= 'A' as u8 && c <= 'Z' as u8) || (c >= '0' as u8 && c <= '9' as u8)) {
                assert(!is_ticker_char(name@[i as int]));
                return false;
            }
            i = i + 1;
        }
        if name[dash] != '-' as u8 {
            return false;
        }
        let mut i: usize = dash + 1;
        while i < n
            invariant
                n == name@.len(),
                dash == n - ADDITIONAL_RANDOM_CHARS_LENGTH - 1,
                dash < i <= n,
                name@ == buffer_at(arena.top(), self.handle),
                IDENTIFIER_MIN_LENGTH <= n <= IDENTIFIER_MAX_LENGTH,
                forall|j: int| 0 <= j < dash ==> is_ticker_char(#[trigger] name@[j]),
                name@[dash as int] == '-' as u8,
                forall|j: int| dash < j < i ==> is_random_char(#[trigger] name@[j]),
            decreases n - i,
        {
            let c = name[i];
            if !((c >= 'a' as u8 && c <= 'z' as u8) || (c >= '0' as u8 && c <= '9' as u8)) {
                assert(!is_random_char(name@[i as int]));
                return false;
            }
            i = i + 1;
        }
        true
    }

    /// The identifier as a call names it: empty for the native currency.
    pub fn to_dct_identifier(&self, arena: &Arena) -> (r: Vec<u8>)
        requires
            arena@.len() > 0,
            holds_buffer(arena.top(), self.handle),
        ensures
            r@ == dct_identifier_of(buffer_at(arena.top(), self.handle)),
    {
        if self.is_moax(arena) {
            Vec::new()
        } else {
            arena.read_buffer(self.handle).clone()
        }
    }
}

/// The handle of a list of handles.
#[derive(Clone, Copy, Debug, PartialEq, Eq, Structural)]
pub struct ManagedVec {
    pub handle: i32,
}

impl ManagedVec {
    /// The typed handle for `handle`.
    pub fn from_raw_handle(handle: i32) -> (r: ManagedVec)
        ensures
            r.handle == handle,
    {
        ManagedVec { handle }
    }

    /// The handle.
    pub fn get_raw_handle(&self) -> (r: i32)
        ensures
            r == self.handle,
    {
        self.handle
    }

    /// The number of handles in the list.
    pub fn len(&self, arena: &Arena) -> (r: usize)
        requires
            arena@.len() > 0,
            holds_handle_vec(arena.top(), self.handle),
        ensures
            r == handle_vec_at(arena.top(), self.handle).len(),
    {
        arena.read_handle_vec(self.handle).len()
    }

    /// The handle at position `index` of the list.
    pub fn get(&self, arena: &Arena, index: usize) -> (r: i32)
        requires
            arena@.len() > 0,
            holds_handle_vec(arena.top(), self.handle),
            index < handle_vec_at(arena.top(), self.handle).len(),
        ensures
            r == handle_vec_at(arena.top(), self.handle)[index as int],
    {
        arena.read_handle_vec(self.handle)[index]
    }
}

} // verus!
