//! Items of fixed size, as a list of them is laid out in a byte buffer.
//!
//! Each item has a payload of a fixed number of bytes. An integer's payload
//! is the integer in big-endian order; a typed handle's payload is its
//! handle as four bytes in big-endian order, in two's complement.

use crate::managed::{BigUint, ManagedAddress, ManagedBuffer, TokenIdentifier};
use vstd::prelude::*;
use vstd::slice::slice_subrange;

verus! {

/// The four bytes of `x`, most significant first.
pub open spec fn be_bytes_u32(x: u32) -> Seq<u8> {
    seq![
        (x / 0x100_0000) as u8,
        (x / 0x1_0000 % 0x100) as u8,
        (x / 0x100 % 0x100) as u8,
        (x % 0x100) as u8,
    ]
}

/// The integer that four bytes hold, most significant first.
pub open spec fn u32_of_be_bytes(b: Seq<u8>) -> u32 {
    (b[0] * 0x100_0000 + b[1] * 0x1_0000 + b[2] * 0x100 + b[3]) as u32
}

/// The eight bytes of `x`, most significant first.
pub open spec fn be_bytes_u64(x: u64) -> Seq<u8> {
    be_bytes_u32((x / 0x1_0000_0000) as u32) + be_bytes_u32((x % 0x1_0000_0000) as u32)
}

/// The integer that eight bytes hold, most significant first.
pub open spec fn u64_of_be_bytes(b: Seq<u8>) -> u64 {
    (u32_of_be_bytes(b.subrange(0, 4)) * 0x1_0000_0000 + u32_of_be_bytes(b.subrange(4, 8))) as u64
}

/// A handle as an unsigned integer, in two's complement.
pub open spec fn handle_to_u32(handle: i32) -> u32 {
    if handle >= 0 {
        handle as u32
    } else {
        (handle + 0x1_0000_0000) as u32
    }
}

/// The handle that an unsigned integer stands for, in two's complement.
pub open spec fn u32_to_handle(x: u32) -> i32 {
    if x < 0x8000_0000 {
        x as i32
    } else {
        (x - 0x1_0000_0000) as i32
    }
}

/// The four bytes of a handle.
pub open spec fn handle_bytes(handle: i32) -> Seq<u8> {
    be_bytes_u32(handle_to_u32(handle))
}

/// The handle that four bytes hold.
pub open spec fn handle_of_bytes(b: Seq<u8>) -> i32 {
    u32_to_handle(u32_of_be_bytes(b))
}

/// Reading the bytes of an integer gives the integer.
pub proof fn lemma_u32_round_trip(x: u32)
    ensures
        be_bytes_u32(x).len() == 4,
        u32_of_be_bytes(be_bytes_u32(x)) == x,
{
    let b0 = x as int / 0x100_0000;
    let b1 = x as int / 0x1_0000 % 0x100;
    let b2 = x as int / 0x100 % 0x100;
    let b3 = x as int % 0x100;
    assert(b0 * 0x100_0000 + b1 * 0x1_0000 + b2 * 0x100 + b3 == x && 0 <= b0 < 0x100) by (nonlinear_arith)
        requires
            0 <= x < 0x1_0000_0000,
            b0 == x as int / 0x100_0000,
            b1 == x as int / 0x1_0000 % 0x100,
            b2 == x as int / 0x100 % 0x100,
            b3 == x as int % 0x100,
    ;
}

/// Writing the integer that four bytes hold gives the bytes.
pub proof fn lemma_u32_bytes_round_trip(b: Seq<u8>)
    requires
        b.len() == 4,
    ensures
        be_bytes_u32(u32_of_be_bytes(b)) == b,
{
    let b0 = b[0] as int;
    let b1 = b[1] as int;
    let b2 = b[2] as int;
    let b3 = b[3] as int;
    let x = b0 * 0x100_0000 + b1 * 0x1_0000 + b2 * 0x100 + b3;
    assert(0 <= x < 0x1_0000_0000 && x / 0x100_0000 == b0 && x / 0x1_0000 % 0x100 == b1 && x
        / 0x100 % 0x100 == b2 && x % 0x100 == b3) by (nonlinear_arith)
        requires
            x == b0 * 0x100_0000 + b1 * 0x1_0000 + b2 * 0x100 + b3,
            0 <= b0 < 0x100,
            0 <= b1 < 0x100,
            0 <= b2 < 0x100,
            0 <= b3 < 0x100,
    ;
    assert(u32_of_be_bytes(b) == x);
    assert(be_bytes_u32(u32_of_be_bytes(b)) =~= b);
}

/// Reading the bytes of an integer gives the integer.
pub proof fn lemma_u64_round_trip(x: u64)
    ensures
        be_bytes_u64(x).len() == 8,
        u64_of_be_bytes(be_bytes_u64(x)) == x,
{
    let hi = (x / 0x1_0000_0000) as u32;
    let lo = (x % 0x1_0000_0000) as u32;
    assert(0 <= x as int / 0x1_0000_0000 < 0x1_0000_0000 && 0 <= x as int % 0x1_0000_0000
        < 0x1_0000_0000 && (x as int / 0x1_0000_0000) * 0x1_0000_0000 + x as int % 0x1_0000_0000
        == x) by (nonlinear_arith)
        requires
            0 <= x < 0x1_0000_0000_0000_0000,
    ;
    lemma_u32_round_trip(hi);
    lemma_u32_round_trip(lo);
    assert(be_bytes_u64(x).subrange(0, 4) =~= be_bytes_u32(hi));
    assert(be_bytes_u64(x).subrange(4, 8) =~= be_bytes_u32(lo));
}

/// Writing the integer that eight bytes hold gives the bytes.
pub proof fn lemma_u64_bytes_round_trip(b: Seq<u8>)
    requires
        b.len() == 8,
    ensures
        be_bytes_u64(u64_of_be_bytes(b)) == b,
{
    let hi = u32_of_be_bytes(b.subrange(0, 4)) as int;
    let lo = u32_of_be_bytes(b.subrange(4, 8)) as int;
    lemma_u32_bytes_round_trip(b.subrange(0, 4));
    lemma_u32_bytes_round_trip(b.subrange(4, 8));
    let x = hi * 0x1_0000_0000 + lo;
    assert(0 <= x < 0x1_0000_0000_0000_0000 && x / 0x1_0000_0000 == hi && x % 0x1_0000_0000 == lo)
        by (nonlinear_arith)
        requires
            x == hi * 0x1_0000_0000 + lo,
            0 <= hi < 0x1_0000_0000,
            0 <= lo < 0x1_0000_0000,
    ;
    assert(u64_of_be_bytes(b) == x);
    assert(be_bytes_u64(u64_of_be_bytes(b)) =~= b);
}

/// A handle and its unsigned form stand for each other.
pub proof fn lemma_handle_round_trip(handle: i32, x: u32)
    ensures
        u32_to_handle(handle_to_u32(handle)) == handle,
        handle_to_u32(u32_to_handle(x)) == x,
{
}

/// The four bytes of `x`, most significant first.
pub fn u32_to_be_bytes(x: u32) -> (r: Vec<u8>)
    ensures
        r@ == be_bytes_u32(x),
{
    let r: Vec<u8> = vec![
        (x / 0x100_0000) as u8,
        (x / 0x1_0000 % 0x100) as u8,
        (x / 0x100 % 0x100) as u8,
        (x % 0x100) as u8,
    ];
    assert(r@ =~= be_bytes_u32(x));
    r
}

/// The integer that four bytes hold, most significant first.
pub fn u32_from_be_bytes(b: &[u8]) -> (r: u32)
    requires
        b@.len() == 4,
    ensures
        r == u32_of_be_bytes(b@),
        be_bytes_u32(r) == b@,
{
    proof {
        lemma_u32_bytes_round_trip(b@);
    }
    (b[0] as u32) * 0x100_0000 + (b[1] as u32) * 0x1_0000 + (b[2] as u32) * 0x100 + (b[3] as u32)
}

/// A handle as an unsigned integer, in two's complement.
pub fn handle_as_u32(handle: i32) -> (r: u32)
    ensures
        r == handle_to_u32(handle),
{
    if handle >= 0 {
        handle as u32
    } else {
        (handle as i64 + 0x1_0000_0000) as u32
    }
}

/// The handle that an unsigned integer stands for, in two's complement.
pub fn handle_from_u32(x: u32) -> (r: i32)
    ensures
        r == u32_to_handle(x),
{
    if x < 0x8000_0000 {
        x as i32
    } else {
        (x as i64 - 0x1_0000_0000) as i32
    }
}

/// An item that a list in a byte buffer can hold.
pub trait ManagedVecItem: Sized {
    /// The number of bytes of a payload.
    spec fn payload_len() -> nat;

    /// The payload of the item.
    spec fn payload(&self) -> Seq<u8>;

    /// The number of bytes of a payload.
    fn payload_size() -> (r: usize)
        ensures
            r == Self::payload_len(),
    ;

    /// Tells whether the payload is the item itself, so that a list of such
    /// items is their bytes one after the other.
    fn skips_reserialization() -> (r: bool)
    ;

    /// The item whose payload is `bytes`.
    fn from_byte_reader(bytes: &[u8]) -> (r: Self)
        requires
            bytes@.len() == Self::payload_len(),
        ensures
            r.payload() == bytes@,
    ;

    /// The payload of the item.
    fn to_byte_writer(&self) -> (r: Vec<u8>)
        ensures
            r@ == self.payload(),
            r@.len() == Self::payload_len(),
    ;
}

impl ManagedVecItem for u32 {
    open spec fn payload_len() -> nat {
        4
    }

    open spec fn payload(&self) -> Seq<u8> {
        be_bytes_u32(*self)
    }

    fn payload_size() -> (r: usize) {
        4
    }

    fn skips_reserialization() -> (r: bool)
        ensures
            r,
    {
        true
    }

    fn from_byte_reader(bytes: &[u8]) -> (r: Self)
        ensures
            r == u32_of_be_bytes(bytes@),
    {
        u32_from_be_bytes(bytes)
    }

    fn to_byte_writer(&self) -> (r: Vec<u8>) {
        u32_to_be_bytes(*self)
    }
}

impl ManagedVecItem for u64 {
    open spec fn payload_len() -> nat {
        8
    }

    open spec fn payload(&self) -> Seq<u8> {
        be_bytes_u64(*self)
    }

    fn payload_size() -> (r: usize) {
        8
    }

    fn skips_reserialization() -> (r: bool)
        ensures
            r,
    {
        true
    }

    fn from_byte_reader(bytes: &[u8]) -> (r: Self)
        ensures
            r == u64_of_be_bytes(bytes@),
    {
        let hi = u32_from_be_bytes(slice_subrange(bytes, 0, 4));
        let lo = u32_from_be_bytes(slice_subrange(bytes, 4, 8));
        proof {
            lemma_u64_bytes_round_trip(bytes@);
        }
        (hi as u64) * 0x1_0000_0000 + (lo as u64)
    }

    fn to_byte_writer(&self) -> (r: Vec<u8>) {
        let mut r = u32_to_be_bytes((*self / 0x1_0000_0000) as u32);
        let mut lo = u32_to_be_bytes((*self % 0x1_0000_0000) as u32);
        r.append(&mut lo);
        r
    }
}

impl ManagedVecItem for BigUint {
    open spec fn payload_len() -> nat {
        4
    }

    open spec fn payload(&self) -> Seq<u8> {
        handle_bytes(self.handle)
    }

    fn payload_size() -> (r: usize) {
        4
    }

    fn skips_reserialization() -> (r: bool)
        ensures
            !r,
    {
        false
    }

    fn from_byte_reader(bytes: &[u8]) -> (r: Self)
        ensures
            r.handle == handle_of_bytes(bytes@),
    {
        BigUint { handle: handle_from_u32(u32_from_be_bytes(bytes)) }
    }

    fn to_byte_writer(&self) -> (r: Vec<u8>) {
        u32_to_be_bytes(handle_as_u32(self.handle))
    }
}

impl ManagedVecItem for ManagedBuffer {
    open spec fn payload_len() -> nat {
        4
    }

    open spec fn payload(&self) -> Seq<u8> {
        handle_bytes(self.handle)
    }

    fn payload_size() -> (r: usize) {
        4
    }

    fn skips_reserialization() -> (r: bool)
        ensures
            !r,
    {
        false
    }

    fn from_byte_reader(bytes: &[u8]) -> (r: Self)
        ensures
            r.handle == handle_of_bytes(bytes@),
    {
        ManagedBuffer { handle: handle_from_u32(u32_from_be_bytes(bytes)) }
    }

    fn to_byte_writer(&self) -> (r: Vec<u8>) {
        u32_to_be_bytes(handle_as_u32(self.handle))
    }
}

impl ManagedVecItem for ManagedAddress {
    open spec fn payload_len() -> nat {
        4
    }

    open spec fn payload(&self) -> Seq<u8> {
        handle_bytes(self.handle)
    }

    fn payload_size() -> (r: usize) {
        4
    }

    fn skips_reserialization() -> (r: bool)
        ensures
            !r,
    {
        false
    }

    fn from_byte_reader(bytes: &[u8]) -> (r: Self)
        ensures
            r.handle == handle_of_bytes(bytes@),
    {
        ManagedAddress { handle: handle_from_u32(u32_from_be_bytes(bytes)) }
    }

    fn to_byte_writer(&self) -> (r: Vec<u8>) {
        u32_to_be_bytes(handle_as_u32(self.handle))
    }
}

impl ManagedVecItem for TokenIdentifier {
    open spec fn payload_len() -> nat {
        4
    }

    open spec fn payload(&self) -> Seq<u8> {
        handle_bytes(self.handle)
    }

    fn payload_size() -> (r: usize) {
        4
    }

    fn skips_reserialization() -> (r: bool)
        ensures
            !r,
    {
        false
    }

    fn from_byte_reader(bytes: &[u8]) -> (r: Self)
        ensures
            r.handle == handle_of_bytes(bytes@),
    {
        TokenIdentifier { handle: handle_from_u32(u32_from_be_bytes(bytes)) }
    }

    fn to_byte_writer(&self) -> (r: Vec<u8>) {
        u32_to_be_bytes(handle_as_u32(self.handle))
    }
}

/// Reads the item whose payload starts at `*index` in `arr`, and moves
/// `*index` past it.
pub fn managed_vec_item_from_slice<T: ManagedVecItem>(arr: &[u8], index: &mut usize) -> (r: T)
    requires
        *old(index) + T::payload_len() <= arr@.len(),
    ensures
        *final(index) == *old(index) + T::payload_len(),
        r.payload() == arr@.subrange(*old(index) as int, *final(index) as int),
{
    let size = T::payload_size();
    let start = *index;
    let len = arr.len();
    let item = T::from_byte_reader(slice_subrange(arr, start, start + size));
    *index = start + size;
    item
}

/// Writes the payload of `item` at `*index` in `arr`, and moves `*index`
/// past it.
pub fn managed_vec_item_to_slice<T: ManagedVecItem>(arr: &mut Vec<u8>, index: &mut usize, item: &T)
    requires
        *old(index) + T::payload_len() <= old(arr)@.len(),
    ensures
        *final(index) == *old(index) + T::payload_len(),
        item.payload().len() == T::payload_len(),
        final(arr)@.len() == old(arr)@.len(),
        final(arr)@ == old(arr)@.subrange(0, *old(index) as int) + item.payload() + old(
            arr,
        )@.subrange(*final(index) as int, old(arr)@.len() as int),
{
    let size = T::payload_size();
    let start = *index;
    let len = arr.len();
    let bytes = item.to_byte_writer();
    let mut i: usize = 0;
    while i < size
        invariant
            i <= size,
            size == bytes@.len(),
            start + size <= len,
            arr@.len() == len,
            old(arr)@.len() == len,
            forall|j: int| 0 <= j < start ==> arr@[j] == old(arr)@[j],
            forall|j: int| start <= j < start + i ==> arr@[j] == bytes@[j - start],
            forall|j: int| start + i <= j < arr@.len() ==> arr@[j] == old(arr)@[j],
        decreases size - i,
    {
        arr.set(start + i, bytes[i]);
        i = i + 1;
    }
    *index = start + size;
    assert(arr@ =~= old(arr)@.subrange(0, start as int) + bytes@ + old(arr)@.subrange(
        start + size,
        old(arr)@.len() as int,
    ));
}

} // verus!
