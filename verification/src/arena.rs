//! The value arena: the values that running contract code refers to by
//! handle.
//!
//! The arena is a stack of frames, one for each call that is being run. A
//! handle names a value of the frame on top and of no other. Each frame has
//! four reserved slots, which exist from the start, and any number of
//! values allocated in it, whose handles count up from
//! [`NEW_HANDLE_START_FROM`]. Closing a frame drops its values; the handles
//! of the frame below mean again what they meant before.

use crate::assoc::DeepClone;
use crate::big_nat::BigNat;
use vstd::prelude::*;

verus! {

/// The handle of the first value allocated in a frame.
pub const NEW_HANDLE_START_FROM: i32 = -200;

/// The reserved slot of the native amount of the running call.
pub const CALL_VALUE_MOAX: i32 = -201;

/// The reserved slot of the list of all token transfers of the running call.
pub const CALL_VALUE_MULTI_DCT: i32 = -202;

/// The reserved slot of the amount of the single token transfer of the
/// running call.
pub const CALL_VALUE_SINGLE_DCT: i32 = -203;

/// A reserved slot for a byte buffer that lives no longer than one
/// operation.
pub const MBUF_TEMPORARY_1: i32 = -204;

/// The number of values that can be allocated in one frame: the handles
/// from [`NEW_HANDLE_START_FROM`] up to the largest `i32`.
pub const FRAME_CAPACITY: usize = 2147483848;

/// A value of the arena, as the contracts speak of it.
pub enum ValueView {
    BigInt(nat),
    Buffer(Seq<u8>),
    HandleVec(Seq<i32>),
}

/// A value of the arena.
#[derive(Debug)]
pub enum ArenaValue {
    /// A natural number of any size.
    BigInt(BigNat),
    /// A byte buffer.
    Buffer(Vec<u8>),
    /// A list of handles.
    HandleVec(Vec<i32>),
}

impl View for ArenaValue {
    type V = ValueView;

    open spec fn view(&self) -> ValueView {
        match self {
            ArenaValue::BigInt(n) => ValueView::BigInt(n@),
            ArenaValue::Buffer(b) => ValueView::Buffer(b@),
            ArenaValue::HandleVec(v) => ValueView::HandleVec(v@),
        }
    }
}

impl DeepClone for ArenaValue {
    fn deep_clone(&self) -> (r: Self) {
        match self {
            ArenaValue::BigInt(n) => ArenaValue::BigInt(n.clone()),
            ArenaValue::Buffer(b) => ArenaValue::Buffer(b.clone()),
            ArenaValue::HandleVec(v) => ArenaValue::HandleVec(v.clone()),
        }
    }
}

/// One frame, as the contracts speak of it: the number of values allocated
/// in it, and the value at each of its handles.
pub struct FrameView {
    pub fresh: nat,
    pub entries: Map<i32, ValueView>,
}

/// Tells whether `handle` is one of the reserved slots.
pub open spec fn is_reserved(handle: i32) -> bool {
    MBUF_TEMPORARY_1 <= handle < NEW_HANDLE_START_FROM
}

/// Tells whether `handle` names a value of a frame in which `fresh` values
/// were allocated.
pub open spec fn handle_in_frame(fresh: nat, handle: i32) -> bool {
    is_reserved(handle) || NEW_HANDLE_START_FROM <= handle < NEW_HANDLE_START_FROM + fresh
}

/// The handle that the next allocation in the frame returns.
pub open spec fn next_handle(frame: FrameView) -> int {
    NEW_HANDLE_START_FROM + frame.fresh
}

/// What a reserved slot holds in a new frame: zero in the slots of amounts,
/// the empty list in the slot of the transfers, the empty buffer in the
/// temporary slot.
pub open spec fn initial_slot(handle: i32) -> ValueView {
    if handle == CALL_VALUE_MULTI_DCT {
        ValueView::HandleVec(Seq::empty())
    } else if handle == MBUF_TEMPORARY_1 {
        ValueView::Buffer(Seq::empty())
    } else {
        ValueView::BigInt(0)
    }
}

/// A frame in which nothing was allocated and nothing written.
pub open spec fn new_frame() -> FrameView {
    FrameView {
        fresh: 0,
        entries: Map::new(|h: i32| is_reserved(h), |h: i32| initial_slot(h)),
    }
}

/// The frame after `value` was written at `handle`.
pub open spec fn frame_written(frame: FrameView, handle: i32, value: ValueView) -> FrameView {
    FrameView { fresh: frame.fresh, entries: frame.entries.insert(handle, value) }
}

/// The frame after a value was allocated in it, holding `value`.
pub open spec fn frame_allocated(frame: FrameView, value: ValueView) -> FrameView {
    FrameView {
        fresh: frame.fresh + 1,
        entries: frame.entries.insert(next_handle(frame) as i32, value),
    }
}

/// Tells whether the frame has a number at `handle`.
pub open spec fn holds_big_int(frame: FrameView, handle: i32) -> bool {
    frame.entries.dom().contains(handle) && frame.entries[handle] is BigInt
}

/// Tells whether the frame has a byte buffer at `handle`.
pub open spec fn holds_buffer(frame: FrameView, handle: i32) -> bool {
    frame.entries.dom().contains(handle) && frame.entries[handle] is Buffer
}

/// Tells whether the frame has a list of handles at `handle`.
pub open spec fn holds_handle_vec(frame: FrameView, handle: i32) -> bool {
    frame.entries.dom().contains(handle) && frame.entries[handle] is HandleVec
}

/// The number at `handle`.
pub open spec fn big_int_at(frame: FrameView, handle: i32) -> nat {
    match frame.entries[handle] {
        ValueView::BigInt(n) => n,
        _ => 0,
    }
}

/// The bytes of the buffer at `handle`.
pub open spec fn buffer_at(frame: FrameView, handle: i32) -> Seq<u8> {
    match frame.entries[handle] {
        ValueView::Buffer(b) => b,
        _ => Seq::empty(),
    }
}

/// The handles of the list at `handle`.
pub open spec fn handle_vec_at(frame: FrameView, handle: i32) -> Seq<i32> {
    match frame.entries[handle] {
        ValueView::HandleVec(v) => v,
        _ => Seq::empty(),
    }
}

/// Tells whether the handles of the frame are the reserved slots and the
/// handles of the values allocated in it.
pub open spec fn frame_well_formed(frame: FrameView) -> bool {
    forall|h: i32| #[trigger] frame.entries.dom().contains(h) <==> handle_in_frame(frame.fresh, h)
}

struct Frame {
    moax: ArenaValue,
    multi_dct: ArenaValue,
    single_dct: ArenaValue,
    mbuf_temporary: ArenaValue,
    values: Vec<ArenaValue>,
}

impl Frame {
    spec fn slot(self, handle: i32) -> ValueView {
        if handle == CALL_VALUE_MOAX {
            self.moax@
        } else if handle == CALL_VALUE_MULTI_DCT {
            self.multi_dct@
        } else if handle == CALL_VALUE_SINGLE_DCT {
            self.single_dct@
        } else if handle == MBUF_TEMPORARY_1 {
            self.mbuf_temporary@
        } else {
            self.values@[handle - NEW_HANDLE_START_FROM]@
        }
    }
}

impl View for Frame {
    type V = FrameView;

    closed spec fn view(&self) -> FrameView {
        FrameView {
            fresh: self.values@.len(),
            entries: Map::new(
                |h: i32| handle_in_frame(self.values@.len(), h),
                |h: i32| self.slot(h),
            ),
        }
    }
}

/// The stack of frames.
pub struct Arena {
    frames: Vec<Frame>,
}

impl View for Arena {
    type V = Seq<FrameView>;

    closed spec fn view(&self) -> Seq<FrameView> {
        Seq::new(self.frames@.len(), |i: int| self.frames@[i]@)
    }
}

impl Arena {
    /// The frame on top: the frame of the call that is running.
    pub open spec fn top(&self) -> FrameView {
        self@.last()
    }

    /// Tells whether `handle` names a value of the frame on top.
    pub open spec fn valid(&self, handle: i32) -> bool {
        self@.len() > 0 && self.top().entries.dom().contains(handle)
    }

    /// Tells whether the frame on top has room for `n` more values.
    pub open spec fn has_room(&self, n: nat) -> bool {
        self@.len() > 0 && self.top().fresh + n <= FRAME_CAPACITY
    }

    /// The arena with `frame` on top in place of the frame that was there.
    pub open spec fn with_top(&self, frame: FrameView) -> Seq<FrameView> {
        self@.update(self@.len() - 1, frame)
    }

    /// Every frame holds the reserved slots and the values allocated in it,
    /// and nothing else.
    pub proof fn lemma_well_formed(&self)
        ensures
            forall|i: int| 0 <= i < self@.len() ==> frame_well_formed(#[trigger] self@[i]),
    {
    }

    /// The arena without any frame.
    pub fn new() -> (r: Arena)
        ensures
            r@ == Seq::<FrameView>::empty(),
    {
        let r = Arena { frames: Vec::new() };
        assert(r@ =~= Seq::<FrameView>::empty());
        r
    }

    /// The number of frames.
    pub fn depth(&self) -> (r: usize)
        ensures
            r == self@.len(),
    {
        self.frames.len()
    }

    /// Opens a frame on top of the others.
    pub fn push_frame(&mut self)
        ensures
            final(self)@ == old(self)@.push(new_frame()),
    {
        let frame = Frame {
            moax: ArenaValue::BigInt(BigNat::zero()),
            multi_dct: ArenaValue::HandleVec(Vec::new()),
            single_dct: ArenaValue::BigInt(BigNat::zero()),
            mbuf_temporary: ArenaValue::Buffer(Vec::new()),
            values: Vec::new(),
        };
        proof {
            assert(frame@.entries =~= new_frame().entries);
        }
        self.frames.push(frame);
        proof {
            assert(self@ =~= old(self)@.push(new_frame()));
        }
    }

    /// Closes the frame on top, which drops every value allocated in it.
    pub fn pop_frame(&mut self)
        requires
            old(self)@.len() > 0,
        ensures
            final(self)@ == old(self)@.drop_last(),
    {
        let _ = self.frames.pop();
        proof {
            assert(self@ =~= old(self)@.drop_last());
        }
    }

    /// Tells whether `handle` names a value of the frame on top.
    pub fn is_valid(&self, handle: i32) -> (r: bool)
        ensures
            r == self.valid(handle),
    {
        let depth = self.frames.len();
        if depth == 0 {
            return false;
        }
        let frame = &self.frames[depth - 1];
        if handle < MBUF_TEMPORARY_1 {
            false
        } else if handle < NEW_HANDLE_START_FROM {
            true
        } else {
            let offset: i64 = handle as i64 - NEW_HANDLE_START_FROM as i64;
            (offset as usize) < frame.values.len()
        }
    }

    /// Tells whether the frame on top has room for `n` more values.
    pub fn can_allocate(&self, n: usize) -> (r: bool)
        ensures
            r == self.has_room(n as nat),
    {
        let depth = self.frames.len();
        if depth == 0 {
            return false;
        }
        let used = self.frames[depth - 1].values.len();
        used <= FRAME_CAPACITY && n <= FRAME_CAPACITY - used
    }

    /// The number of values allocated in the frame on top.
    pub fn fresh_count(&self) -> (r: usize)
        requires
            self@.len() > 0,
        ensures
            r == self.top().fresh,
    {
        self.frames[self.frames.len() - 1].values.len()
    }

    /// The value at `handle`.
    pub fn read(&self, handle: i32) -> (r: &ArenaValue)
        requires
            self.valid(handle),
        ensures
            r@ == self.top().entries[handle],
    {
        let frame = &self.frames[self.frames.len() - 1];
        if handle == CALL_VALUE_MOAX {
            &frame.moax
        } else if handle == CALL_VALUE_MULTI_DCT {
            &frame.multi_dct
        } else if handle == CALL_VALUE_SINGLE_DCT {
            &frame.single_dct
        } else if handle == MBUF_TEMPORARY_1 {
            &frame.mbuf_temporary
        } else {
            let offset: i64 = handle as i64 - NEW_HANDLE_START_FROM as i64;
            &frame.values[offset as usize]
        }
    }

    /// The number at `handle`.
    pub fn read_big_int(&self, handle: i32) -> (r: &BigNat)
        requires
            self@.len() > 0,
            holds_big_int(self.top(), handle),
        ensures
            r@ == big_int_at(self.top(), handle),
    {
        match self.read(handle) {
            ArenaValue::BigInt(n) => n,
            _ => unreached(),
        }
    }

    /// The byte buffer at `handle`.
    pub fn read_buffer(&self, handle: i32) -> (r: &Vec<u8>)
        requires
            self@.len() > 0,
            holds_buffer(self.top(), handle),
        ensures
            r@ == buffer_at(self.top(), handle),
    {
        match self.read(handle) {
            ArenaValue::Buffer(b) => b,
            _ => unreached(),
        }
    }

    /// The list of handles at `handle`.
    pub fn read_handle_vec(&self, handle: i32) -> (r: &Vec<i32>)
        requires
            self@.len() > 0,
            holds_handle_vec(self.top(), handle),
        ensures
            r@ == handle_vec_at(self.top(), handle),
    {
        match self.read(handle) {
            ArenaValue::HandleVec(v) => v,
            _ => unreached(),
        }
    }

    /// Puts `value` at `handle`, in place of the value that was there.
    pub fn write(&mut self, handle: i32, value: ArenaValue)
        requires
            old(self).valid(handle),
        ensures
            final(self)@ == old(self).with_top(frame_written(old(self).top(), handle, value@)),
    {
        let mut frame = self.frames.pop().unwrap();
        let ghost before = frame@;
        if handle == CALL_VALUE_MOAX {
            frame.moax = value;
        } else if handle == CALL_VALUE_MULTI_DCT {
            frame.multi_dct = value;
        } else if handle == CALL_VALUE_SINGLE_DCT {
            frame.single_dct = value;
        } else if handle == MBUF_TEMPORARY_1 {
            frame.mbuf_temporary = value;
        } else {
            let offset: i64 = handle as i64 - NEW_HANDLE_START_FROM as i64;
            frame.values.set(offset as usize, value);
        }
        proof {
            assert(frame@.entries =~= frame_written(before, handle, value@).entries);
        }
        self.frames.push(frame);
        proof {
            assert(self@ =~= old(self).with_top(frame_written(old(self).top(), handle, value@)));
        }
    }

    /// Allocates a value in the frame on top, holding `value`, and returns
    /// its handle.
    pub fn insert_new(&mut self, value: ArenaValue) -> (handle: i32)
        requires
            old(self).has_room(1),
        ensures
            handle == next_handle(old(self).top()),
            final(self)@ == old(self).with_top(frame_allocated(old(self).top(), value@)),
    {
        let mut frame = self.frames.pop().unwrap();
        let ghost before = frame@;
        let used = frame.values.len();
        let handle: i32 = (used as i64 + NEW_HANDLE_START_FROM as i64) as i32;
        frame.values.push(value);
        proof {
            assert(frame@.entries =~= frame_allocated(before, value@).entries);
        }
        self.frames.push(frame);
        proof {
            assert(self@ =~= old(self).with_top(frame_allocated(old(self).top(), value@)));
        }
        handle
    }

    /// Allocates a value in the frame on top, holding the empty byte buffer,
    /// and returns its handle.
    pub fn allocate(&mut self) -> (handle: i32)
        requires
            old(self).has_room(1),
        ensures
            handle == next_handle(old(self).top()),
            final(self)@ == old(self).with_top(
                frame_allocated(old(self).top(), ValueView::Buffer(Seq::empty())),
            ),
    {
        self.insert_new(ArenaValue::Buffer(Vec::new()))
    }

    /// Allocates a value that is a copy of the value at `handle`, and
    /// returns its handle.
    pub fn duplicate(&mut self, handle: i32) -> (copy: i32)
        requires
            old(self).valid(handle),
            old(self).has_room(1),
        ensures
            copy == next_handle(old(self).top()),
            final(self)@ == old(self).with_top(
                frame_allocated(old(self).top(), old(self).top().entries[handle]),
            ),
    {
        let value = self.read(handle).deep_clone();
        self.insert_new(value)
    }
}

} // verus!
