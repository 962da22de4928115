//! Fixed-capacity storage whose slots start out empty.
//!
//! A [`Chunk`] is allocated once with a number of slots that never changes.
//! Every slot holds the empty value of its type after [`Chunk::new`] and after
//! [`Chunk::reset`]. Slots are read with `chunk[offset]` and written through
//! [`Chunk::index_mut`]; both demand an offset below the capacity, and a caller
//! proves that it is. [`Chunk::get`] and [`Chunk::set`] take any offset and
//! report one that is out of range.
//!
//! A chunk never runs clean-up code for a value that it overwrites: its values
//! are `Copy`, so they have none. Whoever stores handles to resources in a
//! chunk releases them before overwriting or resetting the slot.

use vstd::prelude::*;

verus! {

/// A plain value type with a distinguished empty value: the one that a slot
/// holds before anything is written to it.
pub trait Zeroed: Copy {
    /// The empty value of the type.
    spec fn zero() -> Self;

    /// Produces the empty value.
    fn zeroed() -> (value: Self)
        ensures
            value == Self::zero(),
    ;
}

impl Zeroed for u8 {
    open spec fn zero() -> u8 {
        0
    }

    fn zeroed() -> (value: u8) {
        0
    }
}

impl Zeroed for u16 {
    open spec fn zero() -> u16 {
        0
    }

    fn zeroed() -> (value: u16) {
        0
    }
}

impl Zeroed for u32 {
    open spec fn zero() -> u32 {
        0
    }

    fn zeroed() -> (value: u32) {
        0
    }
}

impl Zeroed for u64 {
    open spec fn zero() -> u64 {
        0
    }

    fn zeroed() -> (value: u64) {
        0
    }
}

impl Zeroed for u128 {
    open spec fn zero() -> u128 {
        0
    }

    fn zeroed() -> (value: u128) {
        0
    }
}

impl Zeroed for usize {
    open spec fn zero() -> usize {
        0
    }

    fn zeroed() -> (value: usize) {
        0
    }
}

impl Zeroed for i8 {
    open spec fn zero() -> i8 {
        0
    }

    fn zeroed() -> (value: i8) {
        0
    }
}

impl Zeroed for i16 {
    open spec fn zero() -> i16 {
        0
    }

    fn zeroed() -> (value: i16) {
        0
    }
}

impl Zeroed for i32 {
    open spec fn zero() -> i32 {
        0
    }

    fn zeroed() -> (value: i32) {
        0
    }
}

impl Zeroed for i64 {
    open spec fn zero() -> i64 {
        0
    }

    fn zeroed() -> (value: i64) {
        0
    }
}

impl Zeroed for i128 {
    open spec fn zero() -> i128 {
        0
    }

    fn zeroed() -> (value: i128) {
        0
    }
}

impl Zeroed for isize {
    open spec fn zero() -> isize {
        0
    }

    fn zeroed() -> (value: isize) {
        0
    }
}

/// The contents of `len` slots to which nothing has been written.
pub open spec fn zeros<T: Zeroed>(len: nat) -> Seq<T> {
    Seq::new(len, |offset: int| T::zero())
}

/// A fixed number of slots of type `T`, viewed as the sequence of the values
/// in them.
pub struct Chunk<T> {
    slots: Vec<T>,
}

impl<T> View for Chunk<T> {
    type V = Seq<T>;

    closed spec fn view(&self) -> Seq<T> {
        self.slots@
    }
}

impl<T: Zeroed> Chunk<T> {
    /// Allocates a chunk of `capacity` slots, each holding the empty value.
    ///
    /// Running out of memory ends the process.
    pub fn new(capacity: usize) -> (chunk: Self)
        ensures
            chunk@.len() == capacity,
            chunk@ == zeros::<T>(capacity as nat),
    {
        let mut slots: Vec<T> = Vec::with_capacity(capacity);
        let mut filled: usize = 0;
        while filled < capacity
            invariant
                filled <= capacity,
                slots@ == zeros::<T>(filled as nat),
            decreases capacity - filled,
        {
            slots.push(T::zeroed());
            filled = filled + 1;
        }
        Chunk { slots }
    }

    /// Puts the empty value back into every slot, whatever was written there.
    pub fn reset(&mut self)
        ensures
            final(self)@.len() == old(self)@.len(),
            final(self)@ == zeros::<T>(old(self)@.len()),
    {
        let capacity = self.slots.len();
        let mut cleared: usize = 0;
        while cleared < capacity
            invariant
                cleared <= capacity,
                self.slots@.len() == capacity,
                forall|offset: int| 0 <= offset < cleared ==> self.slots@[offset] == T::zero(),
            decreases capacity - cleared,
        {
            self.slots[cleared] = T::zeroed();
            cleared = cleared + 1;
        }
    }
}

impl<T> Chunk<T> {
    /// The number of slots, as fixed when the chunk was allocated.
    pub fn len(&self) -> (len: usize)
        ensures
            len == self@.len(),
    {
        self.slots.len()
    }

    /// The slot at `offset`, for writing. The chunk holds afterwards whatever
    /// the caller leaves in that slot, and its other slots as they were.
    pub fn index_mut(&mut self, offset: usize) -> (slot: &mut T)
        requires
            offset < old(self)@.len(),
        ensures
            *slot == old(self)@[offset as int],
            final(self)@ == old(self)@.update(offset as int, *final(slot)),
    {
        &mut self.slots[offset]
    }

    /// The slot at `offset`, or `None` where the chunk has no such slot.
    pub fn get(&self, offset: usize) -> (slot: Option<&T>)
        ensures
            offset < self@.len() ==> slot == Some(&self@[offset as int]),
            offset >= self@.len() ==> slot is None,
    {
        if offset < self.slots.len() {
            Some(&self.slots[offset])
        } else {
            None
        }
    }

    /// Writes `value` to the slot at `offset` and returns `true`, or leaves
    /// the chunk as it is and returns `false` where it has no such slot.
    pub fn set(&mut self, offset: usize, value: T) -> (written: bool)
        ensures
            written == (offset < old(self)@.len()),
            written ==> final(self)@ == old(self)@.update(offset as int, value),
            !written ==> final(self)@ == old(self)@,
    {
        if offset < self.slots.len() {
            self.slots[offset] = value;
            true
        } else {
            false
        }
    }
}

impl<T> core::ops::Index<usize> for Chunk<T> {
    type Output = T;

    /// The slot at `offset`, for reading.
    fn index(&self, offset: usize) -> (slot: &T)
        ensures
            *slot == self@[offset as int],
    {
        &self.slots[offset]
    }
}

impl<T> vstd::std_specs::core::IndexSpecImpl<usize> for Chunk<T> {
    /// Reading demands an offset below the capacity.
    open spec fn index_req(&self, offset: &usize) -> bool {
        *offset < self@.len()
    }
}

/// A chunk that was just allocated with `capacity` slots has that many, and
/// each of them reads as the empty value.
pub proof fn lemma_new_reads_zero<T: Zeroed>(chunk: Chunk<T>, capacity: usize)
    requires
        chunk@ == zeros::<T>(capacity as nat),
    ensures
        chunk@.len() == capacity,
        forall|offset: int| 0 <= offset < capacity ==> #[trigger] chunk@[offset] == T::zero(),
{
}

/// After a reset every slot reads as the empty value, whatever the chunk held
/// before, and the chunk has as many slots as it had.
pub proof fn lemma_reset_reads_zero<T: Zeroed>(before: Chunk<T>, after: Chunk<T>)
    requires
        after@ == zeros::<T>(before@.len()),
    ensures
        after@.len() == before@.len(),
        forall|offset: int| 0 <= offset < before@.len() ==> #[trigger] after@[offset] == T::zero(),
{
}

/// A slot reads as the value that was last written to it: where `after` is
/// what a write of `value` at `offset` made of `before`, it holds `value` at
/// `offset`.
pub proof fn lemma_write_then_read<T>(before: Chunk<T>, after: Chunk<T>, offset: usize, value: T)
    requires
        offset < before@.len(),
        after@ == before@.update(offset as int, value),
    ensures
        after@.len() == before@.len(),
        after@[offset as int] == value,
{
}

/// A write to one slot changes what no other slot reads as: where `after` is
/// what a write at `offset` made of `before`, the two hold the same value at
/// any `other` offset.
pub proof fn lemma_write_keeps_others<T>(
    before: Chunk<T>,
    after: Chunk<T>,
    offset: usize,
    value: T,
    other: usize,
)
    requires
        offset < before@.len(),
        other < before@.len(),
        other != offset,
        after@ == before@.update(offset as int, value),
    ensures
        after@[other as int] == before@[other as int],
{
}

} // verus!
