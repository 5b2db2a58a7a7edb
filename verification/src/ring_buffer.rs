//! A buffer that keeps the newest of what is put into it.
use std::collections::VecDeque;

use vstd::prelude::*;

verus! {

/// A buffer that holds a limited number of values: where it is full, the oldest one makes room
/// for a new one.
#[derive(Debug)]
pub struct RingBuffer<T> {
    values: VecDeque<T>,
    capacity: usize,
}

/// A buffer as values to reason about.
pub struct RingBufferView<T> {
    /// The values, from the oldest to the newest.
    pub values: Seq<T>,
    /// How many values the buffer can hold.
    pub capacity: usize,
}

impl<T> RingBufferView<T> {
    /// The buffer once a value has been added.
    pub open spec fn pushed(self, value: T) -> Self {
        RingBufferView {
            values: if self.values.len() == self.capacity {
                self.values.drop_first().push(value)
            } else {
                self.values.push(value)
            },
            capacity: self.capacity,
        }
    }

    /// The buffer once all its values have been dropped.
    pub open spec fn cleared(self) -> Self {
        RingBufferView { values: Seq::empty(), capacity: self.capacity }
    }
}

impl<T> View for RingBuffer<T> {
    type V = RingBufferView<T>;

    closed spec fn view(&self) -> RingBufferView<T> {
        RingBufferView { values: self.values@, capacity: self.capacity }
    }
}

impl<T> RingBuffer<T> {
    /// The buffer does not hold more than it can.
    pub open spec fn wf(&self) -> bool {
        &&& self@.capacity > 0
        &&& self@.values.len() <= self@.capacity
    }

    /// Creates an empty buffer for the given number of values.
    pub fn new(capacity: usize) -> (buffer: Self)
        requires
            capacity > 0,
        ensures
            buffer.wf(),
            buffer@ == (RingBufferView { values: Seq::<T>::empty(), capacity }),
    {
        RingBuffer { values: VecDeque::new(), capacity }
    }

    /// How many values the buffer can hold.
    pub fn capacity(&self) -> (capacity: usize)
        ensures
            capacity == self@.capacity,
    {
        self.capacity
    }

    /// How many values the buffer holds.
    pub fn len(&self) -> (count: usize)
        ensures
            count == self@.values.len(),
    {
        self.values.len()
    }

    /// The value at the given position, counted from the oldest one.
    pub fn get(&self, index: usize) -> (value: Option<&T>)
        ensures
            value == (if index < self@.values.len() {
                Some(&self@.values[index as int])
            } else {
                None
            }),
    {
        if index < self.values.len() {
            Some(&self.values[index])
        } else {
            None
        }
    }

    /// Adds a value, in place of the oldest one if the buffer is full.
    pub fn push(&mut self, value: T)
        requires
            old(self).wf(),
        ensures
            final(self).wf(),
            final(self)@ == old(self)@.pushed(value),
    {
        if self.values.len() == self.capacity {
            let _ = self.values.pop_front();
        }
        self.values.push_back(value);
    }

    /// Drops all values.
    pub fn clear(&mut self)
        ensures
            final(self)@ == old(self)@.cleared(),
    {
        self.values.clear();
    }
}

impl<T: Clone> Clone for RingBuffer<T> {
    fn clone(&self) -> (buffer: Self)
        ensures
            buffer@.capacity == self@.capacity,
            buffer@.values.len() == self@.values.len(),
            forall|i: int|
                0 <= i < self@.values.len() ==> cloned(
                    #[trigger] self@.values[i],
                    buffer@.values[i],
                ),
    {
        RingBuffer { values: self.values.clone(), capacity: self.capacity }
    }
}

/// A value that is added is the newest one. All values that were there stay in their order, but for
/// the oldest one if the buffer was full, and the buffer never holds more than it can.
pub proof fn law_newest_values_are_kept<T>(buffer: RingBufferView<T>, value: T)
    requires
        0 < buffer.capacity,
        buffer.values.len() <= buffer.capacity,
    ensures
        ({
            let after = buffer.pushed(value);
            let dropped: int = if buffer.values.len() < buffer.capacity {
                0
            } else {
                1
            };
            &&& after.capacity == buffer.capacity
            &&& after.values.len() <= after.capacity
            &&& after.values.len() == buffer.values.len() + 1 - dropped
            &&& after.values[after.values.len() - 1] == value
            &&& forall|i: int|
                dropped <= i < buffer.values.len() ==> after.values[i - dropped]
                    == #[trigger] buffer.values[i]
            &&& buffer.cleared().values.len() == 0
            &&& buffer.cleared().capacity == buffer.capacity
        }),
{
}

} // verus!
