//! A heap-allocated array of a fixed, type-level size.
//!
//! The model tables are far too large for the stack; this wraps a `Vec`
//! whose length is pinned to the type-level capacity.

use vstd::prelude::*;

verus! {

/// A constant-size array kept on the heap.
pub struct Buffer<T: Copy, const SIZE: usize> {
    data: Vec<T>,
}

impl<T: Copy, const SIZE: usize> View for Buffer<T, SIZE> {
    type V = Seq<T>;

    closed spec fn view(&self) -> Seq<T> {
        self.data@
    }
}

impl<T: Copy, const SIZE: usize> Buffer<T, SIZE> {
    /// The buffer always holds exactly `SIZE` elements.
    pub open spec fn wf(&self) -> bool {
        self@.len() == SIZE
    }

    /// A new buffer with every element set to `fill`.
    pub fn new(fill: T) -> (r: Self)
        ensures
            r.wf(),
            r@ == Seq::new(SIZE as nat, |i: int| fill),
    {
        let mut data: Vec<T> = Vec::new();
        let mut i: usize = 0;
        while i < SIZE
            invariant
                i <= SIZE,
                data@.len() == i,
                forall|k: int| 0 <= k < i ==> data@[k] == fill,
            decreases SIZE - i,
        {
            data.push(fill);
            i = i + 1;
        }
        proof {
            assert(data@ =~= Seq::new(SIZE as nat, |i: int| fill));
        }
        Buffer { data }
    }

    /// The element at `index`.
    pub fn get(&self, index: usize) -> (r: T)
        requires
            self.wf(),
            index < SIZE,
        ensures
            r == self@[index as int],
    {
        self.data[index]
    }

    /// Replaces the element at `index`.
    pub fn set(&mut self, index: usize, value: T)
        requires
            old(self).wf(),
            index < SIZE,
        ensures
            final(self).wf(),
            final(self)@ == old(self)@.update(index as int, value),
    {
        self.data.set(index, value);
    }
}

} // verus!
