//! The list of entry slots and file offsets that every library owns.

use vstd::prelude::*;

use crate::error::{LibraryError, Result};

verus! {

/// Entry slots, empty until an entry is loaded, with the file offset of each.
#[derive(Debug)]
pub struct LibraryContainer<T> {
    pub images: Vec<Option<T>>,
    pub index_list: Vec<u32>,
    pub count: usize,
}

impl<T> LibraryContainer<T> {
    /// As many offsets as slots, and `count` is their number.
    pub open spec fn wf(&self) -> bool {
        self.images@.len() == self.index_list@.len() && self.images@.len() == self.count
    }

    /// A container with no entries.
    pub fn new() -> (c: Self)
        ensures
            c.wf(),
            c.count == 0,
    {
        LibraryContainer { images: Vec::new(), index_list: Vec::new(), count: 0 }
    }

    /// A container with one empty slot for each offset.
    pub fn with_offsets(index_list: Vec<u32>) -> (c: Self)
        ensures
            c.wf(),
            c.index_list@ == index_list@,
            forall|i: int| 0 <= i < c.images@.len() ==> c.images@[i] is None,
    {
        let n = index_list.len();
        let mut images: Vec<Option<T>> = Vec::new();
        let mut k: usize = 0;
        while k < n
            invariant
                k <= n,
                images@.len() == k,
                forall|i: int| 0 <= i < k ==> images@[i] is None,
            decreases n - k,
        {
            images.push(None);
            k = k + 1;
        }
        LibraryContainer { images, index_list, count: n }
    }

    /// Appends an entry; its offset is assigned on save.
    pub fn add(&mut self, image: T)
        requires
            old(self).wf(),
        ensures
            final(self).wf(),
            final(self).images@ == old(self).images@.push(Some(image)),
            final(self).index_list@ == old(self).index_list@.push(0),
            final(self).count == old(self).count + 1,
    {
        self.images.push(Some(image));
        self.index_list.push(0);
        self.count = self.images.len();
    }

    /// Replaces the entry at `index`.
    pub fn replace(&mut self, index: usize, image: T) -> (r: Result<()>)
        requires
            old(self).wf(),
        ensures
            final(self).wf(),
            index < old(self).count ==> r is Ok && final(self).images@ == old(self).images@.update(
                index as int,
                Some(image),
            ) && final(self).index_list@ == old(self).index_list@ && final(self).count == old(self).count,
            index >= old(self).count ==> r == Err::<(), LibraryError>(LibraryError::IndexOutOfBounds(index))
                && *final(self) == *old(self),
    {
        if index >= self.images.len() {
            return Err(LibraryError::IndexOutOfBounds(index));
        }
        self.images.set(index, Some(image));
        Ok(())
    }

    /// Inserts an entry before `index`; `index == count` appends.
    pub fn insert(&mut self, index: usize, image: T) -> (r: Result<()>)
        requires
            old(self).wf(),
        ensures
            final(self).wf(),
            index <= old(self).count ==> r is Ok && final(self).images@ == old(self).images@.insert(
                index as int,
                Some(image),
            ) && final(self).index_list@ == old(self).index_list@.insert(index as int, 0)
                && final(self).count == old(self).count + 1,
            index > old(self).count ==> r == Err::<(), LibraryError>(LibraryError::IndexOutOfBounds(index))
                && *final(self) == *old(self),
    {
        if index > self.images.len() {
            return Err(LibraryError::IndexOutOfBounds(index));
        }
        self.images.insert(index, Some(image));
        self.index_list.insert(index, 0);
        self.count = self.images.len();
        Ok(())
    }

    /// Removes the entry at `index`. Removing from a container of at most
    /// one entry empties it, whatever `index` is.
    pub fn remove(&mut self, index: usize) -> (r: Result<()>)
        requires
            old(self).wf(),
        ensures
            final(self).wf(),
            old(self).count <= 1 ==> r is Ok && final(self).count == 0,
            old(self).count > 1 && index < old(self).count ==> r is Ok && final(self).images@
                == old(self).images@.remove(index as int) && final(self).index_list@
                == old(self).index_list@.remove(index as int) && final(self).count == old(self).count
                - 1,
            old(self).count > 1 && index >= old(self).count ==> r == Err::<(), LibraryError>(
                LibraryError::IndexOutOfBounds(index),
            ) && *final(self) == *old(self),
    {
        if self.images.len() <= 1 {
            self.images.clear();
            self.index_list.clear();
            self.count = 0;
            return Ok(());
        }
        if index >= self.images.len() {
            return Err(LibraryError::IndexOutOfBounds(index));
        }
        self.images.remove(index);
        self.index_list.remove(index);
        self.count = self.images.len();
        Ok(())
    }
}

} // verus!
