//! Pull-based batch streams.
//!
//! A stream is an ordered, finite sequence of batches behind a cursor.
//! No batch is produced until the consumer asks for it, and the `&mut`
//! receiver of `next` makes every stream single-consumer.

use std::sync::Arc;

use vstd::prelude::*;

use crate::datablocks::DataBlock;

verus! {

/// Clones a shared batch handle.
///
/// Relies on `alloc::sync::Arc::clone`: the clone is a new handle to the
/// same value.
#[verifier::external_body]
pub(crate) fn clone_arc<T>(t: &Arc<T>) -> (r: Arc<T>)
    ensures
        r == *t,
{
    Arc::clone(t)
}

/// An ordered, finite sequence of batches, delivered one at a time.
#[derive(Debug)]
pub struct DataBlockStream {
    /// The batches, in the order the table produced them.
    pub blocks: Vec<Arc<DataBlock>>,
    /// How many batches were already delivered.
    pub cursor: usize,
}

impl DataBlockStream {
    /// A fresh stream over `blocks`, none delivered yet.
    pub fn create(blocks: Vec<Arc<DataBlock>>) -> (r: DataBlockStream)
        ensures
            r.blocks@ == blocks@,
            r.cursor == 0,
    {
        DataBlockStream { blocks, cursor: 0 }
    }

    /// Delivers the next batch in order, or nothing once exhausted.
    pub fn next(&mut self) -> (r: Option<Arc<DataBlock>>)
        ensures
            old(self).cursor < old(self).blocks@.len() ==> {
                &&& r == Some(old(self).blocks@[old(self).cursor as int])
                &&& final(self).blocks@ == old(self).blocks@
                &&& final(self).cursor == old(self).cursor + 1
            },
            old(self).cursor >= old(self).blocks@.len() ==> {
                &&& r == None::<Arc<DataBlock>>
                &&& *final(self) == *old(self)
            },
    {
        if self.cursor < self.blocks.len() {
            let b = clone_arc(&self.blocks[self.cursor]);
            self.cursor = self.cursor + 1;
            Some(b)
        } else {
            None
        }
    }

    /// How many batches are still undelivered.
    pub fn remaining(&self) -> (r: usize)
        ensures
            self.cursor <= self.blocks@.len() ==> r == self.blocks@.len() - self.cursor,
            self.cursor > self.blocks@.len() ==> r == 0,
    {
        if self.cursor <= self.blocks.len() {
            self.blocks.len() - self.cursor
        } else {
            0
        }
    }
}

} // verus!
