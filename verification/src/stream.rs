//! What is counted while a stream of record batches is drained.
use vstd::prelude::*;
use crate::totals::law_sizes_add_up;
use crate::totals::size_numbers;
use crate::totals::sum;

verus! {

/// The record batches that came so far, their rows, and the bytes that they take in memory.
#[derive(Clone, Copy, Debug, PartialEq, Eq, Structural)]
pub struct DrainCount {
    pub rows: usize,
    pub batches: usize,
    pub bytes: usize,
}

impl DrainCount {
    /// Nothing yet.
    pub fn start() -> (r: DrainCount)
        ensures
            r == (DrainCount { rows: 0, batches: 0, bytes: 0 }),
    {
        DrainCount { rows: 0, batches: 0, bytes: 0 }
    }

    /// Counts one more record batch.
    pub fn on_batch(&mut self, rows: usize, bytes: usize)
        requires
            old(self).rows + rows <= usize::MAX,
            old(self).batches < usize::MAX,
            old(self).bytes + bytes <= usize::MAX,
        ensures
            final(self).rows == old(self).rows + rows,
            final(self).batches == old(self).batches + 1,
            final(self).bytes == old(self).bytes + bytes,
            *final(self) == old(self).after_batch(rows, bytes),
    {
        self.rows = self.rows + rows;
        self.batches = self.batches + 1;
        self.bytes = self.bytes + bytes;
    }

    /// The count after one more record batch.
    pub open spec fn after_batch(self, rows: usize, bytes: usize) -> DrainCount {
        DrainCount {
            rows: (self.rows + rows) as usize,
            batches: (self.batches + 1) as usize,
            bytes: (self.bytes + bytes) as usize,
        }
    }

    /// The count after record batches of these rows and bytes, one after the other.
    pub open spec fn after_batches(self, rows: Seq<usize>, bytes: Seq<usize>) -> DrainCount
        decreases rows.len(),
    {
        if rows.len() == 0 {
            self
        } else {
            self.after_batches(rows.drop_last(), bytes.drop_last()).after_batch(
                rows.last(),
                bytes.last(),
            )
        }
    }
}

/// When a stream is drained, every batch was counted once, with all of its rows and bytes.
pub proof fn law_everything_is_counted(rows: Seq<usize>, bytes: Seq<usize>)
    requires
        rows.len() == bytes.len() <= usize::MAX,
        sum(size_numbers(rows)) <= usize::MAX,
        sum(size_numbers(bytes)) <= usize::MAX,
    ensures
        ({
            let count = (DrainCount { rows: 0, batches: 0, bytes: 0 }).after_batches(rows, bytes);
            &&& count.rows == sum(size_numbers(rows))
            &&& count.batches == rows.len()
            &&& count.bytes == sum(size_numbers(bytes))
        }),
    decreases rows.len(),
{
    if rows.len() > 0 {
        assert(rows =~= rows.drop_last().push(rows.last()));
        assert(bytes =~= bytes.drop_last().push(bytes.last()));
        law_sizes_add_up(rows.drop_last(), rows.last());
        law_sizes_add_up(bytes.drop_last(), bytes.last());
        law_everything_is_counted(rows.drop_last(), bytes.drop_last());
    } else {
        law_sizes_add_up(rows, 0);
        assert(rows =~= Seq::<usize>::empty());
        assert(bytes =~= Seq::<usize>::empty());
    }
}

} // verus!
