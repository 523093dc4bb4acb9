//! The state of a recursive directory sizing: a work pool of directories
//! still to be enumerated and a running total of the file sizes reported
//! so far.
//!
//! The sizing itself is a loop around this state: take a directory out of
//! the pool, enumerate it, then record the sizes of its files and the
//! paths of its sub-directories. Enumeration is I/O and lives with the
//! caller; everything the caller decides with is specified here. Whatever
//! order directories are taken in, the final total is the wrapping sum of
//! every file size ever recorded.

use vstd::prelude::*;
use crate::entry::wrap_sum;

verus! {

/// One directory traversal in progress.
pub struct Traversal {
    pending: Vec<String>,
    total: u64,
    reported: Ghost<Seq<u64>>,
}

impl Traversal {
    /// The directory paths waiting to be enumerated, in queue order.
    pub closed spec fn pending(self) -> Seq<Seq<char>> {
        self.pending@.map_values(|p: String| p@)
    }

    /// The sizes of every file reported so far, in the order they came.
    pub closed spec fn reported(self) -> Seq<u64> {
        self.reported@
    }

    /// The running total always equals the wrapping sum of the reported
    /// sizes.
    pub closed spec fn wf(self) -> bool {
        self.total == wrap_sum(self.reported@)
    }

    /// A fresh traversal: the pool holds only the root, nothing is
    /// reported yet.
    pub fn new(root: String) -> (t: Traversal)
        ensures
            t.wf(),
            t.pending() == seq![root@],
            t.reported() == Seq::<u64>::empty(),
    {
        let t = Traversal { pending: vec![root], total: 0, reported: Ghost(Seq::empty()) };
        proof {
            assert(t.pending() =~= seq![root@]);
        }
        t
    }

    /// Takes the next directory out of the pool. Returns `None` exactly
    /// when the pool is empty, which is when the traversal is finished.
    pub fn next_dir(&mut self) -> (r: Option<String>)
        ensures
            final(self).reported() == old(self).reported(),
            final(self).wf() == old(self).wf(),
            old(self).pending().len() == 0 ==> r is None && final(self).pending() == old(
                self,
            ).pending(),
            old(self).pending().len() > 0 ==> (r matches Some(p) && p@ == old(self).pending()[0]
                && final(self).pending() == old(self).pending().drop_first()),
    {
        if self.pending.len() == 0 {
            None
        } else {
            let p = self.pending.remove(0);
            proof {
                assert(self.pending() =~= old(self).pending().drop_first());
            }
            Some(p)
        }
    }

    /// Records one enumerated directory: every file size in `file_sizes`
    /// is added to the total in wrapping arithmetic, and every path in
    /// `subdirs` joins the pool.
    pub fn record(&mut self, file_sizes: &Vec<u64>, subdirs: Vec<String>)
        requires
            old(self).wf(),
        ensures
            final(self).wf(),
            final(self).reported() == old(self).reported() + file_sizes@,
            final(self).pending() == old(self).pending() + subdirs@.map_values(
                |p: String| p@,
            ),
    {
        let mut i: usize = 0;
        while i < file_sizes.len()
            invariant
                i <= file_sizes.len(),
                self.total == wrap_sum(self.reported@),
                self.reported@ == old(self).reported@ + file_sizes@.subrange(0, i as int),
                self.pending == old(self).pending,
            decreases file_sizes.len() - i,
        {
            self.total = self.total.wrapping_add(file_sizes[i]);
            proof {
                let next = old(self).reported@ + file_sizes@.subrange(0, i + 1 as int);
                assert(next.drop_last() =~= self.reported@);
                assert(next.last() == file_sizes@[i as int]);
                self.reported@ = next;
            }
            i = i + 1;
        }
        let mut subs = subdirs;
        let ghost subs0 = subs@;
        self.pending.append(&mut subs);
        proof {
            assert(self.reported@ =~= old(self).reported@ + file_sizes@);
            assert(self.pending() =~= old(self).pending() + subs0.map_values(|p: String| p@));
        }
    }

    /// True when the pool is empty and the traversal is finished.
    pub fn done(&self) -> (r: bool)
        ensures
            r == (self.pending().len() == 0),
    {
        self.pending.len() == 0
    }

    /// The result of the traversal: the wrapping sum of every reported
    /// file size.
    pub fn total(&self) -> (r: u64)
        requires
            self.wf(),
        ensures
            r == wrap_sum(self.reported()),
    {
        self.total
    }
}

} // verus!
