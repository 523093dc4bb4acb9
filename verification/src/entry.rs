//! The report's data model: one `Entry` per immediate child of the root,
//! and the wrapping sum that totals entry sizes.

use vstd::prelude::*;

verus! {

/// What kind of child an entry describes.
#[derive(Clone, Copy, PartialEq, Eq, Structural)]
pub enum EntryKind {
    File,
    Dir,
}

/// One immediate child of the root: its display name, its kind, and its
/// size in bytes. For a file the size is the file's own length; for a
/// directory it is the recursive sum over every regular file below it.
pub struct Entry {
    pub name: String,
    pub kind: EntryKind,
    pub size: u64,
}

impl Entry {
    /// True of an entry that describes a directory.
    pub open spec fn is_dir(self) -> bool {
        self.kind is Dir
    }

    /// True of an entry that describes a file.
    pub open spec fn is_file(self) -> bool {
        self.kind is File
    }

    /// An entry for a regular file of `size` bytes.
    pub fn new_file(name: String, size: u64) -> (e: Entry)
        ensures
            e.name == name,
            e.kind == EntryKind::File,
            e.size == size,
    {
        Entry { name, kind: EntryKind::File, size }
    }

    /// An entry for a directory whose contents sum to `size` bytes.
    pub fn new_dir(name: String, size: u64) -> (e: Entry)
        ensures
            e.name == name,
            e.kind == EntryKind::Dir,
            e.size == size,
    {
        Entry { name, kind: EntryKind::Dir, size }
    }
}

/// The sum of a sequence of byte counts in 64-bit wrapping arithmetic,
/// folded from the left.
pub open spec fn wrap_sum(s: Seq<u64>) -> u64
    decreases s.len(),
{
    if s.len() == 0 {
        0u64
    } else {
        vstd::wrapping::u64_specs::wrapping_add(wrap_sum(s.drop_last()), s.last())
    }
}

/// The sizes of a sequence of entries, in order.
pub open spec fn sizes_of(es: Seq<Entry>) -> Seq<u64> {
    es.map_values(|e: Entry| e.size)
}

/// The total that the report's header shows: the wrapping sum of every
/// entry's size.
pub open spec fn total_of(es: Seq<Entry>) -> u64 {
    wrap_sum(sizes_of(es))
}

/// Computes the wrapping sum of every entry's size.
pub fn sum_entry_sizes(es: &Vec<Entry>) -> (r: u64)
    ensures
        r == total_of(es@),
{
    let mut total: u64 = 0;
    let mut i: usize = 0;
    while i < es.len()
        invariant
            i <= es.len(),
            total == wrap_sum(sizes_of(es@.subrange(0, i as int))),
        decreases es.len() - i,
    {
        total = total.wrapping_add(es[i].size);
        proof {
            let pre = es@.subrange(0, i as int);
            let post = es@.subrange(0, i + 1 as int);
            assert(post.drop_last() =~= pre);
            assert(sizes_of(post).drop_last() =~= sizes_of(pre));
            assert(sizes_of(post).last() == es@[i as int].size);
        }
        i = i + 1;
    }
    proof {
        assert(es@.subrange(0, es@.len() as int) =~= es@);
    }
    total
}

} // verus!
