//! The report itself: partition the entries, sort each partition by size
//! descending with a stable order, and emit the text — a header line with
//! the grand total, then one line per directory, then one line per file.

use vstd::prelude::*;
use vstd::string::StringExecFns;
use crate::entry::{Entry, EntryKind, total_of};
use crate::units::{human_size, spec_human_size};

verus! {

/// The directory entries of `es`, in their original order.
pub open spec fn dirs_of(es: Seq<Entry>) -> Seq<Entry>
    decreases es.len(),
{
    if es.len() == 0 {
        Seq::empty()
    } else if es.last().is_dir() {
        dirs_of(es.drop_last()).push(es.last())
    } else {
        dirs_of(es.drop_last())
    }
}

/// The file entries of `es`, in their original order.
pub open spec fn files_of(es: Seq<Entry>) -> Seq<Entry>
    decreases es.len(),
{
    if es.len() == 0 {
        Seq::empty()
    } else if es.last().is_file() {
        files_of(es.drop_last()).push(es.last())
    } else {
        files_of(es.drop_last())
    }
}

/// Where a stable descending insertion puts `e`: after every entry whose
/// size is at least `e.size`, so entries of equal size keep their order.
pub open spec fn insert_desc(s: Seq<Entry>, e: Entry) -> Seq<Entry>
    decreases s.len(),
{
    if s.len() == 0 {
        seq![e]
    } else if e.size > s.last().size {
        insert_desc(s.drop_last(), e).push(s.last())
    } else {
        s.push(e)
    }
}

/// Stable sort by size, largest first: insert each entry in turn into the
/// sorted picture of what came before it.
pub open spec fn spec_sort_desc(s: Seq<Entry>) -> Seq<Entry>
    decreases s.len(),
{
    if s.len() == 0 {
        Seq::empty()
    } else {
        insert_desc(spec_sort_desc(s.drop_last()), s.last())
    }
}

/// One rendered line: the connector, the name, the human-readable size,
/// and a line terminator.
pub open spec fn spec_line(conn: Seq<char>, e: Entry) -> Seq<char> {
    conn + seq![' '] + e.name@ + seq![' '] + spec_human_size(e.size as nat) + seq!['\n']
}

/// The directory lines. Every connector is `├──` except on the last
/// directory, which gets `└──` exactly when no file lines follow.
pub open spec fn spec_dir_lines(ds: Seq<Entry>, no_files: bool) -> Seq<char>
    decreases ds.len(),
{
    if ds.len() == 0 {
        Seq::empty()
    } else {
        spec_line(
            if ds.len() == 1 && no_files {
                seq!['└', '─', '─']
            } else {
                seq!['├', '─', '─']
            },
            ds[0],
        ) + spec_dir_lines(ds.drop_first(), no_files)
    }
}

/// The file lines: `├` on every file but the last, which gets `└`.
pub open spec fn spec_file_lines(fs: Seq<Entry>) -> Seq<char>
    decreases fs.len(),
{
    if fs.len() == 0 {
        Seq::empty()
    } else {
        spec_line(
            if fs.len() == 1 {
                seq!['└']
            } else {
                seq!['├']
            },
            fs[0],
        ) + spec_file_lines(fs.drop_first())
    }
}

/// The header line: the root's display text, one space, the human-readable
/// total, and a line terminator.
pub open spec fn spec_header(root: Seq<char>, total: u64) -> Seq<char> {
    root + seq![' '] + spec_human_size(total as nat) + seq!['\n']
}

/// The whole report: the header with the wrapping sum of all entry sizes,
/// then the sorted directory lines, then the sorted file lines.
pub open spec fn spec_render(root: Seq<char>, es: Seq<Entry>) -> Seq<char> {
    spec_header(root, total_of(es)) + spec_dir_lines(
        spec_sort_desc(dirs_of(es)),
        files_of(es).len() == 0,
    ) + spec_file_lines(spec_sort_desc(files_of(es)))
}

/// An entry equal to `*e`, field by field.
fn clone_entry(e: &Entry) -> (r: Entry)
    ensures
        r == *e,
{
    Entry { name: e.name.clone(), kind: e.kind, size: e.size }
}

/// Splits the entries into directories and files, keeping the original
/// order within each side.
pub fn partition(es: &Vec<Entry>) -> (r: (Vec<Entry>, Vec<Entry>))
    ensures
        r.0@ == dirs_of(es@),
        r.1@ == files_of(es@),
{
    let mut dirs: Vec<Entry> = Vec::new();
    let mut files: Vec<Entry> = Vec::new();
    let mut i: usize = 0;
    while i < es.len()
        invariant
            i <= es.len(),
            dirs@ == dirs_of(es@.subrange(0, i as int)),
            files@ == files_of(es@.subrange(0, i as int)),
        decreases es.len() - i,
    {
        let e = clone_entry(&es[i]);
        proof {
            let next = es@.subrange(0, i + 1 as int);
            assert(next.drop_last() =~= es@.subrange(0, i as int));
            assert(next.last() == es@[i as int]);
        }
        match e.kind {
            EntryKind::Dir => dirs.push(e),
            EntryKind::File => files.push(e),
        }
        i = i + 1;
    }
    proof {
        assert(es@.subrange(0, es@.len() as int) =~= es@);
    }
    (dirs, files)
}

/// A stable descending insertion lands at the position `i` that has every
/// later entry strictly smaller than `e` and the one before (if any) at
/// least as large.
proof fn lemma_insert_desc_at(s: Seq<Entry>, e: Entry, i: int)
    requires
        0 <= i <= s.len(),
        forall|j: int| i <= j < s.len() ==> e.size > s[j].size,
        i > 0 ==> s[i - 1].size >= e.size,
    ensures
        insert_desc(s, e) == s.insert(i, e),
    decreases s.len(),
{
    if s.len() == 0 {
        assert(insert_desc(s, e) =~= s.insert(0, e));
    } else if i == s.len() {
        assert(s.last().size >= e.size);
        assert(insert_desc(s, e) =~= s.insert(i, e));
    } else {
        assert(e.size > s.last().size);
        lemma_insert_desc_at(s.drop_last(), e, i);
        assert(insert_desc(s, e) == insert_desc(s.drop_last(), e).push(s.last()));
        assert(s.drop_last().insert(i, e).push(s.last()) =~= s.insert(i, e));
    }
}

/// Inserts `e` into a vector already sorted by size descending, after
/// every element of equal or larger size.
fn insert_sorted(v: &mut Vec<Entry>, e: Entry)
    ensures
        final(v)@ == insert_desc(old(v)@, e),
{
    let mut i: usize = v.len();
    while i > 0 && e.size > v[i - 1].size
        invariant
            i <= v.len(),
            v == old(v),
            forall|j: int| i <= j < v@.len() ==> e.size > v@[j].size,
        decreases i,
    {
        i = i - 1;
    }
    proof {
        lemma_insert_desc_at(v@, e, i as int);
    }
    v.insert(i, e);
}

/// Sorts the entries by size, largest first; entries of equal size keep
/// their input order.
pub fn sort_desc(es: &Vec<Entry>) -> (r: Vec<Entry>)
    ensures
        r@ == spec_sort_desc(es@),
{
    let mut out: Vec<Entry> = Vec::new();
    let mut i: usize = 0;
    while i < es.len()
        invariant
            i <= es.len(),
            out@ == spec_sort_desc(es@.subrange(0, i as int)),
        decreases es.len() - i,
    {
        let e = clone_entry(&es[i]);
        proof {
            let next = es@.subrange(0, i + 1 as int);
            assert(next.drop_last() =~= es@.subrange(0, i as int));
            assert(next.last() == es@[i as int]);
        }
        insert_sorted(&mut out, e);
        i = i + 1;
    }
    proof {
        assert(es@.subrange(0, es@.len() as int) =~= es@);
    }
    out
}

/// Renders the whole report for a root whose display text is `root` and
/// whose immediate children are `es`.
#[verifier::loop_isolation(false)]
#[verifier::rlimit(60)]
pub fn render(root: &str, es: &Vec<Entry>) -> (r: String)
    ensures
        r@ == spec_render(root@, es@),
{
    let total = crate::entry::sum_entry_sizes(es);
    let parts = partition(es);
    let dirs = sort_desc(&parts.0);
    let files = sort_desc(&parts.1);
    let no_files = files.len() == 0;
    proof {
        reveal_strlit(" ");
        reveal_strlit("\n");
        reveal_strlit("├── ");
        reveal_strlit("└── ");
        reveal_strlit("├ ");
        reveal_strlit("└ ");
    }
    let mut s = String::new();
    s.append(root);
    s.append(" ");
    let hs = human_size(total);
    s.append(hs.as_str());
    s.append("\n");
    let ghost header = spec_header(root@, total_of(es@));
    proof {
        assert(s@ =~= header);
        assert(dirs@.skip(0) =~= dirs@);
    }
    let mut i: usize = 0;
    while i < dirs.len()
        invariant
            i <= dirs.len(),
            s@ + spec_dir_lines(dirs@.skip(i as int), no_files) == header + spec_dir_lines(
                dirs@,
                no_files,
            ),
        decreases dirs.len() - i,
    {
        let ghost s0 = s@;
        let ghost rest = dirs@.skip(i as int);
        if i + 1 == dirs.len() && no_files {
            s.append("└── ");
        } else {
            s.append("├── ");
        }
        s.append(dirs[i].name.as_str());
        s.append(" ");
        let hs2 = human_size(dirs[i].size);
        s.append(hs2.as_str());
        s.append("\n");
        proof {
            assert(rest[0] == dirs@[i as int]);
            assert(rest.drop_first() =~= dirs@.skip(i + 1 as int));
            assert((s@ + spec_dir_lines(dirs@.skip(i + 1 as int), no_files)) =~= (s0
                + spec_dir_lines(rest, no_files)));
        }
        i = i + 1;
    }
    proof {
        assert(dirs@.skip(dirs@.len() as int) =~= Seq::<Entry>::empty());
        assert(s@ =~= header + spec_dir_lines(dirs@, no_files));
    }
    let ghost mid = header + spec_dir_lines(dirs@, no_files);
    proof {
        assert(files@.skip(0) =~= files@);
    }
    let mut k: usize = 0;
    while k < files.len()
        invariant
            k <= files.len(),
            s@ + spec_file_lines(files@.skip(k as int)) == mid + spec_file_lines(files@),
        decreases files.len() - k,
    {
        let ghost s0 = s@;
        let ghost rest = files@.skip(k as int);
        if k + 1 == files.len() {
            s.append("└ ");
        } else {
            s.append("├ ");
        }
        s.append(files[k].name.as_str());
        s.append(" ");
        let hs2 = human_size(files[k].size);
        s.append(hs2.as_str());
        s.append("\n");
        proof {
            assert(rest[0] == files@[k as int]);
            assert(rest.drop_first() =~= files@.skip(k + 1 as int));
            assert((s@ + spec_file_lines(files@.skip(k + 1 as int))) =~= (s0 + spec_file_lines(
                rest,
            )));
        }
        k = k + 1;
    }
    proof {
        assert(files@.skip(files@.len() as int) =~= Seq::<Entry>::empty());
        assert(s@ =~= spec_render(root@, es@));
    }
    s
}

/// The report begins with the header line, and the total that the header
/// shows is exactly the wrapping sum of the sizes of all entries.
pub proof fn lemma_header_is_total(root: Seq<char>, es: Seq<Entry>)
    ensures
        spec_header(root, total_of(es)).is_prefix_of(spec_render(root, es)),
{
    let h = spec_header(root, total_of(es));
    let r = spec_render(root, es);
    assert(r.subrange(0, h.len() as int) =~= h);
}

/// The report is a function of the root's display text and the entry list
/// alone: equal inputs render to identical text.
pub proof fn lemma_render_deterministic(
    root1: Seq<char>,
    es1: Seq<Entry>,
    root2: Seq<char>,
    es2: Seq<Entry>,
)
    requires
        root1 == root2,
        es1 == es2,
    ensures
        spec_render(root1, es1) == spec_render(root2, es2),
{
}

} // verus!
