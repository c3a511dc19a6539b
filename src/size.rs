//! Best-effort sizes: a file counts its length, a directory the lengths of
//! the regular files below it, and what cannot be read counts zero.
use vstd::prelude::*;

verus! {

/// What an entry is, by its own metadata.
#[derive(Clone, Copy, Debug, PartialEq, Eq, Structural)]
pub enum EntryKind {
    File,
    Directory,
    Other,
}

/// One entry met while walking a directory tree: its kind and, when its
/// metadata could be read, its length in bytes.
#[derive(Clone, Copy, Debug, PartialEq, Eq, Structural)]
pub struct Probe {
    pub kind: EntryKind,
    pub len: Option<u64>,
}

/// The bytes that one walked entry owns by itself: a regular file its
/// length, zero when that is unreadable; anything else nothing.
pub open spec fn own_bytes(p: Probe) -> nat {
    match p.kind {
        EntryKind::File => match p.len {
            Some(n) => n as nat,
            None => 0,
        },
        _ => 0,
    }
}

/// The sum of `own_bytes` over a walk.
pub open spec fn walk_bytes(s: Seq<Probe>) -> nat
    decreases s.len(),
{
    if s.len() == 0 {
        0
    } else {
        walk_bytes(s.drop_last()) + own_bytes(s.last())
    }
}

/// The size of an entry of kind `kind` with own length `len`, whose walk
/// (the entry itself and all it contains) is `walk`.
pub open spec fn entry_bytes(kind: EntryKind, len: Option<u64>, walk: Seq<Probe>) -> nat {
    if kind == EntryKind::File {
        own_bytes(Probe { kind, len })
    } else {
        walk_bytes(walk)
    }
}

/// Sums the lengths of the regular files of a walk, counting an unreadable
/// length as zero; `None` when the sum exceeds `u64::MAX`.
pub fn subtree_size(walk: &Vec<Probe>) -> (r: Option<u64>)
    ensures
        r == (if walk_bytes(walk@) <= u64::MAX {
            Some(walk_bytes(walk@) as u64)
        } else {
            None::<u64>
        }),
{
    let mut total: u64 = 0;
    let mut i: usize = 0;
    while i < walk.len()
        invariant
            i <= walk@.len(),
            total as nat == walk_bytes(walk@.take(i as int)),
        decreases walk@.len() - i,
    {
        let p = walk[i];
        assert(walk@.take(i as int + 1).drop_last() =~= walk@.take(i as int));
        let add: u64 = match p.kind {
            EntryKind::File => match p.len {
                Some(n) => n,
                None => 0,
            },
            _ => 0,
        };
        if total > u64::MAX - add {
            proof { lemma_walk_bytes_prefix(walk@, i as int + 1); }
            return None;
        }
        total = total + add;
        i = i + 1;
    }
    assert(walk@.take(i as int) =~= walk@);
    Some(total)
}

/// A prefix of a walk never owns more bytes than the whole walk.
pub proof fn lemma_walk_bytes_prefix(s: Seq<Probe>, n: int)
    requires
        0 <= n <= s.len(),
    ensures
        walk_bytes(s.take(n)) <= walk_bytes(s),
    decreases s.len(),
{
    if n < s.len() {
        assert(s.drop_last().take(n) =~= s.take(n));
        lemma_walk_bytes_prefix(s.drop_last(), n);
    } else {
        assert(s.take(n) =~= s);
    }
}

/// The size of one entry: a regular file its own length (zero when
/// unreadable), anything else the sum over its walk.
pub fn entry_size(kind: EntryKind, len: Option<u64>, walk: &Vec<Probe>) -> (r: Option<u64>)
    ensures
        r == (if entry_bytes(kind, len, walk@) <= u64::MAX {
            Some(entry_bytes(kind, len, walk@) as u64)
        } else {
            None::<u64>
        }),
{
    match kind {
        EntryKind::File => match len {
            Some(n) => Some(n),
            None => Some(0),
        },
        _ => subtree_size(walk),
    }
}

/// Whether a walked entry is a regular file.
pub open spec fn is_file(p: Probe) -> bool {
    p.kind == EntryKind::File
}

/// The regular files of a walk, in walk order.
pub open spec fn files_of(walk: Seq<Probe>) -> Seq<Probe> {
    walk.filter(|p: Probe| is_file(p))
}

/// The size of a directory (or of anything that is not a regular file) is
/// the sum, over the regular files of its walk, of what each owns as a file.
pub proof fn lemma_directory_size_is_file_sum(kind: EntryKind, len: Option<u64>, walk: Seq<Probe>)
    requires
        kind != EntryKind::File,
    ensures
        entry_bytes(kind, len, walk) == walk_bytes(files_of(walk)),
        forall|i: int| 0 <= i < files_of(walk).len() ==> is_file(#[trigger] files_of(walk)[i]),
{
    broadcast use vstd::seq_lib::group_filter_ensures;
    lemma_walk_bytes_of_files(walk);
}

proof fn lemma_walk_bytes_of_files(walk: Seq<Probe>)
    ensures
        walk_bytes(walk) == walk_bytes(walk.filter(|p: Probe| is_file(p))),
    decreases walk.len(),
{
    reveal(Seq::filter);
    if walk.len() > 0 {
        lemma_walk_bytes_of_files(walk.drop_last());
        let f = walk.drop_last().filter(|p: Probe| is_file(p));
        if is_file(walk.last()) {
            assert(f.push(walk.last()).drop_last() =~= f);
        }
    }
}

/// A directory or any other entry that is not a regular file adds nothing
/// to a walk, however many files the walk holds.
pub proof fn lemma_non_file_adds_nothing(walk: Seq<Probe>, p: Probe)
    requires
        p.kind != EntryKind::File,
    ensures
        walk_bytes(walk.push(p)) == walk_bytes(walk),
{
    assert(walk.push(p).drop_last() =~= walk);
}

/// The size of a regular file is its length, or zero when that is unreadable.
pub proof fn lemma_file_size(len: Option<u64>, walk: Seq<Probe>)
    ensures
        entry_bytes(EntryKind::File, len, walk) == (match len {
            Some(n) => n as nat,
            None => 0nat,
        }),
{
}

/// A regular file whose length cannot be read adds nothing: the size of any
/// entry whose walk holds it is the size over the same walk without it, so
/// it neither changes the total nor makes it fail.
pub proof fn lemma_unreadable_file_adds_nothing(kind: EntryKind, len: Option<u64>, walk: Seq<Probe>, j: int)
    requires
        0 <= j < walk.len(),
        walk[j] == (Probe { kind: EntryKind::File, len: None }),
    ensures
        walk_bytes(walk) == walk_bytes(walk.remove(j)),
        entry_bytes(kind, len, walk) == entry_bytes(kind, len, walk.remove(j)),
    decreases walk.len(),
{
    if j == walk.len() - 1 {
        assert(walk.remove(j) =~= walk.drop_last());
    } else {
        lemma_unreadable_file_adds_nothing(kind, len, walk.drop_last(), j);
        assert(walk.remove(j).drop_last() =~= walk.drop_last().remove(j));
        assert(walk.remove(j).last() == walk.last());
    }
}

} // verus!
