//! The work items of the package fetch queue, and the count of the bytes
//! that the store directory holds.

use vstd::prelude::*;

use crate::text::str_equal;

verus! {

/// The kind of work a [`FetchTask`] represents.
#[derive(Debug, Clone, Copy, PartialEq, Eq, Structural)]
pub enum FetchTaskKind {
    /// Download from the OCI registry and extract metadata.
    Pull,
    /// Re-derive WIT metadata from already-cached layers.
    Reindex,
}

/// The kind stored under `name`: `reindex` is a reindex, anything else a pull.
pub open spec fn fetch_task_kind_of(name: Seq<char>) -> FetchTaskKind {
    if name == "reindex"@ {
        FetchTaskKind::Reindex
    } else {
        FetchTaskKind::Pull
    }
}

impl<'a> From<&'a str> for FetchTaskKind {
    fn from(s: &'a str) -> (res: Self) {
        if str_equal(s, "reindex") {
            FetchTaskKind::Reindex
        } else {
            FetchTaskKind::Pull
        }
    }
}

impl<'a> vstd::std_specs::convert::FromSpecImpl<&'a str> for FetchTaskKind {
    open spec fn obeys_from_spec() -> bool {
        true
    }

    open spec fn from_spec(s: &'a str) -> Self {
        fetch_task_kind_of(s@)
    }
}

impl From<String> for FetchTaskKind {
    fn from(s: String) -> (res: Self) {
        FetchTaskKind::from(s.as_str())
    }
}

impl vstd::std_specs::convert::FromSpecImpl<String> for FetchTaskKind {
    open spec fn obeys_from_spec() -> bool {
        true
    }

    open spec fn from_spec(s: String) -> Self {
        fetch_task_kind_of(s@)
    }
}

/// A single unit of work dequeued from the fetch queue.
#[derive(Debug)]
pub struct FetchTask {
    /// Row id in the `fetch_queue` table.
    pub id: i64,
    /// OCI registry hostname.
    pub registry: String,
    /// OCI repository path.
    pub repository: String,
    /// Version tag.
    pub tag: String,
    /// What to do with this tag.
    pub kind: FetchTaskKind,
    /// How often the queue has tried this item.
    pub attempts: i64,
}

/// One entry of a directory listing, as far as the size count reads it.
#[derive(Debug, Clone, Copy, PartialEq, Eq, Structural)]
pub struct ListedEntry {
    /// Whether the entry is a directory.
    pub is_dir: bool,
    /// The entry's length in bytes.
    pub len: u64,
}

/// The bytes of the entries that are not directories.
pub open spec fn file_bytes(entries: Seq<ListedEntry>) -> int
    decreases entries.len(),
{
    if entries.len() == 0 {
        0
    } else {
        file_bytes(entries.drop_last()) + if entries.last().is_dir {
            0int
        } else {
            entries.last().len as int
        }
    }
}

/// The positions of the entries that are directories, in listing order.
pub open spec fn dir_positions(entries: Seq<ListedEntry>) -> Seq<usize>
    decreases entries.len(),
{
    if entries.len() == 0 {
        seq![]
    } else {
        let rest = dir_positions(entries.drop_last());
        if entries.last().is_dir {
            rest.push((entries.len() - 1) as usize)
        } else {
            rest
        }
    }
}

/// The bytes of a prefix of a listing are at most those of the listing.
proof fn lemma_file_bytes_prefix(entries: Seq<ListedEntry>, i: int)
    requires
        0 <= i <= entries.len(),
    ensures
        0 <= file_bytes(entries.take(i)) <= file_bytes(entries),
    decreases entries.len() - i,
{
    if i < entries.len() {
        lemma_file_bytes_prefix(entries, i + 1);
        lemma_file_bytes_nonnegative(entries.take(i));
        assert(entries.take(i + 1).drop_last() =~= entries.take(i));
    } else {
        assert(entries.take(i) =~= entries);
        lemma_file_bytes_nonnegative(entries);
    }
}

/// Byte counts are never negative.
proof fn lemma_file_bytes_nonnegative(entries: Seq<ListedEntry>)
    ensures
        file_bytes(entries) >= 0,
    decreases entries.len(),
{
    if entries.len() > 0 {
        lemma_file_bytes_nonnegative(entries.drop_last());
    }
}

/// One step of counting the bytes under a directory: the listing of one
/// directory adds the lengths of its files to `total`, and gives the
/// positions of its subdirectories, which are counted next.
pub fn tally_listing(total: u64, entries: &Vec<ListedEntry>) -> (res: (u64, Vec<usize>))
    requires
        total + file_bytes(entries@) <= u64::MAX,
    ensures
        res.0 == total + file_bytes(entries@),
        res.1@ == dir_positions(entries@),
{
    let n = entries.len();
    let mut sum = total;
    let mut dirs: Vec<usize> = Vec::new();
    let mut i: usize = 0;
    while i < n
        invariant
            n == entries@.len(),
            i <= n,
            total + file_bytes(entries@) <= u64::MAX,
            sum == total + file_bytes(entries@.take(i as int)),
            dirs@ == dir_positions(entries@.take(i as int)),
        decreases n - i,
    {
        proof {
            assert(entries@.take(i + 1).drop_last() =~= entries@.take(i as int));
            assert(entries@.take(i + 1).last() == entries@[i as int]);
            lemma_file_bytes_prefix(entries@, i + 1);
        }
        let entry = entries[i];
        if entry.is_dir {
            dirs.push(i);
        } else {
            sum = sum + entry.len;
        }
        i += 1;
    }
    assert(entries@.take(n as int) =~= entries@);
    (sum, dirs)
}

} // verus!
