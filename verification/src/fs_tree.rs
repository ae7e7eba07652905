//! The directory-tree model that the scan works on.
//!
//! A scan never touches the filesystem itself: an unverified shell reads the
//! directory tree into an [`FsNode`] value, and everything computed from it
//! (sizes, file counts, scan events) is verified against the spec functions
//! defined here.

use vstd::prelude::*;

verus! {

/// A named entry of a directory: the child's name and what was found there.
#[derive(Debug)]
pub struct FsEntry {
    pub name: String,
    pub node: FsNode,
}

/// A directory tree as observed at scan time.
///
/// `Unreadable` stands for an entry that could not be traversed: a permission
/// error, an entry that vanished mid-scan, or a symbolic link to a directory,
/// which is never followed. Such entries contribute nothing to sizes or file
/// counts; a scan degrades to an undercount rather than failing.
#[derive(Debug)]
pub enum FsNode {
    File { size: u64 },
    Dir { entries: Vec<FsEntry> },
    Unreadable,
}

/// Total bytes of the regular files anywhere under `n`; unreadable entries
/// count zero.
pub open spec fn node_size(n: FsNode) -> nat
    decreases n, 0int,
{
    match n {
        FsNode::File { size } => size as nat,
        FsNode::Dir { entries } => entries_size(entries@, entries@.len() as int),
        FsNode::Unreadable => 0,
    }
}

/// Sum of `node_size` over the first `i` entries of `s`.
pub open spec fn entries_size(s: Seq<FsEntry>, i: int) -> nat
    decreases s, i,
{
    if 0 < i <= s.len() {
        entries_size(s, i - 1) + node_size(s[i - 1].node)
    } else {
        0
    }
}

/// Number of regular files anywhere under `n`; unreadable entries count zero.
pub open spec fn node_files(n: FsNode) -> nat
    decreases n, 0int,
{
    match n {
        FsNode::File { .. } => 1,
        FsNode::Dir { entries } => entries_files(entries@, entries@.len() as int),
        FsNode::Unreadable => 0,
    }
}

/// Number of regular files in the first `i` entries of `s`.
pub open spec fn entries_files(s: Seq<FsEntry>, i: int) -> nat
    decreases s, i,
{
    if 0 < i <= s.len() {
        entries_files(s, i - 1) + node_files(s[i - 1].node)
    } else {
        0
    }
}

/// Prefix sums of entry sizes grow with the prefix.
pub proof fn lemma_entries_size_monotone(s: Seq<FsEntry>, i: int, j: int)
    requires
        i <= j <= s.len(),
    ensures
        entries_size(s, i) <= entries_size(s, j),
    decreases j - i,
{
    if i < j {
        lemma_entries_size_monotone(s, i, j - 1);
    }
}

/// Prefix file counts grow with the prefix.
pub proof fn lemma_entries_files_monotone(s: Seq<FsEntry>, i: int, j: int)
    requires
        i <= j <= s.len(),
    ensures
        entries_files(s, i) <= entries_files(s, j),
    decreases j - i,
{
    if i < j {
        lemma_entries_files_monotone(s, i, j - 1);
    }
}

/// What one child contributes to its parent directory's aggregate size: a
/// regular file its file size, a subdirectory its own aggregate size, an
/// untraversable entry nothing.
pub open spec fn child_size_contribution(e: FsEntry) -> nat {
    match e.node {
        FsNode::File { size } => size as nat,
        FsNode::Dir { .. } => node_size(e.node),
        FsNode::Unreadable => 0,
    }
}

/// What one child contributes to its parent directory's file count: a regular
/// file counts one, a subdirectory its own file count, an untraversable entry
/// nothing.
pub open spec fn child_file_contribution(e: FsEntry) -> nat {
    match e.node {
        FsNode::File { .. } => 1,
        FsNode::Dir { .. } => node_files(e.node),
        FsNode::Unreadable => 0,
    }
}

/// The aggregate size of a directory is the sum of its children's
/// contributions: directory children contribute their own aggregate size,
/// file children their file sizes, and untraversable children nothing.
pub proof fn lemma_aggregate_is_sum_of_children(entries: Vec<FsEntry>)
    ensures
        node_size(FsNode::Dir { entries }) == entries_size(entries@, entries@.len() as int),
        forall|i: int|
            0 <= i < entries@.len() ==> entries_size(entries@, i + 1) == entries_size(
                entries@,
                i,
            ) + child_size_contribution(entries@[i]),
{
    assert forall|i: int| 0 <= i < entries@.len() implies entries_size(entries@, i + 1)
        == entries_size(entries@, i) + child_size_contribution(entries@[i]) by {
        assert(entries_size(entries@, i + 1) == entries_size(entries@, i) + node_size(
            entries@[i].node,
        ));
        assert(node_size(entries@[i].node) == child_size_contribution(entries@[i]));
    }
}

/// The file count of a directory is the sum of its children's contributions:
/// each regular file anywhere below counts exactly once, however the tree is
/// nested, and untraversable children contribute nothing.
pub proof fn lemma_count_is_sum_of_children(entries: Vec<FsEntry>)
    ensures
        node_files(FsNode::Dir { entries }) == entries_files(entries@, entries@.len() as int),
        forall|i: int|
            0 <= i < entries@.len() ==> entries_files(entries@, i + 1) == entries_files(
                entries@,
                i,
            ) + child_file_contribution(entries@[i]),
{
    assert forall|i: int| 0 <= i < entries@.len() implies entries_files(entries@, i + 1)
        == entries_files(entries@, i) + child_file_contribution(entries@[i]) by {
        assert(entries_files(entries@, i + 1) == entries_files(entries@, i) + node_files(
            entries@[i].node,
        ));
        assert(node_files(entries@[i].node) == child_file_contribution(entries@[i]));
    }
}

/// An empty directory aggregates to zero bytes and zero files.
pub proof fn lemma_empty_dir(entries: Vec<FsEntry>)
    requires
        entries@.len() == 0,
    ensures
        node_size(FsNode::Dir { entries }) == 0,
        node_files(FsNode::Dir { entries }) == 0,
{
}

/// Sum of the file sizes of the first `i` entries, file children only.
pub open spec fn file_sizes(s: Seq<FsEntry>, i: int) -> nat
    decreases i,
{
    if 0 < i <= s.len() {
        file_sizes(s, i - 1) + (if s[i - 1].node is File {
            s[i - 1].node->size as nat
        } else {
            0
        })
    } else {
        0
    }
}

proof fn lemma_file_only_prefix(s: Seq<FsEntry>, i: int)
    requires
        0 <= i <= s.len(),
        forall|k: int| 0 <= k < i ==> s[k].node is File,
    ensures
        entries_size(s, i) == file_sizes(s, i),
    decreases i,
{
    if 0 < i {
        lemma_file_only_prefix(s, i - 1);
        assert(s[i - 1].node is File);
        assert(node_size(s[i - 1].node) == s[i - 1].node->size);
        assert(entries_size(s, i) == entries_size(s, i - 1) + node_size(s[i - 1].node));
        assert(file_sizes(s, i) == file_sizes(s, i - 1) + s[i - 1].node->size);
    }
}

/// A directory whose children are all regular files aggregates to exactly
/// the sum of those children's file sizes.
pub proof fn lemma_file_only_dir_size(entries: Vec<FsEntry>)
    requires
        forall|k: int| 0 <= k < entries@.len() ==> entries@[k].node is File,
    ensures
        node_size(FsNode::Dir { entries }) == file_sizes(entries@, entries@.len() as int),
{
    lemma_file_only_prefix(entries@, entries@.len() as int);
}

proof fn lemma_unreadable_update_prefix(s: Seq<FsEntry>, k: int, e: FsEntry, i: int)
    requires
        0 <= k < s.len(),
        e.node is Unreadable,
        0 <= i <= s.len(),
    ensures
        k < i ==> entries_size(s.update(k, e), i) + node_size(s[k].node) == entries_size(s, i),
        i <= k ==> entries_size(s.update(k, e), i) == entries_size(s, i),
    decreases i,
{
    if 0 < i {
        lemma_unreadable_update_prefix(s, k, e, i - 1);
        let t = s.update(k, e);
        assert(t.len() == s.len());
        assert(entries_size(t, i) == entries_size(t, i - 1) + node_size(t[i - 1].node));
        assert(entries_size(s, i) == entries_size(s, i - 1) + node_size(s[i - 1].node));
        if i - 1 == k {
            assert(t[i - 1] == e);
            assert(node_size(t[i - 1].node) == 0);
        } else {
            assert(t[i - 1] == s[i - 1]);
        }
    }
}

/// Making one child untraversable leaves the scan of the rest intact: the
/// directory's aggregate size merely loses that child's own contribution.
pub proof fn lemma_unreadable_child_excluded(s: Seq<FsEntry>, k: int, e: FsEntry)
    requires
        0 <= k < s.len(),
        e.node is Unreadable,
    ensures
        entries_size(s.update(k, e), s.len() as int) + node_size(s[k].node) == entries_size(
            s,
            s.len() as int,
        ),
{
    lemma_unreadable_update_prefix(s, k, e, s.len() as int);
}

/// The tree's aggregate size and file count together, each checked to fit:
/// `None` means one of the totals overflows. This is how a caller
/// establishes, before scanning, that the totals are representable.
#[verifier::loop_isolation(false)]
pub fn try_totals(folder: &FsNode) -> (totals: Option<(u64, u64)>)
    ensures
        totals matches Some(t) ==> t.0 == node_size(*folder) && t.1 == node_files(*folder),
        totals is None ==> node_size(*folder) > u64::MAX || node_files(*folder) > u64::MAX,
    decreases *folder,
{
    match folder {
        FsNode::File { size } => Some((*size, 1)),
        FsNode::Dir { entries } => {
            let mut bytes: u64 = 0;
            let mut files: u64 = 0;
            let mut i: usize = 0;
            while i < entries.len()
                invariant
                    i <= entries@.len(),
                    bytes == entries_size(entries@, i as int),
                    files == entries_files(entries@, i as int),
                decreases entries@.len() - i,
            {
                proof {
                    lemma_entries_size_monotone(entries@, i + 1, entries@.len() as int);
                    lemma_entries_files_monotone(entries@, i + 1, entries@.len() as int);
                    assert(decreases_to!(*folder => entries@[i as int].node)) by {
                        assert(decreases_to!(*folder => folder->entries));
                        assert(decreases_to!(*entries => entries@));
                        assert(decreases_to!(entries@ => entries@[i as int]));
                    }
                }
                match try_totals(&entries[i].node) {
                    None => {
                        return None;
                    },
                    Some((child_bytes, child_files)) => {
                        proof {
                            assert(entries_size(entries@, i + 1) == bytes + child_bytes);
                            assert(entries_files(entries@, i + 1) == files + child_files);
                        }
                        match (bytes.checked_add(child_bytes), files.checked_add(child_files)) {
                            (Some(new_bytes), Some(new_files)) => {
                                bytes = new_bytes;
                                files = new_files;
                            },
                            _ => {
                                return None;
                            },
                        }
                    },
                }
                i = i + 1;
            }
            Some((bytes, files))
        },
        FsNode::Unreadable => Some((0, 0)),
    }
}

/// Recursive size computation over the tree: the verified counterpart of a
/// directory walk that sums file sizes, skipping whatever cannot be read.
#[verifier::loop_isolation(false)]
pub fn calculate_folder_size(folder: &FsNode) -> (size: u64)
    requires
        node_size(*folder) <= u64::MAX,
    ensures
        size == node_size(*folder),
    decreases *folder,
{
    match folder {
        FsNode::File { size } => *size,
        FsNode::Dir { entries } => {
            let mut total: u64 = 0;
            let mut i: usize = 0;
            while i < entries.len()
                invariant
                    i <= entries@.len(),
                    total == entries_size(entries@, i as int),
                    entries_size(entries@, entries@.len() as int) <= u64::MAX,
                decreases entries@.len() - i,
            {
                proof {
                    lemma_entries_size_monotone(entries@, i + 1, entries@.len() as int);
                    assert(decreases_to!(*folder => entries@[i as int].node)) by {
                        assert(decreases_to!(*folder => folder->entries));
                        assert(decreases_to!(*entries => entries@));
                        assert(decreases_to!(entries@ => entries@[i as int]));
                    }
                }
                let child = calculate_folder_size(&entries[i].node);
                total = total + child;
                i = i + 1;
            }
            total
        },
        FsNode::Unreadable => 0,
    }
}

/// Recursive file count over the tree, with the same tolerance for
/// unreadable entries as the size computation.
#[verifier::loop_isolation(false)]
pub fn count_files(folder: &FsNode) -> (count: u64)
    requires
        node_files(*folder) <= u64::MAX,
    ensures
        count == node_files(*folder),
    decreases *folder,
{
    match folder {
        FsNode::File { .. } => 1,
        FsNode::Dir { entries } => {
            let mut total: u64 = 0;
            let mut i: usize = 0;
            while i < entries.len()
                invariant
                    i <= entries@.len(),
                    total == entries_files(entries@, i as int),
                    entries_files(entries@, entries@.len() as int) <= u64::MAX,
                decreases entries@.len() - i,
            {
                proof {
                    lemma_entries_files_monotone(entries@, i + 1, entries@.len() as int);
                    assert(decreases_to!(*folder => entries@[i as int].node)) by {
                        assert(decreases_to!(*folder => folder->entries));
                        assert(decreases_to!(*entries => entries@));
                        assert(decreases_to!(entries@ => entries@[i as int]));
                    }
                }
                let child = count_files(&entries[i].node);
                total = total + child;
                i = i + 1;
            }
            total
        },
        FsNode::Unreadable => 0,
    }
}

} // verus!
