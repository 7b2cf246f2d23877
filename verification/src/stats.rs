//! Directory accounting: a recursive walk is reduced to a byte total and
//! a count of regular files.  The walk itself is a trusted wrapper over
//! `walkdir`; the fold over its entries is verified.

use vstd::prelude::*;
use std::io::Write;

verus! {

/// Aggregate size and regular-file count of one directory tree.  The two
/// fields are deliberately distinct so a byte total is never read where
/// a file count is expected.
#[derive(Clone, Copy, PartialEq, Eq, Structural, Debug)]
pub struct DirectoryStats {
    pub total_bytes: u64,
    pub file_count: u64,
}

/// One object met during a traversal: whether it is a regular file, and
/// the length its metadata reports.  Directories, symlinks and special
/// files are walked through but carry `is_file == false`.
#[derive(Clone, Copy, PartialEq, Eq, Structural, Debug)]
pub struct FsEntry {
    pub is_file: bool,
    pub size: u64,
}

/// Sum of the sizes of the regular files among `s`.
pub open spec fn sum_bytes(s: Seq<FsEntry>) -> int
    decreases s.len(),
{
    if s.len() == 0 {
        0
    } else {
        sum_bytes(s.drop_last()) + if s.last().is_file {
            s.last().size as int
        } else {
            0
        }
    }
}

/// How many of `s` are regular files.
pub open spec fn count_files(s: Seq<FsEntry>) -> int
    decreases s.len(),
{
    if s.len() == 0 {
        0
    } else {
        count_files(s.drop_last()) + if s.last().is_file {
            1int
        } else {
            0int
        }
    }
}

/// A mathematical total clamped into a machine word.
pub open spec fn clamped(n: int) -> u64 {
    if n > u64::MAX {
        u64::MAX
    } else if n < 0 {
        0
    } else {
        n as u64
    }
}

/// The statistics a traversal yields: only regular files count, and a
/// byte total beyond `u64::MAX` saturates there.
pub open spec fn stats_of(s: Seq<FsEntry>) -> DirectoryStats {
    DirectoryStats { total_bytes: clamped(sum_bytes(s)), file_count: clamped(count_files(s)) }
}

/// The `{0,0}` statistics of an absent or empty directory.
pub open spec fn zero_stats() -> DirectoryStats {
    DirectoryStats { total_bytes: 0, file_count: 0 }
}

pub proof fn lemma_sum_bytes_nonneg(s: Seq<FsEntry>)
    ensures
        sum_bytes(s) >= 0,
    decreases s.len(),
{
    if s.len() > 0 {
        lemma_sum_bytes_nonneg(s.drop_last());
    }
}

pub proof fn lemma_count_files_bounds(s: Seq<FsEntry>)
    ensures
        0 <= count_files(s) <= s.len(),
    decreases s.len(),
{
    if s.len() > 0 {
        lemma_count_files_bounds(s.drop_last());
    }
}

/// A tree holding no regular files measures `{0,0}`, however deeply its
/// directories nest.
pub proof fn lemma_no_files_zero_stats(s: Seq<FsEntry>)
    requires
        forall|i: int| 0 <= i < s.len() ==> !s[i].is_file,
    ensures
        stats_of(s) == zero_stats(),
    decreases s.len(),
{
    if s.len() > 0 {
        assert(!s.last().is_file);
        lemma_no_files_zero_stats(s.drop_last());
    }
}

/// Folds traversal entries into statistics, exactly as `stats_of`
/// describes.
pub fn stats_of_entries(entries: &Vec<FsEntry>) -> (r: DirectoryStats)
    ensures
        r == stats_of(entries@),
{
    let mut total: u64 = 0;
    let mut count: u64 = 0;
    let mut i: usize = 0;
    proof {
        assert(entries@.subrange(0, 0) =~= Seq::<FsEntry>::empty());
    }
    while i < entries.len()
        invariant
            i <= entries@.len(),
            total == clamped(sum_bytes(entries@.subrange(0, i as int))),
            count as int == count_files(entries@.subrange(0, i as int)),
            count as int <= i,
        decreases entries@.len() - i,
    {
        let e = entries[i];
        proof {
            let prefix = entries@.subrange(0, i as int);
            let prefix1 = entries@.subrange(0, i + 1);
            assert(prefix1.drop_last() =~= prefix);
            assert(prefix1.last() == entries@[i as int]);
            lemma_sum_bytes_nonneg(prefix);
        }
        if e.is_file {
            total = if total <= u64::MAX - e.size {
                total + e.size
            } else {
                u64::MAX
            };
            count = count + 1;
        }
        i += 1;
    }
    proof {
        assert(entries@.subrange(0, entries@.len() as int) =~= entries@);
        lemma_count_files_bounds(entries@);
    }
    DirectoryStats { total_bytes: total, file_count: count }
}

/// Relies on `walkdir::WalkDir`: yields one entry for every object under
/// `path` (including `path` itself), with its file type and metadata
/// length.  An unreadable entry is skipped with a warning on standard
/// error rather than aborting the walk; an entry whose metadata cannot
/// be read counts with length 0; an absent `path` yields nothing.  No
/// contract: the result depends on what is on disk.
#[verifier::external_body]
fn walk_files(path: &str) -> Vec<FsEntry> {
    let mut v = Vec::new();
    for entry in walkdir::WalkDir::new(path) {
        match entry {
            Ok(e) => {
                let size = match e.metadata() { Ok(m) => m.len(), Err(_) => 0 };
                v.push(FsEntry { is_file: e.file_type().is_file(), size });
            },
            Err(err) => {
                let _ = writeln!(std::io::stderr(), "Warning: skipping unreadable entry under \"{}\": {}", path, err);
            },
        }
    }
    v
}

/// Relies on `std::path::Path::is_dir`: true when `path` names an
/// existing directory, after following symlinks.  No contract: the
/// result depends on what is on disk.
#[verifier::external_body]
pub(crate) fn fs_is_dir(path: &str) -> bool {
    std::path::Path::new(path).is_dir()
}

/// The accounting decision once the disk has been asked: an absent
/// directory is `{0,0}`, never an error; an existing one is the fold of
/// its traversal.
pub fn measure_walked(dir_exists: bool, entries: &Vec<FsEntry>) -> (r: DirectoryStats)
    ensures
        !dir_exists ==> r == zero_stats(),
        dir_exists ==> r == stats_of(entries@),
{
    if dir_exists {
        stats_of_entries(entries)
    } else {
        DirectoryStats { total_bytes: 0, file_count: 0 }
    }
}

/// Recursive size and file count of `path`; `{0,0}` when `path` is not
/// an existing directory.  The walk is trusted, so the exact contract
/// lives on `measure_walked` and `stats_of_entries`, which this function
/// merely wires to the disk.
pub fn measure(path: &str) -> (r: DirectoryStats) {
    if fs_is_dir(path) {
        let entries = walk_files(path);
        measure_walked(true, &entries)
    } else {
        let entries: Vec<FsEntry> = Vec::new();
        measure_walked(false, &entries)
    }
}

} // verus!
