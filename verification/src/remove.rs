//! The remover: decides, for one path, what to print, what to delete and
//! what size to report.  The decision is verified; the deletion itself is
//! handed back to the caller as an explicit command, so a dry run
//! provably commands nothing.

use vstd::prelude::*;
use vstd::string::StringExecFns;
use crate::human::{human_size_of, humanize};
use crate::output::print_line;
use crate::stats::{fs_is_dir, measure};

verus! {

/// What the runner must do to a path: nothing, unlink one regular file,
/// or delete a whole directory tree.
#[derive(Clone, Copy, PartialEq, Eq, Structural, Debug)]
pub enum FsAction {
    Nothing,
    DeleteFile,
    DeleteTree,
}

/// What a path turned out to be when the disk was asked.
#[derive(Clone, Copy, PartialEq, Eq, Structural, Debug)]
pub enum PathKind {
    Missing,
    File,
    Directory,
}

/// One deletion for the runner to carry out.
#[derive(Clone, Debug)]
pub struct RemovalCmd {
    pub path: String,
    pub action: FsAction,
}

/// The outcome of one removal decision: the lines that were printed, the
/// command left for the runner, and the size this step reports.
pub struct RemovalStep {
    pub lines: Vec<String>,
    pub action: FsAction,
    pub reported: u64,
}

/// A file is unlinked, a directory tree is deleted recursively, and an
/// absent path is nothing to do.
pub open spec fn action_for(kind: PathKind) -> FsAction {
    match kind {
        PathKind::Missing => FsAction::Nothing,
        PathKind::File => FsAction::DeleteFile,
        PathKind::Directory => FsAction::DeleteTree,
    }
}

/// The generated simulation message for a dry run without a caller-made
/// message.
pub open spec fn dry_run_line(path: Seq<char>, size: u64) -> Seq<char> {
    "dry-run: would remove: '"@ + path + "' ("@ + human_size_of(size) + ")"@
}

/// The removal decision, exactly as specified: under a dry run nothing
/// is commanded, a caller-made message is printed verbatim with size 0,
/// and otherwise a generated message reports the measured size; under a
/// real run the optional report message is printed and the path's kind
/// decides the command, while the reported size stays 0 (the caller
/// accounts sizes beforehand).
pub fn remove_step(
    path: &str,
    kind: PathKind,
    measured: u64,
    dry_run: bool,
    deletion_msg: Option<String>,
    dry_run_msg: Option<String>,
) -> (r: RemovalStep)
    ensures
        r.action == (if dry_run {
            FsAction::Nothing
        } else {
            action_for(kind)
        }),
        dry_run && dry_run_msg is Some ==> r.reported == 0,
        dry_run && dry_run_msg is None ==> r.reported == measured,
        !dry_run ==> r.reported == 0,
        dry_run ==> (dry_run_msg matches Some(m) ==> r.lines@ == seq![m]),
        dry_run && dry_run_msg is None ==> r.lines@.len() == 1 && r.lines@[0]@ == dry_run_line(
            path@,
            measured,
        ),
        !dry_run ==> (deletion_msg matches Some(m) ==> r.lines@ == seq![m]),
        !dry_run && deletion_msg is None ==> r.lines@.len() == 0,
{
    let mut lines: Vec<String> = Vec::new();
    if dry_run {
        match dry_run_msg {
            Some(m) => {
                lines.push(m);
                RemovalStep { lines, action: FsAction::Nothing, reported: 0 }
            },
            None => {
                let mut line = "dry-run: would remove: '".to_owned();
                line.append(path);
                line.append("' (");
                let size_str = humanize(measured);
                line.append(size_str.as_str());
                line.append(")");
                proof {
                    assert(line@ =~= dry_run_line(path@, measured));
                }
                lines.push(line);
                RemovalStep { lines, action: FsAction::Nothing, reported: measured }
            },
        }
    } else {
        match deletion_msg {
            Some(m) => lines.push(m),
            None => (),
        }
        let action = match kind {
            PathKind::Missing => FsAction::Nothing,
            PathKind::File => FsAction::DeleteFile,
            PathKind::Directory => FsAction::DeleteTree,
        };
        RemovalStep { lines, action, reported: 0 }
    }
}

/// Relies on `std::path::Path::is_file`: true when `path` names an
/// existing regular file, after following symlinks.  No contract: the
/// result depends on what is on disk.
#[verifier::external_body]
pub(crate) fn fs_is_file(path: &str) -> bool {
    std::path::Path::new(path).is_file()
}

/// Asks the disk what `path` currently is.
pub fn path_kind(path: &str) -> PathKind {
    if fs_is_file(path) {
        PathKind::File
    } else if fs_is_dir(path) {
        PathKind::Directory
    } else {
        PathKind::Missing
    }
}

/// Removes one path, or simulates doing so: prints the decided lines,
/// and returns the step holding the command for the runner.  Under a dry
/// run the disk is only measured, never commanded: the returned action
/// is provably `Nothing`.
pub fn remove(path: &str, dry_run: bool, deletion_msg: Option<String>, dry_run_msg: Option<String>) -> (r:
    RemovalStep)
    ensures
        dry_run ==> r.action == FsAction::Nothing,
        dry_run ==> (dry_run_msg matches Some(m) ==> r.lines@ == seq![m] && r.reported == 0),
        dry_run && dry_run_msg is None ==> r.lines@.len() == 1 && r.lines@[0]@ == dry_run_line(
            path@,
            r.reported,
        ),
        !dry_run ==> r.reported == 0,
        !dry_run ==> (deletion_msg matches Some(m) ==> r.lines@ == seq![m]),
{
    let kind = path_kind(path);
    let measured: u64 = if dry_run && dry_run_msg.is_none() {
        measure(path).total_bytes
    } else {
        0
    };
    let step = remove_step(path, kind, measured, dry_run, deletion_msg, dry_run_msg);
    let mut i: usize = 0;
    while i < step.lines.len()
        decreases step.lines@.len() - i,
    {
        print_line(step.lines[i].as_str());
        i += 1;
    }
    step
}

} // verus!
