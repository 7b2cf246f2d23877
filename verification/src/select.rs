//! The cache-directory selector: maps a comma-separated list of
//! user-facing category names onto the concrete set of cache
//! subdirectories to remove, deduplicating overlapping categories, and
//! applies the resolved selection through the remover.

use vstd::prelude::*;
use vstd::string::StringExecFns;
use crate::human::{human_size_of, humanize};
use crate::output::print_line;
use crate::paths::CargoCachePaths;
use crate::stats::clamped;
use crate::remove::{dry_run_line, remove, FsAction, RemovalCmd};
use crate::text::{eq_str, split_at_commas, split_commas, strs_of};

verus! {

/// Which of the five removable cache subdirectories one invocation
/// covers.  Overlapping categories resolve to the same flags, so
/// nothing is ever deleted twice.
#[derive(Clone, Copy, PartialEq, Eq, Structural, Debug)]
pub struct RemovalSelection {
    pub git_repos_bare: bool,
    pub git_checkouts: bool,
    pub registry_sources: bool,
    pub registry_pkg_cache: bool,
    pub registry_index: bool,
}

/// Why a category list was rejected.
#[derive(Clone, PartialEq, Eq, Debug)]
pub enum SelectorError {
    /// One or more tokens were not recognized; every offending token is
    /// named, in the order given.
    InvalidDeletableDir(Vec<String>),
    /// Removal was requested without saying which categories.
    RemoveDirNoArg,
}

pub open spec fn empty_selection() -> RemovalSelection {
    RemovalSelection {
        git_repos_bare: false,
        git_checkouts: false,
        registry_sources: false,
        registry_pkg_cache: false,
        registry_index: false,
    }
}

pub open spec fn full_selection() -> RemovalSelection {
    RemovalSelection {
        git_repos_bare: true,
        git_checkouts: true,
        registry_sources: true,
        registry_pkg_cache: true,
        registry_index: true,
    }
}

/// The category vocabulary, `all` aside.
pub open spec fn is_plain_token(t: Seq<char>) -> bool {
    ||| t == "git-db"@
    ||| t == "git-repos"@
    ||| t == "registry-sources"@
    ||| t == "registry-crate-cache"@
    ||| t == "registry-index"@
    ||| t == "registry"@
}

/// What one recognized plain token selects.  `git-db` cascades to the
/// checkouts as well: a repository database without its checkouts is
/// useless.  `registry` and `registry-crate-cache` are synonyms covering
/// extracted sources and the compressed-archive cache together.
pub open spec fn token_selection(t: Seq<char>) -> RemovalSelection {
    RemovalSelection {
        git_repos_bare: t == "git-db"@,
        git_checkouts: t == "git-db"@ || t == "git-repos"@,
        registry_sources: t == "registry-sources"@ || t == "registry"@ || t
            == "registry-crate-cache"@,
        registry_pkg_cache: t == "registry"@ || t == "registry-crate-cache"@,
        registry_index: t == "registry-index"@,
    }
}

pub open spec fn join_selection(a: RemovalSelection, b: RemovalSelection) -> RemovalSelection {
    RemovalSelection {
        git_repos_bare: a.git_repos_bare || b.git_repos_bare,
        git_checkouts: a.git_checkouts || b.git_checkouts,
        registry_sources: a.registry_sources || b.registry_sources,
        registry_pkg_cache: a.registry_pkg_cache || b.registry_pkg_cache,
        registry_index: a.registry_index || b.registry_index,
    }
}

/// Resolution of a token list: the union of what the recognized tokens
/// select, and the unrecognized tokens in their given order.  `all`
/// selects everything and short-circuits: whatever follows it is not
/// examined.
pub open spec fn resolve_tokens(toks: Seq<Seq<char>>) -> (RemovalSelection, Seq<Seq<char>>)
    decreases toks.len(),
{
    if toks.len() == 0 {
        (empty_selection(), Seq::<Seq<char>>::empty())
    } else if toks[0] == "all"@ {
        (full_selection(), Seq::<Seq<char>>::empty())
    } else {
        let rest = resolve_tokens(toks.subrange(1, toks.len() as int));
        if is_plain_token(toks[0]) {
            (join_selection(token_selection(toks[0]), rest.0), rest.1)
        } else {
            (rest.0, seq![toks[0]] + rest.1)
        }
    }
}

/// What `resolve` decides for a whole comma-separated list.
pub open spec fn resolve_csv(s: Seq<char>) -> (RemovalSelection, Seq<Seq<char>>) {
    resolve_tokens(split_at_commas(s))
}

/// Resolves a comma-separated category list.  Exactly when every
/// examined token is recognized the resolved selection is returned;
/// otherwise the call fails naming every unrecognized token, and
/// nothing is selected.
pub fn resolve(list: &str) -> (r: Result<RemovalSelection, SelectorError>)
    ensures
        resolve_csv(list@).1.len() == 0 ==> r == Ok::<RemovalSelection, SelectorError>(
            resolve_csv(list@).0,
        ),
        resolve_csv(list@).1.len() != 0 ==> (r matches Err(SelectorError::InvalidDeletableDir(v))
            && strs_of(v@) == resolve_csv(list@).1),
{
    let toks = split_commas(list);
    let ghost all_toks = strs_of(toks@);
    let mut sel = RemovalSelection {
        git_repos_bare: false,
        git_checkouts: false,
        registry_sources: false,
        registry_pkg_cache: false,
        registry_index: false,
    };
    let mut invalid: Vec<String> = Vec::new();
    let mut saw_all = false;
    let mut i: usize = 0;
    proof {
        assert(all_toks.subrange(0, all_toks.len() as int) =~= all_toks);
        assert(strs_of(invalid@) =~= Seq::<Seq<char>>::empty());
    }
    while i < toks.len() && !saw_all
        invariant
            toks@.len() == all_toks.len(),
            forall|j: int| 0 <= j < all_toks.len() ==> all_toks[j] == toks@[j]@,
            i <= toks@.len(),
            !saw_all ==> resolve_tokens(all_toks) == (
                join_selection(sel, resolve_tokens(all_toks.subrange(i as int, all_toks.len() as int)).0),
                strs_of(invalid@) + resolve_tokens(
                    all_toks.subrange(i as int, all_toks.len() as int),
                ).1,
            ),
            saw_all ==> resolve_tokens(all_toks) == (sel, strs_of(invalid@)),
        decreases toks@.len() - i,
    {
        let tok = &toks[i];
        let ghost rest = all_toks.subrange(i as int, all_toks.len() as int);
        proof {
            reveal_strlit("all");
            reveal_strlit("git-db");
            reveal_strlit("git-repos");
            reveal_strlit("registry-sources");
            reveal_strlit("registry-crate-cache");
            reveal_strlit("registry-index");
            reveal_strlit("registry");
            assert(rest[0] == all_toks[i as int]);
            assert(rest.subrange(1, rest.len() as int) =~= all_toks.subrange(
                i + 1,
                all_toks.len() as int,
            ));
        }
        if eq_str(tok.as_str(), "all") {
            sel = RemovalSelection {
                git_repos_bare: true,
                git_checkouts: true,
                registry_sources: true,
                registry_pkg_cache: true,
                registry_index: true,
            };
            saw_all = true;
            proof {
                assert(strs_of(invalid@) + Seq::<Seq<char>>::empty() =~= strs_of(invalid@));
            }
        } else {
            let recognized = if eq_str(tok.as_str(), "git-db") {
                sel.git_repos_bare = true;
                sel.git_checkouts = true;
                true
            } else if eq_str(tok.as_str(), "git-repos") {
                sel.git_checkouts = true;
                true
            } else if eq_str(tok.as_str(), "registry-sources") {
                sel.registry_sources = true;
                true
            } else if eq_str(tok.as_str(), "registry-crate-cache") || eq_str(
                tok.as_str(),
                "registry",
            ) {
                sel.registry_sources = true;
                sel.registry_pkg_cache = true;
                true
            } else if eq_str(tok.as_str(), "registry-index") {
                sel.registry_index = true;
                true
            } else {
                false
            };
            if !recognized {
                let owned = tok.as_str().to_owned();
                proof {
                    assert(strs_of(invalid@.push(owned)) =~= strs_of(invalid@) + seq![owned@]);
                    assert(strs_of(invalid@) + (seq![rest[0]] + resolve_tokens(
                        rest.subrange(1, rest.len() as int),
                    ).1) =~= (strs_of(invalid@) + seq![rest[0]]) + resolve_tokens(
                        rest.subrange(1, rest.len() as int),
                    ).1);
                }
                invalid.push(owned);
            }
        }
        i += 1;
    }
    proof {
        if !saw_all {
            assert(all_toks.subrange(i as int, all_toks.len() as int) =~= Seq::<Seq<char>>::empty());
            assert(strs_of(invalid@) + Seq::<Seq<char>>::empty() =~= strs_of(invalid@));
        }
    }
    if invalid.len() == 0 {
        proof {
            assert(resolve_tokens(all_toks).1 =~= Seq::<Seq<char>>::empty());
        }
        Ok(sel)
    } else {
        Err(SelectorError::InvalidDeletableDir(invalid))
    }
}

/// The concrete paths a selection covers, in the fixed application
/// order: checkouts, bare repositories, extracted sources, package
/// archives, index.
pub open spec fn selected_paths(sel: RemovalSelection, ccd: CargoCachePaths) -> Seq<Seq<char>> {
    let a = if sel.git_checkouts {
        seq![ccd.git_checkouts@]
    } else {
        Seq::<Seq<char>>::empty()
    };
    let b = if sel.git_repos_bare {
        seq![ccd.git_repos_bare@]
    } else {
        Seq::<Seq<char>>::empty()
    };
    let c = if sel.registry_sources {
        seq![ccd.registry_sources@]
    } else {
        Seq::<Seq<char>>::empty()
    };
    let d = if sel.registry_pkg_cache {
        seq![ccd.registry_pkg_cache@]
    } else {
        Seq::<Seq<char>>::empty()
    };
    let e = if sel.registry_index {
        seq![ccd.registry_index@]
    } else {
        Seq::<Seq<char>>::empty()
    };
    a + b + c + d + e
}

/// The report message printed before a real removal.
pub open spec fn removing_line(path: Seq<char>) -> Seq<char> {
    "removing: '"@ + path + "'"@
}

/// Sum of the sizes the steps reported.
pub open spec fn sum_reported(s: Seq<u64>) -> int
    decreases s.len(),
{
    if s.len() == 0 {
        0
    } else {
        sum_reported(s.drop_last()) + s.last()
    }
}

proof fn lemma_sum_reported_nonneg(s: Seq<u64>)
    ensures
        sum_reported(s) >= 0,
    decreases s.len(),
{
    if s.len() > 0 {
        lemma_sum_reported_nonneg(s.drop_last());
    }
}

proof fn lemma_sum_reported_zero(s: Seq<u64>)
    requires
        forall|j: int| 0 <= j < s.len() ==> s[j] == 0,
    ensures
        sum_reported(s) == 0,
    decreases s.len(),
{
    if s.len() > 0 {
        lemma_sum_reported_zero(s.drop_last());
    }
}

/// The outcome of applying a selection: the summed size the steps
/// reported (saturating at `u64::MAX`), the line printed and the size
/// reported for each covered path, and the commands left for the
/// runner.
#[derive(Debug)]
pub struct ApplyOutcome {
    pub freed: u64,
    pub commands: Vec<RemovalCmd>,
    pub lines: Vec<String>,
    pub sizes: Vec<u64>,
}

/// The covered paths as owned strings, in the fixed application order.
fn selected_targets(sel: &RemovalSelection, ccd: &CargoCachePaths) -> (r: Vec<String>)
    ensures
        strs_of(r@) == selected_paths(*sel, *ccd),
{
    let mut v: Vec<String> = Vec::new();
    if sel.git_checkouts {
        v.push(ccd.git_checkouts.clone());
    }
    if sel.git_repos_bare {
        v.push(ccd.git_repos_bare.clone());
    }
    if sel.registry_sources {
        v.push(ccd.registry_sources.clone());
    }
    if sel.registry_pkg_cache {
        v.push(ccd.registry_pkg_cache.clone());
    }
    if sel.registry_index {
        v.push(ccd.registry_index.clone());
    }
    proof {
        assert(strs_of(v@) =~= selected_paths(*sel, *ccd));
    }
    v
}

/// Applies a resolved selection: one removal per covered path, in the
/// fixed order.  Under a dry run each path is simulated with the
/// generated message and its measured size, and no command is produced;
/// under a real run each path is announced and becomes one command for
/// the runner, with nothing yet freed by this call.  `freed` is always
/// the clamped sum of the per-path reported sizes.
pub fn apply(sel: &RemovalSelection, ccd: &CargoCachePaths, dry_run: bool) -> (r: ApplyOutcome)
    ensures
        r.lines@.len() == selected_paths(*sel, *ccd).len(),
        r.sizes@.len() == selected_paths(*sel, *ccd).len(),
        r.freed == clamped(sum_reported(r.sizes@)),
        dry_run ==> r.commands@.len() == 0,
        dry_run ==> forall|i: int|
            0 <= i < r.lines@.len() ==> (#[trigger] r.lines@[i])@ == dry_run_line(
                selected_paths(*sel, *ccd)[i],
                r.sizes@[i],
            ),
        !dry_run ==> forall|i: int|
            0 <= i < r.lines@.len() ==> (#[trigger] r.lines@[i])@ == removing_line(
                selected_paths(*sel, *ccd)[i],
            ),
        !dry_run ==> forall|i: int| 0 <= i < r.sizes@.len() ==> r.sizes@[i] == 0,
        !dry_run ==> r.commands@.map_values(|c: RemovalCmd| c.path@) == selected_paths(*sel, *ccd),
        !dry_run ==> r.freed == 0,
{
    let mut freed: u64 = 0;
    let mut commands: Vec<RemovalCmd> = Vec::new();
    let mut lines: Vec<String> = Vec::new();
    let mut sizes: Vec<u64> = Vec::new();
    if dry_run {
        print_line("");
    }
    let ghost want = selected_paths(*sel, *ccd);
    let targets = selected_targets(sel, ccd);
    let mut i: usize = 0;
    proof {
        assert(sizes@.subrange(0, 0) =~= Seq::<u64>::empty());
    }
    while i < targets.len()
        invariant
            strs_of(targets@) == want,
            targets@.len() == want.len(),
            i <= targets@.len(),
            lines@.len() == i,
            sizes@.len() == i,
            freed == clamped(sum_reported(sizes@)),
            dry_run ==> commands@.len() == 0,
            dry_run ==> forall|j: int|
                0 <= j < i ==> (#[trigger] lines@[j])@ == dry_run_line(want[j], sizes@[j]),
            !dry_run ==> forall|j: int|
                0 <= j < i ==> (#[trigger] lines@[j])@ == removing_line(want[j]),
            !dry_run ==> forall|j: int| 0 <= j < i ==> sizes@[j] == 0,
            !dry_run ==> commands@.map_values(|c: RemovalCmd| c.path@) == want.subrange(
                0,
                i as int,
            ),
        decreases targets@.len() - i,
    {
        let path = &targets[i];
        let msg = if dry_run {
            None
        } else {
            let mut m = "removing: '".to_owned();
            m.append(path.as_str());
            m.append("'");
            proof {
                assert(m@ =~= removing_line(path@));
            }
            Some(m)
        };
        let step = remove(path.as_str(), dry_run, msg, None);
        proof {
            let pushed = sizes@.push(step.reported);
            assert(pushed.drop_last() =~= sizes@);
            lemma_sum_reported_nonneg(sizes@);
        }
        freed = if freed <= u64::MAX - step.reported {
            freed + step.reported
        } else {
            u64::MAX
        };
        sizes.push(step.reported);
        lines.push(step.lines[0].clone());
        if !dry_run {
            let cmd = RemovalCmd { path: path.clone(), action: step.action };
            proof {
                let f = |c: RemovalCmd| c.path@;
                assert(cmd.path@ == path@);
                assert(commands@.push(cmd).map_values(f) =~= commands@.map_values(f) + seq![
                    path@,
                ]);
                assert(want.subrange(0, i as int) + seq![want[i as int]] =~= want.subrange(
                    0,
                    i + 1,
                ));
            }
            commands.push(cmd);
        }
        i += 1;
    }
    proof {
        if !dry_run {
            assert(want.subrange(0, want.len() as int) =~= want);
            lemma_sum_reported_zero(sizes@);
        }
    }
    if dry_run {
        let mut line = "dry-run: would remove in total: ".to_owned();
        let size_str = humanize(freed);
        line.append(size_str.as_str());
        print_line(line.as_str());
    }
    ApplyOutcome { freed, commands, lines, sizes }
}

/// Command-line removal in one step: no argument at all is refused, a
/// list with unrecognized tokens is refused naming them, and otherwise
/// the resolved selection is applied.
pub fn remove_dir_via_cmdline(directory: Option<&str>, dry_run: bool, ccd: &CargoCachePaths) -> (r:
    Result<ApplyOutcome, SelectorError>)
    ensures
        directory is None <==> r == Err::<ApplyOutcome, SelectorError>(
            SelectorError::RemoveDirNoArg,
        ),
        directory matches Some(list) ==> (resolve_csv(list@).1.len() != 0 ==> (r matches Err(
            SelectorError::InvalidDeletableDir(v),
        ) && strs_of(v@) == resolve_csv(list@).1)),
        directory matches Some(list) ==> (resolve_csv(list@).1.len() == 0 ==> (r matches Ok(o) && (
        dry_run ==> o.commands@.len() == 0) && (!dry_run ==> o.commands@.map_values(
            |c: RemovalCmd| c.path@,
        ) == selected_paths(resolve_csv(list@).0, *ccd)) && o.lines@.len() == selected_paths(
            resolve_csv(list@).0,
            *ccd,
        ).len() && o.sizes@.len() == o.lines@.len() && o.freed == clamped(sum_reported(o.sizes@))
            && (dry_run ==> forall|i: int|
            0 <= i < o.lines@.len() ==> (#[trigger] o.lines@[i])@ == dry_run_line(
                selected_paths(resolve_csv(list@).0, *ccd)[i],
                o.sizes@[i],
            )))),
{
    match directory {
        None => Err(SelectorError::RemoveDirNoArg),
        Some(list) => {
            match resolve(list) {
                Ok(sel) => Ok(apply(&sel, ccd, dry_run)),
                Err(e) => Err(e),
            }
        },
    }
}

} // verus!
