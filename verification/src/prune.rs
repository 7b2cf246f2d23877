//! The crate-source pruner: groups the extracted `<package>-<version>`
//! directories of each registry, scans them in descending raw-name
//! order, and deletes every version past the keep count of each package
//! — or everything, when the keep count is zero.  The retention policy is
//! verified; listing and deleting go through the shared wrappers.

use vstd::prelude::*;
use vstd::seq_lib::*;
use vstd::string::StrSliceExecFns;
use vstd::string::StringExecFns;
use crate::human::humanize;
use crate::output::print_line;
use crate::paths::{join_path, joined};
use crate::remove::{remove, FsAction, RemovalCmd};
use crate::stats::measure;
use crate::text::{eq_str, strs_of};

verus! {

/// Why a pruning pass failed.
#[derive(Clone, PartialEq, Eq, Debug)]
pub enum PruneError {
    /// A source-cache entry's name holds no `-` and so cannot be split
    /// into package and version; carries the offending path.
    MalformedPackageName(String),
}

/// Index of the last `-` in `t`, or -1 when there is none.
pub open spec fn last_dash(t: Seq<char>) -> int
    decreases t.len(),
{
    if t.len() == 0 {
        -1
    } else if t[t.len() - 1] == '-' {
        t.len() - 1
    } else {
        last_dash(t.subrange(0, t.len() - 1))
    }
}

/// A well-formed entry name holds at least one `-`.
pub open spec fn well_formed(t: Seq<char>) -> bool {
    last_dash(t) >= 0
}

/// The entry name up to its last dash: the package.
pub open spec fn entry_package(t: Seq<char>) -> Seq<char> {
    t.subrange(0, last_dash(t))
}

/// The entry name after its last dash: the version.
pub open spec fn entry_version(t: Seq<char>) -> Seq<char> {
    t.subrange(last_dash(t) + 1, t.len() as int)
}

pub proof fn lemma_last_dash(t: Seq<char>)
    ensures
        -1 <= last_dash(t) < t.len(),
        last_dash(t) >= 0 ==> t[last_dash(t)] == '-',
        forall|j: int| last_dash(t) < j < t.len() ==> t[j] != '-',
    decreases t.len(),
{
    if t.len() > 0 && t[t.len() - 1] != '-' {
        let head = t.subrange(0, t.len() - 1);
        lemma_last_dash(head);
        assert forall|j: int| last_dash(t) < j < t.len() implies t[j] != '-' by {
            if j < t.len() - 1 {
                assert(head[j] == t[j]);
            }
        }
        if last_dash(t) >= 0 {
            assert(t[last_dash(t)] == head[last_dash(t)]);
        }
    }
}

/// Splits `<package>-<version>` at the last dash; `None` exactly when
/// the name holds no dash at all.
pub fn split_package_name(name: &str) -> (r: Option<(String, String)>)
    ensures
        r is Some <==> well_formed(name@),
        r matches Some(pv) ==> pv.0@ == entry_package(name@) && pv.1@ == entry_version(name@),
{
    let n: usize = name.unicode_len();
    let mut j: usize = n;
    while j > 0
        invariant
            n == name@.len(),
            j <= n,
            forall|k: int| j <= k < n ==> name@[k] != '-',
        decreases j,
    {
        if name.get_char(j - 1) == '-' {
            proof {
                lemma_last_dash(name@);
                assert(last_dash(name@) == j - 1);
            }
            let pkg = name.substring_char(0, j - 1).to_owned();
            let ver = name.substring_char(j, n).to_owned();
            return Some((pkg, ver));
        }
        j -= 1;
    }
    proof {
        lemma_last_dash(name@);
    }
    None
}

/// The scanner's state after a run of entries: the package of the last
/// entry and how many times in a row it has repeated.  The scan starts
/// from the empty package name.
pub open spec fn scan_state(names: Seq<Seq<char>>) -> (Seq<char>, int)
    decreases names.len(),
{
    if names.len() == 0 {
        (Seq::<char>::empty(), 0)
    } else {
        let prev = scan_state(names.drop_last());
        let p = entry_package(names.last());
        if p == prev.0 {
            (prev.0, prev.1 + 1)
        } else {
            (p, 0)
        }
    }
}

/// Whether the scan deletes entry `i`: with `keep == 0` every entry;
/// otherwise every entry whose repeat counter reaches or passes `keep`
/// — all the excess versions of its package.
pub open spec fn deleted_at(names: Seq<Seq<char>>, i: int, keep: u64) -> bool {
    if keep == 0 {
        true
    } else {
        let st = scan_state(names.subrange(0, i));
        entry_package(names[i]) == st.0 && st.1 + 1 >= keep
    }
}

/// The entry names the scan deletes, in scan order.
pub open spec fn plan_spec(names: Seq<Seq<char>>, keep: u64) -> Seq<Seq<char>>
    decreases names.len(),
{
    if names.len() == 0 {
        Seq::<Seq<char>>::empty()
    } else {
        plan_spec(names.drop_last(), keep) + if deleted_at(names, names.len() - 1, keep) {
            seq![names.last()]
        } else {
            Seq::<Seq<char>>::empty()
        }
    }
}

/// With a keep count of zero, every entry of every package is deleted.
pub proof fn lemma_prune_keep_zero(names: Seq<Seq<char>>)
    ensures
        plan_spec(names, 0) == names,
    decreases names.len(),
{
    if names.len() == 0 {
        assert(plan_spec(names, 0) =~= names);
    } else {
        lemma_prune_keep_zero(names.drop_last());
        assert(plan_spec(names, 0) =~= names);
    }
}

proof fn lemma_scan_same_package(names: Seq<Seq<char>>, p: Seq<char>)
    requires
        p.len() > 0,
        names.len() >= 1,
        forall|i: int| 0 <= i < names.len() ==> entry_package(names[i]) == p,
    ensures
        scan_state(names) == (p, names.len() - 1),
    decreases names.len(),
{
    assert(entry_package(names.last()) == p);
    if names.len() > 1 {
        assert forall|i: int|
            0 <= i < names.drop_last().len() implies entry_package(
            #[trigger] names.drop_last()[i],
        ) == p by {
            assert(names.drop_last()[i] == names[i]);
        }
        lemma_scan_same_package(names.drop_last(), p);
    } else {
        assert(names.drop_last().len() == 0);
        assert(scan_state(names.drop_last()) == (Seq::<char>::empty(), 0int));
        assert(p != Seq::<char>::empty());
        assert(scan_state(names) == (p, 0int));
    }
}

/// Retention inside one package, scanned from a fresh state: of `M`
/// versions and a keep count of at least one, the scan deletes nothing
/// when `M <= keep`, and exactly the `M - keep` entries past position
/// `keep` when there are more — so exactly the `keep` first-sorted
/// versions remain.
pub proof fn lemma_single_package_retention(names: Seq<Seq<char>>, p: Seq<char>, keep: u64)
    requires
        keep >= 1,
        p.len() > 0,
        forall|i: int| 0 <= i < names.len() ==> entry_package(names[i]) == p,
    ensures
        names.len() <= keep ==> plan_spec(names, keep) == Seq::<Seq<char>>::empty(),
        names.len() > keep ==> plan_spec(names, keep) == names.subrange(
            keep as int,
            names.len() as int,
        ),
    decreases names.len(),
{
    if names.len() == 0 {
        assert(plan_spec(names, keep) =~= Seq::<Seq<char>>::empty());
    } else {
        let prefix = names.drop_last();
        lemma_single_package_retention(prefix, p, keep);
        assert(names.subrange(0, names.len() - 1) =~= prefix);
        if names.len() == 1 {
            assert(!deleted_at(names, 0, keep));
            assert(plan_spec(names, keep) =~= Seq::<Seq<char>>::empty());
        } else {
            lemma_scan_same_package(prefix, p);
            if names.len() - 1 < keep {
                assert(!deleted_at(names, names.len() - 1, keep));
                assert(plan_spec(names, keep) =~= Seq::<Seq<char>>::empty());
            } else {
                assert(deleted_at(names, names.len() - 1, keep));
                if names.len() - 1 == keep {
                    assert(plan_spec(names, keep) =~= names.subrange(
                        keep as int,
                        names.len() as int,
                    ));
                } else {
                    assert(plan_spec(names, keep) =~= names.subrange(
                        keep as int,
                        names.len() as int,
                    ));
                }
            }
        }
    }
}

proof fn lemma_scan_after_run(a: Seq<Seq<char>>, b: Seq<Seq<char>>, pa: Seq<char>, pb: Seq<char>)
    requires
        pb.len() > 0,
        pa != pb,
        b.len() >= 1,
        forall|i: int| 0 <= i < a.len() ==> entry_package(a[i]) == pa,
        forall|i: int| 0 <= i < b.len() ==> entry_package(b[i]) == pb,
        a.len() > 0 ==> scan_state(a).0 == pa,
        a.len() == 0 ==> scan_state(a).0 == Seq::<char>::empty(),
    ensures
        scan_state(a + b) == (pb, b.len() - 1),
    decreases b.len(),
{
    assert((a + b).drop_last() =~= a + b.drop_last());
    assert((a + b).last() == b.last());
    assert(entry_package((a + b).last()) == pb);
    if b.len() == 1 {
        assert(a + b.drop_last() =~= a);
        if a.len() == 0 {
            assert(pb != Seq::<char>::empty());
        }
        assert(scan_state(a + b) == (pb, 0int));
    } else {
        lemma_scan_after_run(a, b.drop_last(), pa, pb);
    }
}

/// Contiguous runs of distinct packages prune independently: the plan
/// for one run followed by another is the two runs' own plans, one
/// after the other.  The scan's retention thus depends only on each
/// package's own contiguous, ordered run.
pub proof fn lemma_runs_prune_independently(
    a: Seq<Seq<char>>,
    b: Seq<Seq<char>>,
    pa: Seq<char>,
    pb: Seq<char>,
    keep: u64,
)
    requires
        pa.len() > 0,
        pb.len() > 0,
        pa != pb,
        forall|i: int| 0 <= i < a.len() ==> entry_package(a[i]) == pa,
        forall|i: int| 0 <= i < b.len() ==> entry_package(b[i]) == pb,
    ensures
        plan_spec(a + b, keep) == plan_spec(a, keep) + plan_spec(b, keep),
    decreases b.len(),
{
    if b.len() == 0 {
        assert(a + b =~= a);
        assert(plan_spec(a, keep) + plan_spec(b, keep) =~= plan_spec(a, keep));
    } else {
        lemma_runs_prune_independently(a, b.drop_last(), pa, pb, keep);
        let ab = a + b;
        assert(ab.drop_last() =~= a + b.drop_last());
        assert(ab.last() == b.last());
        assert(ab.subrange(0, ab.len() - 1) =~= a + b.drop_last());
        assert(b.subrange(0, b.len() - 1) =~= b.drop_last());
        if a.len() > 0 {
            lemma_scan_same_package(a, pa);
        }
        if keep != 0 {
            // The two scans agree at the run boundary and inside `b`.
            if b.len() == 1 {
                assert(a + b.drop_last() =~= a);
                if a.len() == 0 {
                    assert(scan_state(a).0 == Seq::<char>::empty());
                    assert(pb != Seq::<char>::empty());
                } else {
                    assert(scan_state(a).0 == pa);
                }
                assert(!deleted_at(ab, ab.len() - 1, keep));
                assert(!deleted_at(b, b.len() - 1, keep));
            } else {
                lemma_scan_after_run(a, b.drop_last(), pa, pb);
                assert(scan_state(a + b.drop_last()) == (pb, b.len() - 2));
                if b.drop_last().len() > 0 {
                    lemma_scan_after_run(Seq::<Seq<char>>::empty(), b.drop_last(), pa, pb);
                    assert(Seq::<Seq<char>>::empty() + b.drop_last() =~= b.drop_last());
                }
                assert(deleted_at(ab, ab.len() - 1, keep) == deleted_at(b, b.len() - 1, keep));
            }
        }
        assert(plan_spec(ab, keep) =~= plan_spec(a, keep) + plan_spec(b, keep));
    }
}

/// One planned deletion: the entry's directory name and its parsed
/// package and version, for the per-entry message.
#[derive(Debug)]
pub struct PlannedDeletion {
    pub dir_name: String,
    pub package: String,
    pub version: String,
}

/// Scans `names` (already in descending raw order) and plans the
/// deletions, exactly as `plan_spec` describes; fails naming the first
/// entry whose name cannot be split into package and version.
pub fn plan_sorted(names: &Vec<String>, keep: u64) -> (r: Result<Vec<PlannedDeletion>, PruneError>)
    ensures
        r is Err <==> exists|k: int| 0 <= k < names@.len() && !well_formed(names@[k]@),
        r matches Err(PruneError::MalformedPackageName(p)) ==> exists|k: int|
            0 <= k < names@.len() && !well_formed(names@[k]@) && p@ == names@[k]@ && (forall|j: int|
                0 <= j < k ==> well_formed(names@[j]@)),
        r matches Ok(ds) ==> ds@.map_values(|d: PlannedDeletion| d.dir_name@) == plan_spec(
            strs_of(names@),
            keep,
        ) && (forall|k: int|
            0 <= k < ds@.len() ==> (#[trigger] ds@[k]).package@ == entry_package(ds@[k].dir_name@)
                && ds@[k].version@ == entry_version(ds@[k].dir_name@)),
{
    let ghost ns = strs_of(names@);
    let mut out: Vec<PlannedDeletion> = Vec::new();
    let mut last_pkg = String::new();
    let mut cnt: u64 = 0;
    let mut i: usize = 0;
    proof {
        assert(ns.subrange(0, 0) =~= Seq::<Seq<char>>::empty());
        assert(out@.map_values(|d: PlannedDeletion| d.dir_name@) =~= Seq::<Seq<char>>::empty());
    }
    while i < names.len()
        invariant
            ns.len() == names@.len(),
            forall|j: int| 0 <= j < ns.len() ==> ns[j] == names@[j]@,
            i <= names@.len(),
            forall|j: int| 0 <= j < i ==> well_formed(ns[j]),
            (last_pkg@, cnt as int) == scan_state(ns.subrange(0, i as int)),
            cnt <= i,
            out@.map_values(|d: PlannedDeletion| d.dir_name@) == plan_spec(
                ns.subrange(0, i as int),
                keep,
            ),
            forall|k: int|
                0 <= k < out@.len() ==> (#[trigger] out@[k]).package@ == entry_package(
                    out@[k].dir_name@,
                ) && out@[k].version@ == entry_version(out@[k].dir_name@),
        decreases names@.len() - i,
    {
        let name = &names[i];
        let parsed = split_package_name(name.as_str());
        match parsed {
            None => {
                proof {
                    assert(!well_formed(names@[i as int]@));
                    assert forall|j: int| 0 <= j < i implies well_formed(names@[j]@) by {
                        assert(names@[j]@ == ns[j]);
                    }
                }
                return Err(PruneError::MalformedPackageName(name.clone()));
            },
            Some(pv) => {
                let (pkg, ver) = pv;
                proof {
                    assert(ns.subrange(0, i + 1).drop_last() =~= ns.subrange(0, i as int));
                    assert(ns.subrange(0, i + 1).last() == ns[i as int]);
                    assert(ns.subrange(0, i + 1).subrange(0, i as int) =~= ns.subrange(
                        0,
                        i as int,
                    ));
                }
                let is_same = eq_str(pkg.as_str(), last_pkg.as_str());
                if is_same {
                    cnt = cnt + 1;
                } else {
                    cnt = 0;
                    last_pkg = pkg.clone();
                }
                let deleted = keep == 0 || (is_same && cnt >= keep);
                if deleted {
                    let dir_name = name.clone();
                    proof {
                        let f = |d: PlannedDeletion| d.dir_name@;
                        assert(out@.push(
                            PlannedDeletion { dir_name, package: pkg, version: ver },
                        ).map_values(f) =~= out@.map_values(f) + seq![dir_name@]);
                    }
                    out.push(PlannedDeletion { dir_name, package: pkg, version: ver });
                } else {
                    proof {
                        assert(out@.map_values(|d: PlannedDeletion| d.dir_name@) + Seq::<
                            Seq<char>,
                        >::empty() =~= out@.map_values(|d: PlannedDeletion| d.dir_name@));
                    }
                }
            },
        }
        i += 1;
    }
    proof {
        assert(ns.subrange(0, names@.len() as int) =~= ns);
        assert forall|k: int| 0 <= k < names@.len() implies well_formed(#[trigger] names@[k]@) by {
            assert(names@[k]@ == ns[k]);
        }
    }
    Ok(out)
}

/// Lexicographic at-most order on character sequences, by code point.
/// On UTF-8 text this coincides with the byte order `str`'s `Ord`
/// compares with.
pub open spec fn chars_le(a: Seq<char>, b: Seq<char>) -> bool
    decreases a.len(),
{
    if a.len() == 0 {
        true
    } else if b.len() == 0 {
        false
    } else if a[0] == b[0] {
        chars_le(a.subrange(1, a.len() as int), b.subrange(1, b.len() as int))
    } else {
        (a[0] as u32) < (b[0] as u32)
    }
}

/// Descending in `chars_le`: every later entry is at most every earlier
/// one.
pub open spec fn sorted_desc(s: Seq<Seq<char>>) -> bool {
    forall|i: int, j: int| 0 <= i < j < s.len() ==> chars_le(s[j], s[i])
}

/// Relies on `<[T]>::sort_unstable` and the `Ord` of `String`: sorts in
/// place, ascending in the lexicographic byte order of the strings —
/// which on UTF-8 agrees with `chars_le` on the views — and keeps the
/// multiset of strings unchanged.
#[verifier::external_body]
fn sort_strings(v: &mut Vec<String>)
    ensures
        final(v)@.len() == old(v)@.len(),
        strs_of(final(v)@).to_multiset() == strs_of(old(v)@).to_multiset(),
        forall|i: int, j: int|
            0 <= i < j < final(v)@.len() ==> chars_le(final(v)@[i]@, final(v)@[j]@),
{
    v.sort_unstable();
}

/// A copy of `v` sorted descending, holding the same strings.
pub fn sorted_desc_copy(v: &Vec<String>) -> (r: Vec<String>)
    ensures
        sorted_desc(strs_of(r@)),
        strs_of(r@).to_multiset() == strs_of(v@).to_multiset(),
{
    let mut asc: Vec<String> = Vec::new();
    let mut i: usize = 0;
    while i < v.len()
        invariant
            i <= v@.len(),
            asc@.len() == i,
            forall|j: int| 0 <= j < i ==> asc@[j]@ == v@[j]@,
        decreases v@.len() - i,
    {
        asc.push(v[i].clone());
        i += 1;
    }
    proof {
        assert(strs_of(asc@) =~= strs_of(v@));
    }
    sort_strings(&mut asc);
    let n = asc.len();
    let mut out: Vec<String> = Vec::new();
    let mut k: usize = 0;
    while k < n
        invariant
            n == asc@.len(),
            k <= n,
            out@.len() == k,
            forall|j: int| 0 <= j < k ==> out@[j]@ == asc@[n - 1 - j]@,
        decreases n - k,
    {
        out.push(asc[n - 1 - k].clone());
        k += 1;
    }
    proof {
        assert(strs_of(out@) =~= strs_of(asc@).reverse());
        strs_of(asc@).lemma_reverse_to_multiset();
        assert forall|x: int, y: int|
            0 <= x < y < strs_of(out@).len() implies chars_le(strs_of(out@)[y], strs_of(out@)[x]) by {
            assert(strs_of(out@)[y] == asc@[n - 1 - y]@);
            assert(strs_of(out@)[x] == asc@[n - 1 - x]@);
        }
    }
    out
}

/// Relies on `walkdir::WalkDir`: the file names of the immediate
/// children of `path`, in no promised order; unreadable entries and
/// entries whose name is not valid UTF-8 are dropped, and an absent
/// `path` yields an empty list.  No contract: the result depends on
/// what is on disk.
#[verifier::external_body]
fn child_names(path: &str) -> Vec<String> {
    let mut v = Vec::new();
    for entry in walkdir::WalkDir::new(path).min_depth(1).max_depth(1) {
        if let Ok(e) = entry {
            if let Some(s) = e.file_name().to_str() {
                v.push(s.to_owned());
            }
        }
    }
    v
}

/// Whether `path` lies under `root`: it is `root`, a separator, and a
/// relative remainder.
pub open spec fn under_root(path: Seq<char>, root: Seq<char>) -> bool {
    exists|sub: Seq<char>| path == joined(root, sub)
}

proof fn lemma_under_root(path: Seq<char>, root: Seq<char>, sub: Seq<char>)
    requires
        path == joined(root, sub),
    ensures
        under_root(path, root),
{
}

/// The outcome of one pruning pass: the summed measured size of the
/// planned entries, and the deletion commands left for the runner.
pub struct PruneOutcome {
    pub freed: u64,
    pub commands: Vec<RemovalCmd>,
}

/// Prunes the registry source cache under `registry_src_path`: for each
/// registry, scans the extracted `<package>-<version>` directories in
/// descending raw-name order and deletes past the keep count, summing
/// each doomed entry's measured size.  The plan is drawn up before
/// anything is removed, so a malformed name fails the pass without
/// deleting.  Under a dry run every deletion is simulated: the outcome
/// provably carries no command.  Every command is a real deletion of a
/// path under `registry_src_path`, and a failure names such a path.
pub fn prune(amount_to_keep: u64, dry_run: bool, registry_src_path: &str) -> (r: Result<
    PruneOutcome,
    PruneError,
>)
    ensures
        dry_run ==> (r matches Ok(o) ==> o.commands@.len() == 0),
        r matches Ok(o) ==> forall|i: int|
            0 <= i < o.commands@.len() ==> (#[trigger] o.commands@[i]).action != FsAction::Nothing,
        r matches Ok(o) ==> forall|i: int|
            0 <= i < o.commands@.len() ==> under_root(
                (#[trigger] o.commands@[i]).path@,
                registry_src_path@,
            ),
        r matches Err(PruneError::MalformedPackageName(p)) ==> under_root(
            p@,
            registry_src_path@,
        ),
{
    print_line("");
    let mut freed: u64 = 0;
    let mut commands: Vec<RemovalCmd> = Vec::new();
    let registries = child_names(registry_src_path);
    let mut ri: usize = 0;
    while ri < registries.len()
        invariant
            dry_run ==> commands@.len() == 0,
            forall|i: int|
                0 <= i < commands@.len() ==> (#[trigger] commands@[i]).action
                    != FsAction::Nothing,
            forall|i: int|
                0 <= i < commands@.len() ==> under_root(
                    (#[trigger] commands@[i]).path@,
                    registry_src_path@,
                ),
        decreases registries@.len() - ri,
    {
        let reg_path = join_path(registry_src_path, registries[ri].as_str());
        let names = child_names(reg_path.as_str());
        let sorted = sorted_desc_copy(&names);
        let plan = match plan_sorted(&sorted, amount_to_keep) {
            Ok(p) => p,
            Err(PruneError::MalformedPackageName(bad)) => {
                let full = join_path(reg_path.as_str(), bad.as_str());
                proof {
                    let sub = registries@[ri as int]@ + "/"@ + bad@;
                    assert(full@ =~= joined(registry_src_path@, sub));
                    lemma_under_root(full@, registry_src_path@, sub);
                }
                return Err(PruneError::MalformedPackageName(full));
            },
        };
        let mut di: usize = 0;
        while di < plan.len()
            invariant
                dry_run ==> commands@.len() == 0,
                forall|i: int|
                    0 <= i < commands@.len() ==> (#[trigger] commands@[i]).action
                        != FsAction::Nothing,
                forall|i: int|
                    0 <= i < commands@.len() ==> under_root(
                        (#[trigger] commands@[i]).path@,
                        registry_src_path@,
                    ),
                reg_path@ == joined(registry_src_path@, registries@[ri as int]@),
            decreases plan@.len() - di,
        {
            let d = &plan[di];
            let entry_path = join_path(reg_path.as_str(), d.dir_name.as_str());
            let size = measure(entry_path.as_str()).total_bytes;
            freed = if freed <= u64::MAX - size {
                freed + size
            } else {
                u64::MAX
            };
            let mut msg = "dry run: not actually deleting ".to_owned();
            msg.append(d.package.as_str());
            msg.append(" ");
            msg.append(d.version.as_str());
            msg.append(" at ");
            msg.append(entry_path.as_str());
            let step = remove(entry_path.as_str(), dry_run, None, Some(msg));
            match step.action {
                FsAction::Nothing => (),
                _ => {
                    proof {
                        let sub = registries@[ri as int]@ + "/"@ + plan@[di as int].dir_name@;
                        assert(entry_path@ =~= joined(registry_src_path@, sub));
                        lemma_under_root(entry_path@, registry_src_path@, sub);
                    }
                    commands.push(RemovalCmd { path: entry_path, action: step.action });
                },
            }
            di += 1;
        }
        ri += 1;
    }
    let mut line = "Removed ".to_owned();
    let size_str = humanize(freed);
    line.append(size_str.as_str());
    line.append(" of compressed crate sources.");
    print_line(line.as_str());
    Ok(PruneOutcome { freed, commands })
}

} // verus!
