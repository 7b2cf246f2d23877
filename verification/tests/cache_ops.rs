use cargo_cache::menu::{choice_dirs, menu_step, MenuChoice, MenuState};
use cargo_cache::paths::{join_path, CargoCachePaths};
use cargo_cache::prune::{plan_sorted, prune, sorted_desc_copy, split_package_name, PruneError};
use cargo_cache::remove::{remove, remove_step, FsAction, PathKind};
use cargo_cache::report::{report_lines, CacheReport};
use cargo_cache::select::{
    apply, remove_dir_via_cmdline, resolve, RemovalSelection, SelectorError,
};
use cargo_cache::stats::{measure, measure_walked, stats_of_entries, DirectoryStats, FsEntry};
use cargo_cache::text::{eq_str, split_commas, trim_ascii, u64_to_dec};

const GONE: &str = "/nonexistent/cargo_cache_probe/surely_absent";

fn gone_paths() -> CargoCachePaths {
    CargoCachePaths::new(GONE)
}

#[test]
fn nonexistent_path_measures_zero() {
    let s = measure(GONE);
    assert_eq!(s, DirectoryStats { total_bytes: 0, file_count: 0 });
}

#[test]
fn only_directories_measure_zero() {
    let entries = vec![
        FsEntry { is_file: false, size: 4096 },
        FsEntry { is_file: false, size: 4096 },
        FsEntry { is_file: false, size: 0 },
    ];
    let s = measure_walked(true, &entries);
    assert_eq!(s, DirectoryStats { total_bytes: 0, file_count: 0 });
}

#[test]
fn stats_count_only_regular_files() {
    let entries = vec![
        FsEntry { is_file: false, size: 4096 },
        FsEntry { is_file: true, size: 10 },
        FsEntry { is_file: true, size: 32 },
        FsEntry { is_file: false, size: 7 },
    ];
    let s = stats_of_entries(&entries);
    assert_eq!(s, DirectoryStats { total_bytes: 42, file_count: 2 });
}

#[test]
fn stats_saturate_at_the_word_size() {
    let entries = vec![
        FsEntry { is_file: true, size: u64::MAX },
        FsEntry { is_file: true, size: 1 },
    ];
    let s = stats_of_entries(&entries);
    assert_eq!(s.total_bytes, u64::MAX);
    assert_eq!(s.file_count, 2);
}

#[test]
fn decimal_rendering_is_exact() {
    assert_eq!(u64_to_dec(0), "0");
    assert_eq!(u64_to_dec(7), "7");
    assert_eq!(u64_to_dec(42), "42");
    assert_eq!(u64_to_dec(1000000), "1000000");
    assert_eq!(u64_to_dec(u64::MAX), "18446744073709551615");
}

#[test]
fn splitting_keeps_empty_fields() {
    assert_eq!(split_commas("a,,b"), vec!["a", "", "b"]);
    assert_eq!(split_commas(""), vec![""]);
    assert_eq!(split_commas("git-db,registry"), vec!["git-db", "registry"]);
}

#[test]
fn trimming_strips_ascii_whitespace() {
    assert_eq!(trim_ascii("  registry\r\n"), "registry");
    assert_eq!(trim_ascii("\t\n"), "");
    assert_eq!(trim_ascii("x"), "x");
    assert!(eq_str(trim_ascii(" yes \n"), "yes"));
}

#[test]
fn resolve_all_equals_the_explicit_list() {
    let all = resolve("all").unwrap();
    let listed =
        resolve("git-db,git-repos,registry-sources,registry-crate-cache,registry-index").unwrap();
    assert_eq!(all, listed);
}

#[test]
fn resolve_rejects_unknown_token() {
    match resolve("bogus-token") {
        Err(SelectorError::InvalidDeletableDir(v)) => assert_eq!(v, vec!["bogus-token"]),
        other => panic!("expected InvalidDeletableDir, got {:?}", other),
    }
}

#[test]
fn resolve_names_every_unknown_token() {
    match resolve("bogus,git-db,nope") {
        Err(SelectorError::InvalidDeletableDir(v)) => assert_eq!(v, vec!["bogus", "nope"]),
        other => panic!("expected InvalidDeletableDir, got {:?}", other),
    }
}

#[test]
fn resolve_all_short_circuits_later_tokens() {
    let r = resolve("all,bogus").unwrap();
    assert_eq!(r, resolve("all").unwrap());
}

#[test]
fn resolve_registry_synonyms_cover_sources_and_cache() {
    let r = resolve("registry").unwrap();
    assert_eq!(r, resolve("registry-crate-cache").unwrap());
    assert!(r.registry_sources);
    assert!(r.registry_pkg_cache);
    assert!(!r.registry_index);
    assert!(!r.git_checkouts);
    assert!(!r.git_repos_bare);
}

#[test]
fn resolve_git_db_cascades_to_checkouts() {
    let r = resolve("git-db").unwrap();
    assert!(r.git_repos_bare);
    assert!(r.git_checkouts);
    let repos_only = resolve("git-repos").unwrap();
    assert!(repos_only.git_checkouts);
    assert!(!repos_only.git_repos_bare);
}

#[test]
fn removal_without_argument_is_refused() {
    let ccd = gone_paths();
    match remove_dir_via_cmdline(None, true, &ccd) {
        Err(SelectorError::RemoveDirNoArg) => (),
        other => panic!("expected RemoveDirNoArg, got {:?}", other),
    }
}

#[test]
fn dry_run_apply_commands_nothing() {
    let ccd = gone_paths();
    let sel = resolve("all").unwrap();
    let out = apply(&sel, &ccd, true);
    assert!(out.commands.is_empty());
    assert_eq!(out.freed, 0);
}

#[test]
fn git_db_dry_run_simulates_both_git_directories() {
    let ccd = gone_paths();
    let sel = resolve("git-db").unwrap();
    let out = apply(&sel, &ccd, true);
    assert!(out.commands.is_empty());
    assert_eq!(out.freed, 0);
    assert_eq!(out.sizes, vec![0, 0]);
    assert_eq!(
        out.lines,
        vec![
            format!("dry-run: would remove: '{}' (0 B)", ccd.git_checkouts),
            format!("dry-run: would remove: '{}' (0 B)", ccd.git_repos_bare),
        ]
    );
}

#[test]
fn real_apply_lists_selected_paths_in_fixed_order() {
    let ccd = gone_paths();
    let sel = resolve("git-db").unwrap();
    let out = apply(&sel, &ccd, false);
    let paths: Vec<String> = out.commands.iter().map(|c| c.path.clone()).collect();
    assert_eq!(paths, vec![ccd.git_checkouts.clone(), ccd.git_repos_bare.clone()]);
    for cmd in &out.commands {
        assert_eq!(cmd.action, FsAction::Nothing);
    }
    assert_eq!(
        out.lines,
        vec![
            format!("removing: '{}'", ccd.git_checkouts),
            format!("removing: '{}'", ccd.git_repos_bare),
        ]
    );
}

#[test]
fn remove_step_prints_given_dry_run_message_verbatim() {
    let step = remove_step(
        "/p",
        PathKind::Directory,
        5,
        true,
        None,
        Some("dry run: custom".to_string()),
    );
    assert_eq!(step.lines, vec!["dry run: custom"]);
    assert_eq!(step.action, FsAction::Nothing);
    assert_eq!(step.reported, 0);
}

#[test]
fn remove_step_generates_a_message_and_reports_the_size() {
    let step = remove_step("/p", PathKind::Directory, 0, true, None, None);
    assert_eq!(step.lines.len(), 1);
    assert_eq!(step.lines[0], "dry-run: would remove: '/p' (0 B)");
    assert_eq!(step.reported, 0);
    assert_eq!(step.action, FsAction::Nothing);
}

#[test]
fn remove_step_real_run_decides_by_kind() {
    let file = remove_step("/p", PathKind::File, 0, false, Some("removing".to_string()), None);
    assert_eq!(file.action, FsAction::DeleteFile);
    assert_eq!(file.lines, vec!["removing"]);
    assert_eq!(file.reported, 0);
    let dir = remove_step("/p", PathKind::Directory, 0, false, None, None);
    assert_eq!(dir.action, FsAction::DeleteTree);
    assert!(dir.lines.is_empty());
    let gone = remove_step("/p", PathKind::Missing, 0, false, None, None);
    assert_eq!(gone.action, FsAction::Nothing);
}

#[test]
fn removing_an_absent_path_is_nothing_to_do() {
    let step = remove(GONE, false, None, None);
    assert_eq!(step.action, FsAction::Nothing);
    assert_eq!(step.reported, 0);
}

#[test]
fn package_names_split_at_the_last_dash() {
    let (p, v) = split_package_name("serde-1.0.0").unwrap();
    assert_eq!(p, "serde");
    assert_eq!(v, "1.0.0");
    let (p, v) = split_package_name("rand-core-0.6.4").unwrap();
    assert_eq!(p, "rand-core");
    assert_eq!(v, "0.6.4");
    let (p, v) = split_package_name("-1.0").unwrap();
    assert_eq!(p, "");
    assert_eq!(v, "1.0");
    assert!(split_package_name("nodash").is_none());
}

#[test]
fn sorting_descends_by_raw_name() {
    let names = vec![
        "libc-0.2.0".to_string(),
        "serde-1.0.1".to_string(),
        "serde-0.9.9".to_string(),
        "serde-1.0.0".to_string(),
    ];
    let sorted = sorted_desc_copy(&names);
    assert_eq!(sorted, vec!["serde-1.0.1", "serde-1.0.0", "serde-0.9.9", "libc-0.2.0"]);
}

// The retention scan deletes every version past the keep count: of the
// three `serde` versions, both behind the top sorted entry go, while
// the single `libc` version stays.
#[test]
fn keep_one_deletes_every_excess_version() {
    let sorted = vec![
        "serde-1.0.1".to_string(),
        "serde-1.0.0".to_string(),
        "serde-0.9.9".to_string(),
        "libc-0.2.0".to_string(),
    ];
    let plan = plan_sorted(&sorted, 1).unwrap();
    let names: Vec<String> = plan.iter().map(|d| d.dir_name.clone()).collect();
    assert_eq!(names, vec!["serde-1.0.0", "serde-0.9.9"]);
    assert_eq!(plan[0].package, "serde");
    assert_eq!(plan[0].version, "1.0.0");
    assert_eq!(plan[1].package, "serde");
    assert_eq!(plan[1].version, "0.9.9");
}

#[test]
fn keep_zero_deletes_every_version_of_every_package() {
    let sorted = vec![
        "serde-1.0.1".to_string(),
        "serde-1.0.0".to_string(),
        "serde-0.9.9".to_string(),
        "libc-0.2.0".to_string(),
    ];
    let plan = plan_sorted(&sorted, 0).unwrap();
    let names: Vec<String> = plan.iter().map(|d| d.dir_name.clone()).collect();
    assert_eq!(names, vec!["serde-1.0.1", "serde-1.0.0", "serde-0.9.9", "libc-0.2.0"]);
}

#[test]
fn packages_prune_independently() {
    let sorted = vec![
        "b-2".to_string(),
        "b-1".to_string(),
        "a-3".to_string(),
        "a-2".to_string(),
        "a-1".to_string(),
    ];
    let plan = plan_sorted(&sorted, 1).unwrap();
    let names: Vec<String> = plan.iter().map(|d| d.dir_name.clone()).collect();
    assert_eq!(names, vec!["b-1", "a-2", "a-1"]);
}

#[test]
fn keep_two_spares_two_versions() {
    let sorted = vec![
        "serde-1.0.1".to_string(),
        "serde-1.0.0".to_string(),
        "serde-0.9.9".to_string(),
    ];
    let plan = plan_sorted(&sorted, 2).unwrap();
    let names: Vec<String> = plan.iter().map(|d| d.dir_name.clone()).collect();
    assert_eq!(names, vec!["serde-0.9.9"]);
}

#[test]
fn malformed_entry_name_fails_the_pass() {
    let sorted = vec!["serde-1.0.1".to_string(), "nodash".to_string()];
    match plan_sorted(&sorted, 1) {
        Err(PruneError::MalformedPackageName(p)) => assert_eq!(p, "nodash"),
        other => panic!("expected MalformedPackageName, got {:?}", other),
    }
}

#[test]
fn pruning_a_missing_cache_is_a_quiet_success() {
    let out = prune(1, false, GONE).unwrap();
    assert_eq!(out.freed, 0);
    assert!(out.commands.is_empty());
}

#[test]
fn dry_run_prune_commands_nothing() {
    let out = prune(0, true, GONE).unwrap();
    assert_eq!(out.freed, 0);
    assert!(out.commands.is_empty());
}

#[test]
fn report_lines_render_exactly() {
    let zero = DirectoryStats { total_bytes: 0, file_count: 0 };
    let r = CacheReport {
        total: DirectoryStats { total_bytes: 1000, file_count: 9 },
        binaries: DirectoryStats { total_bytes: 0, file_count: 2 },
        registry: DirectoryStats { total_bytes: 1000000, file_count: 5 },
        git_db: zero,
        git_checkouts: zero,
    };
    let lines = report_lines(&r);
    assert_eq!(lines.len(), 5);
    assert_eq!(lines[0], "Total size: 1 kB ");
    assert_eq!(lines[1], "Size of 2 installed binaries 0 B ");
    assert_eq!(lines[2], "Size of registry 1 MB ");
    assert_eq!(lines[3], "Size of git db  0 B ");
    assert_eq!(lines[4], "Size of git repo checkouts 0 B ");
}

#[test]
fn cache_layout_hangs_off_the_root() {
    let ccd = CargoCachePaths::new("/home/u/.cargo");
    assert_eq!(ccd.bin, "/home/u/.cargo/bin");
    assert_eq!(ccd.registry, "/home/u/.cargo/registry");
    assert_eq!(ccd.registry_index, "/home/u/.cargo/registry/index");
    assert_eq!(ccd.registry_sources, "/home/u/.cargo/registry/src");
    assert_eq!(ccd.registry_pkg_cache, "/home/u/.cargo/registry/cache");
    assert_eq!(ccd.git_repos_bare, "/home/u/.cargo/git/db");
    assert_eq!(ccd.git_checkouts, "/home/u/.cargo/git/checkouts");
    assert_eq!(join_path("/a", "b"), "/a/b");
}

#[test]
fn menu_walks_from_category_to_deletion() {
    let ccd = CargoCachePaths::new("/home/u/.cargo");
    let step = menu_step(MenuState::AwaitingCategory, "git\n", &ccd);
    assert_eq!(step.state, MenuState::AwaitingConfirmation(MenuChoice::Git));
    assert_eq!(step.lines[0], "Trying to delete /home/u/.cargo/git/db");
    assert_eq!(step.lines[1], "Really delete dir /home/u/.cargo/git/db ? (yes/no)");
    let confirmed = menu_step(step.state, "yes\n", &ccd);
    assert_eq!(confirmed.state, MenuState::DoneDelete(MenuChoice::Git));
    assert_eq!(confirmed.lines, vec!["deleting /home/u/.cargo/git/db"]);
    let dirs = choice_dirs(MenuChoice::Git, &ccd);
    assert_eq!(dirs, vec!["/home/u/.cargo/git/db", "/home/u/.cargo/git/checkouts"]);
}

#[test]
fn menu_rejects_unknown_lines_and_honours_abort() {
    let ccd = CargoCachePaths::new("/c");
    let step = menu_step(MenuState::AwaitingCategory, "frobnicate\n", &ccd);
    assert_eq!(step.state, MenuState::AwaitingCategory);
    assert_eq!(step.lines.len(), 2);
    let aborted = menu_step(MenuState::AwaitingCategory, "abort\n", &ccd);
    assert_eq!(aborted.state, MenuState::DoneAbort);
    assert!(aborted.lines.is_empty());
    let kept = menu_step(MenuState::AwaitingConfirmation(MenuChoice::Registry), "no\n", &ccd);
    assert_eq!(kept.state, MenuState::DoneKeep);
    let unsure = menu_step(MenuState::AwaitingConfirmation(MenuChoice::Registry), "maybe\n", &ccd);
    assert_eq!(unsure.state, MenuState::AwaitingConfirmation(MenuChoice::Registry));
    assert_eq!(unsure.lines[0], "Invalid input: maybe");
}

#[test]
fn selection_flags_match_their_categories() {
    let sel = resolve("registry-index,git-repos").unwrap();
    assert_eq!(
        sel,
        RemovalSelection {
            git_repos_bare: false,
            git_checkouts: true,
            registry_sources: false,
            registry_pkg_cache: false,
            registry_index: true,
        }
    );
}
