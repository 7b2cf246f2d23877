//! The accounting report: the five canonical statistics and the exact
//! summary lines printed for them.

use vstd::prelude::*;
use vstd::string::StringExecFns;
use crate::human::{human_size_of, humanize};
use crate::output::print_line;
use crate::paths::CargoCachePaths;
use crate::stats::{measure, DirectoryStats};
use crate::text::{dec_rep, u64_to_dec};

verus! {

/// The five named statistics of one summary pass: whole cache,
/// installed binaries, registry, git database, git checkouts.
#[derive(Clone, Copy, PartialEq, Eq, Structural, Debug)]
pub struct CacheReport {
    pub total: DirectoryStats,
    pub binaries: DirectoryStats,
    pub registry: DirectoryStats,
    pub git_db: DirectoryStats,
    pub git_checkouts: DirectoryStats,
}

/// Measures the five canonical directories.  Pure aggregation over
/// `measure`: no mutation, and an absent directory contributes `{0,0}`
/// rather than an error.
pub fn summarize(ccd: &CargoCachePaths) -> (r: CacheReport) {
    CacheReport {
        total: measure(ccd.cargo_home.as_str()),
        binaries: measure(ccd.bin.as_str()),
        registry: measure(ccd.registry.as_str()),
        git_db: measure(ccd.git_repos_bare.as_str()),
        git_checkouts: measure(ccd.git_checkouts.as_str()),
    }
}

pub open spec fn total_line(r: CacheReport) -> Seq<char> {
    "Total size: "@ + human_size_of(r.total.total_bytes) + " "@
}

pub open spec fn binaries_line(r: CacheReport) -> Seq<char> {
    "Size of "@ + dec_rep(r.binaries.file_count as int) + " installed binaries "@ + human_size_of(
        r.binaries.total_bytes,
    ) + " "@
}

pub open spec fn registry_line(r: CacheReport) -> Seq<char> {
    "Size of registry "@ + human_size_of(r.registry.total_bytes) + " "@
}

pub open spec fn git_db_line(r: CacheReport) -> Seq<char> {
    "Size of git db  "@ + human_size_of(r.git_db.total_bytes) + " "@
}

pub open spec fn git_checkouts_line(r: CacheReport) -> Seq<char> {
    "Size of git repo checkouts "@ + human_size_of(r.git_checkouts.total_bytes) + " "@
}

/// The five summary lines for a report, in display order, each exactly
/// as its line spec says.
pub fn report_lines(r: &CacheReport) -> (v: Vec<String>)
    ensures
        v@.len() == 5,
        v@[0]@ == total_line(*r),
        v@[1]@ == binaries_line(*r),
        v@[2]@ == registry_line(*r),
        v@[3]@ == git_db_line(*r),
        v@[4]@ == git_checkouts_line(*r),
{
    let mut v: Vec<String> = Vec::new();

    let mut l0 = "Total size: ".to_owned();
    let h0 = humanize(r.total.total_bytes);
    l0.append(h0.as_str());
    l0.append(" ");
    proof {
        assert(l0@ =~= total_line(*r));
    }
    v.push(l0);

    let mut l1 = "Size of ".to_owned();
    let c1 = u64_to_dec(r.binaries.file_count);
    l1.append(c1.as_str());
    l1.append(" installed binaries ");
    let h1 = humanize(r.binaries.total_bytes);
    l1.append(h1.as_str());
    l1.append(" ");
    proof {
        assert(l1@ =~= binaries_line(*r));
    }
    v.push(l1);

    let mut l2 = "Size of registry ".to_owned();
    let h2 = humanize(r.registry.total_bytes);
    l2.append(h2.as_str());
    l2.append(" ");
    proof {
        assert(l2@ =~= registry_line(*r));
    }
    v.push(l2);

    let mut l3 = "Size of git db  ".to_owned();
    let h3 = humanize(r.git_db.total_bytes);
    l3.append(h3.as_str());
    l3.append(" ");
    proof {
        assert(l3@ =~= git_db_line(*r));
    }
    v.push(l3);

    let mut l4 = "Size of git repo checkouts ".to_owned();
    let h4 = humanize(r.git_checkouts.total_bytes);
    l4.append(h4.as_str());
    l4.append(" ");
    proof {
        assert(l4@ =~= git_checkouts_line(*r));
    }
    v.push(l4);

    v
}

/// Prints the header and the five summary lines.
pub fn print_report(r: &CacheReport) {
    print_line("");
    print_line("Cargo cache:");
    print_line("");
    let lines = report_lines(r);
    let mut i: usize = 0;
    while i < lines.len()
        decreases lines@.len() - i,
    {
        print_line(lines[i].as_str());
        i += 1;
    }
}

} // verus!
