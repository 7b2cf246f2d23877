//! The interactive removal menu as an explicit finite-state machine:
//! one state per prompt, one verified transition per line of input.
//! The caller reads lines and carries out the deletion a final state
//! asks for; the machine itself never touches the disk.

use vstd::prelude::*;
use vstd::string::StringExecFns;
use crate::paths::CargoCachePaths;
use crate::text::{eq_str, strs_of, trim_ascii, trim_rec};

verus! {

/// What the user picked for deletion.
#[derive(Clone, Copy, PartialEq, Eq, Structural, Debug)]
pub enum MenuChoice {
    GitCheckouts,
    Git,
    Registry,
}

/// Where the dialogue stands.
#[derive(Clone, Copy, PartialEq, Eq, Structural, Debug)]
pub enum MenuState {
    AwaitingCategory,
    AwaitingConfirmation(MenuChoice),
    DoneDelete(MenuChoice),
    DoneKeep,
    DoneAbort,
}

/// One transition's outcome: the next state and the lines to print.
pub struct MenuStep {
    pub state: MenuState,
    pub lines: Vec<String>,
}

/// The directories one choice covers, in deletion order.  Picking the
/// git database cascades to the checkouts as well.
pub open spec fn choice_dirs_spec(c: MenuChoice, ccd: CargoCachePaths) -> Seq<Seq<char>> {
    match c {
        MenuChoice::GitCheckouts => seq![ccd.git_checkouts@],
        MenuChoice::Git => seq![ccd.git_repos_bare@, ccd.git_checkouts@],
        MenuChoice::Registry => seq![ccd.registry@],
    }
}

/// Exec twin of `choice_dirs_spec`.
pub fn choice_dirs(c: MenuChoice, ccd: &CargoCachePaths) -> (r: Vec<String>)
    ensures
        strs_of(r@) == choice_dirs_spec(c, *ccd),
{
    let mut v: Vec<String> = Vec::new();
    match c {
        MenuChoice::GitCheckouts => {
            v.push(ccd.git_checkouts.clone());
        },
        MenuChoice::Git => {
            v.push(ccd.git_repos_bare.clone());
            v.push(ccd.git_checkouts.clone());
        },
        MenuChoice::Registry => {
            v.push(ccd.registry.clone());
        },
    }
    proof {
        assert(strs_of(v@) =~= choice_dirs_spec(c, *ccd));
    }
    v
}

/// The state the machine moves to on one trimmed line of input.
pub open spec fn next_state(st: MenuState, line: Seq<char>) -> MenuState {
    match st {
        MenuState::AwaitingCategory => {
            if line == "git-checkouts"@ {
                MenuState::AwaitingConfirmation(MenuChoice::GitCheckouts)
            } else if line == "git"@ {
                MenuState::AwaitingConfirmation(MenuChoice::Git)
            } else if line == "registry"@ {
                MenuState::AwaitingConfirmation(MenuChoice::Registry)
            } else if line == "abort"@ {
                MenuState::DoneAbort
            } else {
                MenuState::AwaitingCategory
            }
        },
        MenuState::AwaitingConfirmation(c) => {
            if line == "yes"@ {
                MenuState::DoneDelete(c)
            } else if line == "no"@ {
                MenuState::DoneKeep
            } else {
                MenuState::AwaitingConfirmation(c)
            }
        },
        _ => st,
    }
}

/// The first directory a choice covers: the one the prompts name.
pub open spec fn first_dir(c: MenuChoice, ccd: CargoCachePaths) -> Seq<char> {
    choice_dirs_spec(c, ccd)[0]
}

/// The lines printed for one transition.
pub open spec fn step_lines(st: MenuState, line: Seq<char>, ccd: CargoCachePaths) -> Seq<
    Seq<char>,
> {
    match st {
        MenuState::AwaitingCategory => {
            if line == "git-checkouts"@ || line == "git"@ || line == "registry"@ {
                let c = next_state(st, line)->AwaitingConfirmation_0;
                seq![
                    "Trying to delete "@ + first_dir(c, ccd),
                    "Really delete dir "@ + first_dir(c, ccd) + " ? (yes/no)"@,
                ]
            } else if line == "abort"@ {
                Seq::<Seq<char>>::empty()
            } else if line == "bin-dir"@ {
                seq!["Please use 'cargo uninstall'."@]
            } else {
                seq![
                    "Invalid input."@,
                    "Possible directories to delete: 'git-checkouts', 'git', 'registry'."@,
                ]
            }
        },
        MenuState::AwaitingConfirmation(c) => {
            if line == "yes"@ {
                seq!["deleting "@ + first_dir(c, ccd)]
            } else if line == "no"@ {
                seq!["keeping "@ + first_dir(c, ccd)]
            } else {
                seq!["Invalid input: "@ + line, "please use 'yes' or 'no'"@]
            }
        },
        _ => Seq::<Seq<char>>::empty(),
    }
}

/// Feeds one raw line of input to the machine.  The line is trimmed of
/// ASCII whitespace first; the next state and the printed lines are
/// exactly `next_state` and `step_lines` of the trimmed line.
pub fn menu_step(st: MenuState, input: &str, ccd: &CargoCachePaths) -> (r: MenuStep)
    ensures
        r.state == next_state(st, trim_rec(input@)),
        strs_of(r.lines@) == step_lines(st, trim_rec(input@), *ccd),
{
    let line = trim_ascii(input);
    let mut lines: Vec<String> = Vec::new();
    let state: MenuState;
    match st {
        MenuState::AwaitingCategory => {
            let choice: Option<MenuChoice> = if eq_str(line, "git-checkouts") {
                Some(MenuChoice::GitCheckouts)
            } else if eq_str(line, "git") {
                Some(MenuChoice::Git)
            } else if eq_str(line, "registry") {
                Some(MenuChoice::Registry)
            } else {
                None
            };
            match choice {
                Some(c) => {
                    let dirs = choice_dirs(c, ccd);
                    proof {
                        assert(dirs@.len() == strs_of(dirs@).len());
                        assert(choice_dirs_spec(c, *ccd).len() >= 1);
                        assert(dirs@[0]@ == first_dir(c, *ccd));
                    }
                    let first = &dirs[0];
                    let mut l0 = "Trying to delete ".to_owned();
                    l0.append(first.as_str());
                    let mut l1 = "Really delete dir ".to_owned();
                    l1.append(first.as_str());
                    l1.append(" ? (yes/no)");
                    lines.push(l0);
                    lines.push(l1);
                    state = MenuState::AwaitingConfirmation(c);
                },
                None => {
                    if eq_str(line, "abort") {
                        state = MenuState::DoneAbort;
                    } else if eq_str(line, "bin-dir") {
                        lines.push("Please use 'cargo uninstall'.".to_owned());
                        state = MenuState::AwaitingCategory;
                    } else {
                        lines.push("Invalid input.".to_owned());
                        lines.push(
                            "Possible directories to delete: 'git-checkouts', 'git', 'registry'.".to_owned(),
                        );
                        state = MenuState::AwaitingCategory;
                    }
                },
            }
        },
        MenuState::AwaitingConfirmation(c) => {
            let dirs = choice_dirs(c, ccd);
            proof {
                assert(dirs@.len() == strs_of(dirs@).len());
                assert(choice_dirs_spec(c, *ccd).len() >= 1);
                assert(dirs@[0]@ == first_dir(c, *ccd));
            }
            let first = &dirs[0];
            if eq_str(line, "yes") {
                let mut l0 = "deleting ".to_owned();
                l0.append(first.as_str());
                lines.push(l0);
                state = MenuState::DoneDelete(c);
            } else if eq_str(line, "no") {
                let mut l0 = "keeping ".to_owned();
                l0.append(first.as_str());
                lines.push(l0);
                state = MenuState::DoneKeep;
            } else {
                let mut l0 = "Invalid input: ".to_owned();
                l0.append(line);
                lines.push(l0);
                lines.push("please use 'yes' or 'no'".to_owned());
                state = MenuState::AwaitingConfirmation(c);
            }
        },
        _ => {
            state = st;
        },
    }
    proof {
        assert(strs_of(lines@) =~~= step_lines(st, trim_rec(input@), *ccd));
    }
    MenuStep { state, lines }
}

} // verus!
