//! The repository-initialization steps and their invocations.

use vstd::prelude::*;

use crate::input::UserInput;
use crate::scaffold::{actions_view, Action, ActionV};

verus! {

/// One version-control invocation of the initialization sequence.
#[derive(Clone, Copy, Debug, PartialEq, Eq, Structural)]
pub enum GitStep {
    Init,
    Add,
    Commit,
}

pub open spec fn args_view(s: Seq<&'static str>) -> Seq<Seq<char>> {
    s.map_values(|a: &'static str| a@)
}

/// The argument list of one step.
pub open spec fn step_args(s: GitStep) -> Seq<Seq<char>> {
    match s {
        GitStep::Init => seq!["init"@],
        GitStep::Add => seq!["add"@, "."@],
        GitStep::Commit => seq!["commit"@, "-m"@, "init"@],
    }
}

impl GitStep {
    /// The arguments handed to the version-control executable for this
    /// step.
    pub fn args(&self) -> (r: Vec<&'static str>)
        ensures
            args_view(r@) == step_args(*self),
    {
        let r: Vec<&'static str> = match self {
            GitStep::Init => vec!["init"],
            GitStep::Add => vec!["add", "."],
            GitStep::Commit => vec!["commit", "-m", "init"],
        };
        proof {
            assert(args_view(r@) =~= step_args(*self));
        }
        r
    }
}

/// The initialization sequence: init, stage everything, one commit.
pub open spec fn git_plan(git: bool) -> Seq<ActionV> {
    if git {
        seq![
            ActionV::GitRun { step: GitStep::Init },
            ActionV::GitRun { step: GitStep::Add },
            ActionV::GitRun { step: GitStep::Commit },
        ]
    } else {
        Seq::empty()
    }
}

/// The repository-initialization actions: the three invocations in order
/// where the answers asked for a repository, none otherwise.
pub fn create_repo(input: &UserInput) -> (r: Vec<Action>)
    ensures
        actions_view(r@) == git_plan(input.git),
{
    let mut r: Vec<Action> = Vec::new();
    if input.git {
        r.push(Action::GitRun { step: GitStep::Init });
        r.push(Action::GitRun { step: GitStep::Add });
        r.push(Action::GitRun { step: GitStep::Commit });
    }
    proof {
        assert(actions_view(r@) =~= git_plan(input.git));
    }
    r
}

} // verus!
