//! The materialization plan: the ordered filesystem and process actions
//! that turn an answer set into a project tree, and the transactional
//! machine that runs them with rollback on failure.

pub mod assets;
pub mod common_files;
pub mod git;
pub mod gradle;
pub mod main_class;
pub mod mod_file;
pub mod project_structure;

use vstd::prelude::*;
use vstd::string::*;

use self::git::GitStep;
use crate::input::UserInput;
use crate::utils::java_version_for;
use crate::version::version_of;

verus! {

/// One step of materialization. Paths are relative to the project root;
/// a copy's source names a file of the static template bundle.
#[derive(Debug, Clone, PartialEq, Eq)]
pub enum Action {
    CreateDir { path: String },
    WriteFile { path: String, contents: String },
    CopyAsset { source: String, dest: String },
    GitRun { step: GitStep },
}

/// Mathematical model of an action.
pub ghost enum ActionV {
    CreateDir { path: Seq<char> },
    WriteFile { path: Seq<char>, contents: Seq<char> },
    CopyAsset { source: Seq<char>, dest: Seq<char> },
    GitRun { step: GitStep },
}

impl View for Action {
    type V = ActionV;

    open spec fn view(&self) -> ActionV {
        match self {
            Action::CreateDir { path } => ActionV::CreateDir { path: path@ },
            Action::WriteFile { path, contents } => ActionV::WriteFile {
                path: path@,
                contents: contents@,
            },
            Action::CopyAsset { source, dest } => ActionV::CopyAsset {
                source: source@,
                dest: dest@,
            },
            Action::GitRun { step } => ActionV::GitRun { step: *step },
        }
    }
}

pub open spec fn actions_view(s: Seq<Action>) -> Seq<ActionV> {
    s.map_values(|a: Action| a@)
}

/// The static template texts, read from the asset bundle before any
/// planning starts.
pub struct Templates {
    pub main_class: String,
    pub mod_json: String,
    pub build_gradle_groovy: String,
    pub build_gradle_kotlin: String,
    pub gradle_properties: String,
}

/// Why a plan cannot be built.
#[derive(Debug, Clone, Copy, PartialEq, Eq, Structural)]
pub enum ScaffoldError {
    /// The chosen platform version is not a semantic version, so no Java
    /// version can be derived for the build files.
    BadPlatformVersion,
}

/// The package directory path: the Maven group with every dot turned
/// into a path separator.
pub open spec fn package_path_of(g: Seq<char>) -> Seq<char> {
    g.map_values(|c: char| if c == '.' { '/' } else { c })
}

/// Turn a Maven group into the matching package directory path.
pub fn package_path(group: &str) -> (r: String)
    ensures
        r@ == package_path_of(group@),
{
    let n = group.unicode_len();
    let mut out: Vec<char> = Vec::new();
    let mut i: usize = 0;
    while i < n
        invariant
            0 <= i <= n,
            n == group@.len(),
            out@.len() == i,
            forall|k: int| 0 <= k < i ==> out@[k] == (if group@[k] == '.' { '/' } else { group@[k] }),
        decreases n - i,
    {
        let c = group.get_char(i);
        if c == '.' {
            out.push('/');
        } else {
            out.push(c);
        }
        i += 1;
    }
    proof {
        assert(out@ =~= package_path_of(group@));
    }
    crate::utils::chars_to_string(&out)
}

/// Every action of one materialization, in the order they run: the
/// directory skeleton, the rendered source entry point, the mod
/// descriptor, the build files and their static companions, the asset
/// directory with its icon, the repository bookkeeping files, and the
/// repository initialization where it was asked for.
pub open spec fn full_plan(input: UserInput, t: Templates) -> Seq<ActionV> {
    project_structure::structure_plan(input) + seq![
        main_class::main_class_plan(input, t.main_class@),
    ] + seq![
        mod_file::mod_file_plan(
            input,
            t.mod_json@,
            java_version_for(version_of(input.minecraft_version@)->0),
        ),
    ] + gradle::gradle_plan(input, t, java_version_for(version_of(input.minecraft_version@)->0))
        + assets::assets_plan(input) + common_files::common_plan() + git::git_plan(input.git)
}

/// Build the whole materialization plan. Fails exactly where the chosen
/// platform version is not a semantic version.
pub fn create(input: &UserInput, templates: &Templates) -> (r: Result<Vec<Action>, ScaffoldError>)
    ensures
        version_of(input.minecraft_version@) is Some ==> r is Ok && actions_view(r->Ok_0@)
            == full_plan(*input, *templates),
        version_of(input.minecraft_version@) is None ==> r is Err && r->Err_0
            == ScaffoldError::BadPlatformVersion,
{
    let mut out = project_structure::create(input);
    let mc = main_class::create(input, templates.main_class.as_str());
    out.push(mc);
    let mf = match mod_file::create(input, templates.mod_json.as_str()) {
        Ok(a) => a,
        Err(e) => {
            return Err(e);
        },
    };
    out.push(mf);
    let mut gr = match gradle::create(input, templates) {
        Ok(v) => v,
        Err(e) => {
            return Err(e);
        },
    };
    out.append(&mut gr);
    let mut asts = assets::create(input);
    out.append(&mut asts);
    let mut com = common_files::copy();
    out.append(&mut com);
    let mut gt = git::create_repo(input);
    out.append(&mut gt);
    proof {
        assert(actions_view(out@) =~= full_plan(*input, *templates));
    }
    Ok(out)
}

/// Where one materialization stands.
#[derive(Clone, Copy, Debug, PartialEq, Eq, Structural)]
pub enum Phase {
    /// Steps are still being run.
    Running,
    /// A step failed; the target directory must now be removed.
    CleaningUp { failed: usize },
    /// The run is over, with this outcome.
    Finished { outcome: Outcome },
}

/// How one materialization ended.
#[derive(Clone, Copy, Debug, PartialEq, Eq, Structural)]
pub enum Outcome {
    /// Every step ran; the project tree stands.
    Success,
    /// This step failed; the target directory was removed, and the
    /// step's own failure is what the caller sees.
    StepFailed { step: usize },
    /// This step failed and the removal failed too; the removal's
    /// failure is surfaced.
    CleanupFailed { step: usize },
}

/// What the executor must do next.
#[derive(Clone, Copy, Debug, PartialEq, Eq, Structural)]
pub enum Directive {
    /// Run the current step of the plan.
    RunStep,
    /// Remove the target directory, everything in it included.
    Cleanup,
    /// Stop; `outcome` tells how it ended.
    Stop,
}

/// The transactional boundary around one materialization: the executor
/// performs what `next_directive` orders and reports each result through
/// `report`; after any step's failure the machine orders the cleanup, so
/// the caller sees a full project tree or none.
pub struct Materializer {
    pub plan: Vec<Action>,
    pub next: usize,
    pub phase: Phase,
}

/// The machine after one result is reported.
pub open spec fn reported(m: Materializer, ok: bool) -> Materializer {
    match m.phase {
        Phase::Running => {
            if ok {
                Materializer { plan: m.plan, next: (m.next + 1) as usize, phase: Phase::Running }
            } else {
                Materializer { plan: m.plan, next: m.next, phase: Phase::CleaningUp { failed: m.next } }
            }
        },
        Phase::CleaningUp { failed } => {
            if ok {
                Materializer {
                    plan: m.plan,
                    next: m.next,
                    phase: Phase::Finished { outcome: Outcome::StepFailed { step: failed } },
                }
            } else {
                Materializer {
                    plan: m.plan,
                    next: m.next,
                    phase: Phase::Finished { outcome: Outcome::CleanupFailed { step: failed } },
                }
            }
        },
        Phase::Finished { .. } => m,
    }
}

impl Materializer {
    pub open spec fn wf(self) -> bool {
        &&& self.next <= self.plan@.len()
        &&& (self.phase matches Phase::CleaningUp { failed } ==> failed < self.plan@.len())
        &&& (self.phase matches Phase::Finished { outcome: Outcome::StepFailed { step } } ==> step
            < self.plan@.len())
    }

    /// A machine at the start of the plan.
    pub fn new(plan: Vec<Action>) -> (m: Materializer)
        ensures
            m.plan == plan,
            m.next == 0,
            m.phase is Running,
            m.wf(),
    {
        Materializer { plan, next: 0, phase: Phase::Running }
    }

    /// What to do now: run a step, clean up, or stop.
    pub fn next_directive(&self) -> (d: Directive)
        ensures
            d is RunStep <==> self.phase is Running && self.next < self.plan@.len(),
            d is Cleanup <==> self.phase is CleaningUp,
            d is Stop <==> (self.phase is Finished || (self.phase is Running && self.next
                >= self.plan@.len())),
    {
        match self.phase {
            Phase::Running => {
                if self.next < self.plan.len() {
                    Directive::RunStep
                } else {
                    Directive::Stop
                }
            },
            Phase::CleaningUp { .. } => Directive::Cleanup,
            Phase::Finished { .. } => Directive::Stop,
        }
    }

    /// The step to run now.
    pub fn current_action(&self) -> (a: &Action)
        requires
            self.phase is Running,
            self.next < self.plan@.len(),
        ensures
            *a == self.plan@[self.next as int],
    {
        &self.plan[self.next]
    }

    /// How the run ended: `Success` when every step ran, the failed
    /// step otherwise, and `None` while it is not over.
    pub fn outcome(&self) -> (o: Option<Outcome>)
        ensures
            match self.phase {
                Phase::Finished { outcome } => o == Some(outcome),
                Phase::Running => if self.next >= self.plan@.len() {
                    o == Some(Outcome::Success)
                } else {
                    o is None
                },
                Phase::CleaningUp { .. } => o is None,
            },
    {
        match self.phase {
            Phase::Finished { outcome } => Some(outcome),
            Phase::Running => {
                if self.next >= self.plan.len() {
                    Some(Outcome::Success)
                } else {
                    None
                }
            },
            Phase::CleaningUp { .. } => None,
        }
    }

    /// Report the result of what `next_directive` ordered: of the
    /// current step while running, of the directory removal while
    /// cleaning up. A failed step turns the machine to cleanup; the
    /// cleanup's report ends the run, keeping the failed step as the
    /// outcome where the removal went through.
    pub fn report(&mut self, ok: bool)
        requires
            old(self).wf(),
            old(self).phase is Running ==> old(self).next < old(self).plan@.len(),
            !(old(self).phase is Finished),
        ensures
            *final (self) == reported(*old(self), ok),
            final (self).wf(),
    {
        proof {
            assert(self.plan.len() == self.plan@.len());
        }
        match self.phase {
            Phase::Running => {
                if ok {
                    self.next = self.next + 1;
                } else {
                    self.phase = Phase::CleaningUp { failed: self.next };
                }
            },
            Phase::CleaningUp { failed } => {
                if ok {
                    self.phase = Phase::Finished { outcome: Outcome::StepFailed { step: failed } };
                } else {
                    self.phase = Phase::Finished {
                        outcome: Outcome::CleanupFailed { step: failed },
                    };
                }
            },
            Phase::Finished { .. } => {},
        }
    }
}

/// The machine after the first `k` steps succeed.
pub open spec fn after_oks(m: Materializer, k: nat) -> Materializer
    decreases k,
{
    if k == 0 {
        m
    } else {
        reported(after_oks(m, (k - 1) as nat), true)
    }
}

proof fn lemma_after_oks_running(plan: Vec<Action>, k: nat)
    requires
        k <= plan@.len(),
    ensures
        after_oks(Materializer { plan, next: 0, phase: Phase::Running }, k) == (Materializer {
            plan,
            next: k as usize,
            phase: Phase::Running,
        }),
    decreases k,
{
    assert(plan.len() == plan@.len());
    if k > 0 {
        lemma_after_oks_running(plan, (k - 1) as nat);
    }
}

/// Law: rollback. For every plan and every step `n` of it, when the
/// steps before `n` succeed and step `n` fails, the machine orders
/// exactly the steps of the plan up to and including `n`, then the
/// cleanup; and once the cleanup is reported done, the outcome is the
/// failure of step `n` itself, not the cleanup's. Only a failed cleanup
/// surfaces as its own outcome.
pub proof fn lemma_rollback(plan: Vec<Action>, n: nat)
    requires
        n < plan@.len(),
    ensures
        ({
            let at_n = after_oks(Materializer { plan, next: 0, phase: Phase::Running }, n);
            let failed = reported(at_n, false);
            &&& at_n.phase is Running && at_n.next == n && at_n.plan == plan
            &&& failed.phase == (Phase::CleaningUp { failed: n as usize })
            &&& reported(failed, true).phase == (Phase::Finished {
                outcome: Outcome::StepFailed { step: n as usize },
            })
            &&& reported(failed, false).phase == (Phase::Finished {
                outcome: Outcome::CleanupFailed { step: n as usize },
            })
        }),
{
    assert(plan.len() == plan@.len());
    lemma_after_oks_running(plan, n);
}

} // verus!
