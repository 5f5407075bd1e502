//! Runnable operations and the means to turn them into external commands.
//!
//! Nothing here starts a process. An operation is resolved into an
//! [`Invocation`]; a [`Plan`] lists the invocations of a whole phase, and a
//! [`Runner`](runcore::Runner) decides, event by event, what the caller
//! has to do next.

use vstd::prelude::*;
use vstd::string::StringExecFns;

pub mod custom_commands;
pub mod file_downloads;
pub mod packages;
pub mod runcore;
pub mod snap;

pub use custom_commands::run_custom_commands;
pub use file_downloads::execute_download_operations;
pub use packages::install_packages;
pub use snap::install_snap_packages;

use crate::configuration::command::CustomCommand;
use crate::configuration::commandset::OrderedCommand;
use crate::configuration::packages::PackageList;
use crate::configuration::snap::{SnapPackage, StandardSnaps};
use crate::configuration::system::{SystemDetails, SystemRefreshOperation};
use crate::error::{Error, ErrorView};

verus! {

/// An operation that is executed as an external command: a command name,
/// its arguments, and whether it has to run with elevated privileges.
///
/// The three `spec_` functions are the mathematical model of the
/// operation; each executable method returns what its model says. An
/// implementation defines the model; the defaults say nothing at all, so
/// nothing can be proved of an implementation that keeps them.
pub trait RunnableOperation {
    /// The command name this operation resolves to on the given system, or
    /// the reason why it cannot be resolved.
    open spec fn spec_command_name(&self, system_details: SystemDetails) -> Result<
        Seq<char>,
        ErrorView,
    > {
        arbitrary()
    }

    /// The operation's own arguments, or `None` when it has nothing to pass.
    open spec fn spec_args(&self, system_details: SystemDetails) -> Option<Seq<Seq<char>>> {
        arbitrary()
    }

    /// Whether the operation requires elevated privileges.
    open spec fn spec_needs_root(&self) -> bool {
        arbitrary()
    }

    /// The name of the command to run, without arguments. A resolved name
    /// is never empty.
    fn command_name(&self, system_details: SystemDetails) -> (r: Result<String, Error>)
        ensures
            name_view(r) == self.spec_command_name(system_details),
            r matches Ok(name) ==> name@.len() > 0,
    ;

    /// The arguments to pass to the command: subcommands, flags, operands.
    fn args(&self, system_details: SystemDetails) -> (r: Option<Vec<String>>)
        ensures
            r.deep_view() == self.spec_args(system_details),
    ;

    /// Whether the command has to run with elevated privileges.
    fn needs_root(&self) -> (r: bool)
        ensures
            r == self.spec_needs_root(),
    ;
}

/// The content of a resolved command name.
pub open spec fn name_view(r: Result<String, Error>) -> Result<Seq<char>, ErrorView> {
    match r {
        Ok(name) => Ok(name@),
        Err(e) => Err(e@),
    }
}

/// An external command, ready to be spawned.
#[derive(Debug, PartialEq, Eq)]
pub struct Invocation {
    /// The binary to invoke.
    pub program: String,
    /// The arguments to invoke it with.
    pub args: Vec<String>,
    /// Whether the command runs through the elevation tool, so that a
    /// privilege session has to be held before it is spawned.
    pub elevated: bool,
}

/// The mathematical content of an [`Invocation`].
pub struct InvocationView {
    pub program: Seq<char>,
    pub args: Seq<Seq<char>>,
    pub elevated: bool,
}

impl View for Invocation {
    type V = InvocationView;

    open spec fn view(&self) -> InvocationView {
        InvocationView {
            program: self.program@,
            args: self.args.deep_view(),
            elevated: self.elevated,
        }
    }
}

impl DeepView for Invocation {
    type V = InvocationView;

    open spec fn deep_view(&self) -> InvocationView {
        self@
    }
}

impl Clone for Invocation {
    fn clone(&self) -> (r: Invocation)
        ensures
            r@ == self@,
    {
        Invocation {
            program: self.program.clone(),
            args: self.args.clone(),
            elevated: self.elevated,
        }
    }
}

/// The tool that runs a command with elevated privileges.
pub open spec fn elevation_tool() -> Seq<char> {
    "sudo"@
}

/// The command to spawn for an operation with the given name, arguments
/// and root requirement. An operation that needs root runs through the
/// elevation tool, with its own name as the first argument; any other runs
/// directly. Absent arguments add nothing.
pub open spec fn invocation_for(
    name: Seq<char>,
    args: Option<Seq<Seq<char>>>,
    needs_root: bool,
) -> InvocationView {
    let own = match args {
        Some(list) => list,
        None => Seq::empty(),
    };
    if needs_root {
        InvocationView { program: elevation_tool(), args: seq![name] + own, elevated: true }
    } else {
        InvocationView { program: name, args: own, elevated: false }
    }
}

/// What an operation resolves to on a system: the command to spawn, or the
/// error of its command name. The arguments play no part when the name
/// cannot be resolved.
pub open spec fn resolution<R: RunnableOperation>(
    runnable: &R,
    system_details: SystemDetails,
) -> Result<InvocationView, ErrorView> {
    match runnable.spec_command_name(system_details) {
        Ok(name) => Ok(
            invocation_for(
                name,
                runnable.spec_args(system_details),
                runnable.spec_needs_root(),
            ),
        ),
        Err(e) => Err(e),
    }
}

/// A resolved operation runs through the elevation tool exactly when it
/// needs root: then its own name is the first argument and its arguments
/// follow; otherwise its name is the program and its arguments are the
/// arguments. The program of a resolved operation is never empty where
/// its name is not.
pub proof fn lemma_resolution_shape<R: RunnableOperation>(
    runnable: &R,
    system_details: SystemDetails,
)
    ensures
        resolution(runnable, system_details) is Ok <==> runnable.spec_command_name(
            system_details,
        ) is Ok,
        resolution(runnable, system_details) matches Ok(invocation) ==> {
            let name = runnable.spec_command_name(system_details)->Ok_0;
            let own = match runnable.spec_args(system_details) {
                Some(list) => list,
                None => Seq::empty(),
            };
            &&& invocation.elevated == runnable.spec_needs_root()
            &&& invocation.elevated ==> invocation.program == elevation_tool()
                && invocation.args.len() == own.len() + 1 && invocation.args[0] == name
                && invocation.args.skip(1) == own
            &&& !invocation.elevated ==> invocation.program == name && invocation.args == own
            &&& name.len() > 0 ==> invocation.program.len() > 0
        },
{
    reveal_strlit("sudo");
    match resolution(runnable, system_details) {
        Ok(invocation) => {
            let own = match runnable.spec_args(system_details) {
                Some(list) => list,
                None => Seq::empty(),
            };
            if invocation.elevated {
                assert(invocation.args.skip(1) =~= own);
            }
        },
        Err(e) => {},
    }
}

/// The content of a resolved operation.
pub open spec fn resolved_view(r: Result<Invocation, Error>) -> Result<InvocationView, ErrorView> {
    match r {
        Ok(invocation) => Ok(invocation@),
        Err(e) => Err(e@),
    }
}

/// Builds the command to spawn from a resolved name, the operation's own
/// arguments and its root requirement.
pub fn build_invocation(name: String, args: Option<Vec<String>>, needs_root: bool) -> (r:
    Invocation)
    ensures
        r@ == invocation_for(name@, args.deep_view(), needs_root),
{
    let mut own: Vec<String> = match args {
        Some(list) => list,
        None => Vec::new(),
    };
    let ghost own_view = own.deep_view();
    assert(args is None ==> own_view =~= Seq::<Seq<char>>::empty());
    if needs_root {
        let mut all: Vec<String> = Vec::new();
        all.push(name);
        all.append(&mut own);
        assert(all.deep_view() =~= seq![name@] + own_view);
        Invocation { program: String::from_str("sudo"), args: all, elevated: true }
    } else {
        Invocation { program: name, args: own, elevated: false }
    }
}

/// Resolves an operation into the command to spawn for it. The command
/// name is resolved first and its failure is handed on unchanged; the root
/// requirement and the arguments are only consulted after that.
pub fn run_command<R: RunnableOperation>(runnable: &R, system_details: SystemDetails) -> (r: Result<
    Invocation,
    Error,
>)
    ensures
        resolved_view(r) == resolution(runnable, system_details),
        r matches Ok(invocation) ==> invocation@.program.len() > 0,
{
    let command_name = match runnable.command_name(system_details) {
        Ok(name) => name,
        Err(e) => {
            return Err(e);
        },
    };
    let needs_root = runnable.needs_root();
    let args = runnable.args(system_details);
    proof {
        reveal_strlit("sudo");
    }
    Ok(build_invocation(command_name, args, needs_root))
}

/// Which operations need root. A package install, a snap install and a
/// refresh of the system always do; a custom command does exactly when it
/// is flagged so, and an ordered command when its command is.
pub proof fn lemma_root_requirements(
    packages: PackageList,
    snap: SnapPackage,
    standard_snaps: StandardSnaps,
    refresh: SystemRefreshOperation,
    command: CustomCommand,
    ordered: OrderedCommand,
)
    ensures
        packages.spec_needs_root(),
        snap.spec_needs_root(),
        standard_snaps.spec_needs_root(),
        refresh.spec_needs_root(),
        command.spec_needs_root() == command.needs_root,
        ordered.spec_needs_root() == ordered.command.needs_root,
{
}

/// The commands of a phase, in the order in which they are to run, and
/// the error that ends the phase after them, if there is one. A plan fails
/// fast: nothing is planned behind the first operation that cannot be
/// resolved.
#[derive(Debug, PartialEq, Eq)]
pub struct Plan {
    /// The commands to run, in order.
    pub invocations: Vec<Invocation>,
    /// The error to report once every command has run.
    pub failure: Option<Error>,
}

/// The mathematical content of a [`Plan`].
pub struct PlanView {
    pub invocations: Seq<InvocationView>,
    pub failure: Option<ErrorView>,
}

impl View for Plan {
    type V = PlanView;

    open spec fn view(&self) -> PlanView {
        PlanView {
            invocations: self.invocations.deep_view(),
            failure: match self.failure {
                Some(e) => Some(e@),
                None => None,
            },
        }
    }
}

/// The plan with nothing to run and nothing to report.
pub open spec fn empty_plan() -> PlanView {
    PlanView { invocations: Seq::empty(), failure: None }
}

/// `plan` followed by one more resolved operation. Behind a failure
/// nothing is added.
pub open spec fn plan_then(plan: PlanView, step: Result<InvocationView, ErrorView>) -> PlanView {
    if plan.failure is Some {
        plan
    } else {
        match step {
            Ok(invocation) => PlanView {
                invocations: plan.invocations.push(invocation),
                failure: None,
            },
            Err(e) => PlanView { invocations: plan.invocations, failure: Some(e) },
        }
    }
}

/// `plan` followed by every step of `steps`, in order.
pub open spec fn plan_then_all(
    plan: PlanView,
    steps: Seq<Result<InvocationView, ErrorView>>,
) -> PlanView
    decreases steps.len(),
{
    if steps.len() == 0 {
        plan
    } else {
        plan_then(plan_then_all(plan, steps.drop_last()), steps.last())
    }
}

/// `first` followed by `second`. Behind a failure of `first` nothing of
/// `second` is kept.
pub open spec fn plan_concat(first: PlanView, second: PlanView) -> PlanView {
    if first.failure is Some {
        first
    } else {
        PlanView {
            invocations: first.invocations + second.invocations,
            failure: second.failure,
        }
    }
}

/// The index of the first step that cannot be resolved, or the number of
/// steps when every one can.
pub open spec fn first_failure(steps: Seq<Result<InvocationView, ErrorView>>) -> nat
    decreases steps.len(),
{
    if steps.len() == 0 {
        0
    } else if first_failure(steps.drop_last()) < steps.len() - 1 {
        first_failure(steps.drop_last())
    } else if steps.last() is Ok {
        steps.len()
    } else {
        (steps.len() - 1) as nat
    }
}

/// A plan fails fast. The plan of a list of steps holds the commands of
/// the steps before the first one that cannot be resolved, in order, and
/// ends with the error of that step; where every step can be resolved, it
/// holds all of them and no error.
pub proof fn lemma_plan_fails_fast(steps: Seq<Result<InvocationView, ErrorView>>)
    ensures
        first_failure(steps) <= steps.len(),
        forall|i: int| 0 <= i < first_failure(steps) ==> (#[trigger] steps[i]) is Ok,
        first_failure(steps) < steps.len() ==> steps[first_failure(steps) as int] is Err,
        plan_then_all(empty_plan(), steps).invocations.len() == first_failure(steps),
        forall|i: int|
            0 <= i < first_failure(steps) ==> steps[i] == Ok::<InvocationView, ErrorView>(
                #[trigger] plan_then_all(empty_plan(), steps).invocations[i],
            ),
        first_failure(steps) == steps.len() ==> plan_then_all(empty_plan(), steps).failure is None,
        first_failure(steps) < steps.len() ==> steps[first_failure(steps) as int] == Err::<
            InvocationView,
            ErrorView,
        >(plan_then_all(empty_plan(), steps).failure->0) && plan_then_all(
            empty_plan(),
            steps,
        ).failure is Some,
    decreases steps.len(),
{
    if steps.len() > 0 {
        let front = steps.drop_last();
        lemma_plan_fails_fast(front);
        let before = plan_then_all(empty_plan(), front);
        let plan = plan_then_all(empty_plan(), steps);
        assert(plan == plan_then(before, steps.last()));
        assert forall|i: int| 0 <= i < first_failure(steps) implies (#[trigger] steps[i]) is Ok by {
            if i < front.len() {
                assert(steps[i] == front[i]);
            }
        }
        assert forall|i: int| 0 <= i < first_failure(steps) implies steps[i] == Ok::<
            InvocationView,
            ErrorView,
        >(#[trigger] plan.invocations[i]) by {
            if i < front.len() {
                assert(steps[i] == front[i]);
                assert(plan.invocations[i] == before.invocations[i]);
            }
        }
        if first_failure(front) < front.len() {
            assert(steps[first_failure(front) as int] == front[first_failure(front) as int]);
        }
    }
}

/// Appending plans is the same as planning the steps one after another.
pub proof fn lemma_plan_concat(
    plan: PlanView,
    first: Seq<Result<InvocationView, ErrorView>>,
    second: Seq<Result<InvocationView, ErrorView>>,
)
    ensures
        plan_then_all(plan, first + second) == plan_then_all(plan_then_all(plan, first), second),
        plan_then_all(plan, first) == plan_concat(plan, plan_then_all(empty_plan(), first)),
    decreases second.len(), first.len(),
{
    if second.len() == 0 {
        assert(first + second =~= first);
    } else {
        let joined = first + second;
        assert(joined.drop_last() =~= first + second.drop_last());
        assert(joined.last() == second.last());
        lemma_plan_concat(plan, first, second.drop_last());
    }
    if first.len() > 0 {
        lemma_plan_concat(plan, first.drop_last(), Seq::empty());
        let head = plan_then_all(empty_plan(), first.drop_last());
        let step = first.last();
        assert(plan_concat(plan, plan_then(head, step)) =~= plan_then(
            plan_concat(plan, head),
            step,
        )) by {
            if plan.failure is None && head.failure is None {
                match step {
                    Ok(invocation) => {
                        assert(plan.invocations + head.invocations.push(invocation) =~= (
                        plan.invocations + head.invocations).push(invocation));
                    },
                    Err(e) => {},
                }
            }
        }
    } else {
        assert(plan.invocations + Seq::<InvocationView>::empty() =~= plan.invocations);
    }
}

impl Plan {
    /// A plan with nothing to run.
    pub fn new() -> (r: Plan)
        ensures
            r@ == empty_plan(),
    {
        let r = Plan { invocations: Vec::new(), failure: None };
        assert(r.invocations.deep_view() =~= Seq::<InvocationView>::empty());
        r
    }

    /// Whether the plan ends in an error.
    pub fn has_failed(&self) -> (r: bool)
        ensures
            r == (self@.failure is Some),
    {
        self.failure.is_some()
    }

    /// Plans one more operation behind what is planned already.
    pub fn add<R: RunnableOperation>(&mut self, runnable: &R, system_details: SystemDetails)
        ensures
            final(self)@ == plan_then(old(self)@, resolution(runnable, system_details)),
    {
        if self.failure.is_some() {
            return ;
        }
        let ghost before = self.invocations.deep_view();
        match run_command(runnable, system_details) {
            Ok(invocation) => {
                self.invocations.push(invocation);
                assert(self.invocations.deep_view() =~= before.push(invocation@));
            },
            Err(e) => {
                self.failure = Some(e);
            },
        }
    }

    /// Plans everything of `other` behind what is planned already.
    pub fn append(&mut self, other: Plan)
        ensures
            final(self)@ == plan_concat(old(self)@, other@),
    {
        if self.failure.is_some() {
            return ;
        }
        let ghost before = self.invocations.deep_view();
        let mut rest = other.invocations;
        let ghost added = rest.deep_view();
        self.invocations.append(&mut rest);
        assert(self.invocations.deep_view() =~= before + added);
        self.failure = other.failure;
    }
}

} // verus!
