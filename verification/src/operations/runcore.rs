//! The core of the command runner: what an ended process means, when
//! elevated privileges have to be asked for, and which step follows which
//! while a plan is carried out.
//!
//! The runner itself starts nothing. It is a state machine: the caller
//! hands it what happened ([`RunnerEvent`]) and is told what to do next
//! ([`RunnerAction`]).

use vstd::prelude::*;
use vstd::string::StringExecFns;
use crate::error::{outcome_view, Error, ErrorView};
use crate::operations::{Invocation, InvocationView, Plan, PlanView};

verus! {

/// What an ended process means for the operation that spawned it, and
/// which of its captured streams are worth showing.
#[derive(Debug, PartialEq, Eq)]
pub struct ProcessReport {
    /// Success, or the failure of the command.
    pub outcome: Result<(), Error>,
    /// Whether the captured standard output is to be shown.
    pub show_stdout: bool,
    /// Whether the captured standard error is to be shown.
    pub show_stderr: bool,
}

/// The mathematical content of a [`ProcessReport`].
pub struct ProcessReportView {
    pub outcome: Result<(), ErrorView>,
    pub show_stdout: bool,
    pub show_stderr: bool,
}

impl View for ProcessReport {
    type V = ProcessReportView;

    open spec fn view(&self) -> ProcessReportView {
        ProcessReportView {
            outcome: outcome_view(self.outcome),
            show_stdout: self.show_stdout,
            show_stderr: self.show_stderr,
        }
    }
}

/// How much a run tells, from nothing to everything.
#[derive(Debug, Clone, Copy, PartialEq, Eq, Structural)]
pub enum LogLevel {
    Off,
    Error,
    Warn,
    Info,
    Debug,
    Trace,
}

/// What an exit status means: zero is success, any other code is the
/// failure of the command, and a process that ended without a code (it was
/// ended by a signal) counts as success.
pub open spec fn exit_outcome(status: Option<i32>) -> Result<(), ErrorView> {
    match status {
        Some(code) => if code == 0 {
            Ok(())
        } else {
            Err(ErrorView::CommandFailed { exit_code: code as int })
        },
        None => Ok(()),
    }
}

/// What the end of a process is reported as. A captured stream is shown
/// only for a command that failed, only at the `Trace` level, and only if
/// it holds anything.
pub open spec fn process_report(
    status: Option<i32>,
    stdout: Seq<u8>,
    stderr: Seq<u8>,
    level: LogLevel,
) -> ProcessReportView {
    let telling = exit_outcome(status) is Err && level == LogLevel::Trace;
    ProcessReportView {
        outcome: exit_outcome(status),
        show_stdout: telling && stdout.len() > 0,
        show_stderr: telling && stderr.len() > 0,
    }
}

/// Classifies an exit status.
pub fn classify_exit(status: Option<i32>) -> (r: Result<(), Error>)
    ensures
        outcome_view(r) == exit_outcome(status),
{
    match status {
        Some(code) => {
            if code == 0 {
                Ok(())
            } else {
                Err(Error::CommandFailed { exit_code: code })
            }
        },
        None => Ok(()),
    }
}

/// Reports the end of a process at the given log level: its exit status
/// and the output that was captured from it.
pub fn report_process(status: Option<i32>, stdout: &[u8], stderr: &[u8], level: LogLevel) -> (r:
    ProcessReport)
    ensures
        r@ == process_report(status, stdout@, stderr@, level),
{
    let outcome = classify_exit(status);
    let telling = outcome.is_err() && level == LogLevel::Trace;
    ProcessReport {
        outcome,
        show_stdout: telling && stdout.len() > 0,
        show_stderr: telling && stderr.len() > 0,
    }
}

/// Calls `log::max_level`, which hands out the level that the logger of
/// this process was last set to. It depends on what the process did
/// before, so nothing is claimed of the result.
#[verifier::external_body]
fn max_level() -> (r: LogLevel) {
    match log::max_level() {
        log::LevelFilter::Off => LogLevel::Off,
        log::LevelFilter::Error => LogLevel::Error,
        log::LevelFilter::Warn => LogLevel::Warn,
        log::LevelFilter::Info => LogLevel::Info,
        log::LevelFilter::Debug => LogLevel::Debug,
        log::LevelFilter::Trace => LogLevel::Trace,
    }
}

/// Interprets the end of a process: its exit status and the output that
/// was captured from it. The outcome depends on the exit status alone;
/// which streams are shown depends on the log level of the process as
/// well, as [`report_process`] says.
pub fn handle_process_output(status: Option<i32>, stdout: &[u8], stderr: &[u8]) -> (r:
    ProcessReport)
    ensures
        exists|level: LogLevel| r@ == #[trigger] process_report(status, stdout@, stderr@, level),
        outcome_view(r.outcome) == exit_outcome(status),
        exit_outcome(status) is Ok ==> !r.show_stdout && !r.show_stderr,
{
    let level = max_level();
    report_process(status, stdout, stderr, level)
}

/// The privilege session of a run: whether elevated privileges have been
/// granted already. They are asked for at most once and then shared by
/// every command that needs them.
#[derive(Debug)]
pub struct PrivilegeSession {
    acquired: bool,
}

impl PrivilegeSession {
    /// Whether elevated privileges have been granted.
    pub closed spec fn acquired(&self) -> bool {
        self.acquired
    }

    /// A session in which nothing has been granted yet.
    pub fn new() -> (r: PrivilegeSession)
        ensures
            !r.acquired(),
    {
        PrivilegeSession { acquired: false }
    }

    /// Whether elevated privileges have been granted.
    pub fn is_acquired(&self) -> (r: bool)
        ensures
            r == self.acquired(),
    {
        self.acquired
    }

    /// Records the answer to a request for elevated privileges. A refusal
    /// is an error and leaves the session as it was.
    pub fn record(&mut self, granted: bool) -> (r: Result<(), Error>)
        ensures
            granted ==> r is Ok && final(self).acquired(),
            !granted ==> r == Err::<(), Error>(Error::AuthenticationFailed),
            !granted ==> final(self).acquired() == old(self).acquired(),
    {
        if granted {
            self.acquired = true;
            Ok(())
        } else {
            Err(Error::AuthenticationFailed)
        }
    }
}

/// The command that asks for elevated privileges: `sudo -v`.
pub open spec fn root_prompt() -> InvocationView {
    InvocationView { program: "sudo"@, args: seq!["-v"@], elevated: false }
}

/// The command to spawn in order to obtain elevated privileges. It prompts
/// for the user's password; while its session lasts, elevated commands run
/// without a prompt.
pub fn get_root() -> (r: Invocation)
    ensures
        r@ == root_prompt(),
{
    let mut args: Vec<String> = Vec::new();
    args.push(String::from_str("-v"));
    assert(args.deep_view() =~= seq!["-v"@]);
    Invocation { program: String::from_str("sudo"), args, elevated: false }
}

/// Where a runner stands.
#[derive(Debug, Clone, Copy, PartialEq, Eq, Structural)]
pub enum RunnerPhase {
    /// Nothing is under way.
    Idle,
    /// Elevated privileges have been asked for.
    Authenticating,
    /// A command has been spawned and has not ended yet.
    Running,
    /// The plan has been carried out or given up.
    Finished,
}

/// What happened since the runner last said what to do.
#[derive(Debug, Clone, Copy, PartialEq, Eq, Structural)]
pub enum RunnerEvent {
    /// The caller is ready to start.
    Begin,
    /// The request for elevated privileges was answered.
    Authenticated(bool),
    /// The command could not be spawned.
    SpawnFailed,
    /// The spawned command ended, with this exit status.
    Exited(Option<i32>),
}

/// What the caller has to do next.
#[derive(Debug, PartialEq, Eq)]
pub enum RunnerAction {
    /// Spawn this command to obtain elevated privileges and report
    /// whether it succeeded.
    Authenticate(Invocation),
    /// Spawn this command, with its output captured, and report how it
    /// ended.
    Spawn(Invocation),
    /// Stop: the plan ended with this result.
    Finish(Result<(), Error>),
    /// Nothing: the event was not expected and has changed nothing.
    Ignore,
}

/// The mathematical content of a [`RunnerAction`].
pub enum ActionView {
    Authenticate(InvocationView),
    Spawn(InvocationView),
    Finish(Result<(), ErrorView>),
    Ignore,
}

impl View for RunnerAction {
    type V = ActionView;

    open spec fn view(&self) -> ActionView {
        match *self {
            RunnerAction::Authenticate(invocation) => ActionView::Authenticate(invocation@),
            RunnerAction::Spawn(invocation) => ActionView::Spawn(invocation@),
            RunnerAction::Finish(result) => ActionView::Finish(outcome_view(result)),
            RunnerAction::Ignore => ActionView::Ignore,
        }
    }
}

/// The mathematical content of a [`Runner`].
pub struct RunnerView {
    /// The plan that is carried out.
    pub plan: PlanView,
    /// How many commands of the plan have run to a successful end.
    pub position: nat,
    /// Where the runner stands.
    pub phase: RunnerPhase,
    /// The result of the plan, once the runner has finished.
    pub result: Result<(), ErrorView>,
}

/// A step of the runner: the state it leads to, the state of the
/// privilege session after it, and the action it asks for.
pub struct Transition {
    pub state: RunnerView,
    pub session: bool,
    pub action: ActionView,
}

/// A runner is consistent when it has not counted more commands than
/// the plan holds, and when a command it waits for is one of the plan.
pub open spec fn consistent(state: RunnerView) -> bool {
    &&& state.position <= state.plan.invocations.len()
    &&& (state.phase == RunnerPhase::Authenticating || state.phase == RunnerPhase::Running)
        ==> state.position < state.plan.invocations.len()
}

/// The result of a plan of which every command has run successfully.
pub open spec fn plan_result(plan: PlanView) -> Result<(), ErrorView> {
    match plan.failure {
        Some(e) => Err(e),
        None => Ok(()),
    }
}

/// The runner finished with `result`.
pub open spec fn finished(state: RunnerView, session: bool, result: Result<(), ErrorView>)
    -> Transition {
    Transition {
        state: RunnerView { phase: RunnerPhase::Finished, result, ..state },
        session,
        action: ActionView::Finish(result),
    }
}

/// Turns to the next command of the plan: finishes when none is left, asks
/// for elevated privileges when the command needs them and the session
/// does not hold them, and spawns the command otherwise.
pub open spec fn advance(state: RunnerView, session: bool) -> Transition {
    if state.position >= state.plan.invocations.len() {
        finished(state, session, plan_result(state.plan))
    } else {
        let invocation = state.plan.invocations[state.position as int];
        if invocation.elevated && !session {
            Transition {
                state: RunnerView { phase: RunnerPhase::Authenticating, ..state },
                session,
                action: ActionView::Authenticate(root_prompt()),
            }
        } else {
            Transition {
                state: RunnerView { phase: RunnerPhase::Running, ..state },
                session,
                action: ActionView::Spawn(invocation),
            }
        }
    }
}

/// The step that a runner takes on an event.
///
/// * Idle, it begins with the first command of the plan.
/// * Waiting for privileges, it spawns the command once they are granted
///   and gives up when they are refused.
/// * Waiting for a command, it turns to the next one after a success and
///   gives up after a failure: the plan fails fast.
/// * Finished, it repeats its result.
/// * An event that the phase does not expect changes nothing.
pub open spec fn next(state: RunnerView, session: bool, event: RunnerEvent) -> Transition {
    match (state.phase, event) {
        (RunnerPhase::Finished, _) => Transition {
            state,
            session,
            action: ActionView::Finish(state.result),
        },
        (RunnerPhase::Idle, RunnerEvent::Begin) => advance(state, session),
        (RunnerPhase::Authenticating, RunnerEvent::Authenticated(granted)) => if granted {
            Transition {
                state: RunnerView { phase: RunnerPhase::Running, ..state },
                session: true,
                action: ActionView::Spawn(state.plan.invocations[state.position as int]),
            }
        } else {
            finished(state, session, Err(ErrorView::AuthenticationFailed))
        },
        (RunnerPhase::Running, RunnerEvent::SpawnFailed) => finished(
            state,
            session,
            Err(ErrorView::SpawnFailed),
        ),
        (RunnerPhase::Running, RunnerEvent::Exited(status)) => match exit_outcome(status) {
            Ok(()) => advance(RunnerView { position: state.position + 1, ..state }, session),
            Err(e) => finished(state, session, Err(e)),
        },
        _ => Transition { state, session, action: ActionView::Ignore },
    }
}

/// The event reports a command that ended without a failure.
pub open spec fn exited_well(event: RunnerEvent) -> bool {
    match event {
        RunnerEvent::Exited(status) => exit_outcome(status) is Ok,
        _ => false,
    }
}

/// The event reports a command that ended with the failure `e`.
pub open spec fn exited_with(event: RunnerEvent, e: ErrorView) -> bool {
    match event {
        RunnerEvent::Exited(status) => exit_outcome(status) == Err::<(), ErrorView>(e),
        _ => false,
    }
}

/// A finished runner stays finished: whatever happens, it repeats its
/// result and changes nothing.
pub proof fn lemma_finished_is_final(state: RunnerView, session: bool, event: RunnerEvent)
    requires
        state.phase == RunnerPhase::Finished,
    ensures
        next(state, session, event).state == state,
        next(state, session, event).session == session,
        next(state, session, event).action == ActionView::Finish(state.result),
{
}

/// A step never changes the plan, never gives a privilege session up,
/// never counts backwards, and keeps a consistent runner consistent.
pub proof fn lemma_step_preserves(state: RunnerView, session: bool, event: RunnerEvent)
    requires
        consistent(state),
    ensures
        next(state, session, event).state.plan == state.plan,
        session ==> next(state, session, event).session,
        state.position <= next(state, session, event).state.position <= state.position + 1,
        consistent(next(state, session, event).state),
{
}

/// Commands are spawned in the order of the plan, one at a time. The
/// command that a step spawns is the one at the runner's position, which
/// the runner then waits for; a command that runs through the elevation
/// tool is spawned only while the privilege session is held.
pub proof fn lemma_spawn_follows_plan(state: RunnerView, session: bool, event: RunnerEvent)
    requires
        consistent(state),
    ensures
        next(state, session, event).action matches ActionView::Spawn(invocation) ==> {
            let after = next(state, session, event);
            &&& after.state.phase == RunnerPhase::Running
            &&& after.state.position < state.plan.invocations.len()
            &&& invocation == state.plan.invocations[after.state.position as int]
            &&& invocation.elevated ==> after.session
        },
{
}

/// The position moves on only when the command that was waited for has
/// ended without a failure.
pub proof fn lemma_position_counts_successes(state: RunnerView, session: bool, event: RunnerEvent)
    requires
        consistent(state),
    ensures
        next(state, session, event).state.position == state.position + 1 <==> (state.phase
            == RunnerPhase::Running && exited_well(event)),
{
}

/// Privileges are asked for only when the next command needs them and the
/// session does not hold them, and a session is only ever acquired by a
/// grant.
pub proof fn lemma_privileges_on_demand(state: RunnerView, session: bool, event: RunnerEvent)
    requires
        consistent(state),
    ensures
        next(state, session, event).action matches ActionView::Authenticate(prompt) ==> {
            let after = next(state, session, event);
            &&& prompt == root_prompt()
            &&& !session && !after.session
            &&& after.state.phase == RunnerPhase::Authenticating
            &&& state.plan.invocations[after.state.position as int].elevated
        },
        !session && next(state, session, event).session ==> state.phase
            == RunnerPhase::Authenticating && event == RunnerEvent::Authenticated(true),
{
}

/// A runner fails fast and succeeds late. From a runner that has not
/// finished, a step ends in success only when every command of the plan
/// has run and the plan holds no error; it ends in a failure only for a
/// refused grant, a command that could not start, a command that failed,
/// or, once every command has run, the error of the plan.
pub proof fn lemma_how_a_run_ends(state: RunnerView, session: bool, event: RunnerEvent)
    requires
        consistent(state),
        state.phase != RunnerPhase::Finished,
    ensures
        next(state, session, event).action matches ActionView::Finish(result) ==> {
            let after = next(state, session, event).state;
            &&& after.phase == RunnerPhase::Finished
            &&& after.result == result
            &&& result is Ok ==> after.position == state.plan.invocations.len()
                && state.plan.failure is None
            &&& result matches Err(e) ==> {
                ||| state.phase == RunnerPhase::Authenticating && event
                    == RunnerEvent::Authenticated(false) && e == ErrorView::AuthenticationFailed
                ||| state.phase == RunnerPhase::Running && event == RunnerEvent::SpawnFailed && e
                    == ErrorView::SpawnFailed
                ||| state.phase == RunnerPhase::Running && exited_with(event, e)
                ||| after.position == state.plan.invocations.len() && state.plan.failure == Some(e)
            }
        },
{
}

/// What a run comes to from the transition `t` on, when every request for
/// privileges is granted and every command ends with status zero: the
/// commands that are spawned, in order, and the result the run finishes
/// with (`None` while it has not finished within `patience` events).
pub open spec fn follow(t: Transition, patience: nat) -> (Seq<InvocationView>, Option<
    Result<(), ErrorView>,
>)
    decreases patience,
{
    match t.action {
        ActionView::Finish(result) => (Seq::empty(), Some(result)),
        ActionView::Ignore => (Seq::empty(), None),
        ActionView::Authenticate(_) => if patience == 0 {
            (Seq::empty(), None)
        } else {
            follow(
                next(t.state, t.session, RunnerEvent::Authenticated(true)),
                (patience - 1) as nat,
            )
        },
        ActionView::Spawn(invocation) => if patience == 0 {
            (seq![invocation], None)
        } else {
            let rest = follow(
                next(t.state, t.session, RunnerEvent::Exited(Some(0))),
                (patience - 1) as nat,
            );
            (seq![invocation] + rest.0, rest.1)
        },
    }
}

/// The state of a runner that is about to carry `plan` out.
pub open spec fn fresh(plan: PlanView) -> RunnerView {
    RunnerView { plan, position: 0, phase: RunnerPhase::Idle, result: Ok(()) }
}

proof fn lemma_follow(state: RunnerView, session: bool, patience: nat)
    requires
        state.position <= state.plan.invocations.len(),
        patience >= 2 * (state.plan.invocations.len() - state.position),
    ensures
        follow(advance(state, session), patience) == (
            state.plan.invocations.skip(state.position as int),
            Some(plan_result(state.plan)),
        ),
    decreases state.plan.invocations.len() - state.position,
{
    let all = state.plan.invocations;
    let k = state.position as int;
    let t = advance(state, session);
    if k == all.len() {
        assert(all.skip(k) =~= Seq::<InvocationView>::empty());
    } else {
        let invocation = all[k];
        let moved = RunnerView { position: state.position + 1, ..state };
        assert(all.skip(k) =~= seq![invocation] + all.skip(k + 1));
        if invocation.elevated && !session {
            let granted = next(t.state, t.session, RunnerEvent::Authenticated(true));
            assert(granted.action == ActionView::Spawn(invocation));
            let ended = next(granted.state, granted.session, RunnerEvent::Exited(Some(0)));
            let waiting = RunnerView { position: state.position + 1, ..granted.state };
            assert(ended == advance(waiting, true));
            lemma_follow(waiting, true, (patience - 2) as nat);
            assert(follow(granted, (patience - 1) as nat) == (
                seq![invocation] + all.skip(k + 1),
                Some(plan_result(state.plan)),
            ));
        } else {
            let ended = next(t.state, t.session, RunnerEvent::Exited(Some(0)));
            let waiting = RunnerView { position: state.position + 1, ..t.state };
            assert(ended == advance(waiting, session));
            lemma_follow(waiting, session, (patience - 1) as nat);
        }
    }
}

/// A run carries its plan out in order. When every request for privileges
/// is granted and every command ends with status zero, the runner spawns
/// exactly the commands of the plan, in the order of the plan, and then
/// finishes with the error of the plan, or with success if it has none.
pub proof fn lemma_run_carries_plan_out(plan: PlanView, session: bool, patience: nat)
    requires
        patience >= 2 * plan.invocations.len(),
    ensures
        follow(next(fresh(plan), session, RunnerEvent::Begin), patience) == (
            plan.invocations,
            Some(plan_result(plan)),
        ),
{
    lemma_follow(fresh(plan), session, patience);
    assert(plan.invocations.skip(0) =~= plan.invocations);
}

/// Carries a plan out, one command at a time.
#[derive(Debug)]
pub struct Runner {
    plan: Plan,
    position: usize,
    phase: RunnerPhase,
    result: Result<(), Error>,
}

impl View for Runner {
    type V = RunnerView;

    closed spec fn view(&self) -> RunnerView {
        RunnerView {
            plan: self.plan@,
            position: self.position as nat,
            phase: self.phase,
            result: outcome_view(self.result),
        }
    }
}

impl Runner {
    #[verifier::type_invariant]
    spec fn well_formed(&self) -> bool {
        consistent(self@)
    }

    /// A runner that is about to carry `plan` out.
    pub fn new(plan: Plan) -> (r: Runner)
        ensures
            r@ == (RunnerView {
                plan: plan@,
                position: 0,
                phase: RunnerPhase::Idle,
                result: Ok(()),
            }),
    {
        Runner { plan, position: 0, phase: RunnerPhase::Idle, result: Ok(()) }
    }

    /// Whether the runner has finished.
    pub fn is_finished(&self) -> (r: bool)
        ensures
            r == (self@.phase == RunnerPhase::Finished),
    {
        self.phase == RunnerPhase::Finished
    }

    fn finish(&mut self, result: Result<(), Error>) -> (action: RunnerAction)
        ensures
            final(self)@ == (RunnerView {
                phase: RunnerPhase::Finished,
                result: outcome_view(result),
                ..old(self)@
            }),
            action@ == ActionView::Finish(outcome_view(result)),
    {
        proof {
            use_type_invariant(&*self);
        }
        let reported = match &result {
            Ok(()) => Ok(()),
            Err(e) => Err(e.clone()),
        };
        self.result = result;
        self.phase = RunnerPhase::Finished;
        RunnerAction::Finish(reported)
    }

    fn turn_to_next(&mut self, session: &PrivilegeSession) -> (action: RunnerAction)
        requires
            old(self)@.phase == RunnerPhase::Idle,
        ensures
            final(self)@ == advance(old(self)@, session.acquired()).state,
            action@ == advance(old(self)@, session.acquired()).action,
    {
        proof {
            use_type_invariant(&*self);
        }
        if self.position >= self.plan.invocations.len() {
            let result = match &self.plan.failure {
                Some(e) => Err(e.clone()),
                None => Ok(()),
            };
            self.finish(result)
        } else {
            let invocation = self.plan.invocations[self.position].clone();
            if invocation.elevated && !session.is_acquired() {
                self.phase = RunnerPhase::Authenticating;
                RunnerAction::Authenticate(get_root())
            } else {
                self.phase = RunnerPhase::Running;
                RunnerAction::Spawn(invocation)
            }
        }
    }

    /// Takes the step that follows `event` and says what to do next.
    pub fn step(&mut self, session: &mut PrivilegeSession, event: RunnerEvent) -> (action:
        RunnerAction)
        ensures
            final(self)@ == next(old(self)@, old(session).acquired(), event).state,
            final(session).acquired() == next(old(self)@, old(session).acquired(), event).session,
            action@ == next(old(self)@, old(session).acquired(), event).action,
            consistent(old(self)@),
            consistent(final(self)@),
    {
        proof {
            use_type_invariant(&*self);
        }
        match self.phase {
            RunnerPhase::Finished => {
                let result = match &self.result {
                    Ok(()) => Ok(()),
                    Err(e) => Err(e.clone()),
                };
                RunnerAction::Finish(result)
            },
            RunnerPhase::Idle => match event {
                RunnerEvent::Begin => self.turn_to_next(session),
                _ => RunnerAction::Ignore,
            },
            RunnerPhase::Authenticating => match event {
                RunnerEvent::Authenticated(granted) => {
                    match session.record(granted) {
                        Ok(()) => {
                            let invocation = self.plan.invocations[self.position].clone();
                            self.phase = RunnerPhase::Running;
                            RunnerAction::Spawn(invocation)
                        },
                        Err(e) => self.finish(Err(e)),
                    }
                },
                _ => RunnerAction::Ignore,
            },
            RunnerPhase::Running => match event {
                RunnerEvent::SpawnFailed => self.finish(Err(Error::SpawnFailed)),
                RunnerEvent::Exited(status) => match classify_exit(status) {
                    Ok(()) => {
                        assert(self.plan@.invocations.len() == self.plan.invocations.len());
                        self.phase = RunnerPhase::Idle;
                        self.position = self.position + 1;
                        self.turn_to_next(session)
                    },
                    Err(e) => self.finish(Err(e)),
                },
                _ => RunnerAction::Ignore,
            },
        }
    }
}

} // verus!
