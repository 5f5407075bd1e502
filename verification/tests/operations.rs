use spinup::configuration::{CustomCommand, SystemDetails, TargetOperatingSystem};
use spinup::error::Error;
use spinup::operations::runcore::{
    classify_exit, get_root, handle_process_output, report_process, LogLevel,
    PrivilegeSession, Runner, RunnerAction, RunnerEvent,
};
use spinup::operations::{build_invocation, run_command, Invocation, Plan, RunnableOperation};

struct DummyRunnable {
    command: String,
    args: Option<Vec<String>>,
    root: bool,
}

impl RunnableOperation for DummyRunnable {
    fn command_name(&self, _system_details: SystemDetails) -> Result<String, Error> {
        Ok(self.command.clone())
    }
    fn args(&self, _system_details: SystemDetails) -> Option<Vec<String>> {
        self.args.clone()
    }
    fn needs_root(&self) -> bool {
        self.root
    }
}

fn strings(items: &[&str]) -> Vec<String> {
    items.iter().map(|s| s.to_string()).collect()
}

fn plain(program: &str, args: &[&str]) -> Invocation {
    Invocation {
        program: program.to_string(),
        args: strings(args),
        elevated: false,
    }
}

fn elevated(command: &str, args: &[&str]) -> Invocation {
    let mut all = vec![command.to_string()];
    all.extend(strings(args));
    Invocation {
        program: "sudo".to_string(),
        args: all,
        elevated: true,
    }
}

fn plan_of(invocations: Vec<Invocation>, failure: Option<Error>) -> Plan {
    Plan {
        invocations,
        failure,
    }
}

#[test]
fn test_run_call_basic() {
    let runnable = DummyRunnable {
        command: "testing".to_string(),
        args: Some(vec!["one".to_string(), "two".to_string()]),
        root: false,
    };
    let res = run_command(&runnable, SystemDetails::new(TargetOperatingSystem::Unknown));
    assert!(res.is_ok());
    let mut plan = Plan::new();
    plan.invocations.push(res.unwrap());
    let mut session = PrivilegeSession::new();
    let mut runner = Runner::new(plan);
    let action = runner.step(&mut session, RunnerEvent::Begin);
    match action {
        RunnerAction::Spawn(invocation) => {
            assert_eq!(invocation.program, "testing".to_string());
            assert_eq!(invocation.args, vec!["one".to_string(), "two".to_string()]);
        }
        other => panic!("expected a spawn, got {:?}", other),
    }
    assert!(!session.is_acquired());
    assert_eq!(
        runner.step(&mut session, RunnerEvent::Exited(Some(0))),
        RunnerAction::Finish(Ok(()))
    );
    assert!(!session.is_acquired());
}

#[test]
fn test_run_call_root() {
    let runnable = DummyRunnable {
        command: "testing".to_string(),
        args: Some(vec!["one".to_string()]),
        root: true,
    };
    let res = run_command(&runnable, SystemDetails::new(TargetOperatingSystem::Unknown));
    assert!(res.is_ok());
    let mut plan = Plan::new();
    plan.invocations.push(res.unwrap());
    let mut session = PrivilegeSession::new();
    let mut runner = Runner::new(plan);
    assert_eq!(
        runner.step(&mut session, RunnerEvent::Begin),
        RunnerAction::Authenticate(get_root())
    );
    let action = runner.step(&mut session, RunnerEvent::Authenticated(true));
    match action {
        RunnerAction::Spawn(invocation) => {
            assert_eq!(invocation.program, "sudo".to_string());
            assert_eq!(
                invocation.args,
                vec!["testing".to_string(), "one".to_string()]
            );
        }
        other => panic!("expected a spawn, got {:?}", other),
    }
    assert!(session.is_acquired());
    assert_eq!(
        runner.step(&mut session, RunnerEvent::Exited(Some(0))),
        RunnerAction::Finish(Ok(()))
    );
}

#[test]
fn test_process_output_ok_none_status() {
    let actual = handle_process_output(None, &[], &[]);
    assert!(actual.outcome.is_ok());
}

#[test]
fn exit_statuses() {
    assert_eq!(classify_exit(Some(0)), Ok(()));
    assert_eq!(classify_exit(None), Ok(()));
    assert_eq!(
        classify_exit(Some(1)),
        Err(Error::CommandFailed { exit_code: 1 })
    );
    assert_eq!(
        classify_exit(Some(-1)),
        Err(Error::CommandFailed { exit_code: -1 })
    );
    assert_eq!(
        classify_exit(Some(i32::MIN)),
        Err(Error::CommandFailed {
            exit_code: i32::MIN
        })
    );
}

#[test]
fn output_is_shown_for_failures_at_trace_level_only() {
    let shown = report_process(Some(2), b"out", b"err", LogLevel::Trace);
    assert_eq!(shown.outcome, Err(Error::CommandFailed { exit_code: 2 }));
    assert!(shown.show_stdout);
    assert!(shown.show_stderr);
    for level in [
        LogLevel::Off,
        LogLevel::Error,
        LogLevel::Warn,
        LogLevel::Info,
        LogLevel::Debug,
    ] {
        let quiet = report_process(Some(2), b"out", b"err", level);
        assert_eq!(quiet.outcome, Err(Error::CommandFailed { exit_code: 2 }));
        assert!(!quiet.show_stdout);
        assert!(!quiet.show_stderr);
    }
    let partial = report_process(Some(2), b"", b"err", LogLevel::Trace);
    assert!(!partial.show_stdout);
    assert!(partial.show_stderr);
    let fine = report_process(Some(0), b"out", b"err", LogLevel::Trace);
    assert_eq!(fine.outcome, Ok(()));
    assert!(!fine.show_stdout);
    assert!(!fine.show_stderr);
    let signalled = report_process(None, b"out", b"err", LogLevel::Trace);
    assert_eq!(signalled.outcome, Ok(()));
    assert!(!signalled.show_stdout);
}

#[test]
fn the_log_level_of_the_process_decides_what_is_shown() {
    log::set_max_level(log::LevelFilter::Trace);
    let shown = handle_process_output(Some(2), b"out", b"");
    assert_eq!(shown.outcome, Err(Error::CommandFailed { exit_code: 2 }));
    assert!(shown.show_stdout);
    assert!(!shown.show_stderr);
    let fine = handle_process_output(Some(0), b"out", b"err");
    assert_eq!(fine.outcome, Ok(()));
    assert!(!fine.show_stdout);
}

#[test]
fn invocations_with_and_without_root() {
    assert_eq!(
        build_invocation("ls".to_string(), Some(strings(&["-a", "-l"])), false),
        plain("ls", &["-a", "-l"])
    );
    assert_eq!(
        build_invocation("ls".to_string(), None, false),
        plain("ls", &[])
    );
    assert_eq!(
        build_invocation("ls".to_string(), Some(strings(&["-a", "-l"])), true),
        elevated("ls", &["-a", "-l"])
    );
    assert_eq!(
        build_invocation("systemctl".to_string(), None, true),
        elevated("systemctl", &[])
    );
}

#[test]
fn a_failed_name_ends_the_resolution() {
    let sys = SystemDetails::new(TargetOperatingSystem::Arch);
    let command = CustomCommand::new(String::new(), Some(strings(&["-rf", "/"])), true);
    assert_eq!(run_command(&command, sys), Err(Error::EmptyCommand));
}

#[test]
fn custom_command_resolves_to_its_invocation() {
    let sys = SystemDetails::new(TargetOperatingSystem::Arch);
    let command = CustomCommand::new("fc-cache".to_string(), Some(strings(&["-f"])), false);
    assert_eq!(run_command(&command, sys), Ok(plain("fc-cache", &["-f"])));
    let command = CustomCommand::new("systemctl".to_string(), Some(strings(&["restart"])), true);
    assert_eq!(
        run_command(&command, sys),
        Ok(elevated("systemctl", &["restart"]))
    );
}

#[test]
fn the_root_prompt() {
    assert_eq!(get_root(), plain("sudo", &["-v"]));
}

#[test]
fn a_plan_fails_fast() {
    let sys = SystemDetails::new(TargetOperatingSystem::Arch);
    let mut plan = Plan::new();
    assert!(!plan.has_failed());
    plan.add(&CustomCommand::new("a".to_string(), None, false), sys);
    plan.add(&CustomCommand::new(String::new(), None, false), sys);
    plan.add(&CustomCommand::new("c".to_string(), None, false), sys);
    assert!(plan.has_failed());
    assert_eq!(plan.invocations, vec![plain("a", &[])]);
    assert_eq!(plan.failure, Some(Error::EmptyCommand));
}

#[test]
fn plans_are_joined_in_order() {
    let mut first = plan_of(vec![plain("a", &[])], None);
    first.append(plan_of(vec![plain("b", &[])], Some(Error::SpawnFailed)));
    assert_eq!(first.invocations, vec![plain("a", &[]), plain("b", &[])]);
    assert_eq!(first.failure, Some(Error::SpawnFailed));
    first.append(plan_of(vec![plain("c", &[])], None));
    assert_eq!(first.invocations, vec![plain("a", &[]), plain("b", &[])]);
    assert_eq!(first.failure, Some(Error::SpawnFailed));
}

#[test]
fn session_records_grants_and_refusals() {
    let mut session = PrivilegeSession::new();
    assert!(!session.is_acquired());
    assert_eq!(session.record(false), Err(Error::AuthenticationFailed));
    assert!(!session.is_acquired());
    assert_eq!(session.record(true), Ok(()));
    assert!(session.is_acquired());
    assert_eq!(session.record(false), Err(Error::AuthenticationFailed));
    assert!(session.is_acquired());
}

#[test]
fn runner_carries_a_plan_out_in_order() {
    let plan = plan_of(
        vec![plain("a", &["1"]), elevated("b", &[]), elevated("c", &["3"])],
        None,
    );
    let mut session = PrivilegeSession::new();
    let mut runner = Runner::new(plan);
    assert!(!runner.is_finished());
    assert_eq!(
        runner.step(&mut session, RunnerEvent::Begin),
        RunnerAction::Spawn(plain("a", &["1"]))
    );
    assert_eq!(
        runner.step(&mut session, RunnerEvent::Exited(Some(0))),
        RunnerAction::Authenticate(plain("sudo", &["-v"]))
    );
    assert_eq!(
        runner.step(&mut session, RunnerEvent::Authenticated(true)),
        RunnerAction::Spawn(elevated("b", &[]))
    );
    assert_eq!(
        runner.step(&mut session, RunnerEvent::Exited(None)),
        RunnerAction::Spawn(elevated("c", &["3"]))
    );
    assert!(!runner.is_finished());
    assert_eq!(
        runner.step(&mut session, RunnerEvent::Exited(Some(0))),
        RunnerAction::Finish(Ok(()))
    );
    assert!(runner.is_finished());
    assert_eq!(
        runner.step(&mut session, RunnerEvent::Begin),
        RunnerAction::Finish(Ok(()))
    );
}

#[test]
fn privileges_are_asked_for_once_in_a_run() {
    let mut session = PrivilegeSession::new();
    let mut first = Runner::new(plan_of(vec![elevated("a", &[])], None));
    assert_eq!(
        first.step(&mut session, RunnerEvent::Begin),
        RunnerAction::Authenticate(get_root())
    );
    assert_eq!(
        first.step(&mut session, RunnerEvent::Authenticated(true)),
        RunnerAction::Spawn(elevated("a", &[]))
    );
    assert_eq!(
        first.step(&mut session, RunnerEvent::Exited(Some(0))),
        RunnerAction::Finish(Ok(()))
    );
    let mut second = Runner::new(plan_of(vec![elevated("b", &[])], None));
    assert_eq!(
        second.step(&mut session, RunnerEvent::Begin),
        RunnerAction::Spawn(elevated("b", &[]))
    );
}

#[test]
fn a_refusal_ends_the_run() {
    let mut session = PrivilegeSession::new();
    let mut runner = Runner::new(plan_of(vec![elevated("a", &[]), plain("b", &[])], None));
    runner.step(&mut session, RunnerEvent::Begin);
    assert_eq!(
        runner.step(&mut session, RunnerEvent::Authenticated(false)),
        RunnerAction::Finish(Err(Error::AuthenticationFailed))
    );
    assert!(runner.is_finished());
    assert!(!session.is_acquired());
    assert_eq!(
        runner.step(&mut session, RunnerEvent::Exited(Some(0))),
        RunnerAction::Finish(Err(Error::AuthenticationFailed))
    );
}

#[test]
fn a_failed_command_ends_the_run() {
    let mut session = PrivilegeSession::new();
    let mut runner = Runner::new(plan_of(vec![plain("a", &[]), plain("b", &[])], None));
    runner.step(&mut session, RunnerEvent::Begin);
    assert_eq!(
        runner.step(&mut session, RunnerEvent::Exited(Some(3))),
        RunnerAction::Finish(Err(Error::CommandFailed { exit_code: 3 }))
    );
    assert_eq!(
        runner.step(&mut session, RunnerEvent::Begin),
        RunnerAction::Finish(Err(Error::CommandFailed { exit_code: 3 }))
    );
}

#[test]
fn a_command_that_cannot_start_ends_the_run() {
    let mut session = PrivilegeSession::new();
    let mut runner = Runner::new(plan_of(vec![plain("a", &[]), plain("b", &[])], None));
    runner.step(&mut session, RunnerEvent::Begin);
    assert_eq!(
        runner.step(&mut session, RunnerEvent::SpawnFailed),
        RunnerAction::Finish(Err(Error::SpawnFailed))
    );
}

#[test]
fn the_failure_of_a_plan_comes_after_its_commands() {
    let mut session = PrivilegeSession::new();
    let mut runner = Runner::new(plan_of(vec![plain("a", &[])], Some(Error::EmptyCommand)));
    assert_eq!(
        runner.step(&mut session, RunnerEvent::Begin),
        RunnerAction::Spawn(plain("a", &[]))
    );
    assert_eq!(
        runner.step(&mut session, RunnerEvent::Exited(Some(0))),
        RunnerAction::Finish(Err(Error::EmptyCommand))
    );
}

#[test]
fn an_empty_plan_finishes_at_once() {
    let mut session = PrivilegeSession::new();
    let mut runner = Runner::new(Plan::new());
    assert_eq!(
        runner.step(&mut session, RunnerEvent::Begin),
        RunnerAction::Finish(Ok(()))
    );
    let mut failed = Runner::new(plan_of(vec![], Some(Error::NoPackageManager)));
    assert_eq!(
        failed.step(&mut session, RunnerEvent::Begin),
        RunnerAction::Finish(Err(Error::NoPackageManager))
    );
}

#[test]
fn unexpected_events_change_nothing() {
    let mut session = PrivilegeSession::new();
    let mut runner = Runner::new(plan_of(vec![elevated("a", &[])], None));
    assert_eq!(
        runner.step(&mut session, RunnerEvent::Exited(Some(0))),
        RunnerAction::Ignore
    );
    assert_eq!(
        runner.step(&mut session, RunnerEvent::Authenticated(true)),
        RunnerAction::Ignore
    );
    assert!(!session.is_acquired());
    assert_eq!(
        runner.step(&mut session, RunnerEvent::Begin),
        RunnerAction::Authenticate(get_root())
    );
    assert_eq!(
        runner.step(&mut session, RunnerEvent::Begin),
        RunnerAction::Ignore
    );
    assert_eq!(
        runner.step(&mut session, RunnerEvent::Exited(Some(1))),
        RunnerAction::Ignore
    );
    assert_eq!(
        runner.step(&mut session, RunnerEvent::Authenticated(true)),
        RunnerAction::Spawn(elevated("a", &[]))
    );
    assert_eq!(
        runner.step(&mut session, RunnerEvent::Authenticated(false)),
        RunnerAction::Ignore
    );
    assert_eq!(
        runner.step(&mut session, RunnerEvent::Begin),
        RunnerAction::Ignore
    );
    assert_eq!(
        runner.step(&mut session, RunnerEvent::Exited(Some(0))),
        RunnerAction::Finish(Ok(()))
    );
}
