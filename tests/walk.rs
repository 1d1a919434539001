use coyote::lock::CoyoteLock;
use coyote::recipe::{Command, CoyoteJson, Executable};
use coyote::walk::{Action, BuildError, Builder, Phase, Report, RunOutcome};
use coyote::condition::ConditionError;

fn s(x: &str) -> String {
    x.to_string()
}

fn cmd(program: &str, run_if: Option<&[&str]>) -> Command {
    Command {
        command: s(program),
        arguments: vec![],
        run_if: run_if.map(|r| r.iter().map(|a| s(a)).collect()),
    }
}

fn recipe(targets: Vec<(&str, Vec<Command>)>) -> CoyoteJson {
    CoyoteJson {
        project_name: s("p"),
        variables: vec![],
        executables: targets
            .into_iter()
            .map(|(t, commands)| Executable { target: s(t), commands })
            .collect(),
    }
}

fn ok_run() -> RunOutcome {
    RunOutcome::Exited { success: true, stderr: String::new() }
}

#[test]
fn unmet_condition_skips_only_that_command() {
    let r = recipe(vec![("t", vec![cmd("cc", Some(&["modified", "f"])), cmd("ld", None)])]);
    let mut lock = CoyoteLock::new();
    lock.set(s("f"), 5);
    let mut b = Builder::new(false);
    assert!(matches!(b.next(&r), Action::ReadTime { path } if path == "f"));
    assert!(matches!(b.on_file_time(&r, &mut lock, Some(5)), Action::Skip { target: 0, command: 0 }));
    assert!(matches!(b.next(&r), Action::Run { target: 0, command: 1 }));
    assert!(matches!(b.on_outcome(&r, ok_run()), Ok(Report::Finished)));
    assert!(matches!(b.next(&r), Action::Done));
    assert!(b.phase == Phase::Finished);
}

#[test]
fn met_condition_runs_command() {
    let r = recipe(vec![("t", vec![cmd("cc", Some(&["modified", "f"]))])]);
    let mut lock = CoyoteLock::new();
    let mut b = Builder::new(false);
    assert!(matches!(b.next(&r), Action::ReadTime { .. }));
    assert!(matches!(b.on_file_time(&r, &mut lock, Some(9)), Action::Run { target: 0, command: 0 }));
    assert_eq!(lock.get(&s("f")), Some(9));
}

#[test]
fn failed_command_does_not_stop_the_walk() {
    let r = recipe(vec![("a", vec![cmd("false", None), cmd("true", None)]), ("b", vec![cmd("echo", None)])]);
    let mut b = Builder::new(false);
    assert!(matches!(b.next(&r), Action::Run { target: 0, command: 0 }));
    let failed = b.on_outcome(&r, RunOutcome::Exited { success: false, stderr: s("boom") });
    assert!(matches!(failed, Ok(Report::Failed { program, stderr }) if program == "false" && stderr == "boom"));
    assert!(matches!(b.next(&r), Action::Run { target: 0, command: 1 }));
    assert!(b.on_outcome(&r, ok_run()).is_ok());
    assert!(matches!(b.next(&r), Action::Run { target: 1, command: 0 }));
    assert!(b.on_outcome(&r, ok_run()).is_ok());
    assert!(matches!(b.next(&r), Action::Done));
}

#[test]
fn spawn_failure_aborts() {
    let r = recipe(vec![("a", vec![cmd("nosuch", None), cmd("true", None)])]);
    let mut b = Builder::new(false);
    assert!(matches!(b.next(&r), Action::Run { .. }));
    assert!(matches!(b.on_outcome(&r, RunOutcome::SpawnFailed), Err(BuildError::Spawn { program }) if program == "nosuch"));
    assert!(b.phase == Phase::Finished);
}

#[test]
fn rebuild_runs_without_consulting_the_store() {
    let r = recipe(vec![("t", vec![cmd("cc", Some(&["modified", "f"]))])]);
    let mut b = Builder::new(true);
    assert!(matches!(b.next(&r), Action::Run { target: 0, command: 0 }));
}

#[test]
fn malformed_condition_aborts_the_walk() {
    let r = recipe(vec![("t", vec![cmd("cc", Some(&["touched", "f"]))])]);
    let mut b = Builder::new(false);
    assert!(matches!(b.next(&r),
        Action::Abort(BuildError::Condition(ConditionError::UnknownCondition { verb, target })) if verb == "touched" && target == "t"));
}

#[test]
fn unreadable_condition_file_aborts() {
    let r = recipe(vec![("t", vec![cmd("cc", Some(&["modified", "f"]))])]);
    let mut lock = CoyoteLock::new();
    let mut b = Builder::new(false);
    assert!(matches!(b.next(&r), Action::ReadTime { .. }));
    assert!(matches!(b.on_file_time(&r, &mut lock, None),
        Action::Abort(BuildError::Condition(ConditionError::Unreadable { path })) if path == "f"));
}

#[test]
fn empty_targets_are_passed_over() {
    let r = recipe(vec![("a", vec![]), ("b", vec![]), ("c", vec![cmd("x", None)])]);
    let mut b = Builder::new(false);
    assert!(matches!(b.next(&r), Action::Run { target: 2, command: 0 }));
    let empty = recipe(vec![]);
    let mut b2 = Builder::new(false);
    assert!(matches!(b2.next(&empty), Action::Done));
}
