//! The decisions of the target walk. The caller performs each action (read
//! a file's modification time, run a command) and hands back what came of
//! it; the builder says what to do next.
use vstd::prelude::*;
use crate::condition::{condition_met, condition_path, malformed_error, watched_path, ConditionError};
use crate::lock::{observed, CoyoteLock};
use crate::recipe::{executables_view, CoyoteJson, ExecutableView};

verus! {

/// What the walk waits for.
#[derive(Clone, Copy, PartialEq, Eq, Structural)]
pub enum Phase {
    /// Ready to move to the next command.
    Ready,
    /// Waiting for the modification time of the current condition's path.
    AwaitingTime,
    /// Waiting for the outcome of running the current command.
    AwaitingRun,
    /// The walk is over, completed or aborted.
    Finished,
}

/// An error that aborts the whole run.
pub enum BuildError {
    Condition(ConditionError),
    /// The program could not be started.
    Spawn { program: String },
}

/// What came of running a command.
pub enum RunOutcome {
    /// The process could not be started.
    SpawnFailed,
    /// The process ran and exited, successfully or not.
    Exited { success: bool, stderr: String },
}

/// The report on a command that ran.
pub enum Report {
    Finished,
    /// It exited unsuccessfully: not fatal, the walk goes on.
    Failed { program: String, stderr: String },
}

/// What the caller does next.
pub enum Action {
    /// Read the modification time of `path` and pass it to `on_file_time`.
    ReadTime { path: String },
    /// Run command `command` of target `target` and pass the outcome to
    /// `on_outcome`.
    Run { target: usize, command: usize },
    /// Command `command` of target `target` was skipped: its condition is
    /// not met. Call `next` again.
    Skip { target: usize, command: usize },
    /// Every command has been considered.
    Done,
    /// A fatal error: stop the run.
    Abort(BuildError),
}

/// The walk through the targets and their commands, in order.
pub struct Builder {
    pub target: usize,
    pub command: usize,
    /// Every condition counts as met, and the lock store is not consulted.
    pub rebuild: bool,
    pub phase: Phase,
}

/// The first command at or after command `c` of target `t`, in the order
/// of targets and then of commands.
pub open spec fn first_at(ex: Seq<ExecutableView>, t: int, c: int) -> Option<(int, int)>
    decreases ex.len() - t,
{
    if t < 0 || t >= ex.len() {
        None
    } else if c < ex[t].commands.len() {
        Some((t, c))
    } else {
        first_at(ex, t + 1, 0)
    }
}

/// After command `c` of target `t` is skipped or has exited, whatever its
/// exit status, the walk goes on with the command that follows it in the
/// same target, where there is one.
pub proof fn lemma_walk_continues(ex: Seq<ExecutableView>, t: int, c: int)
    requires
        0 <= t < ex.len(),
        0 <= c,
        c + 1 < ex[t].commands.len(),
    ensures
        first_at(ex, t, c + 1) == Some((t, c + 1)),
{
}

/// Once the commands of target `t` from `c` on are exhausted, the walk goes
/// on with the first command of a later target, where there is one.
pub proof fn lemma_walk_next_target(ex: Seq<ExecutableView>, t: int, c: int)
    requires
        0 <= t < ex.len(),
        c >= ex[t].commands.len(),
    ensures
        first_at(ex, t, c) == first_at(ex, t + 1, 0),
{
}

impl Builder {
    /// The builder's cursor is on a command of `ex`.
    pub open spec fn on_command(&self, ex: Seq<ExecutableView>) -> bool {
        self.target < ex.len() && self.command < ex[self.target as int].commands.len()
    }

    /// A walk from the first command of the first target.
    pub fn new(rebuild: bool) -> (r: Builder)
        ensures
            r.target == 0 && r.command == 0 && r.rebuild == rebuild && r.phase == Phase::Ready,
    {
        Builder { target: 0, command: 0, rebuild, phase: Phase::Ready }
    }

    /// Moves to the next command and says what it needs: its condition's
    /// file time, unless it has no condition or the walk is a rebuild, in
    /// which case it is to run. A malformed condition aborts.
    pub fn next(&mut self, recipe: &CoyoteJson) -> (a: Action)
        requires
            old(self).phase == Phase::Ready,
        ensures
            final(self).rebuild == old(self).rebuild,
            match first_at(executables_view(recipe.executables@), old(self).target as int, old(self).command as int) {
                None => a is Done && final(self).phase == Phase::Finished,
                Some(tc) => {
                    let ex = executables_view(recipe.executables@);
                    let cmd = ex[tc.0].commands[tc.1];
                    &&& final(self).target == tc.0 && final(self).command == tc.1
                    &&& final(self).on_command(ex)
                    &&& if cmd.run_if is Some && !old(self).rebuild {
                        match watched_path(cmd.run_if->0) {
                            Some(p) => a matches Action::ReadTime { path } && path@ == p
                                && final(self).phase == Phase::AwaitingTime,
                            None => a matches Action::Abort(BuildError::Condition(e))
                                && malformed_error(cmd.run_if->0, ex[tc.0].target, e)
                                && final(self).phase == Phase::Finished,
                        }
                    } else {
                        a == Action::Run { target: tc.0 as usize, command: tc.1 as usize }
                            && final(self).phase == Phase::AwaitingRun
                    }
                },
            },
    {
        let ghost ex = executables_view(recipe.executables@);
        let ghost start = first_at(ex, self.target as int, self.command as int);
        while self.target < recipe.executables.len()
            && self.command >= recipe.executables[self.target].commands.len()
            invariant
                ex == executables_view(recipe.executables@),
                first_at(ex, self.target as int, self.command as int) == start,
                self.phase == old(self).phase,
                self.rebuild == old(self).rebuild,
            decreases recipe.executables@.len() - self.target,
        {
            proof {
                assert(ex[self.target as int] == recipe.executables@[self.target as int]@);
            }
            self.target = self.target + 1;
            self.command = 0;
        }
        if self.target >= recipe.executables.len() {
            self.phase = Phase::Finished;
            return Action::Done;
        }
        let exe = &recipe.executables[self.target];
        let cmd = &exe.commands[self.command];
        proof {
            assert(ex[self.target as int] == exe@);
            assert(ex[self.target as int].commands[self.command as int] == cmd@);
        }
        match &cmd.run_if {
            Some(cond) => {
                if !self.rebuild {
                    match condition_path(cond, &exe.target) {
                        Ok(p) => {
                            self.phase = Phase::AwaitingTime;
                            return Action::ReadTime { path: p };
                        },
                        Err(e) => {
                            self.phase = Phase::Finished;
                            return Action::Abort(BuildError::Condition(e));
                        },
                    }
                }
            },
            None => {},
        }
        self.phase = Phase::AwaitingRun;
        Action::Run { target: self.target, command: self.command }
    }

    /// Takes the modification time of the current condition's path (`None`
    /// where it could not be read, which aborts). The condition is
    /// evaluated against `lock`: met, the command is to run; not met, it is
    /// skipped and the walk moves to the following command.
    pub fn on_file_time(&mut self, recipe: &CoyoteJson, lock: &mut CoyoteLock, time: Option<u64>) -> (a: Action)
        requires
            old(self).phase == Phase::AwaitingTime,
            old(self).on_command(executables_view(recipe.executables@)),
            watched_path(
                executables_view(recipe.executables@)[old(self).target as int].commands[old(self).command as int].run_if->0,
            ) is Some,
            executables_view(recipe.executables@)[old(self).target as int].commands[old(self).command as int].run_if is Some,
            old(lock).wf(),
        ensures
            final(lock).wf(),
            final(self).rebuild == old(self).rebuild,
            final(self).target == old(self).target,
            ({
                let p = watched_path(
                    executables_view(recipe.executables@)[old(self).target as int].commands[old(
                        self,
                    ).command as int].run_if->0,
                )->0;
                match time {
                    None => {
                        &&& *final(lock) == *old(lock)
                        &&& a matches Action::Abort(BuildError::Condition(ConditionError::Unreadable { path })) && path@ == p
                        &&& final(self).phase == Phase::Finished
                    },
                    Some(now) => {
                        &&& final(lock)@ == observed(old(lock)@, p, now).0
                        &&& if observed(old(lock)@, p, now).1 {
                            &&& a == Action::Run { target: old(self).target, command: old(self).command }
                            &&& final(self).command == old(self).command
                            &&& final(self).phase == Phase::AwaitingRun
                        } else {
                            &&& a == Action::Skip { target: old(self).target, command: old(self).command }
                            &&& final(self).command == old(self).command + 1
                            &&& final(self).phase == Phase::Ready
                        }
                    },
                }
            }),
    {
        let ghost ex = executables_view(recipe.executables@);
        let exe = &recipe.executables[self.target];
        let cmd = &exe.commands[self.command];
        proof {
            assert(ex[self.target as int] == exe@);
            assert(ex[self.target as int].commands[self.command as int] == cmd@);
        }
        let cond = match &cmd.run_if {
            Some(c) => c,
            None => {
                self.phase = Phase::Finished;
                return Action::Done;
            },
        };
        match condition_met(cond, &exe.target, lock, time) {
            Ok(true) => {
                self.phase = Phase::AwaitingRun;
                Action::Run { target: self.target, command: self.command }
            },
            Ok(false) => {
                let count = exe.commands.len();
                proof {
                    assert(self.command < count);
                }
                let a = Action::Skip { target: self.target, command: self.command };
                self.command = self.command + 1;
                self.phase = Phase::Ready;
                a
            },
            Err(e) => {
                self.phase = Phase::Finished;
                Action::Abort(BuildError::Condition(e))
            },
        }
    }

    /// Takes the outcome of running the current command. A process that
    /// could not be started aborts the run; one that exited, successfully
    /// or not, is reported and the walk moves to the following command.
    pub fn on_outcome(&mut self, recipe: &CoyoteJson, outcome: RunOutcome) -> (r: Result<Report, BuildError>)
        requires
            old(self).phase == Phase::AwaitingRun,
            old(self).on_command(executables_view(recipe.executables@)),
        ensures
            final(self).rebuild == old(self).rebuild,
            final(self).target == old(self).target,
            ({
                let program = executables_view(recipe.executables@)[old(self).target as int].commands[old(
                    self,
                ).command as int].program;
                match outcome {
                    RunOutcome::SpawnFailed => {
                        &&& r matches Err(BuildError::Spawn { program: p }) && p@ == program
                        &&& final(self).phase == Phase::Finished
                    },
                    RunOutcome::Exited { success, stderr } => {
                        &&& if success {
                            r matches Ok(Report::Finished)
                        } else {
                            r matches Ok(Report::Failed { program: p, stderr: s }) && p@ == program && s == stderr
                        }
                        &&& final(self).command == old(self).command + 1
                        &&& final(self).phase == Phase::Ready
                    },
                }
            }),
    {
        let ghost ex = executables_view(recipe.executables@);
        let cmd = &recipe.executables[self.target].commands[self.command];
        proof {
            assert(ex[self.target as int] == recipe.executables@[self.target as int]@);
            assert(ex[self.target as int].commands[self.command as int] == cmd@);
        }
        match outcome {
            RunOutcome::SpawnFailed => {
                self.phase = Phase::Finished;
                Err(BuildError::Spawn { program: cmd.command.clone() })
            },
            RunOutcome::Exited { success, stderr } => {
                let count = recipe.executables[self.target].commands.len();
                proof {
                    assert(self.command < count);
                }
                self.command = self.command + 1;
                self.phase = Phase::Ready;
                if success {
                    Ok(Report::Finished)
                } else {
                    Ok(Report::Failed { program: cmd.command.clone(), stderr })
                }
            },
        }
    }
}

} // verus!
