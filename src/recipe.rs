//! The recipe: a project's variables and its targets, each an ordered list
//! of commands, and the expansion of variable references in every command
//! field.
use vstd::prelude::*;
use crate::error::{check_var_string, PreprocessError};
use crate::table::VariableTable;
use crate::template::{patch_variable_references, substitute};
use crate::text::{push_str, string_of};

verus! {

/// One step of a target: a program, its arguments and an optional
/// condition (a verb followed by its arguments).
pub struct Command {
    pub command: String,
    pub arguments: Vec<String>,
    pub run_if: Option<Vec<String>>,
}

/// A named target and its commands, run in order.
pub struct Executable {
    pub target: String,
    pub commands: Vec<Command>,
}

/// A recipe: the project's name, its variable declarations in order, and
/// its targets in order.
pub struct CoyoteJson {
    pub project_name: String,
    pub variables: Vec<(String, String)>,
    pub executables: Vec<Executable>,
}

pub struct CommandView {
    pub program: Seq<char>,
    pub arguments: Seq<Seq<char>>,
    pub run_if: Option<Seq<Seq<char>>>,
}

pub struct ExecutableView {
    pub target: Seq<char>,
    pub commands: Seq<CommandView>,
}

impl View for Command {
    type V = CommandView;

    open spec fn view(&self) -> CommandView {
        CommandView {
            program: self.command@,
            arguments: self.arguments.deep_view(),
            run_if: self.run_if.deep_view(),
        }
    }
}

impl View for Executable {
    type V = ExecutableView;

    open spec fn view(&self) -> ExecutableView {
        ExecutableView { target: self.target@, commands: self.commands@.map_values(|c: Command| c@) }
    }
}

/// The executables of a recipe, as views.
pub open spec fn executables_view(v: Seq<Executable>) -> Seq<ExecutableView> {
    v.map_values(|e: Executable| e@)
}

/// Every string of a command that is subject to expansion: the program,
/// the arguments, then the condition.
pub open spec fn fields_of(c: CommandView) -> Seq<Seq<char>> {
    seq![c.program] + c.arguments + match c.run_if {
        Some(r) => r,
        None => Seq::empty(),
    }
}

/// Each string of `v` expands without error.
pub open spec fn all_defined(v: Seq<Seq<char>>, vars: Map<Seq<char>, Seq<char>>) -> bool {
    forall|i: int| 0 <= i < v.len() ==> (#[trigger] substitute(v[i], vars)) is Ok
}

/// `w` holds the expansions of the strings of `v`.
pub open spec fn all_expanded(v: Seq<Seq<char>>, w: Seq<Seq<char>>, vars: Map<Seq<char>, Seq<char>>) -> bool {
    v.len() == w.len() && forall|i: int|
        0 <= i < v.len() ==> #[trigger] substitute(v[i], vars) == Ok::<Seq<char>, Seq<char>>(w[i])
}

/// Some string of `v` is `key`, and expanding it fails on `name`.
pub open spec fn undefined_in(v: Seq<Seq<char>>, key: Seq<char>, name: Seq<char>, vars: Map<Seq<char>, Seq<char>>) -> bool {
    exists|i: int|
        0 <= i < v.len() && v[i] == key && #[trigger] substitute(v[i], vars) == Err::<Seq<char>, Seq<char>>(name)
}

/// `d` is `c` with every field expanded.
pub open spec fn command_expanded(c: CommandView, d: CommandView, vars: Map<Seq<char>, Seq<char>>) -> bool {
    &&& substitute(c.program, vars) == Ok::<Seq<char>, Seq<char>>(d.program)
    &&& all_expanded(c.arguments, d.arguments, vars)
    &&& match (c.run_if, d.run_if) {
        (None, None) => true,
        (Some(a), Some(b)) => all_expanded(a, b, vars),
        _ => false,
    }
}

/// The error for an undefined reference in one of the strings `v`.
pub open spec fn undefined_error(e: PreprocessError, v: Seq<Seq<char>>, vars: Map<Seq<char>, Seq<char>>) -> bool {
    e matches PreprocessError::UndefinedVariable { key, name } && undefined_in(v, key@, name@, vars)
}

/// Every field of every command of `exes` expands without error.
pub open spec fn recipe_defined(exes: Seq<ExecutableView>, vars: Map<Seq<char>, Seq<char>>) -> bool {
    forall|t: int, k: int|
        0 <= t < exes.len() && 0 <= k < exes[t].commands.len() ==> all_defined(
            #[trigger] fields_of(exes[t].commands[k]),
            vars,
        )
}

/// `new` is `old` with every command field expanded.
pub open spec fn recipe_expanded(old: Seq<ExecutableView>, new: Seq<ExecutableView>, vars: Map<Seq<char>, Seq<char>>) -> bool {
    &&& old.len() == new.len()
    &&& forall|t: int| 0 <= t < old.len() ==> {
        &&& (#[trigger] new[t]).target == old[t].target
        &&& new[t].commands.len() == old[t].commands.len()
        &&& forall|k: int| 0 <= k < old[t].commands.len() ==> #[trigger] command_expanded(
            old[t].commands[k],
            new[t].commands[k],
            vars,
        )
    }
}

/// Expands one field; an undefined reference names the field's text.
fn patch_field(value: &String, variables: &VariableTable) -> (r: Result<String, PreprocessError>)
    requires
        variables.wf(),
    ensures
        match r {
            Ok(v) => substitute(value@, variables@) == Ok::<Seq<char>, Seq<char>>(v@),
            Err(e) => e matches PreprocessError::UndefinedVariable { key, name } && key@ == value@
                && substitute(value@, variables@) == Err::<Seq<char>, Seq<char>>(name@),
        },
{
    check_var_string(patch_variable_references(value, variables), value.clone())
}

/// Expands each of `values`, stopping at the first undefined reference.
fn patch_all(values: &Vec<String>, variables: &VariableTable) -> (r: Result<Vec<String>, PreprocessError>)
    requires
        variables.wf(),
    ensures
        r is Ok <==> all_defined(values.deep_view(), variables@),
        match r {
            Ok(w) => all_expanded(values.deep_view(), w.deep_view(), variables@),
            Err(e) => undefined_error(e, values.deep_view(), variables@),
        },
{
    let ghost v = values.deep_view();
    let mut out: Vec<String> = Vec::new();
    let mut i: usize = 0;
    while i < values.len()
        invariant
            v == values.deep_view(),
            variables.wf(),
            i <= values@.len(),
            all_expanded(v.take(i as int), out.deep_view(), variables@),
        decreases values@.len() - i,
    {
        proof {
            assert(v[i as int] == values@[i as int]@);
        }
        match patch_field(&values[i], variables) {
            Ok(s) => {
                let ghost o0 = out.deep_view();
                out.push(s);
                proof {
                    assert(out.deep_view() =~= o0.push(s@));
                    assert(v.take(i + 1) =~= v.take(i as int).push(v[i as int]));
                    assert forall|j: int| 0 <= j < i + 1 implies #[trigger] substitute(v.take(i + 1)[j], variables@)
                        == Ok::<Seq<char>, Seq<char>>(out.deep_view()[j]) by {
                        if j < i {
                            assert(v.take(i + 1)[j] == v.take(i as int)[j]);
                        }
                    }
                }
            },
            Err(e) => {
                proof {
                    assert(substitute(v[i as int], variables@) is Err);
                }
                return Err(e);
            },
        }
        i = i + 1;
    }
    proof {
        assert(v.take(i as int) =~= v);
    }
    Ok(out)
}

impl Command {
    /// This command with its program, arguments and condition expanded.
    pub fn patched(&self, variables: &VariableTable) -> (r: Result<Command, PreprocessError>)
        requires
            variables.wf(),
        ensures
            r is Ok <==> all_defined(fields_of(self@), variables@),
            match r {
                Ok(c) => command_expanded(self@, c@, variables@),
                Err(e) => undefined_error(e, fields_of(self@), variables@),
            },
    {
        let ghost f = fields_of(self@);
        let ghost vars = variables@;
        let ghost a = self.arguments.deep_view();
        proof {
            assert(f[0] == self.command@);
            assert forall|i: int| 0 <= i < a.len() implies f[1 + i] == a[i] by {}
        }
        let command = match patch_field(&self.command, variables) {
            Ok(c) => c,
            Err(e) => {
                proof {
                    assert(f[0] == self.command@);
                }
                return Err(e);
            },
        };
        let arguments = match patch_all(&self.arguments, variables) {
            Ok(a) => a,
            Err(e) => {
                proof {
                    if let PreprocessError::UndefinedVariable { key, name } = &e {
                        let i = choose|i: int| 0 <= i < a.len() && a[i] == key@ && #[trigger] substitute(a[i], vars) == Err::<Seq<char>, Seq<char>>(name@);
                        assert(f[1 + i] == a[i]);
                        assert(substitute(f[1 + i], vars) is Err);
                    }
                }
                return Err(e);
            },
        };
        let run_if = match &self.run_if {
            None => None,
            Some(conds) => {
                let ghost c = conds.deep_view();
                proof {
                    assert forall|i: int| 0 <= i < c.len() implies f[1 + a.len() + i] == c[i] by {}
                }
                match patch_all(conds, variables) {
                    Ok(w) => Some(w),
                    Err(e) => {
                        proof {
                            if let PreprocessError::UndefinedVariable { key, name } = &e {
                                let i = choose|i: int| 0 <= i < c.len() && c[i] == key@ && #[trigger] substitute(c[i], vars) == Err::<Seq<char>, Seq<char>>(name@);
                                assert(f[1 + a.len() + i] == c[i]);
                                assert(substitute(f[1 + a.len() + i], vars) is Err);
                            }
                        }
                        return Err(e);
                    },
                }
            },
        };
        proof {
            assert forall|j: int| 0 <= j < f.len() implies (#[trigger] substitute(f[j], vars)) is Ok by {
                if j == 0 {
                } else if j < 1 + a.len() {
                    assert(f[j] == a[j - 1]);
                } else {
                    let c = self.run_if->0.deep_view();
                    assert(f[j] == c[j - 1 - a.len()]);
                }
            }
        }
        Ok(Command { command, arguments, run_if })
    }

    /// The program followed by its arguments, separated by spaces.
    pub fn to_string(&self) -> (r: String)
        ensures
            r@ == self.command@ + seq![' '] + joined(self.arguments.deep_view()),
    {
        let mut out: Vec<char> = Vec::new();
        push_str(&mut out, &self.command);
        out.push(' ');
        let ghost head = out@;
        let ghost a = self.arguments.deep_view();
        let mut i: usize = 0;
        while i < self.arguments.len()
            invariant
                a == self.arguments.deep_view(),
                i <= self.arguments@.len(),
                out@ == head + joined(a.take(i as int)),
            decreases self.arguments@.len() - i,
        {
            proof {
                assert(a.take(i + 1).drop_last() =~= a.take(i as int));
                assert(a[i as int] == self.arguments@[i as int]@);
            }
            if i > 0 {
                out.push(' ');
            }
            push_str(&mut out, &self.arguments[i]);
            i = i + 1;
        }
        proof {
            assert(a.take(i as int) =~= a);
        }
        string_of(&out)
    }
}

impl Executable {
    /// This target with every field of its commands expanded.
    pub fn patched(&self, variables: &VariableTable) -> (r: Result<Executable, PreprocessError>)
        requires
            variables.wf(),
        ensures
            r is Ok <==> forall|k: int| 0 <= k < self@.commands.len()
                ==> all_defined(#[trigger] fields_of(self@.commands[k]), variables@),
            match r {
                Ok(x) => x@.target == self@.target && x@.commands.len() == self@.commands.len()
                    && forall|k: int| 0 <= k < self@.commands.len()
                        ==> #[trigger] command_expanded(self@.commands[k], x@.commands[k], variables@),
                Err(e) => exists|k: int| 0 <= k < self@.commands.len()
                    && undefined_error(e, #[trigger] fields_of(self@.commands[k]), variables@),
            },
    {
        let ghost cs = self@.commands;
        let mut out: Vec<Command> = Vec::new();
        let mut i: usize = 0;
        while i < self.commands.len()
            invariant
                cs == self@.commands,
                variables.wf(),
                i <= self.commands@.len(),
                out@.len() == i,
                forall|k: int| 0 <= k < i ==> #[trigger] command_expanded(cs[k], out@[k]@, variables@),
                forall|k: int| 0 <= k < i ==> all_defined(#[trigger] fields_of(cs[k]), variables@),
            decreases self.commands@.len() - i,
        {
            match self.commands[i].patched(variables) {
                Ok(c) => out.push(c),
                Err(e) => {
                    proof {
                        assert(cs[i as int] == self.commands@[i as int]@);
                    }
                    return Err(e);
                },
            }
            i = i + 1;
        }
        let x = Executable { target: self.target.clone(), commands: out };
        proof {
            assert forall|k: int| 0 <= k < cs.len() implies #[trigger] command_expanded(cs[k], x@.commands[k], variables@) by {
                assert(x@.commands[k] == out@[k]@);
            }
        }
        Ok(x)
    }
}

impl CoyoteJson {
    /// Expands the variable references in every command field of every
    /// target, in order. On an undefined reference the recipe is left as it
    /// was and the error names the field's text and the missing name.
    pub fn preprocess(&mut self, variables: &VariableTable) -> (r: Result<(), PreprocessError>)
        requires
            variables.wf(),
        ensures
            r is Ok <==> recipe_defined(executables_view(old(self).executables@), variables@),
            match r {
                Ok(_) => {
                    &&& final(self).project_name == old(self).project_name
                    &&& final(self).variables == old(self).variables
                    &&& recipe_expanded(
                        executables_view(old(self).executables@),
                        executables_view(final(self).executables@),
                        variables@,
                    )
                },
                Err(e) => {
                    &&& *final(self) == *old(self)
                    &&& exists|t: int, k: int|
                        0 <= t < old(self).executables@.len() && 0 <= k < old(self).executables@[t]@.commands.len()
                            && undefined_error(e, #[trigger] fields_of(old(self).executables@[t]@.commands[k]), variables@)
                },
            },
    {
        let ghost ex = executables_view(self.executables@);
        let mut out: Vec<Executable> = Vec::new();
        let mut i: usize = 0;
        while i < self.executables.len()
            invariant
                ex == executables_view(self.executables@),
                variables.wf(),
                i <= self.executables@.len(),
                out@.len() == i,
                forall|t: int| 0 <= t < i ==> {
                    &&& (#[trigger] out@[t])@.target == ex[t].target
                    &&& out@[t]@.commands.len() == ex[t].commands.len()
                    &&& forall|k: int| 0 <= k < ex[t].commands.len() ==> #[trigger] command_expanded(
                        ex[t].commands[k],
                        out@[t]@.commands[k],
                        variables@,
                    )
                },
                forall|t: int, k: int| 0 <= t < i && 0 <= k < ex[t].commands.len()
                    ==> all_defined(#[trigger] fields_of(ex[t].commands[k]), variables@),
            decreases self.executables@.len() - i,
        {
            proof {
                assert(ex[i as int] == self.executables@[i as int]@);
            }
            match self.executables[i].patched(variables) {
                Ok(x) => out.push(x),
                Err(e) => {
                    return Err(e);
                },
            }
            i = i + 1;
        }
        proof {
            let nv = executables_view(out@);
            assert forall|t: int| 0 <= t < ex.len() implies (#[trigger] nv[t]) == out@[t]@ by {}
        }
        self.executables = out;
        Ok(())
    }
}

/// The strings of `s` joined by single spaces.
pub open spec fn joined(s: Seq<Seq<char>>) -> Seq<char>
    decreases s.len(),
{
    if s.len() == 0 {
        Seq::empty()
    } else if s.len() == 1 {
        s[0]
    } else {
        joined(s.drop_last()) + seq![' '] + s.last()
    }
}

} // verus!
