//! The staleness evaluator: `run_if` conditions checked against the lock
//! store.
use vstd::prelude::*;
use vstd::string::StringExecFns;
use crate::lock::{observed, CoyoteLock};

verus! {

/// Why a condition could not be evaluated.
pub enum ConditionError {
    /// The condition of a command of `target` is empty.
    NoCondition { target: String },
    /// The verb `verb` of a condition of `target` is not known.
    UnknownCondition { verb: String, target: String },
    /// A `modified` condition of `target` does not have exactly one path.
    WrongArity { target: String },
    /// The modification time of `path` could not be read.
    Unreadable { path: String },
}

/// The one verb defined: `modified <path>`.
pub open spec fn modified_verb() -> Seq<char> {
    "modified"@
}

/// The path that the condition `cond` watches, where it is well formed.
pub open spec fn watched_path(cond: Seq<Seq<char>>) -> Option<Seq<char>> {
    if cond.len() == 2 && cond[0] == modified_verb() {
        Some(cond[1])
    } else {
        None
    }
}

/// The error for the malformed condition `cond` of a command of `target`:
/// empty, unknown verb, or wrong argument count.
pub open spec fn malformed_error(cond: Seq<Seq<char>>, target: Seq<char>, e: ConditionError) -> bool {
    if cond.len() == 0 {
        e matches ConditionError::NoCondition { target: t } && t@ == target
    } else if cond[0] != modified_verb() {
        e matches ConditionError::UnknownCondition { verb, target: t } && verb@ == cond[0] && t@ == target
    } else {
        e matches ConditionError::WrongArity { target: t } && t@ == target
    }
}

/// Checks the condition `cond` of a command of `target` and gives the path
/// whose modification time it needs.
pub fn condition_path(cond: &Vec<String>, target: &String) -> (r: Result<String, ConditionError>)
    ensures
        match r {
            Ok(p) => watched_path(cond.deep_view()) == Some(p@),
            Err(e) => watched_path(cond.deep_view()) is None && malformed_error(cond.deep_view(), target@, e),
        },
{
    if cond.len() == 0 {
        return Err(ConditionError::NoCondition { target: target.clone() });
    }
    let verb = String::from_str("modified");
    proof {
        reveal_strlit("modified");
        assert(cond.deep_view()[0] == cond@[0]@);
    }
    if cond[0] != verb {
        return Err(ConditionError::UnknownCondition { verb: cond[0].clone(), target: target.clone() });
    }
    if cond.len() != 2 {
        return Err(ConditionError::WrongArity { target: target.clone() });
    }
    proof {
        assert(cond.deep_view()[1] == cond@[1]@);
    }
    Ok(cond[1].clone())
}

/// Evaluates the condition `cond` of a command of `target`, given the
/// current modification time of its path (`None` where it could not be
/// read). A well-formed condition is met when the store had no time for
/// the path or a different one; either way the store then holds the
/// current time. On an error the store is unchanged.
pub fn condition_met(cond: &Vec<String>, target: &String, lock: &mut CoyoteLock, file_time: Option<u64>) -> (r: Result<bool, ConditionError>)
    requires
        old(lock).wf(),
    ensures
        final(lock).wf(),
        match watched_path(cond.deep_view()) {
            None => {
                &&& *final(lock) == *old(lock)
                &&& r is Err && malformed_error(cond.deep_view(), target@, r->Err_0)
            },
            Some(p) => match file_time {
                None => *final(lock) == *old(lock) && (r matches Err(ConditionError::Unreadable { path }) && path@ == p),
                Some(now) => {
                    &&& final(lock)@ == observed(old(lock)@, p, now).0
                    &&& r == Ok::<bool, ConditionError>(observed(old(lock)@, p, now).1)
                },
            },
        },
{
    let path = match condition_path(cond, target) {
        Ok(p) => p,
        Err(e) => return Err(e),
    };
    match file_time {
        None => Err(ConditionError::Unreadable { path }),
        Some(now) => Ok(lock.observe(&path, now)),
    }
}

} // verus!
