//! The errors of preprocessing a recipe.
use vstd::prelude::*;

verus! {

/// A failure while resolving variables or expanding command fields; each
/// aborts the run before any target is built.
pub enum PreprocessError {
    /// `key` (a variable or a command field) references `name`, which is
    /// not defined before it.
    UndefinedVariable { key: String, name: String },
    /// The text of a command reference is not valid shell words.
    UnparsableCommand { command: String },
    /// The text of a command reference holds no words.
    EmptyCommand { command: String },
}

/// Attaches the referencing `key` to the missing name of a failed
/// substitution.
pub fn check_var_string(string: Result<String, String>, key: String) -> (r: Result<String, PreprocessError>)
    ensures
        match string {
            Ok(v) => r == Ok::<String, PreprocessError>(v),
            Err(n) => r == Err::<String, PreprocessError>(PreprocessError::UndefinedVariable { key: key, name: n }),
        },
{
    match string {
        Ok(value) => Ok(value),
        Err(reference) => Err(PreprocessError::UndefinedVariable { key, name: reference }),
    }
}

} // verus!
