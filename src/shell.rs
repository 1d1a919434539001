//! Turning the text of a command reference into a program and its
//! arguments.
use vstd::prelude::*;
use crate::error::PreprocessError;

verus! {

/// What `str::trim` gives for the characters `s`.
pub uninterp spec fn trimmed(s: Seq<char>) -> Seq<char>;

/// The words that `shlex::split` finds in `s`, or `None` where it reports
/// the input as erroneous (an unclosed quote, a trailing backslash).
pub uninterp spec fn shell_words(s: Seq<char>) -> Option<Seq<Seq<char>>>;

/// Relies on `str::trim`: leading and trailing whitespace removed; the
/// result depends on the characters alone.
#[verifier::external_body]
fn trim_text(s: &String) -> (r: String)
    ensures
        r@ == trimmed(s@),
{
    s.trim().to_string()
}

/// Relies on `shlex::split`: POSIX shell word splitting, `None` on an
/// erroneous input; the result depends on the characters alone.
#[verifier::external_body]
fn split_words(s: &String) -> (r: Option<Vec<String>>)
    ensures
        r.deep_view() == shell_words(s@),
{
    shlex::split(s.as_str())
}

/// The program and arguments of the command reference `raw`: its text
/// trimmed and split into shell words. Fails when the words cannot be
/// parsed or there are none.
pub fn command_words(raw: &String) -> (r: Result<Vec<String>, PreprocessError>)
    ensures
        match shell_words(trimmed(raw@)) {
            None => r matches Err(PreprocessError::UnparsableCommand { command }) && command@ == raw@,
            Some(w) => if w.len() == 0 {
                r matches Err(PreprocessError::EmptyCommand { command }) && command@ == raw@
            } else {
                r is Ok && r->Ok_0.deep_view() == w
            },
        },
{
    let t = trim_text(raw);
    match split_words(&t) {
        None => Err(PreprocessError::UnparsableCommand { command: raw.clone() }),
        Some(w) => {
            if w.len() == 0 {
                Err(PreprocessError::EmptyCommand { command: raw.clone() })
            } else {
                Ok(w)
            }
        },
    }
}

} // verus!
