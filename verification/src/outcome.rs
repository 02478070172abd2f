//! Status codes, the error taxonomy, and the uniform `(status, text)`
//! result that every builtin returns.
use vstd::prelude::*;

verus! {

/// The single success status code every builtin currently returns.
/// Kept as a named constant so failure codes can be added later.
pub const STATUS_OK: usize = 0;

/// The fixed placeholder text returned when a path-taking builtin
/// receives an empty argument: a benign "nothing to do", never an error.
pub open spec fn placeholder_text() -> Seq<char> {
    "there is None"@
}

/// Build the placeholder success result for an empty argument.
pub fn placeholder_result() -> (r: (usize, String))
    ensures
        r.0 == STATUS_OK,
        r.1@ == placeholder_text(),
{
    let mut t = String::new();
    t.append("there is None");
    (STATUS_OK, t)
}

/// Everything that can go wrong while parsing or dispatching a line.
#[derive(Clone, Copy, PartialEq, Eq, Structural, Debug)]
pub enum ShellError {
    /// The line held no command at all.
    EmptyPipeline,
    /// An operator had no following segment, or a segment was empty.
    DanglingOperator,
    /// A redirection without exactly one command and one target path.
    MalformedRedirect,
    /// Two different control operators mixed on one line.
    MixedOperators,
    /// The command name is not a known builtin.
    UnsupportedCommand,
    /// The filesystem has no entry at the named path.
    NotFound,
    /// The path already names an entry.
    AlreadyExists,
    /// The supplied secret did not match the session's reference secret.
    ElevationFailure,
}

impl ShellError {
    /// A short diagnostic for the prompt loop to print.
    pub fn message(&self) -> (r: String)
        ensures
            self is EmptyPipeline ==> r@ == "empty pipeline"@,
            self is DanglingOperator ==> r@ == "dangling operator"@,
            self is MalformedRedirect ==> r@ == "malformed redirection"@,
            self is MixedOperators ==> r@ == "operators cannot be combined"@,
            self is UnsupportedCommand ==> r@ == "Unsupported command"@,
            self is NotFound ==> r@ == "no such file or directory"@,
            self is AlreadyExists ==> r@ == "file already exists"@,
            self is ElevationFailure ==> r@ == "Sorry, try again"@,
    {
        let mut t = String::new();
        match self {
            ShellError::EmptyPipeline => t.append("empty pipeline"),
            ShellError::DanglingOperator => t.append("dangling operator"),
            ShellError::MalformedRedirect => t.append("malformed redirection"),
            ShellError::MixedOperators => t.append("operators cannot be combined"),
            ShellError::UnsupportedCommand => t.append("Unsupported command"),
            ShellError::NotFound => t.append("no such file or directory"),
            ShellError::AlreadyExists => t.append("file already exists"),
            ShellError::ElevationFailure => t.append("Sorry, try again"),
        }
        t
    }
}

} // verus!
