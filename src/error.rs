//! The ways in which building a commit graph can fail.

use vstd::prelude::*;

verus! {

#[verifier::external_type_specification]
#[verifier::external_body]
pub struct ExIoError(std::io::Error);

#[verifier::external_type_specification]
#[verifier::external_body]
pub struct ExFromUtf8Error(std::string::FromUtf8Error);

/// Why a commit graph could not be produced.
#[derive(Debug)]
pub enum GitGraphError {
    /// No `git` executable was found.
    GitBinaryMissing,
    /// `git` could not be started.
    SpawnFailed(std::io::Error),
    /// `git` exited with a failure; holds its trimmed standard error.
    CommandFailed(String),
    /// What `git` printed is not valid UTF-8.
    OutputEncoding(std::string::FromUtf8Error),
    /// A record of the log, or an argument, is malformed; holds the cause.
    Parse(String),
}

impl GitGraphError {
    /// A sentence that describes the failure.
    pub fn message(&self) -> (r: String)
        ensures
            self is GitBinaryMissing ==> r@ == "git executable was not found on PATH"@,
            self is SpawnFailed ==> r@.take(19) == "failed to run git: "@,
            self is CommandFailed ==> r@ == "git log exited with an error: "@
                + self->CommandFailed_0@,
            self is OutputEncoding ==> r@.take(32) == "git output was not valid UTF-8: "@,
            self is Parse ==> r@ == "failed to parse git output: "@ + self->Parse_0@,
    {
        match self {
            GitGraphError::GitBinaryMissing => String::from_str("git executable was not found on PATH"),
            GitGraphError::SpawnFailed(err) => {
                let detail = err.to_string();
                let r = String::from_str("failed to run git: ").concat(detail.as_str());
                proof {
                    reveal_strlit("failed to run git: ");
                    assert(r@.take(19) =~= "failed to run git: "@);
                }
                r
            },
            GitGraphError::CommandFailed(stderr) => {
                String::from_str("git log exited with an error: ").concat(stderr.as_str())
            },
            GitGraphError::OutputEncoding(err) => {
                let detail = err.to_string();
                let r = String::from_str("git output was not valid UTF-8: ").concat(detail.as_str());
                proof {
                    reveal_strlit("git output was not valid UTF-8: ");
                    assert(r@.take(32) =~= "git output was not valid UTF-8: "@);
                }
                r
            },
            GitGraphError::Parse(cause) => {
                String::from_str("failed to parse git output: ").concat(cause.as_str())
            },
        }
    }
}

} // verus!
