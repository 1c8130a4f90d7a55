//! The answer of the file server to a request for one file.

use vstd::prelude::*;
use vstd::string::StringExecFns;

verus! {

/// What looking for a requested file came to.
#[derive(Debug)]
pub enum FileOutcome {
    /// There is no such file.
    Missing,
    /// The file was read: its content.
    Read(String),
    /// The file is there but could not be read: the reason.
    Failed(String),
}

/// Status of an answer that carries the file.
pub const STATUS_OK: u16 = 200;

/// Status of the answer to a request for a file that is not there.
pub const STATUS_NOT_FOUND: u16 = 404;

/// Status of the answer when the file could not be read.
pub const STATUS_INTERNAL_SERVER_ERROR: u16 = 500;

/// The status that answers `outcome`.
pub open spec fn response_status(outcome: FileOutcome) -> u16 {
    match outcome {
        FileOutcome::Missing => STATUS_NOT_FOUND,
        FileOutcome::Read(_) => STATUS_OK,
        FileOutcome::Failed(_) => STATUS_INTERNAL_SERVER_ERROR,
    }
}

/// The body that answers `outcome` for the file shown as `shown_path`.
pub open spec fn response_body(shown_path: Seq<char>, outcome: FileOutcome) -> Seq<char> {
    match outcome {
        FileOutcome::Missing => "File "@ + shown_path + " not found"@,
        FileOutcome::Read(content) => content@,
        FileOutcome::Failed(reason) => "Error reading file: "@ + reason@,
    }
}

/// The status and body that answer a request for the file shown as
/// `shown_path`: the content of a file that was read, and else a message
/// that says what went wrong.
pub fn file_response(shown_path: &str, outcome: FileOutcome) -> (response: (u16, String))
    ensures
        response.0 == response_status(outcome),
        response.1@ == response_body(shown_path@, outcome),
{
    match outcome {
        FileOutcome::Missing => {
            let body = "File ".to_owned().concat(shown_path).concat(" not found");
            (STATUS_NOT_FOUND, body)
        },
        FileOutcome::Read(content) => (STATUS_OK, content),
        FileOutcome::Failed(reason) => {
            let body = "Error reading file: ".to_owned().concat(reason.as_str());
            (STATUS_INTERNAL_SERVER_ERROR, body)
        },
    }
}

} // verus!
