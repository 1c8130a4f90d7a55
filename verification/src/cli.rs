//! The values that a command line hands to each command, and the checks on
//! them.

pub mod base64;
pub mod csv;
pub mod genpass;
pub mod http;
pub mod text;

use self::base64::Base64SubCommand;
use self::csv::CsvOpts;
use self::genpass::GenPassOpts;
use self::http::HttpSubCommand;
use self::text::TextSubCommand;
use vstd::prelude::*;

verus! {

/// A parsed command line.
#[derive(Debug)]
pub struct Opts {
    /// The command to run.
    pub cmd: SubCommand,
}

/// The commands.
#[derive(Debug)]
pub enum SubCommand {
    /// Show CSV, or convert it to another format.
    Csv(CsvOpts),
    /// Generate a random password.
    GenPass(GenPassOpts),
    /// Encode or decode base64.
    Base64(Base64SubCommand),
    /// Sign or verify text, or generate a key.
    Text(TextSubCommand),
    /// Serve files over HTTP.
    Http(HttpSubCommand),
}

/// Accepts the name of an input: `-`, which stands for standard input, or
/// the name of a file that exists. `found` says whether a file of that name
/// was found.
pub fn verify_file(filename: &str, found: bool) -> (r: Result<String, &'static str>)
    ensures
        match r {
            Ok(name) => (filename@ == "-"@ || found) && name@ == filename@,
            Err(message) => !(filename@ == "-"@ || found) && message@ == "File does not exist"@,
        },
{
    if found || filename.to_owned() == "-".to_owned() {
        Ok(filename.to_owned())
    } else {
        Err("File does not exist")
    }
}

/// Accepts the name of an input that has to be a file: standard input will
/// not do. `found` says whether a file of that name was found.
pub fn verify_input_file(filename: &str, found: bool) -> (r: Result<String, &'static str>)
    ensures
        match r {
            Ok(name) => found && name@ == filename@,
            Err(message) => !found && message@ == "File does not exist"@,
        },
{
    if found {
        Ok(filename.to_owned())
    } else {
        Err("File does not exist")
    }
}

/// Accepts the name of an output directory. `is_dir` says whether a
/// directory of that name was found.
pub fn verify_path(path: &str, is_dir: bool) -> (r: Result<String, &'static str>)
    ensures
        match r {
            Ok(name) => is_dir && name@ == path@,
            Err(message) => !is_dir && message@ == "Path does not exist or is not a directory"@,
        },
{
    if is_dir {
        Ok(path.to_owned())
    } else {
        Err("Path does not exist or is not a directory")
    }
}

} // verus!
