//! Arguments of the HTTP commands.

use vstd::prelude::*;

verus! {

/// What the HTTP command is asked to do.
#[derive(Debug)]
pub enum HttpSubCommand {
    /// Serve a directory over HTTP.
    Serve(HttpServeOpts),
}

/// Arguments of serving.
#[derive(Debug)]
pub struct HttpServeOpts {
    /// The directory to serve.
    pub dir: String,
    /// The port to listen on.
    pub port: u16,
}

} // verus!
