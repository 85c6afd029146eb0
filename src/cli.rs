use vstd::prelude::*;

verus! {

/// What the server runs and where it listens: the program file, the address
/// of the HTTP server that runs it, and the address of the management API.
#[derive(Clone, Debug)]
pub struct Options {
    pub file: String,
    pub http_addr: String,
    pub api_addr: String,
}

/// The commands of the server's command line.
#[derive(Clone, Debug)]
pub enum Command {
    /// Runs the server.
    Run(Options),
}

} // verus!
