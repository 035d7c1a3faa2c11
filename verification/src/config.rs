use vstd::prelude::*;

verus! {

/// Port the proxy listens on when none is given.
pub const DEFAULT_PORT: u16 = 7777;

/// Listener options: which local port to bind.
pub struct Opts {
    pub port: u16,
}

impl Opts {
    pub fn new(port: u16) -> (r: Opts)
        ensures
            r.port == port,
    {
        Opts { port }
    }
}

impl Default for Opts {
    fn default() -> (r: Opts)
        ensures
            r.port == DEFAULT_PORT,
    {
        Opts { port: DEFAULT_PORT }
    }
}

} // verus!
