//! The settings of a benchmark run and their defaults.

use vstd::prelude::*;
use vstd::string::StringExecFns;

verus! {

/// The sample size of a pass where none is given.
pub const DEFAULT_SAMPLES: usize = 100;

/// The server that is asked where none is given.
pub open spec fn default_server() -> Seq<char> {
    "tcp://electrum.blockstream.info:50001"@
}

/// The settings of a benchmark run.
#[derive(Debug)]
pub struct Args {
    /// The address of the Electrum server.
    pub server: String,
    /// The number of unspent-output lookups to make.
    pub address_samples: usize,
    /// The number of transaction fetches to make.
    pub tx_samples: usize,
}

impl Default for Args {
    fn default() -> (args: Args)
        ensures
            args.server@ == default_server(),
            args.address_samples == DEFAULT_SAMPLES,
            args.tx_samples == DEFAULT_SAMPLES,
    {
        Args {
            server: String::from_str("tcp://electrum.blockstream.info:50001"),
            address_samples: DEFAULT_SAMPLES,
            tx_samples: DEFAULT_SAMPLES,
        }
    }
}

} // verus!
