use vstd::prelude::*;

verus! {

/// Command-line settings.
#[derive(Debug, Clone)]
pub struct Config {
    /// Refresh rate in milliseconds.
    pub rate: u64,
    /// Disable GPU monitoring.
    pub no_gpu: bool,
    /// Disable port monitoring.
    pub no_ports: bool,
}

} // verus!
