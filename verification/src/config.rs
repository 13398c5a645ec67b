//! Process configuration: listen address and the size of the worker pool
//! that runs hash searches. Loading it from disk is I/O and lives outside
//! the library; the library only defines the shape of the data.

use vstd::prelude::*;

verus! {

/// Settings the process is started with: where to listen and how many
/// worker threads the compute pool may use.
pub struct Config {
    pub host: String,
    pub port: u16,
    pub num_threads: usize,
}

} // verus!
