//! Execution settings.

use vstd::prelude::*;

verus! {

/// Model execution configuration.
///
/// The `rten` backend does not use these settings at present; they travel with
/// the calls that load a model so that callers can already state them.
#[derive(Debug, Clone, Copy, PartialEq, Eq, Structural)]
pub struct ModelConfig {
    pub intra_threads: usize,
    pub inter_threads: usize,
}

impl Default for ModelConfig {
    /// No thread count is set.
    fn default() -> (config: Self)
        ensures
            config == (ModelConfig { intra_threads: 0, inter_threads: 0 }),
    {
        ModelConfig { intra_threads: 0, inter_threads: 0 }
    }
}

impl ModelConfig {
    /// The default configuration.
    pub fn new() -> (config: Self)
        ensures
            config == (ModelConfig { intra_threads: 0, inter_threads: 0 }),
    {
        Self::default()
    }

    /// Sets the number of threads inside one operator.
    pub fn with_intra_threads(self, threads: usize) -> (config: Self)
        ensures
            config == (ModelConfig { intra_threads: threads, inter_threads: self.inter_threads }),
    {
        let mut config = self;
        config.intra_threads = threads;
        config
    }

    /// Sets the number of threads across operators.
    pub fn with_inter_threads(self, threads: usize) -> (config: Self)
        ensures
            config == (ModelConfig { intra_threads: self.intra_threads, inter_threads: threads }),
    {
        let mut config = self;
        config.inter_threads = threads;
        config
    }
}

} // verus!
