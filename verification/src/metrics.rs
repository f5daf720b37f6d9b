//! How often the runtime reports its metrics.

use vstd::prelude::*;
use crate::config::FrameOSConfig;

verus! {

/// The metrics settings of a runtime.
#[derive(Debug, Clone)]
pub struct Metrics {
    interval_seconds: u64,
}

impl Metrics {
    /// The seconds between two reports.
    pub closed spec fn interval(&self) -> u64 {
        self.interval_seconds
    }

    /// Takes the interval from the configuration.
    pub fn from_config(config: &FrameOSConfig) -> (out: Self)
        ensures
            out.interval() == config.metrics_interval_seconds,
    {
        Self { interval_seconds: config.metrics_interval_seconds }
    }

    /// The seconds between two reports.
    pub fn interval_seconds(&self) -> (out: u64)
        ensures
            out == self.interval(),
    {
        self.interval_seconds
    }
}

} // verus!
