//! What a worker may use.
use vstd::prelude::*;

verus! {

/// Per-worker resource budget. A limit of zero is not enforced.
#[derive(Debug, PartialEq, Eq, Structural)]
pub struct ResourceBudget {
    /// Max heap memory in bytes (V8 heap + external).
    pub memory: u64,
    /// Max CPU time in milliseconds per enforcement window.
    pub cpu: u64,
    /// Max network throughput in bytes per second (ingress + egress).
    pub network: u64,
    /// Max open file descriptors.
    pub file_handles: u64,
}

impl Clone for ResourceBudget {
    fn clone(&self) -> (result: Self)
        ensures
            result == *self,
    {
        ResourceBudget {
            memory: self.memory,
            cpu: self.cpu,
            network: self.network,
            file_handles: self.file_handles,
        }
    }
}

impl Default for ResourceBudget {
    /// 256 MB, one second of CPU per window, 10 MB/s and 256 files.
    fn default() -> (result: Self)
        ensures
            result.memory == 256 * 1024 * 1024,
            result.cpu == 1_000,
            result.network == 10 * 1024 * 1024,
            result.file_handles == 256,
    {
        ResourceBudget {
            memory: 256 * 1024 * 1024,
            cpu: 1_000,
            network: 10 * 1024 * 1024,
            file_handles: 256,
        }
    }
}

impl ResourceBudget {
    /// Budget for a small, low-density worker (e.g. an HTTP handler).
    pub fn small() -> (result: Self)
        ensures
            result.memory == 64 * 1024 * 1024,
            result.cpu == 1_000,
            result.network == 10 * 1024 * 1024,
            result.file_handles == 256,
    {
        ResourceBudget { memory: 64 * 1024 * 1024, ..Default::default() }
    }

    /// Budget for a medium worker (e.g. a data-processing pipeline).
    pub fn medium() -> (result: Self)
        ensures
            result.memory == 256 * 1024 * 1024,
            result.cpu == 5_000,
            result.network == 50 * 1024 * 1024,
            result.file_handles == 512,
    {
        ResourceBudget {
            memory: 256 * 1024 * 1024,
            cpu: 5_000,
            network: 50 * 1024 * 1024,
            file_handles: 512,
        }
    }

    /// Budget for a heavy worker (e.g. a build step or ETL job).
    pub fn heavy() -> (result: Self)
        ensures
            result.memory == 1024 * 1024 * 1024,
            result.cpu == 15_000,
            result.network == 200 * 1024 * 1024,
            result.file_handles == 2048,
    {
        ResourceBudget {
            memory: 1 * 1024 * 1024 * 1024,
            cpu: 15_000,
            network: 200 * 1024 * 1024,
            file_handles: 2048,
        }
    }
}

} // verus!
