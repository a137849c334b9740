//! A memory-pressure-driven, self-healing process scheduler.
//!
//! The library supervises long-running workload instances (WebAssembly
//! modules run under a host runtime, or native executables), tracks each
//! instance's private memory footprint, and restarts an instance when its
//! footprint crosses a configured threshold.

use vstd::prelude::*;

pub mod clock;
pub mod config;
pub mod coordinator;
pub mod digest;
pub mod handler;
pub mod ids;
pub mod metrics;
pub mod policy;
pub mod registry;
pub mod remote;
pub mod sampler;
pub mod supervisor;
pub mod status;
pub mod text;
pub mod worker;

use crate::config::ModuleKind;
use crate::digest::hex_bytes_of;
use crate::digest::sha256_of;
use crate::text::ascii_view;

verus! {

/// Operating-system process identifier. Valid only while the underlying
/// process is alive; it is the key used for memory sampling.
#[derive(Debug, Clone, Copy, PartialEq, Eq, Structural)]
pub struct Pid(pub u32);

/// An executable artifact: its kind, its filesystem path, and the content
/// digest that identifies it independently of the path. Immutable once
/// constructed; every instance of the module shares it.
#[derive(Debug, Clone)]
pub struct Module {
    pub kind: ModuleKind,
    pub path: String,
    pub digest: String,
}

impl Module {
    /// Builds a module descriptor from the artifact's bytes, computing the
    /// content digest once at load time.
    pub fn new(kind: ModuleKind, path: String, data: &Vec<u8>) -> (m: Module)
        ensures
            m.kind == kind,
            m.path == path,
            m.digest@ == ascii_view(hex_bytes_of(sha256_of(data@))),
            m.digest@.len() == 64,
    {
        let digest = crate::digest::digest_string(data);
        Module { kind, path, digest }
    }
}

/// Collector for host-level metrics. The slot is reserved in the design;
/// its background task does no work yet.
pub struct MetricsCollector {}

impl MetricsCollector {
    pub fn new() -> Self {
        MetricsCollector {  }
    }
}

impl Default for MetricsCollector {
    fn default() -> Self {
        MetricsCollector::new()
    }
}

} // verus!
