//! Instance memory metrics, and their flattened export form with the
//! identifiers rendered as text. The export sink (a CSV stream) lives
//! outside the library.

use vstd::prelude::*;

use crate::ids::InstanceId;
use crate::ids::WorkerId;
use crate::ids::crockford_seq;
use crate::text::ascii_view;

verus! {

/// One sampled figure for one instance, as collected.
#[derive(Debug, Clone)]
pub struct InstanceMemoryMetrics {
    pub timestamp: String,
    pub worker_id: WorkerId,
    pub instance_id: InstanceId,
    pub memory_usage: u32,
}

/// The export form of one sample: identifiers rendered in their canonical
/// text form.
#[derive(Debug, Clone)]
pub struct InstanceMemoryMetricsData {
    pub timestamp: String,
    pub worker_id: String,
    pub instance_id: String,
    pub memory_usage: u32,
}

impl InstanceMemoryMetricsData {
    /// Flattens a sample for export.
    pub fn from_metrics(m: &InstanceMemoryMetrics) -> (r: Self)
        ensures
            r.timestamp == m.timestamp,
            r.worker_id@ == ascii_view(crockford_seq(m.worker_id.0)),
            r.instance_id@ == ascii_view(crockford_seq(m.instance_id.0)),
            r.memory_usage == m.memory_usage,
    {
        InstanceMemoryMetricsData {
            timestamp: m.timestamp.clone(),
            worker_id: m.worker_id.to_id_string(),
            instance_id: m.instance_id.to_id_string(),
            memory_usage: m.memory_usage,
        }
    }
}

/// The per-instance metrics collector: which worker and instance it
/// samples for. Its background task and the export channel live outside
/// the library.
#[derive(Debug)]
pub struct CsvMemoryMetricsCollector {
    pub worker_id: WorkerId,
    pub instance_id: InstanceId,
}

impl CsvMemoryMetricsCollector {
    pub fn new(worker_id: WorkerId, instance_id: InstanceId) -> (r: Self)
        ensures
            r.worker_id == worker_id,
            r.instance_id == instance_id,
    {
        CsvMemoryMetricsCollector { worker_id, instance_id }
    }
}

} // verus!
