//! The manifest data model: groups of configured gauges.

use vstd::prelude::*;

verus! {

/// How a gauge's query result is measured: either the bare row count of the
/// result set, or one metric point per row with the row's non-count columns
/// as dimensions.
#[derive(Clone, Copy, Debug, PartialEq, Eq, Structural)]
pub enum Measurement {
    Count,
    DimensionalCount,
}

/// One configured gauge: a table location, the metric name to report under,
/// the measurement mode, and the query to run against the table.
#[derive(Clone, Debug)]
pub struct Gauge {
    pub url: String,
    pub name: String,
    pub measurement_type: Measurement,
    pub query: String,
}

/// The manifest: group names, each with its ordered list of gauges. Groups
/// are kept in declaration order so that a run is deterministic.
#[derive(Clone, Debug)]
pub struct Configuration {
    pub gauges: Vec<(String, Vec<Gauge>)>,
}

impl Configuration {
    /// Group names are unique keys of the manifest mapping.
    pub open spec fn wf(self) -> bool {
        forall|i: int, j: int|
            0 <= i < j < self.gauges@.len() ==> self.gauges@[i].0@ != self.gauges@[j].0@
    }

    /// Checks the manifest invariant: no two groups share a name.
    pub fn is_wf(&self) -> (b: bool)
        ensures
            b == self.wf(),
    {
        let n = self.gauges.len();
        for i in 0..n
            invariant
                n == self.gauges@.len(),
                forall|a: int, b: int|
                    0 <= a < b < self.gauges@.len() && a < i ==> self.gauges@[a].0@
                        != self.gauges@[b].0@,
        {
            for j in (i + 1)..n
                invariant
                    i < n,
                    n == self.gauges@.len(),
                    forall|a: int, b: int|
                        0 <= a < b < self.gauges@.len() && a < i ==> self.gauges@[a].0@
                            != self.gauges@[b].0@,
                    forall|b: int| i < b < j ==> self.gauges@[i as int].0@ != self.gauges@[b].0@,
            {
                if self.gauges[i].0 == self.gauges[j].0 {
                    return false;
                }
            }
        }
        true
    }
}

} // verus!
