//! Gauge execution and the manifest run.
//!
//! A gauge's measurement mode decides which engine capability is asked for:
//! `Count` wants the scalar row count of the query result, `DimensionalCount`
//! the materialized batches. The engine's answer, or its gauge-scoped
//! failure, is handed back in; evaluation projects it into metric data
//! points. The manifest runner walks every group and gauge in declaration
//! order, and a failing gauge never touches the outcome of any other.

use vstd::prelude::*;
use crate::config::{Configuration, Gauge, Measurement};
use crate::metrics::{MetricDataPoint, spec_namespace};
use crate::projector::{
    Diagnostic, ProjectionReport, count_mode_value, point_matches, project_count,
    project_dimensional, report_matches,
};
use crate::tabular::TabularBatch;

verus! {

/// The engine capability a measurement mode needs.
#[derive(Clone, Copy, Debug, PartialEq, Eq, Structural)]
pub enum QueryRequest {
    RowCount,
    MaterializeBatches,
}

/// Which capability each mode asks of the engine: `Count` reads only the
/// scalar row count and never materializes rows.
pub open spec fn spec_request(m: Measurement) -> QueryRequest {
    match m {
        Measurement::Count => QueryRequest::RowCount,
        Measurement::DimensionalCount => QueryRequest::MaterializeBatches,
    }
}

/// The fixed logical name a gauge's table is registered under before its
/// query runs; the query text refers to the table by this name.
pub fn source_table_name() -> (r: &'static str)
    ensures
        r@ == "source"@,
{
    "source"
}

impl Measurement {
    /// The engine capability this mode needs.
    pub fn required_request(&self) -> (r: QueryRequest)
        ensures
            r == spec_request(*self),
    {
        match self {
            Measurement::Count => QueryRequest::RowCount,
            Measurement::DimensionalCount => QueryRequest::MaterializeBatches,
        }
    }
}

/// What the engine handed back for one gauge's query.
#[derive(Debug)]
pub enum QueryResponse {
    RowCount(u64),
    Batches(Vec<TabularBatch>),
}

/// A gauge-scoped failure: it aborts one gauge and nothing else.
#[derive(Clone, Copy, Debug, PartialEq, Eq, Structural)]
pub enum GaugeFailure {
    TableOpen,
    QueryCompile,
    CountEvaluation,
    BatchCollection,
}

/// The engine's answer fits the capability the gauge's mode asked for, and
/// is valid: a row count that fits a 64-bit signed value, or well-formed
/// batches.
pub open spec fn response_matches(m: Measurement, resp: QueryResponse) -> bool {
    match m {
        Measurement::Count => resp matches QueryResponse::RowCount(n) && n <= i64::MAX as u64,
        Measurement::DimensionalCount => resp matches QueryResponse::Batches(bs) && forall|i: int|
            0 <= i < bs@.len() ==> (#[trigger] bs@[i]).wf(),
    }
}

/// What evaluating one gauge must produce: under `Count`, exactly one point
/// carrying the engine's row count and no dimensions; under
/// `DimensionalCount`, the full dimensional projection of the batches.
pub open spec fn evaluation_matches(
    r: ProjectionReport,
    group: Seq<char>,
    g: Gauge,
    resp: QueryResponse,
    ts: u64,
) -> bool {
    match resp {
        QueryResponse::RowCount(n) => {
            &&& r.points@.len() == 1
            &&& point_matches(
                r.points@[0],
                (count_mode_value(n), Map::<Seq<char>, Seq<char>>::empty()),
                g.name@,
                spec_namespace(group),
                ts,
            )
            &&& r.diagnostics@ == Seq::<Diagnostic>::empty()
        },
        QueryResponse::Batches(bs) => report_matches(r, bs@, g.name@, spec_namespace(group), ts),
    }
}

/// Projects one gauge's engine response into metric data points.
pub fn evaluate_gauge(
    group_name: &String,
    gauge: &Gauge,
    response: &QueryResponse,
    timestamp_millis: u64,
) -> (r: ProjectionReport)
    requires
        response_matches(gauge.measurement_type, *response),
    ensures
        evaluation_matches(r, group_name@, *gauge, *response, timestamp_millis),
{
    match response {
        QueryResponse::RowCount(n) => {
            let p = project_count(*n, &gauge.name, group_name, timestamp_millis);
            let mut points: Vec<MetricDataPoint> = Vec::new();
            points.push(p);
            ProjectionReport { points, diagnostics: Vec::new() }
        },
        QueryResponse::Batches(bs) => {
            project_dimensional(bs, &gauge.name, group_name, timestamp_millis)
        },
    }
}

/// The outcome of one gauge of the run, tagged with its group and metric
/// name.
#[derive(Debug)]
pub struct GaugeOutcome {
    pub group: String,
    pub metric: String,
    pub result: Result<ProjectionReport, GaugeFailure>,
}

/// The manifest's gauges in declaration order: group order, then gauge order
/// within the group, each paired with its group name.
pub open spec fn flat_gauges(groups: Seq<(String, Vec<Gauge>)>) -> Seq<(String, Gauge)>
    decreases groups.len(),
{
    if groups.len() == 0 {
        Seq::empty()
    } else {
        flat_gauges(groups.drop_last()) + Seq::new(
            groups.last().1@.len(),
            |j: int| (groups.last().0, groups.last().1@[j]),
        )
    }
}

/// Flattening distributes over concatenation of group lists.
proof fn lemma_flat_concat(s1: Seq<(String, Vec<Gauge>)>, s2: Seq<(String, Vec<Gauge>)>)
    ensures
        flat_gauges(s1 + s2) == flat_gauges(s1) + flat_gauges(s2),
    decreases s2.len(),
{
    if s2.len() == 0 {
        assert(s1 + s2 =~= s1);
        assert(flat_gauges(s1) + flat_gauges(s2) =~= flat_gauges(s1));
    } else {
        lemma_flat_concat(s1, s2.drop_last());
        assert((s1 + s2).drop_last() =~= s1 + s2.drop_last());
        assert((s1 + s2).last() == s2.last());
        let tail = Seq::new(s2.last().1@.len(), |j: int| (s2.last().0, s2.last().1@[j]));
        assert(flat_gauges(s1 + s2) == (flat_gauges(s1) + flat_gauges(s2.drop_last())) + tail);
        assert((flat_gauges(s1) + flat_gauges(s2.drop_last())) + tail =~= flat_gauges(s1) + (
        flat_gauges(s2.drop_last()) + tail));
    }
}

/// Where gauge `j` of group `i` stands in the flat order, and that the flat
/// order holds exactly that gauge there.
proof fn lemma_flat_index(groups: Seq<(String, Vec<Gauge>)>, i: int, j: int)
    requires
        0 <= i < groups.len(),
        0 <= j < groups[i].1@.len(),
    ensures
        flat_gauges(groups.take(i)).len() + j < flat_gauges(groups).len(),
        flat_gauges(groups)[flat_gauges(groups.take(i)).len() + j] == (groups[i].0, groups[i].1@[j]),
{
    let left = groups.take(i);
    let mid = groups.subrange(i, i + 1);
    let right = groups.skip(i + 1);
    assert(groups =~= (left + mid) + right);
    lemma_flat_concat(left + mid, right);
    lemma_flat_concat(left, mid);
    assert(mid.drop_last() =~= Seq::<(String, Vec<Gauge>)>::empty());
    assert(mid.last() == groups[i]);
    let tail = Seq::new(groups[i].1@.len(), |jj: int| (groups[i].0, groups[i].1@[jj]));
    assert(flat_gauges(mid) == flat_gauges(mid.drop_last()) + tail);
    assert(Seq::<(String, Gauge)>::empty() + tail =~= tail);
    assert(flat_gauges(groups) == (flat_gauges(left) + tail) + flat_gauges(right));
    assert((flat_gauges(left) + tail)[flat_gauges(left).len() + j] == tail[j]);
}

/// One group step in the flat order: group `i` contributes exactly its own
/// gauges.
proof fn lemma_flat_step(groups: Seq<(String, Vec<Gauge>)>, i: int)
    requires
        0 <= i < groups.len(),
    ensures
        flat_gauges(groups.take(i + 1)).len() == flat_gauges(groups.take(i)).len()
            + groups[i].1@.len(),
{
    assert(groups.take(i + 1).drop_last() =~= groups.take(i));
    assert(groups.take(i + 1).last() == groups[i]);
}

/// Drives the whole manifest: every group, every gauge, in declaration
/// order. `responses` holds, in that same order, what the engine gave each
/// gauge: its answer, or its gauge-scoped failure.
///
/// LAW (gauge isolation): each outcome is determined by that gauge's own
/// spec and its own engine response alone, so one gauge's failure never
/// stops or changes the evaluation of any sibling gauge or group.
pub fn run_manifest(
    conf: &Configuration,
    responses: &Vec<Result<QueryResponse, GaugeFailure>>,
    timestamp_millis: u64,
) -> (outcomes: Vec<GaugeOutcome>)
    requires
        responses@.len() == flat_gauges(conf.gauges@).len(),
        forall|k: int|
            0 <= k < responses@.len() ==> ((#[trigger] responses@[k]) matches Ok(resp)
                ==> response_matches(flat_gauges(conf.gauges@)[k].1.measurement_type, resp)),
    ensures
        outcomes@.len() == flat_gauges(conf.gauges@).len(),
        forall|k: int|
            0 <= k < outcomes@.len() ==> {
                let entry = flat_gauges(conf.gauges@)[k];
                let o = #[trigger] outcomes@[k];
                &&& o.group@ == entry.0@
                &&& o.metric@ == entry.1.name@
                &&& match responses@[k] {
                    Ok(resp) => o.result matches Ok(rep) && evaluation_matches(
                        rep,
                        entry.0@,
                        entry.1,
                        resp,
                        timestamp_millis,
                    ),
                    Err(e) => o.result matches Err(e2) && e2 == e,
                }
            },
{
    let mut outcomes: Vec<GaugeOutcome> = Vec::new();
    let mut k: usize = 0;
    let total: usize = responses.len();
    let ng = conf.gauges.len();
    for i in 0..ng
        invariant
            ng == conf.gauges@.len(),
            total == responses@.len(),
            responses@.len() == flat_gauges(conf.gauges@).len(),
            forall|m: int|
                0 <= m < responses@.len() ==> ((#[trigger] responses@[m]) matches Ok(resp)
                    ==> response_matches(flat_gauges(conf.gauges@)[m].1.measurement_type, resp)),
            k == flat_gauges(conf.gauges@.take(i as int)).len(),
            k <= responses@.len(),
            outcomes@.len() == k,
            forall|m: int|
                0 <= m < k ==> {
                    let entry = flat_gauges(conf.gauges@)[m];
                    let o = #[trigger] outcomes@[m];
                    &&& o.group@ == entry.0@
                    &&& o.metric@ == entry.1.name@
                    &&& match responses@[m] {
                        Ok(resp) => o.result matches Ok(rep) && evaluation_matches(
                            rep,
                            entry.0@,
                            entry.1,
                            resp,
                            timestamp_millis,
                        ),
                        Err(e) => o.result matches Err(e2) && e2 == e,
                    }
                },
    {
        let nj = conf.gauges[i].1.len();
        for j in 0..nj
            invariant
                ng == conf.gauges@.len(),
                i < ng,
                nj == conf.gauges@[i as int].1@.len(),
                total == responses@.len(),
                responses@.len() == flat_gauges(conf.gauges@).len(),
                forall|m: int|
                    0 <= m < responses@.len() ==> ((#[trigger] responses@[m]) matches Ok(resp)
                        ==> response_matches(
                        flat_gauges(conf.gauges@)[m].1.measurement_type,
                        resp,
                    )),
                k == flat_gauges(conf.gauges@.take(i as int)).len() + j,
                k <= responses@.len(),
                outcomes@.len() == k,
                forall|m: int|
                    0 <= m < k ==> {
                        let entry = flat_gauges(conf.gauges@)[m];
                        let o = #[trigger] outcomes@[m];
                        &&& o.group@ == entry.0@
                        &&& o.metric@ == entry.1.name@
                        &&& match responses@[m] {
                            Ok(resp) => o.result matches Ok(rep) && evaluation_matches(
                                rep,
                                entry.0@,
                                entry.1,
                                resp,
                                timestamp_millis,
                            ),
                            Err(e) => o.result matches Err(e2) && e2 == e,
                        }
                    },
        {
            proof {
                lemma_flat_index(conf.gauges@, i as int, j as int);
            }
            let gauge = &conf.gauges[i].1[j];
            let result: Result<ProjectionReport, GaugeFailure> = match &responses[k] {
                Ok(resp) => Ok(
                    evaluate_gauge(&conf.gauges[i].0, gauge, resp, timestamp_millis),
                ),
                Err(e) => Err(*e),
            };
            outcomes.push(
                GaugeOutcome {
                    group: conf.gauges[i].0.clone(),
                    metric: gauge.name.clone(),
                    result,
                },
            );
            proof {
                assert(k < total);
            }
            k = k + 1;
        }
        proof {
            lemma_flat_step(conf.gauges@, i as int);
        }
    }
    proof {
        assert(conf.gauges@.take(ng as int) =~= conf.gauges@);
    }
    outcomes
}

} // verus!
