//! Projection of query results into metric data points.
//!
//! `Count` mode turns the engine's scalar row count into a single data
//! point with no dimensions. `DimensionalCount` mode walks the materialized
//! batches and yields one data point per row: the row's `count` column is the
//! value, every other column a dimension. Batches without rows are skipped
//! silently; a batch without a `count` column is skipped with a warning; a
//! row whose columns cannot be read under their declared types is dropped
//! with a diagnostic. Nothing aborts the projection.

use vstd::prelude::*;
use crate::metrics::{DimensionSet, MetricDataPoint, namespace_for, spec_namespace};
use crate::tabular::{Column, ColumnData, TabularBatch, count_name, is_count_name};

verus! {

/// A column reads cleanly when its declared type matches what the projection
/// asks of it: 64-bit integers for the `count` column, strings elsewhere.
pub open spec fn col_ok(c: Column) -> bool {
    if c.name@ == count_name() {
        c.data is Int64
    } else {
        c.data is Text
    }
}

/// Every column of the batch reads cleanly.
pub open spec fn batch_readable(b: TabularBatch) -> bool {
    forall|j: int| 0 <= j < b.columns@.len() ==> col_ok(#[trigger] b.columns@[j])
}

/// A batch contributes data points exactly when it has rows, a `count`
/// column, and cleanly reading columns.
pub open spec fn batch_emitted(b: TabularBatch) -> bool {
    b.num_rows > 0 && b.spec_has_count() && batch_readable(b)
}

/// The metric value of row `r`: the value of the last `count` column among
/// the first `n` columns, or zero when none is readable.
pub open spec fn row_count_val(cols: Seq<Column>, r: int, n: int) -> i64
    decreases n,
{
    if n <= 0 {
        0i64
    } else {
        let c = cols[n - 1];
        if c.name@ == count_name() && c.data is Int64 {
            c.data->Int64_0@[r]
        } else {
            row_count_val(cols, r, n - 1)
        }
    }
}

/// The dimensions of row `r` after the first `n` columns: every non-count
/// string column binds its name to the row's value, later columns shadowing
/// earlier ones of the same name.
pub open spec fn row_dims(cols: Seq<Column>, r: int, n: int) -> Map<Seq<char>, Seq<char>>
    decreases n,
{
    if n <= 0 {
        Map::empty()
    } else {
        let m = row_dims(cols, r, n - 1);
        let c = cols[n - 1];
        if c.name@ == count_name() {
            m
        } else if c.data is Text {
            m.insert(c.name@, c.data->Text_0@[r]@)
        } else {
            m
        }
    }
}

/// The (value, dimensions) pairs a batch contributes, in row order.
pub open spec fn batch_emits(b: TabularBatch) -> Seq<(i64, Map<Seq<char>, Seq<char>>)> {
    if batch_emitted(b) {
        Seq::new(
            b.num_rows as nat,
            |r: int|
                (
                    row_count_val(b.columns@, r, b.columns@.len() as int),
                    row_dims(b.columns@, r, b.columns@.len() as int),
                ),
        )
    } else {
        Seq::empty()
    }
}

/// The pairs a whole batch sequence contributes: batch order, then row order.
pub open spec fn all_emits(bs: Seq<TabularBatch>) -> Seq<(i64, Map<Seq<char>, Seq<char>>)>
    decreases bs.len(),
{
    if bs.len() == 0 {
        Seq::empty()
    } else {
        all_emits(bs.drop_last()) + batch_emits(bs.last())
    }
}

/// A recoverable condition met during projection, recorded rather than
/// reported as a metric.
#[derive(Clone, Copy, Debug, PartialEq, Eq, Structural)]
pub enum Diagnostic {
    /// A batch with rows had no `count` column; the whole batch was skipped.
    MissingCountColumn { batch_index: usize },
    /// A row could not be read under the declared column types and was
    /// dropped.
    RowDropped { batch_index: usize, row_index: usize },
}

/// The diagnostics one batch contributes.
pub open spec fn batch_diags(b: TabularBatch, i: int) -> Seq<Diagnostic> {
    if b.num_rows == 0 {
        Seq::empty()
    } else if !b.spec_has_count() {
        seq![Diagnostic::MissingCountColumn { batch_index: i as usize }]
    } else if !batch_readable(b) {
        Seq::new(
            b.num_rows as nat,
            |r: int| Diagnostic::RowDropped { batch_index: i as usize, row_index: r as usize },
        )
    } else {
        Seq::empty()
    }
}

/// The diagnostics a whole batch sequence contributes, in batch order.
pub open spec fn all_diags(bs: Seq<TabularBatch>) -> Seq<Diagnostic>
    decreases bs.len(),
{
    if bs.len() == 0 {
        Seq::empty()
    } else {
        all_diags(bs.drop_last()) + batch_diags(bs.last(), bs.len() - 1)
    }
}

/// What a projected data point must hold: the gauge's metric name, the
/// group's namespace, the capture time, and the row's value and dimensions.
pub open spec fn point_matches(
    p: MetricDataPoint,
    e: (i64, Map<Seq<char>, Seq<char>>),
    metric: Seq<char>,
    namespace: Seq<char>,
    ts: u64,
) -> bool {
    &&& p.name@ == metric
    &&& p.namespace@ == namespace
    &&& p.value == e.0
    &&& p.dimensions@ == e.1
    &&& p.timestamp_millis == ts
}

/// The outcome of one dimensional projection pass: the data points to
/// deliver and the recoverable conditions met on the way.
#[derive(Debug)]
pub struct ProjectionReport {
    pub points: Vec<MetricDataPoint>,
    pub diagnostics: Vec<Diagnostic>,
}

/// The full contract of a dimensional projection: points exactly mirror the
/// emitted (value, dimensions) pairs, diagnostics exactly mirror the
/// recoverable conditions.
pub open spec fn report_matches(
    r: ProjectionReport,
    bs: Seq<TabularBatch>,
    metric: Seq<char>,
    namespace: Seq<char>,
    ts: u64,
) -> bool {
    &&& r.points@.len() == all_emits(bs).len()
    &&& forall|k: int|
        0 <= k < all_emits(bs).len() ==> point_matches(
            #[trigger] r.points@[k],
            all_emits(bs)[k],
            metric,
            namespace,
            ts,
        )
    &&& r.diagnostics@ == all_diags(bs)
}

/// The value a `Count`-mode data point reports for an engine row count.
pub open spec fn count_mode_value(row_count: u64) -> i64 {
    row_count as i64
}

/// Projects the engine's scalar row count: exactly one data point, its value
/// the row count, its dimension set empty.
pub fn project_count(
    row_count: u64,
    metric_name: &String,
    group_name: &String,
    timestamp_millis: u64,
) -> (p: MetricDataPoint)
    requires
        row_count <= i64::MAX as u64,
    ensures
        p.name@ == metric_name@,
        p.namespace@ == spec_namespace(group_name@),
        p.value == count_mode_value(row_count),
        p.value == row_count as i64,
        p.dimensions@ == Map::<Seq<char>, Seq<char>>::empty(),
        p.timestamp_millis == timestamp_millis,
{
    MetricDataPoint {
        name: metric_name.clone(),
        namespace: namespace_for(group_name),
        value: row_count as i64,
        timestamp_millis,
        dimensions: DimensionSet::new(),
    }
}

/// Checks that every column of the batch reads cleanly.
fn check_readable(batch: &TabularBatch) -> (b: bool)
    ensures
        b == batch_readable(*batch),
{
    let n = batch.columns.len();
    for j in 0..n
        invariant
            n == batch.columns@.len(),
            forall|i: int| 0 <= i < j ==> col_ok(#[trigger] batch.columns@[i]),
    {
        let col = &batch.columns[j];
        if is_count_name(&col.name) {
            match &col.data {
                ColumnData::Int64(_) => {},
                _ => {
                    proof {
                        assert(!col_ok(batch.columns@[j as int]));
                    }
                    return false;
                },
            }
        } else {
            match &col.data {
                ColumnData::Text(_) => {},
                _ => {
                    proof {
                        assert(!col_ok(batch.columns@[j as int]));
                    }
                    return false;
                },
            }
        }
    }
    true
}

/// Builds the data point of one row of a cleanly reading batch: the last
/// `count` column gives the value, every other column a dimension.
fn project_row(
    batch: &TabularBatch,
    r: usize,
    metric_name: &String,
    namespace: &String,
    timestamp_millis: u64,
) -> (p: MetricDataPoint)
    requires
        batch.wf(),
        r < batch.num_rows,
        batch_readable(*batch),
    ensures
        point_matches(
            p,
            (
                row_count_val(batch.columns@, r as int, batch.columns@.len() as int),
                row_dims(batch.columns@, r as int, batch.columns@.len() as int),
            ),
            metric_name@,
            namespace@,
            timestamp_millis,
        ),
{
    let ncols = batch.columns.len();
    let mut dims = DimensionSet::new();
    let mut count: i64 = 0;
    for j in 0..ncols
        invariant
            batch.wf(),
            batch_readable(*batch),
            ncols == batch.columns@.len(),
            r < batch.num_rows,
            dims@ == row_dims(batch.columns@, r as int, j as int),
            count == row_count_val(batch.columns@, r as int, j as int),
    {
        let col = &batch.columns[j];
        proof {
            assert(col_ok(batch.columns@[j as int]));
            assert(batch.columns@[j as int].data.spec_len() == batch.num_rows);
        }
        if is_count_name(&col.name) {
            match &col.data {
                ColumnData::Int64(v) => {
                    count = v[r];
                },
                _ => {},
            }
        } else {
            match &col.data {
                ColumnData::Text(v) => {
                    dims.insert(col.name.clone(), v[r].clone());
                },
                _ => {},
            }
        }
    }
    MetricDataPoint {
        name: metric_name.clone(),
        namespace: namespace.clone(),
        value: count,
        timestamp_millis,
        dimensions: dims,
    }
}

/// Projects one batch, appending its data points and diagnostics.
fn project_batch(
    batch: &TabularBatch,
    batch_index: usize,
    metric_name: &String,
    namespace: &String,
    timestamp_millis: u64,
    points: &mut Vec<MetricDataPoint>,
    diagnostics: &mut Vec<Diagnostic>,
)
    requires
        batch.wf(),
    ensures
        final(points)@.len() == old(points)@.len() + batch_emits(*batch).len(),
        forall|k: int| 0 <= k < old(points)@.len() ==> final(points)@[k] == old(points)@[k],
        forall|k: int|
            0 <= k < batch_emits(*batch).len() ==> point_matches(
                #[trigger] final(points)@[old(points)@.len() + k],
                batch_emits(*batch)[k],
                metric_name@,
                namespace@,
                timestamp_millis,
            ),
        final(diagnostics)@ == old(diagnostics)@ + batch_diags(*batch, batch_index as int),
{
    if batch.num_rows == 0 {
        proof {
            assert(old(diagnostics)@ + batch_diags(*batch, batch_index as int) =~= diagnostics@);
        }
        return ;
    }
    if !batch.has_count_column() {
        diagnostics.push(Diagnostic::MissingCountColumn { batch_index });
        proof {
            assert(old(diagnostics)@ + batch_diags(*batch, batch_index as int) =~= diagnostics@);
        }
        return ;
    }
    let nrows = batch.num_rows;
    if check_readable(batch) {
        for r in 0..nrows
            invariant
                batch.wf(),
                batch_emitted(*batch),
                nrows == batch.num_rows,
                points@.len() == old(points)@.len() + r,
                forall|k: int| 0 <= k < old(points)@.len() ==> points@[k] == old(points)@[k],
                forall|k: int|
                    0 <= k < r ==> point_matches(
                        #[trigger] points@[old(points)@.len() + k],
                        batch_emits(*batch)[k],
                        metric_name@,
                        namespace@,
                        timestamp_millis,
                    ),
                diagnostics@ == old(diagnostics)@,
        {
            let p = project_row(batch, r, metric_name, namespace, timestamp_millis);
            points.push(p);
        }
        proof {
            assert(old(diagnostics)@ + batch_diags(*batch, batch_index as int) =~= diagnostics@);
        }
    } else {
        for r in 0..nrows
            invariant
                nrows == batch.num_rows,
                batch.num_rows > 0,
                batch.spec_has_count(),
                !batch_readable(*batch),
                points@ == old(points)@,
                diagnostics@ == old(diagnostics)@ + Seq::new(
                    r as nat,
                    |rr: int|
                        Diagnostic::RowDropped {
                            batch_index: batch_index as usize,
                            row_index: rr as usize,
                        },
                ),
        {
            diagnostics.push(Diagnostic::RowDropped { batch_index, row_index: r });
            proof {
                assert(old(diagnostics)@ + Seq::new(
                    (r + 1) as nat,
                    |rr: int|
                        Diagnostic::RowDropped {
                            batch_index: batch_index as usize,
                            row_index: rr as usize,
                        },
                ) =~= diagnostics@);
            }
        }
        proof {
            assert(old(diagnostics)@ + batch_diags(*batch, batch_index as int) =~= diagnostics@);
        }
    }
}

/// Projects a materialized batch sequence under `DimensionalCount` mode.
/// The data points mirror the emitted rows in batch order then row order;
/// the diagnostics record every skipped batch and dropped row.
pub fn project_dimensional(
    batches: &Vec<TabularBatch>,
    metric_name: &String,
    group_name: &String,
    timestamp_millis: u64,
) -> (r: ProjectionReport)
    requires
        forall|i: int| 0 <= i < batches@.len() ==> (#[trigger] batches@[i]).wf(),
    ensures
        report_matches(r, batches@, metric_name@, spec_namespace(group_name@), timestamp_millis),
{
    let namespace = namespace_for(group_name);
    let mut points: Vec<MetricDataPoint> = Vec::new();
    let mut diagnostics: Vec<Diagnostic> = Vec::new();
    let nb = batches.len();
    for i in 0..nb
        invariant
            nb == batches@.len(),
            forall|j: int| 0 <= j < batches@.len() ==> (#[trigger] batches@[j]).wf(),
            namespace@ == spec_namespace(group_name@),
            points@.len() == all_emits(batches@.take(i as int)).len(),
            forall|k: int|
                0 <= k < points@.len() ==> point_matches(
                    #[trigger] points@[k],
                    all_emits(batches@.take(i as int))[k],
                    metric_name@,
                    spec_namespace(group_name@),
                    timestamp_millis,
                ),
            diagnostics@ == all_diags(batches@.take(i as int)),
    {
        let ghost prev_points = points@;
        project_batch(
            &batches[i],
            i,
            metric_name,
            &namespace,
            timestamp_millis,
            &mut points,
            &mut diagnostics,
        );
        proof {
            let bs1 = batches@.take(i as int);
            let bs2 = batches@.take(i + 1);
            let b = batches@[i as int];
            assert(bs2.drop_last() =~= bs1);
            assert(bs2.last() == b);
            assert(all_emits(bs2) == all_emits(bs1) + batch_emits(b));
            assert(all_diags(bs2) == all_diags(bs1) + batch_diags(b, i as int));
            assert forall|k: int| 0 <= k < points@.len() implies point_matches(
                #[trigger] points@[k],
                all_emits(bs2)[k],
                metric_name@,
                spec_namespace(group_name@),
                timestamp_millis,
            ) by {
                if k < prev_points.len() {
                    assert(points@[k] == prev_points[k]);
                    assert(all_emits(bs2)[k] == all_emits(bs1)[k]);
                } else {
                    let kk = k - prev_points.len();
                    assert(point_matches(
                        points@[prev_points.len() as int + kk],
                        batch_emits(b)[kk],
                        metric_name@,
                        namespace@,
                        timestamp_millis,
                    ));
                    assert(all_emits(bs2)[k] == batch_emits(b)[kk]);
                }
            }
        }
    }
    proof {
        assert(batches@.take(nb as int) =~= batches@);
    }
    ProjectionReport { points, diagnostics }
}

/// The total row count over a batch sequence, zero-row batches included.
pub open spec fn total_rows(bs: Seq<TabularBatch>) -> nat
    decreases bs.len(),
{
    if bs.len() == 0 {
        0nat
    } else {
        total_rows(bs.drop_last()) + bs.last().num_rows as nat
    }
}

/// Splitting or merging batches never changes what is emitted: the pairs of
/// a concatenation are the concatenation of the pairs.
pub proof fn lemma_all_emits_concat(s1: Seq<TabularBatch>, s2: Seq<TabularBatch>)
    ensures
        all_emits(s1 + s2) == all_emits(s1) + all_emits(s2),
    decreases s2.len(),
{
    if s2.len() == 0 {
        assert(s1 + s2 =~= s1);
        assert(all_emits(s1) + all_emits(s2) =~= all_emits(s1));
    } else {
        lemma_all_emits_concat(s1, s2.drop_last());
        assert((s1 + s2).drop_last() =~= s1 + s2.drop_last());
        assert((s1 + s2).last() == s2.last());
        assert(all_emits(s1 + s2) == (all_emits(s1) + all_emits(s2.drop_last())) + batch_emits(
            s2.last(),
        ));
        assert((all_emits(s1) + all_emits(s2.drop_last())) + batch_emits(s2.last()) =~= all_emits(
            s1,
        ) + (all_emits(s2.drop_last()) + batch_emits(s2.last())));
    }
}

/// LAW: when every batch carries a well-typed `count` column, dimensional
/// projection emits exactly one data point per row, so the number of points
/// equals the total row count over the batches.
pub proof fn lemma_complete_batches_emit_all_rows(bs: Seq<TabularBatch>)
    requires
        forall|i: int|
            0 <= i < bs.len() ==> (#[trigger] bs[i]).spec_has_count() && batch_readable(bs[i]),
    ensures
        all_emits(bs).len() == total_rows(bs),
    decreases bs.len(),
{
    if bs.len() > 0 {
        assert forall|i: int| 0 <= i < bs.drop_last().len() implies (#[trigger] bs.drop_last()[i]).spec_has_count()
            && batch_readable(bs.drop_last()[i]) by {
            assert(bs.drop_last()[i] == bs[i]);
        }
        lemma_complete_batches_emit_all_rows(bs.drop_last());
        assert(bs[bs.len() - 1] == bs.last());
    }
}

/// A diagnostic of one batch is a diagnostic of the whole run.
proof fn lemma_all_diags_contains(bs: Seq<TabularBatch>, i: int, d: Diagnostic)
    requires
        0 <= i < bs.len(),
        batch_diags(bs[i], i).contains(d),
    ensures
        all_diags(bs).contains(d),
    decreases bs.len(),
{
    if i == bs.len() - 1 {
        assert(bs[i] == bs.last());
        let k = choose|k: int| 0 <= k < batch_diags(bs[i], i).len() && batch_diags(bs[i], i)[k] == d;
        assert(all_diags(bs)[all_diags(bs.drop_last()).len() + k] == d);
    } else {
        assert(bs.drop_last()[i] == bs[i]);
        lemma_all_diags_contains(bs.drop_last(), i, d);
        let k = choose|k: int| 0 <= k < all_diags(bs.drop_last()).len() && all_diags(bs.drop_last())[k]
            == d;
        assert(all_diags(bs)[k] == d);
    }
}

/// LAW: a batch with rows but no `count` column contributes no data point
/// and exactly one missing-count warning, and the rest of the run is
/// untouched: the emitted pairs are those of the other batches alone.
pub proof fn lemma_missing_count_batch_isolated(bs: Seq<TabularBatch>, i: int)
    requires
        0 <= i < bs.len(),
        bs[i].num_rows > 0,
        !bs[i].spec_has_count(),
    ensures
        batch_emits(bs[i]) == Seq::<(i64, Map<Seq<char>, Seq<char>>)>::empty(),
        batch_diags(bs[i], i) == seq![Diagnostic::MissingCountColumn { batch_index: i as usize }],
        all_emits(bs) == all_emits(bs.take(i)) + all_emits(bs.skip(i + 1)),
        all_diags(bs).contains(Diagnostic::MissingCountColumn { batch_index: i as usize }),
{
    let left = bs.take(i);
    let mid = bs.subrange(i, i + 1);
    let right = bs.skip(i + 1);
    assert(bs =~= (left + mid) + right);
    lemma_all_emits_concat(left + mid, right);
    lemma_all_emits_concat(left, mid);
    assert(mid.drop_last() =~= Seq::<TabularBatch>::empty());
    assert(mid.last() == bs[i]);
    assert(all_emits(mid) == all_emits(mid.drop_last()) + batch_emits(bs[i]));
    assert(Seq::<(i64, Map<Seq<char>, Seq<char>>)>::empty() + batch_emits(bs[i]) =~= batch_emits(
        bs[i],
    ));
    assert(all_emits(left) + all_emits(mid) =~= all_emits(left));
    let d = Diagnostic::MissingCountColumn { batch_index: i as usize };
    assert(batch_diags(bs[i], i).contains(d)) by {
        assert(batch_diags(bs[i], i)[0] == d);
    }
    lemma_all_diags_contains(bs, i, d);
}

/// With pairwise-distinct non-count column names, a row's dimension mapping
/// binds each non-count string column's name to that row's value in it.
proof fn lemma_row_dims_at(cols: Seq<Column>, r: int, j: int, n: int)
    requires
        forall|a: int, b: int|
            0 <= a < b < cols.len() && (#[trigger] cols[a]).name@ != count_name() && (
            #[trigger] cols[b]).name@ != count_name() ==> cols[a].name@ != cols[b].name@,
        0 <= j < n <= cols.len(),
        cols[j].name@ != count_name(),
        cols[j].data is Text,
    ensures
        row_dims(cols, r, n).contains_key(cols[j].name@),
        row_dims(cols, r, n)[cols[j].name@] == cols[j].data->Text_0@[r]@,
    decreases n,
{
    if j < n - 1 {
        lemma_row_dims_at(cols, r, j, n - 1);
    }
}

/// LAW: dimension extraction is injective per row. When the non-count
/// column names are pairwise distinct, two rows that collapse into the same
/// dimension mapping agree on every non-count string column's value.
pub proof fn lemma_dims_injective(cols: Seq<Column>, r1: int, r2: int, j: int)
    requires
        forall|a: int, b: int|
            0 <= a < b < cols.len() && (#[trigger] cols[a]).name@ != count_name() && (
            #[trigger] cols[b]).name@ != count_name() ==> cols[a].name@ != cols[b].name@,
        0 <= j < cols.len(),
        cols[j].name@ != count_name(),
        cols[j].data is Text,
        row_dims(cols, r1, cols.len() as int) == row_dims(cols, r2, cols.len() as int),
    ensures
        cols[j].data->Text_0@[r1]@ == cols[j].data->Text_0@[r2]@,
{
    lemma_row_dims_at(cols, r1, j, cols.len() as int);
    lemma_row_dims_at(cols, r2, j, cols.len() as int);
}

/// LAW: `Count` mode never inspects batch contents. Its single value is a
/// function of the engine's row count alone, so two materializations of the
/// same result set into different chunkings report the same value.
pub proof fn lemma_count_mode_chunk_invariant(
    n1: u64,
    n2: u64,
    bs1: Seq<TabularBatch>,
    bs2: Seq<TabularBatch>,
)
    requires
        n1 as nat == total_rows(bs1),
        n2 as nat == total_rows(bs2),
        total_rows(bs1) == total_rows(bs2),
    ensures
        count_mode_value(n1) == count_mode_value(n2),
{
}

} // verus!
