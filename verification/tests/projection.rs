use query_metrics::metrics::{namespace_for, DimensionSet};
use query_metrics::projector::{project_count, project_dimensional, Diagnostic};
use query_metrics::tabular::{Column, ColumnData, TabularBatch};

fn int_col(name: &str, vals: Vec<i64>) -> Column {
    Column { name: name.to_string(), data: ColumnData::Int64(vals) }
}

fn text_col(name: &str, vals: Vec<&str>) -> Column {
    Column {
        name: name.to_string(),
        data: ColumnData::Text(vals.into_iter().map(|s| s.to_string()).collect()),
    }
}

fn batch(columns: Vec<Column>) -> TabularBatch {
    TabularBatch::new(columns).expect("columns of one batch must share a length")
}

#[test]
fn dimensional_two_rows() {
    let b = batch(vec![int_col("count", vec![5, 3]), text_col("region", vec!["us", "eu"])]);
    let report =
        project_dimensional(&vec![b], &"records".to_string(), &"tables".to_string(), 1_700_000);
    assert_eq!(report.points.len(), 2);
    assert_eq!(report.points[0].value, 5);
    assert_eq!(report.points[0].name, "records");
    assert_eq!(report.points[0].namespace, "DataLake/tables");
    assert_eq!(report.points[0].timestamp_millis, 1_700_000);
    assert_eq!(report.points[0].dimensions.len(), 1);
    assert_eq!(report.points[0].dimensions.get(&"region".to_string()), Some(&"us".to_string()));
    assert_eq!(report.points[1].value, 3);
    assert_eq!(report.points[1].dimensions.get(&"region".to_string()), Some(&"eu".to_string()));
    assert!(report.diagnostics.is_empty());
}

#[test]
fn missing_count_column_skips_batch() {
    let b = batch(vec![text_col("region", vec!["us"])]);
    let report = project_dimensional(&vec![b], &"m".to_string(), &"g".to_string(), 7);
    assert_eq!(report.points.len(), 0);
    assert_eq!(report.diagnostics.len(), 1);
    assert_eq!(report.diagnostics[0], Diagnostic::MissingCountColumn { batch_index: 0 });
}

#[test]
fn count_mode_forty_two() {
    let p = project_count(42, &"m".to_string(), &"g".to_string(), 9);
    assert_eq!(p.value, 42);
    assert!(p.dimensions.is_empty());
    assert_eq!(p.dimensions.len(), 0);
    assert_eq!(p.name, "m");
    assert_eq!(p.namespace, "DataLake/g");
    assert_eq!(p.timestamp_millis, 9);
    assert_eq!(p.unit(), "count");
}

#[test]
fn complete_batches_emit_one_point_per_row() {
    let b1 = batch(vec![int_col("count", vec![1, 2]), text_col("a", vec!["x", "y"])]);
    let b2 = batch(vec![int_col("count", vec![]), text_col("a", vec![])]);
    let b3 = batch(vec![int_col("count", vec![3, 4, 5]), text_col("a", vec!["p", "q", "r"])]);
    let report =
        project_dimensional(&vec![b1, b2, b3], &"m".to_string(), &"g".to_string(), 0);
    assert_eq!(report.points.len(), 5);
    let values: Vec<i64> = report.points.iter().map(|p| p.value).collect();
    assert_eq!(values, vec![1, 2, 3, 4, 5]);
    assert!(report.diagnostics.is_empty());
}

#[test]
fn bad_batch_leaves_others_untouched() {
    let good1 = batch(vec![int_col("count", vec![1]), text_col("a", vec!["x"])]);
    let bad = batch(vec![text_col("a", vec!["y", "z"])]);
    let good2 = batch(vec![int_col("count", vec![2]), text_col("a", vec!["w"])]);
    let report =
        project_dimensional(&vec![good1, bad, good2], &"m".to_string(), &"g".to_string(), 0);
    assert_eq!(report.points.len(), 2);
    assert_eq!(report.points[0].value, 1);
    assert_eq!(report.points[1].value, 2);
    assert_eq!(report.points[1].dimensions.get(&"a".to_string()), Some(&"w".to_string()));
    assert_eq!(report.diagnostics.len(), 1);
    assert_eq!(report.diagnostics[0], Diagnostic::MissingCountColumn { batch_index: 1 });
}

#[test]
fn differing_rows_get_differing_dimensions() {
    let b = batch(vec![
        int_col("count", vec![1, 1]),
        text_col("region", vec!["us", "eu"]),
        text_col("tier", vec!["gold", "gold"]),
    ]);
    let report = project_dimensional(&vec![b], &"m".to_string(), &"g".to_string(), 0);
    assert_eq!(report.points.len(), 2);
    let d0 = &report.points[0].dimensions;
    let d1 = &report.points[1].dimensions;
    assert_eq!(d0.get(&"tier".to_string()), d1.get(&"tier".to_string()));
    assert_ne!(d0.get(&"region".to_string()), d1.get(&"region".to_string()));
}

#[test]
fn mistyped_count_column_drops_every_row() {
    let b = batch(vec![text_col("count", vec!["x", "y"])]);
    let report = project_dimensional(&vec![b], &"m".to_string(), &"g".to_string(), 0);
    assert_eq!(report.points.len(), 0);
    assert_eq!(report.diagnostics.len(), 2);
    assert_eq!(report.diagnostics[0], Diagnostic::RowDropped { batch_index: 0, row_index: 0 });
    assert_eq!(report.diagnostics[1], Diagnostic::RowDropped { batch_index: 0, row_index: 1 });
}

#[test]
fn mistyped_dimension_column_drops_rows() {
    let b = batch(vec![int_col("count", vec![4]), int_col("size", vec![9])]);
    let report = project_dimensional(&vec![b], &"m".to_string(), &"g".to_string(), 0);
    assert_eq!(report.points.len(), 0);
    assert_eq!(report.diagnostics, vec![Diagnostic::RowDropped { batch_index: 0, row_index: 0 }]);
}

#[test]
fn unreadable_dimension_type_drops_rows() {
    let b = batch(vec![
        int_col("count", vec![4]),
        Column { name: "when".to_string(), data: ColumnData::Other(1) },
    ]);
    let report = project_dimensional(&vec![b], &"m".to_string(), &"g".to_string(), 0);
    assert_eq!(report.points.len(), 0);
    assert_eq!(report.diagnostics.len(), 1);
}

#[test]
fn zero_row_batches_are_skipped_silently() {
    let b1 = batch(vec![int_col("count", vec![]), text_col("a", vec![])]);
    let b2 = batch(vec![text_col("only_dims", vec![])]);
    let report = project_dimensional(&vec![b1, b2], &"m".to_string(), &"g".to_string(), 0);
    assert_eq!(report.points.len(), 0);
    assert_eq!(report.diagnostics.len(), 0);
}

#[test]
fn empty_batch_list_yields_nothing() {
    let report = project_dimensional(&vec![], &"m".to_string(), &"g".to_string(), 0);
    assert_eq!(report.points.len(), 0);
    assert_eq!(report.diagnostics.len(), 0);
}

#[test]
fn last_count_column_wins() {
    let b = batch(vec![int_col("count", vec![1]), int_col("count", vec![10])]);
    let report = project_dimensional(&vec![b], &"m".to_string(), &"g".to_string(), 0);
    assert_eq!(report.points.len(), 1);
    assert_eq!(report.points[0].value, 10);
    assert_eq!(report.points[0].dimensions.len(), 0);
}

#[test]
fn count_mode_handles_largest_value() {
    let p = project_count(i64::MAX as u64, &"m".to_string(), &"g".to_string(), 0);
    assert_eq!(p.value, i64::MAX);
}

#[test]
fn dimension_insert_replaces_equal_key() {
    let mut d = DimensionSet::new();
    d.insert("k".to_string(), "v1".to_string());
    d.insert("k".to_string(), "v2".to_string());
    d.insert("other".to_string(), "w".to_string());
    assert_eq!(d.len(), 2);
    assert_eq!(d.get(&"k".to_string()), Some(&"v2".to_string()));
    assert_eq!(d.get(&"other".to_string()), Some(&"w".to_string()));
    assert_eq!(d.get(&"absent".to_string()), None);
}

#[test]
fn duplicate_dimension_names_shadow_in_schema_order() {
    let b = batch(vec![
        int_col("count", vec![1]),
        text_col("region", vec!["first"]),
        text_col("region", vec!["second"]),
    ]);
    let report = project_dimensional(&vec![b], &"m".to_string(), &"g".to_string(), 0);
    assert_eq!(report.points.len(), 1);
    assert_eq!(report.points[0].dimensions.len(), 1);
    assert_eq!(
        report.points[0].dimensions.get(&"region".to_string()),
        Some(&"second".to_string())
    );
}

#[test]
fn ragged_columns_are_refused() {
    let r = TabularBatch::new(vec![int_col("count", vec![1, 2]), text_col("a", vec!["x"])]);
    assert!(r.is_none());
}

#[test]
fn namespace_is_derived_from_group() {
    assert_eq!(namespace_for(&"prod".to_string()), "DataLake/prod");
}
