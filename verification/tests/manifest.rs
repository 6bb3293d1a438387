use query_metrics::config::{Configuration, Gauge, Measurement};
use query_metrics::runner::{
    run_manifest, GaugeFailure, QueryRequest, QueryResponse,
};
use query_metrics::tabular::{Column, ColumnData, TabularBatch};

fn gauge(metric: &str, mode: Measurement) -> Gauge {
    Gauge {
        url: "s3://bucket/table".to_string(),
        name: metric.to_string(),
        measurement_type: mode,
        query: "SELECT count(*) as count FROM source".to_string(),
    }
}

#[test]
fn modes_ask_for_their_engine_capability() {
    assert_eq!(Measurement::Count.required_request(), QueryRequest::RowCount);
    assert_eq!(
        Measurement::DimensionalCount.required_request(),
        QueryRequest::MaterializeBatches
    );
}

#[test]
fn count_mode_value_is_independent_of_chunking() {
    let conf = Configuration {
        gauges: vec![(
            "g".to_string(),
            vec![gauge("m", Measurement::Count), gauge("m", Measurement::Count)],
        )],
    };
    // The same result set materialized in two different chunkings still
    // reports one row count; Count mode sees only that number.
    let responses = vec![Ok(QueryResponse::RowCount(42)), Ok(QueryResponse::RowCount(42))];
    let outcomes = run_manifest(&conf, &responses, 0);
    let first = outcomes[0].result.as_ref().expect("first gauge must succeed");
    let second = outcomes[1].result.as_ref().expect("second gauge must succeed");
    assert_eq!(first.points[0].value, second.points[0].value);
    assert_eq!(first.points.len(), 1);
    assert_eq!(first.points[0].value, 42);
    assert!(first.points[0].dimensions.is_empty());
}

#[test]
fn failing_gauge_leaves_sibling_untouched() {
    let conf = Configuration {
        gauges: vec![(
            "tables".to_string(),
            vec![gauge("broken", Measurement::DimensionalCount), gauge("healthy", Measurement::Count)],
        )],
    };
    let responses = vec![Err(GaugeFailure::QueryCompile), Ok(QueryResponse::RowCount(7))];
    let outcomes = run_manifest(&conf, &responses, 5);
    assert_eq!(outcomes.len(), 2);
    assert_eq!(outcomes[0].metric, "broken");
    assert!(matches!(outcomes[0].result, Err(GaugeFailure::QueryCompile)));
    assert_eq!(outcomes[1].metric, "healthy");
    let report = outcomes[1].result.as_ref().expect("second gauge must succeed");
    assert_eq!(report.points.len(), 1);
    assert_eq!(report.points[0].value, 7);
    assert_eq!(report.points[0].namespace, "DataLake/tables");
    assert_eq!(report.points[0].timestamp_millis, 5);
}

#[test]
fn every_gauge_failure_kind_is_reported_in_place() {
    let conf = Configuration {
        gauges: vec![
            ("a".to_string(), vec![gauge("m1", Measurement::Count), gauge("m2", Measurement::Count)]),
            ("b".to_string(), vec![gauge("m3", Measurement::DimensionalCount)]),
            ("c".to_string(), vec![gauge("m4", Measurement::Count)]),
        ],
    };
    let responses = vec![
        Err(GaugeFailure::TableOpen),
        Err(GaugeFailure::CountEvaluation),
        Err(GaugeFailure::BatchCollection),
        Ok(QueryResponse::RowCount(1)),
    ];
    let outcomes = run_manifest(&conf, &responses, 0);
    assert_eq!(outcomes.len(), 4);
    assert!(matches!(outcomes[0].result, Err(GaugeFailure::TableOpen)));
    assert!(matches!(outcomes[1].result, Err(GaugeFailure::CountEvaluation)));
    assert!(matches!(outcomes[2].result, Err(GaugeFailure::BatchCollection)));
    assert_eq!(outcomes[0].group, "a");
    assert_eq!(outcomes[2].group, "b");
    assert_eq!(outcomes[3].group, "c");
    assert!(outcomes[3].result.is_ok());
}

#[test]
fn dimensional_gauge_runs_inside_manifest() {
    let columns = vec![
        Column { name: "count".to_string(), data: ColumnData::Int64(vec![5]) },
        Column {
            name: "region".to_string(),
            data: ColumnData::Text(vec!["us".to_string()]),
        },
    ];
    let b = TabularBatch::new(columns).expect("columns share a length");
    let conf = Configuration {
        gauges: vec![("g".to_string(), vec![gauge("m", Measurement::DimensionalCount)])],
    };
    let responses = vec![Ok(QueryResponse::Batches(vec![b]))];
    let outcomes = run_manifest(&conf, &responses, 0);
    let report = outcomes[0].result.as_ref().expect("gauge must succeed");
    assert_eq!(report.points.len(), 1);
    assert_eq!(report.points[0].value, 5);
    assert_eq!(report.points[0].dimensions.get(&"region".to_string()), Some(&"us".to_string()));
}

#[test]
fn manifest_group_names_must_be_unique() {
    let unique = Configuration {
        gauges: vec![
            ("a".to_string(), vec![gauge("m", Measurement::Count)]),
            ("b".to_string(), vec![]),
        ],
    };
    assert!(unique.is_wf());
    let clashing = Configuration {
        gauges: vec![
            ("a".to_string(), vec![gauge("m", Measurement::Count)]),
            ("a".to_string(), vec![]),
        ],
    };
    assert!(!clashing.is_wf());
}

#[test]
fn empty_manifest_runs_to_nothing() {
    let conf = Configuration { gauges: vec![] };
    let outcomes = run_manifest(&conf, &vec![], 0);
    assert_eq!(outcomes.len(), 0);
}
