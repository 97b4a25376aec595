use analysis_ingest::error::AppError;
use analysis_ingest::metrics::{Metric, MetricKind};
use analysis_ingest::url::UrlGenerator;

#[test]
fn test_metric_type() {
    let data = r#"
    {
        "type": "int",
        "name": "test",
        "value": 1,
        "description": "test"
    }"#;

    let v: serde_json::Value = serde_json::from_str(data).unwrap();
    let kind = MetricKind::from_tag(v["type"].as_str().unwrap()).unwrap();
    assert_eq!(kind, MetricKind::Int);
    let metric = Metric::Int {
        name: v["name"].as_str().unwrap().to_string(),
        value: v["value"].as_i64(),
        description: v["description"].as_str().map(|s| s.to_string()),
        unit: v["unit"].as_str().map(|s| s.to_string()),
    };
    assert_eq!(metric.kind(), kind);
    assert_eq!(
        metric,
        Metric::Int {
            name: "test".to_string(),
            value: Some(1),
            description: Some("test".to_string()),
            unit: None
        }
    );
}

#[test]
fn metric_tags_round_trip() {
    for k in [MetricKind::Int, MetricKind::Float, MetricKind::Str, MetricKind::Bool] {
        assert_eq!(MetricKind::from_tag(k.tag()), Some(k));
    }
    assert_eq!(MetricKind::Str.tag(), "str");
    assert_eq!(MetricKind::from_tag("string"), None);
    assert_eq!(MetricKind::from_tag(""), None);
}

#[test]
fn absent_value_differs_from_zero() {
    let absent = Metric::Float { name: "x".to_string(), value: None, description: None, unit: None };
    let zero = Metric::Float { name: "x".to_string(), value: Some(0.0f32.to_bits()), description: None, unit: None };
    assert!(!absent.has_value());
    assert!(zero.has_value());
    assert_ne!(absent, zero);
    assert_eq!(zero.name(), "x");
}

#[test]
fn url_joins_host_and_path() {
    let g = UrlGenerator::new("example.org:3000".to_string());
    assert_eq!(g.url("/recordings/1"), "http://example.org:3000/recordings/1");
}

#[test]
fn app_error_is_internal_server_error() {
    let (code, body) = AppError::new("failed".to_string()).into_response_parts();
    assert_eq!(code, 500);
    assert_eq!(body, "failed");
}
