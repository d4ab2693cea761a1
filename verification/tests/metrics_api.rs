use remap_core::metrics::{
    component_events_processed_total, Metric, MetricType, MetricValue, MetricsSubscription,
};
use remap_core::symbols::SymbolTable;

fn metric(name: &str, component: Option<&str>, bits: u64) -> Metric {
    let mut tags = SymbolTable::new();
    if let Some(c) = component {
        tags.insert("component_name".to_string(), c.to_string());
    }
    Metric {
        name: name.to_string(),
        timestamp: Some(1_600_000_000_000),
        tags,
        value: MetricValue::Counter { bits },
    }
}

#[test]
fn uptime_stream_filter() {
    let sub = MetricsSubscription::default();
    assert!(sub.uptime(metric("uptime_seconds", None, 0)).is_some());
    assert!(sub.uptime(metric("events_processed_total", None, 0)).is_none());
}

#[test]
fn events_processed_stream_filter() {
    let sub = MetricsSubscription::default();
    let kept = sub.events_processed_total(metric("events_processed_total", None, 7));
    assert_eq!(kept.unwrap().metric.name, "events_processed_total");
    assert!(sub.events_processed_total(metric("uptime_seconds", None, 7)).is_none());

    let component = sub.component_events_processed_total(metric(
        "events_processed_total",
        Some("parser"),
        7,
    ));
    assert_eq!(component.unwrap().metric.name, "events_processed_total");
    assert!(sub
        .component_events_processed_total(metric("processed_bytes_total", Some("parser"), 7))
        .is_none());
}

#[test]
fn processed_bytes_stream_filter() {
    let sub = MetricsSubscription::default();
    assert!(sub.processed_bytes_total(metric("processed_bytes_total", None, 1)).is_some());
    assert!(sub.processed_bytes_total(metric("uptime_seconds", None, 1)).is_none());
    assert!(sub
        .component_processed_bytes_total(metric("processed_bytes_total", Some("sink"), 1))
        .is_some());
    assert!(sub
        .component_processed_bytes_total(metric("uptime_seconds", Some("sink"), 1))
        .is_none());
}

#[test]
fn errors_stream_filter() {
    let sub = MetricsSubscription::default();
    assert!(sub.errors_total(metric("processing_errors_total", None, 2)).is_some());
    assert!(sub.errors_total(metric("_errors_total", None, 2)).is_some());
    assert!(sub.errors_total(metric("errors_total", None, 2)).is_none());
    assert!(sub.errors_total(metric("events_processed_total", None, 2)).is_none());
    assert!(sub.component_errors_total(metric("decode_errors_total", Some("parser"), 2)).is_some());
    assert!(sub.component_errors_total(metric("events_processed_total", Some("parser"), 2)).is_none());
}

#[test]
fn combined_stream_filter() {
    let sub = MetricsSubscription::default();
    match sub.metrics(metric("uptime_seconds", None, 0)) {
        Some(MetricType::Uptime(u)) => assert_eq!(u.metric.name, "uptime_seconds"),
        other => panic!("wrong stream entry: {:?}", other),
    }
    match sub.metrics(metric("events_processed_total", None, 0)) {
        Some(MetricType::EventsProcessedTotal(t)) => {
            assert_eq!(t.metric.name, "events_processed_total")
        }
        other => panic!("wrong stream entry: {:?}", other),
    }
    match sub.metrics(metric("processed_bytes_total", None, 0)) {
        Some(MetricType::ProcessedBytesTotal(t)) => {
            assert_eq!(t.metric.name, "processed_bytes_total")
        }
        other => panic!("wrong stream entry: {:?}", other),
    }
    assert!(sub.metrics(metric("processing_errors_total", None, 0)).is_none());
}

#[test]
fn component_events_first_match() {
    let captured = vec![
        metric("events_processed_total", Some("other"), 1),
        metric("processed_bytes_total", Some("parser"), 2),
        metric("events_processed_total", Some("parser"), 3),
        metric("events_processed_total", Some("parser"), 4),
    ];
    let found = component_events_processed_total(captured, "parser".to_string()).unwrap();
    assert_eq!(found.metric.name, "events_processed_total");
    match found.metric.value {
        MetricValue::Counter { bits } => assert_eq!(bits, 3),
        _ => panic!("expected a counter"),
    }
}

#[test]
fn component_events_no_match() {
    let captured = vec![
        metric("events_processed_total", Some("other"), 1),
        metric("uptime_seconds", None, 2),
    ];
    assert!(component_events_processed_total(captured, "parser".to_string()).is_none());
}

#[test]
fn tag_helpers() {
    let m = metric("events_processed_total", Some("parser"), 0);
    assert!(m.tag_matches(&"component_name".to_string(), &"parser".to_string()));
    assert!(!m.tag_matches(&"component_name".to_string(), &"sink".to_string()));
    assert!(!m.tag_matches(&"component_kind".to_string(), &"parser".to_string()));
    assert_eq!(m.tag_value(&"component_name".to_string()), Some(&"parser".to_string()));
    assert_eq!(m.tag_value(&"component_kind".to_string()), None);
}
