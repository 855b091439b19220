use preempt_k8s::configuration::get_controller_configuration;
use preempt_k8s::decimal::{decimal_string, parse_unsigned};
use preempt_k8s::labels::Labels;
use preempt_k8s::watchers::{pod_event_message, resource_event_message, WatchEvent};

#[test]
fn defaults_apply() {
    let c = get_controller_configuration(None, None, None, None);
    assert_eq!(c.min_watchdogs, 10);
    assert_eq!(c.max_watchdogs, 20);
    assert_eq!(c.threshold, 3);
    assert_eq!(c.event_queue_path, "/eventqueue");
}

#[test]
fn settings_are_read() {
    let c = get_controller_configuration(Some("2"), Some("+8"), Some("0"), Some("/q"));
    assert_eq!(c.min_watchdogs, 2);
    assert_eq!(c.max_watchdogs, 8);
    assert_eq!(c.threshold, 0);
    assert_eq!(c.event_queue_path, "/q");
}

#[test]
fn malformed_settings_fall_back() {
    let c = get_controller_configuration(Some("-1"), Some("abc"), Some(""), None);
    assert_eq!(c.min_watchdogs, 10);
    assert_eq!(c.max_watchdogs, 20);
    assert_eq!(c.threshold, 3);
    let c = get_controller_configuration(Some("99999999999999999999999"), Some(" 4"), Some("+"), None);
    assert_eq!(c.min_watchdogs, 10);
    assert_eq!(c.max_watchdogs, 20);
    assert_eq!(c.threshold, 3);
}

#[test]
fn configuration_description() {
    let c = get_controller_configuration(Some("1"), Some("12"), None, None);
    assert_eq!(
        c.describe(),
        "Controller configuration:\n    Min watchdogs: 1\n    Max watchdogs: 12\n    Threshold: 3\n    Event Queue Path: /eventqueue\n"
    );
}

#[test]
fn decimal_parse_and_print() {
    assert_eq!(parse_unsigned("4294967295", u32::MAX as u64), Some(4294967295));
    assert_eq!(parse_unsigned("4294967296", u32::MAX as u64), None);
    assert_eq!(parse_unsigned("007", 10), Some(7));
    assert_eq!(parse_unsigned("11", 10), None);
    assert_eq!(parse_unsigned("18446744073709551615", u64::MAX), Some(u64::MAX));
    assert_eq!(parse_unsigned("18446744073709551616", u64::MAX), None);
    assert_eq!(decimal_string(0), "0");
    assert_eq!(decimal_string(1234567890), "1234567890");
    assert_eq!(decimal_string(u64::MAX), "18446744073709551615");
}

#[test]
fn resource_events_become_messages() {
    let name = Some("svc".to_string());
    let uid = Some("u".to_string());
    let ns = Some("ns".to_string());
    let (m, band) = resource_event_message(WatchEvent::Applied, &name, &uid, &ns, 2).unwrap();
    assert_eq!((m.name.as_str(), m.uid.as_str(), m.namespace.as_str(), band), ("svc", "u", "ns", 2));
    assert!(resource_event_message(WatchEvent::Deleted, &name, &uid, &ns, 0).is_some());
    assert!(resource_event_message(WatchEvent::Other, &name, &uid, &ns, 0).is_none());
    assert!(resource_event_message(WatchEvent::Applied, &name, &None, &ns, 0).is_none());
}

fn pod_labels(criticality: &str) -> Labels {
    let entries = vec![
        ("rtresource_name".to_string(), "svc".to_string()),
        ("rtresource_uid".to_string(), "u".to_string()),
        ("rtresource_namespace".to_string(), "ns".to_string()),
        ("criticality".to_string(), criticality.to_string()),
        ("app".to_string(), "x".to_string()),
    ];
    Labels::from_entries(entries)
}

#[test]
fn deleted_managed_pod_becomes_message() {
    let (m, band) = pod_event_message(WatchEvent::Deleted, &Some(pod_labels("7"))).unwrap();
    assert_eq!((m.name.as_str(), m.uid.as_str(), m.namespace.as_str(), band), ("svc", "u", "ns", 7));
}

#[test]
fn other_pod_events_are_dropped() {
    assert!(pod_event_message(WatchEvent::Applied, &Some(pod_labels("7"))).is_none());
    assert!(pod_event_message(WatchEvent::Deleted, &None).is_none());
    assert!(pod_event_message(WatchEvent::Deleted, &Some(pod_labels("seven"))).is_none());
    assert!(pod_event_message(WatchEvent::Deleted, &Some(pod_labels("4294967296"))).is_none());
    let mut unmanaged = Labels::new();
    unmanaged.insert("criticality".to_string(), "1".to_string());
    assert!(pod_event_message(WatchEvent::Deleted, &Some(unmanaged)).is_none());
}

#[test]
fn labels_later_value_wins() {
    let l = Labels::from_entries(vec![
        ("a".to_string(), "1".to_string()),
        ("b".to_string(), "2".to_string()),
        ("a".to_string(), "3".to_string()),
    ]);
    assert_eq!(l.len(), 2);
    assert_eq!(l.get(&"a".to_string()).as_deref(), Some("3"));
    assert_eq!(l.entries()[0], ("a".to_string(), "3".to_string()));
    assert!(l.get(&"c".to_string()).is_none());
    assert!(Labels::new().is_empty());
    assert!(!l.is_empty());
}
