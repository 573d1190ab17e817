use metrics_registry::description::{MetricDescription, Unit};
use metrics_registry::key::{DescriptionKey, Key, Label, MetricKind};
use metrics_registry::registry::MetricsRegistry;
use metrics_registry::result::SearchResult;
use std::sync::atomic::Ordering;
use std::sync::Arc;

fn route(value: &str) -> Vec<Label> {
    vec![Label::new("route", value)]
}

fn names(results: &[SearchResult]) -> Vec<String> {
    let mut names: Vec<String> =
        results.iter().map(|r| r.key.title(None, 0)).collect();
    names.sort();
    names
}

fn identities(results: &[SearchResult]) -> Vec<(String, Vec<(String, String)>, MetricKind)> {
    let mut found: Vec<(String, Vec<(String, String)>, String)> = results
        .iter()
        .map(|r| {
            let labels = r
                .key
                .key
                .labels()
                .iter()
                .map(|l| (l.key().to_string(), l.value().to_string()))
                .collect();
            (r.key.key.name().to_string(), labels, r.key.title(None, 0))
        })
        .collect();
    found.sort();
    found
        .into_iter()
        .map(|(name, labels, title)| {
            let kind = if title.ends_with("(counter)") {
                MetricKind::Counter
            } else if title.ends_with("(gauge)") {
                MetricKind::Gauge
            } else {
                MetricKind::Histogram
            };
            (name, labels, kind)
        })
        .collect()
}

fn description_key(name: &str, kind: MetricKind) -> DescriptionKey {
    DescriptionKey::new(name, kind)
}

#[test]
fn new_registry_is_empty() {
    let registry = MetricsRegistry::new();
    assert!(registry.all_metrics().is_empty());
    assert!(registry.fuzzy_search_by_name("").is_empty());
    assert!(registry.fuzzy_search_by_name("a").is_empty());
    assert!(registry
        .get_description(&description_key("requests_total", MetricKind::Counter))
        .is_none());
    let default = MetricsRegistry::default();
    assert!(default.all_metrics().is_empty());
}

#[test]
fn get_or_create_counter_twice_gives_one_cell() {
    let mut registry = MetricsRegistry::new();
    let key = Key::from_parts("requests_total", route("/a"));
    let first = registry.get_or_create_counter(&key);
    let second = registry.get_or_create_counter(&key);
    assert!(Arc::ptr_eq(&first, &second));
    first.fetch_add(4, Ordering::Relaxed);
    assert_eq!(second.load(Ordering::Relaxed), 4);
    second.fetch_add(1, Ordering::Relaxed);
    assert_eq!(first.load(Ordering::Relaxed), 5);
    assert_eq!(registry.all_metrics().len(), 1);
}

#[test]
fn get_or_create_gauge_twice_gives_one_cell() {
    let mut registry = MetricsRegistry::new();
    let key = Key::from_name("queue_depth");
    let first = registry.get_or_create_gauge(&key);
    let second = registry.get_or_create_gauge(&key);
    assert!(Arc::ptr_eq(&first, &second));
    first.store(2.5f64.to_bits(), Ordering::Relaxed);
    assert_eq!(f64::from_bits(second.load(Ordering::Relaxed)), 2.5);
    assert_eq!(registry.all_metrics().len(), 1);
}

#[test]
fn get_or_create_histogram_twice_gives_one_cell() {
    let mut registry = MetricsRegistry::new();
    let key = Key::from_name("latency");
    let first = registry.get_or_create_histogram(&key);
    let second = registry.get_or_create_histogram(&key);
    assert!(Arc::ptr_eq(&first, &second));
    first.push(0.25);
    second.push(0.5);
    let mut samples = first.data();
    samples.sort_by(|a, b| a.partial_cmp(b).unwrap());
    assert_eq!(samples, vec![0.25, 0.5]);
    assert_eq!(registry.all_metrics().len(), 1);
}

#[test]
fn new_cells_start_at_zero() {
    let mut registry = MetricsRegistry::new();
    let key = Key::from_name("m");
    assert_eq!(registry.get_or_create_counter(&key).load(Ordering::Relaxed), 0);
    assert_eq!(registry.get_or_create_gauge(&key).load(Ordering::Relaxed), 0);
    assert!(registry.get_or_create_histogram(&key).data().is_empty());
}

#[test]
fn same_name_of_different_kinds_has_different_cells() {
    let mut registry = MetricsRegistry::new();
    let key = Key::from_name("m");
    let counter = registry.get_or_create_counter(&key);
    let gauge = registry.get_or_create_gauge(&key);
    let _histogram = registry.get_or_create_histogram(&key);
    assert!(!Arc::ptr_eq(&counter, &gauge));
    counter.fetch_add(7, Ordering::Relaxed);
    assert_eq!(gauge.load(Ordering::Relaxed), 0);
    assert_eq!(
        identities(&registry.all_metrics()),
        vec![
            ("m".to_string(), vec![], MetricKind::Counter),
            ("m".to_string(), vec![], MetricKind::Gauge),
            ("m".to_string(), vec![], MetricKind::Histogram),
        ]
    );
}

#[test]
fn labels_in_another_order_address_the_same_metric() {
    let mut registry = MetricsRegistry::new();
    let ab = Key::from_parts("m", vec![Label::new("a", "1"), Label::new("b", "2")]);
    let ba = Key::from_parts("m", vec![Label::new("b", "2"), Label::new("a", "1")]);
    let first = registry.get_or_create_counter(&ab);
    let second = registry.get_or_create_counter(&ba);
    assert!(Arc::ptr_eq(&first, &second));
    let all = registry.all_metrics();
    assert_eq!(all.len(), 1);
    assert_eq!(all[0].key.key.labels()[0].key(), "a");
    assert_eq!(all[0].key.key.labels()[1].key(), "b");
}

#[test]
fn three_labels_in_another_order_address_the_same_metric() {
    let mut registry = MetricsRegistry::new();
    let abc = Key::from_parts(
        "m",
        vec![Label::new("a", "1"), Label::new("b", "2"), Label::new("c", "3")],
    );
    let cba = Key::from_parts(
        "m",
        vec![Label::new("c", "3"), Label::new("b", "2"), Label::new("a", "1")],
    );
    let first = registry.get_or_create_gauge(&abc);
    let second = registry.get_or_create_gauge(&cba);
    assert!(Arc::ptr_eq(&first, &second));
    assert_eq!(registry.all_metrics().len(), 1);
}

#[test]
fn different_metrics_have_different_cells() {
    let mut registry = MetricsRegistry::new();
    let a = registry.get_or_create_counter(&Key::from_parts("requests_total", route("/a")));
    let b = registry.get_or_create_counter(&Key::from_parts("requests_total", route("/b")));
    let other = registry.get_or_create_counter(&Key::from_name("errors_total"));
    let gauge = registry.get_or_create_gauge(&Key::from_parts("requests_total", route("/a")));
    assert!(!Arc::ptr_eq(&a, &b));
    assert!(!Arc::ptr_eq(&a, &other));
    assert!(!Arc::ptr_eq(&b, &other));
    assert!(!Arc::ptr_eq(&a, &gauge));
    let first = registry.get_or_create_histogram(&Key::from_name("latency"));
    let second = registry.get_or_create_histogram(&Key::from_name("size"));
    assert!(!Arc::ptr_eq(&first, &second));
}

#[test]
fn counter_increments_add_up() {
    let mut registry = MetricsRegistry::new();
    let key = Key::from_name("requests_total");
    let handles: Vec<_> = (0..8).map(|_| registry.get_or_create_counter(&key)).collect();
    let amounts: [u64; 8] = [1, 2, 3, 5, 8, 13, 21, 34];
    for (handle, amount) in handles.iter().zip(amounts) {
        handle.fetch_add(amount, Ordering::Relaxed);
    }
    let total: u64 = amounts.iter().sum();
    assert_eq!(total, 87);
    assert_eq!(registry.get_or_create_counter(&key).load(Ordering::Relaxed), 87);
}

#[test]
fn labelled_counters_are_counted_apart() {
    let mut registry = MetricsRegistry::new();
    let a = Key::from_parts("requests_total", route("/a"));
    let b = Key::from_parts("requests_total", route("/b"));
    registry.get_or_create_counter(&a).fetch_add(5, Ordering::Relaxed);
    registry.get_or_create_counter(&b).fetch_add(3, Ordering::Relaxed);
    let all = registry.all_metrics();
    assert_eq!(
        identities(&all),
        vec![
            (
                "requests_total".to_string(),
                vec![("route".to_string(), "/a".to_string())],
                MetricKind::Counter
            ),
            (
                "requests_total".to_string(),
                vec![("route".to_string(), "/b".to_string())],
                MetricKind::Counter
            ),
        ]
    );
    let mut values: Vec<(String, u64)> = all
        .iter()
        .map(|r| {
            let value = registry.get_or_create_counter(&r.key.key).load(Ordering::Relaxed);
            (r.key.key.labels()[0].value().to_string(), value)
        })
        .collect();
    values.sort();
    assert_eq!(values, vec![("/a".to_string(), 5), ("/b".to_string(), 3)]);
}

#[test]
fn registered_handles_record_into_the_cells() {
    let mut registry = MetricsRegistry::new();
    let key = Key::from_parts("requests_total", route("/a"));
    let counter = registry.register_counter(&key);
    counter.increment(5);
    counter.increment(2);
    assert_eq!(registry.get_or_create_counter(&key).load(Ordering::Relaxed), 7);
    let gauge = registry.register_gauge(&key);
    gauge.set(1.5);
    assert_eq!(
        f64::from_bits(registry.get_or_create_gauge(&key).load(Ordering::Relaxed)),
        1.5
    );
    let histogram = registry.register_histogram(&key);
    histogram.record(0.75);
    assert_eq!(registry.get_or_create_histogram(&key).data(), vec![0.75]);
    assert_eq!(registry.all_metrics().len(), 3);
}

#[test]
fn registering_twice_gives_handles_on_one_cell() {
    let mut registry = MetricsRegistry::new();
    let key = Key::from_name("requests_total");
    let first = registry.register_counter(&key);
    let second = registry.register_counter(&key);
    first.increment(5);
    second.increment(3);
    assert_eq!(registry.get_or_create_counter(&key).load(Ordering::Relaxed), 8);
    assert_eq!(registry.all_metrics().len(), 1);
}

#[test]
fn first_description_wins() {
    let mut registry = MetricsRegistry::new();
    registry.describe_counter("requests_total", Some(Unit::Count), "Total HTTP requests");
    registry.describe_counter("requests_total", Some(Unit::Bytes), "Something else");
    let found = registry
        .get_description(&description_key("requests_total", MetricKind::Counter))
        .unwrap();
    assert_eq!(found.unit, Some(Unit::Count));
    assert_eq!(found.text, "Total HTTP requests");
}

#[test]
fn descriptions_are_kept_by_name_and_kind() {
    let mut registry = MetricsRegistry::new();
    registry.describe_counter("m", Some(Unit::Count), "a counter");
    registry.describe_gauge("m", None, "a gauge");
    registry.describe_histogram("m", Some(Unit::Seconds), "a histogram");
    let counter = registry.get_description(&description_key("m", MetricKind::Counter)).unwrap();
    let gauge = registry.get_description(&description_key("m", MetricKind::Gauge)).unwrap();
    let histogram =
        registry.get_description(&description_key("m", MetricKind::Histogram)).unwrap();
    assert_eq!((counter.unit, counter.text.as_str()), (Some(Unit::Count), "a counter"));
    assert_eq!((gauge.unit, gauge.text.as_str()), (None, "a gauge"));
    assert_eq!((histogram.unit, histogram.text.as_str()), (Some(Unit::Seconds), "a histogram"));
    assert!(registry.get_description(&description_key("n", MetricKind::Counter)).is_none());
    assert!(registry.all_metrics().is_empty());
}

#[test]
fn labelled_variants_share_one_description() {
    let mut registry = MetricsRegistry::new();
    registry.describe_counter("requests_total", Some(Unit::Count), "Total HTTP requests");
    registry.register_counter(&Key::from_parts("requests_total", route("/a")));
    registry.register_counter(&Key::from_parts("requests_total", route("/b")));
    let all = registry.all_metrics();
    assert_eq!(all.len(), 2);
    for result in &all {
        let key = DescriptionKey::from(&result.key);
        let found = registry.get_description(&key).unwrap();
        assert_eq!(found.unit, Some(Unit::Count));
        assert_eq!(found.text, "Total HTTP requests");
        let joined = result.description.as_ref().unwrap();
        assert_eq!(joined.unit, Some(Unit::Count));
        assert_eq!(joined.text, "Total HTTP requests");
    }
}

#[test]
fn describing_after_registering_is_seen_by_later_searches() {
    let mut registry = MetricsRegistry::new();
    registry.register_gauge(&Key::from_name("queue_depth"));
    assert!(registry.all_metrics()[0].description.is_none());
    registry.describe_gauge("queue_depth", None, "Jobs waiting");
    let all = registry.all_metrics();
    assert_eq!(all.len(), 1);
    let description: &MetricDescription = all[0].description.as_ref().unwrap();
    assert_eq!(description.unit, None);
    assert_eq!(description.text, "Jobs waiting");
    registry.describe_counter("queue_depth", Some(Unit::Count), "not for the gauge");
    assert_eq!(registry.all_metrics()[0].description.as_ref().unwrap().text, "Jobs waiting");
}

fn sample_registry() -> MetricsRegistry {
    let mut registry = MetricsRegistry::new();
    registry.register_counter(&Key::from_parts("requests_total", route("/a")));
    registry.register_counter(&Key::from_parts("requests_total", route("/b")));
    registry.register_counter(&Key::from_name("errors_total"));
    registry.register_gauge(&Key::from_name("queue_depth"));
    registry.register_histogram(&Key::from_name("request_latency"));
    registry.describe_counter("requests_total", Some(Unit::Count), "Total HTTP requests");
    registry
}

#[test]
fn all_metrics_lists_every_metric_once() {
    let registry = sample_registry();
    assert_eq!(
        names(&registry.all_metrics()),
        vec![
            "errors_total (counter)",
            "queue_depth (gauge)",
            "request_latency (histogram)",
            "requests_total (counter)",
            "requests_total (counter)",
        ]
    );
}

#[test]
fn empty_search_lists_what_all_metrics_lists() {
    let registry = sample_registry();
    assert_eq!(
        identities(&registry.fuzzy_search_by_name("")),
        identities(&registry.all_metrics())
    );
    assert_eq!(registry.fuzzy_search_by_name("").len(), 5);
}

#[test]
fn search_finds_scattered_characters() {
    let registry = sample_registry();
    assert_eq!(
        names(&registry.fuzzy_search_by_name("reqtot")),
        vec!["requests_total (counter)", "requests_total (counter)"]
    );
    assert!(registry.fuzzy_search_by_name("xyz123").is_empty());
    assert_eq!(
        names(&registry.fuzzy_search_by_name("total")),
        vec![
            "errors_total (counter)",
            "requests_total (counter)",
            "requests_total (counter)",
        ]
    );
    assert_eq!(
        names(&registry.fuzzy_search_by_name("req")),
        vec![
            "request_latency (histogram)",
            "requests_total (counter)",
            "requests_total (counter)",
        ]
    );
}

#[test]
fn search_by_part_of_a_name_finds_the_name() {
    let registry = sample_registry();
    let name = "queue_depth";
    let chars: Vec<char> = name.chars().collect();
    for start in 0..chars.len() {
        for end in start + 1..=chars.len() {
            let part: String = chars[start..end].iter().collect();
            let found = registry.fuzzy_search_by_name(&part);
            assert!(
                found.iter().any(|r| r.key.key.name() == name),
                "{part:?} should find {name}"
            );
        }
    }
}

#[test]
fn search_results_carry_descriptions() {
    let registry = sample_registry();
    let found = registry.fuzzy_search_by_name("requests");
    assert_eq!(found.len(), 2);
    for result in &found {
        assert_eq!(result.description.as_ref().unwrap().text, "Total HTTP requests");
        assert_eq!(result.description.as_ref().unwrap().unit, Some(Unit::Count));
    }
    let errors = registry.fuzzy_search_by_name("errors");
    assert_eq!(errors.len(), 1);
    assert!(errors[0].description.is_none());
}

#[test]
fn search_with_upper_case_respects_case() {
    let mut registry = MetricsRegistry::new();
    registry.register_counter(&Key::from_name("HttpRequests"));
    registry.register_counter(&Key::from_name("httprequests"));
    assert_eq!(registry.fuzzy_search_by_name("http").len(), 2);
    assert_eq!(
        names(&registry.fuzzy_search_by_name("Http")),
        vec!["HttpRequests (counter)"]
    );
    assert!(registry.fuzzy_search_by_name("HTTP").is_empty());
}

#[test]
fn clearing_empties_every_histogram_and_keeps_it_registered() {
    let mut registry = MetricsRegistry::new();
    let latency = registry.get_or_create_histogram(&Key::from_name("latency"));
    let size = registry.get_or_create_histogram(&Key::from_name("size"));
    let counter = registry.get_or_create_counter(&Key::from_name("requests_total"));
    latency.push(0.1);
    latency.push(0.2);
    size.push(512.0);
    counter.fetch_add(3, Ordering::Relaxed);
    registry.clear_atomic_buckets();
    assert!(latency.data().is_empty());
    assert!(size.data().is_empty());
    assert_eq!(counter.load(Ordering::Relaxed), 3);
    assert_eq!(registry.all_metrics().len(), 3);
    let again = registry.get_or_create_histogram(&Key::from_name("latency"));
    assert!(Arc::ptr_eq(&latency, &again));
    again.push(0.3);
    assert_eq!(latency.data(), vec![0.3]);
    registry.clear_atomic_buckets();
    registry.clear_atomic_buckets();
    assert!(latency.data().is_empty());
}

#[test]
fn clearing_an_empty_registry_does_nothing() {
    let registry = MetricsRegistry::new();
    registry.clear_atomic_buckets();
    assert!(registry.all_metrics().is_empty());
}

#[test]
fn many_metrics_are_each_listed_once() {
    let mut registry = MetricsRegistry::new();
    let mut expected = Vec::new();
    for i in 0..300 {
        let name = format!("metric_{i}");
        let key = Key::from_parts(&name, route(&format!("/{}", i % 7)));
        registry.get_or_create_counter(&key).fetch_add(i, Ordering::Relaxed);
        if i % 3 == 0 {
            registry.register_gauge(&key);
        }
        if i % 5 == 0 {
            registry.register_histogram(&key);
        }
        expected.push((name.clone(), MetricKind::Counter));
        if i % 3 == 0 {
            expected.push((name.clone(), MetricKind::Gauge));
        }
        if i % 5 == 0 {
            expected.push((name, MetricKind::Histogram));
        }
    }
    let rank = |kind: MetricKind| match kind {
        MetricKind::Counter => 0,
        MetricKind::Gauge => 1,
        MetricKind::Histogram => 2,
    };
    let mut found: Vec<(String, MetricKind)> = registry
        .all_metrics()
        .iter()
        .map(|r| (r.key.key.name().to_string(), r.key.kind))
        .collect();
    found.sort_by_key(|(name, kind)| (name.clone(), rank(*kind)));
    expected.sort_by_key(|(name, kind)| (name.clone(), rank(*kind)));
    assert_eq!(found.len(), 300 + 100 + 60);
    assert_eq!(found, expected);
    for i in [0u64, 1, 150, 299] {
        let key = Key::from_parts(&format!("metric_{i}"), route(&format!("/{}", i % 7)));
        assert_eq!(registry.get_or_create_counter(&key).load(Ordering::Relaxed), i);
    }
    assert_eq!(names(&registry.fuzzy_search_by_name("metric_299")), vec!["metric_299 (counter)"]);
    assert_eq!(
        names(&registry.fuzzy_search_by_name("m_285")),
        vec!["metric_285 (counter)", "metric_285 (gauge)", "metric_285 (histogram)"]
    );
}

#[test]
fn labels_with_the_same_key_keep_their_order() {
    let mut registry = MetricsRegistry::new();
    let first = Key::from_parts(
        "m",
        vec![Label::new("a", "1"), Label::new("a", "2"), Label::new("b", "3")],
    );
    let second = Key::from_parts(
        "m",
        vec![Label::new("a", "2"), Label::new("a", "1"), Label::new("b", "3")],
    );
    let third = Key::from_parts(
        "m",
        vec![Label::new("b", "3"), Label::new("a", "1"), Label::new("a", "2")],
    );
    let one = registry.get_or_create_counter(&first);
    let two = registry.get_or_create_counter(&second);
    let three = registry.get_or_create_counter(&third);
    assert!(!Arc::ptr_eq(&one, &two));
    assert!(Arc::ptr_eq(&one, &three));
    assert_eq!(registry.all_metrics().len(), 2);
}

#[test]
fn names_may_be_empty_or_hold_any_characters() {
    let mut registry = MetricsRegistry::new();
    registry.register_counter(&Key::from_name(""));
    registry.register_counter(&Key::from_name("größe.bytes"));
    registry.describe_counter("", None, "");
    let all = registry.all_metrics();
    assert_eq!(names(&all), vec![" (counter)", "größe.bytes (counter)"]);
    let found = registry.fuzzy_search_by_name("öe");
    assert_eq!(names(&found), vec!["größe.bytes (counter)"]);
    let described = registry.get_description(&description_key("", MetricKind::Counter)).unwrap();
    assert_eq!(described.unit, None);
    assert_eq!(described.text, "");
}

#[test]
fn search_shows_the_key_that_was_registered_first() {
    let mut registry = MetricsRegistry::new();
    let ba = Key::from_parts("m", vec![Label::new("b", "2"), Label::new("a", "1")]);
    let ab = Key::from_parts("m", vec![Label::new("a", "1"), Label::new("b", "2")]);
    registry.register_histogram(&ba);
    registry.register_histogram(&ab);
    let all = registry.all_metrics();
    assert_eq!(all.len(), 1);
    assert_eq!(all[0].key.key.labels()[0].key(), "b");
    assert_eq!(all[0].key.key.labels()[1].key(), "a");
    assert!(all[0].key.key == ab);
}
