use metrics_registry::description::{unit_str, MetricDescription, Unit};
use metrics_registry::key::{
    metric_kind_str, DescriptionKey, Key, Label, MetricKey, MetricKind,
};
use metrics_registry::result::{SearchResult, TextStyle};
use metrics_registry::text::decimal_string;

fn route(value: &str) -> Vec<Label> {
    vec![Label::new("route", value)]
}

#[test]
fn kind_words_are_lower_case() {
    assert_eq!(metric_kind_str(MetricKind::Counter), "counter");
    assert_eq!(metric_kind_str(MetricKind::Gauge), "gauge");
    assert_eq!(metric_kind_str(MetricKind::Histogram), "histogram");
}

#[test]
fn decimal_string_writes_numbers() {
    assert_eq!(decimal_string(0), "0");
    assert_eq!(decimal_string(7), "7");
    assert_eq!(decimal_string(10), "10");
    assert_eq!(decimal_string(409), "409");
    assert_eq!(decimal_string(1234567890), "1234567890");
    assert_eq!(decimal_string(usize::MAX), usize::MAX.to_string());
}

#[test]
fn key_keeps_name_and_labels_in_order() {
    let key = Key::from_parts(
        "requests_total",
        vec![Label::new("route", "/a"), Label::new("method", "GET")],
    );
    assert_eq!(key.name(), "requests_total");
    assert_eq!(key.labels().len(), 2);
    assert_eq!(key.labels()[0].key(), "route");
    assert_eq!(key.labels()[0].value(), "/a");
    assert_eq!(key.labels()[1].key(), "method");
    assert_eq!(key.labels()[1].value(), "GET");
    assert!(Key::from_name("requests_total").labels().is_empty());
}

#[test]
fn key_clone_is_equal() {
    let key = Key::from_parts("requests_total", route("/a"));
    let copy = key.clone();
    assert_eq!(copy.name(), "requests_total");
    assert_eq!(copy.labels()[0].value(), "/a");
    assert!(copy == key);
}

#[test]
fn keys_differ_by_name_and_by_labels() {
    let a = Key::from_parts("requests_total", route("/a"));
    let b = Key::from_parts("requests_total", route("/b"));
    let other = Key::from_parts("errors_total", route("/a"));
    let bare = Key::from_name("requests_total");
    assert!(a != b);
    assert!(a != other);
    assert!(a != bare);
    assert!(bare == Key::from_name("requests_total"));
}

#[test]
fn two_labels_are_equal_in_either_order() {
    let ab = Key::from_parts("m", vec![Label::new("a", "1"), Label::new("b", "2")]);
    let ba = Key::from_parts("m", vec![Label::new("b", "2"), Label::new("a", "1")]);
    let other = Key::from_parts("m", vec![Label::new("a", "2"), Label::new("b", "1")]);
    assert!(ab == ba);
    assert!(ab != other);
}

#[test]
fn three_labels_are_equal_in_any_order() {
    let abc = Key::from_parts(
        "m",
        vec![Label::new("a", "1"), Label::new("b", "2"), Label::new("c", "3")],
    );
    let cab = Key::from_parts(
        "m",
        vec![Label::new("c", "3"), Label::new("a", "1"), Label::new("b", "2")],
    );
    let other = Key::from_parts(
        "m",
        vec![Label::new("a", "1"), Label::new("b", "2"), Label::new("c", "4")],
    );
    assert!(abc == cab);
    assert!(abc != other);
}

#[test]
fn metric_keys_differ_by_kind() {
    let counter = MetricKey::new(Key::from_name("m"), MetricKind::Counter);
    let gauge = MetricKey::new(Key::from_name("m"), MetricKind::Gauge);
    assert!(counter != gauge);
    assert!(counter == MetricKey::new(Key::from_name("m"), MetricKind::Counter));
    assert!(counter.clone() == counter);
}

#[test]
fn title_shows_name_and_kind() {
    let key = MetricKey::new(Key::from_name("requests_total"), MetricKind::Counter);
    assert_eq!(key.title(None, 0), "requests_total (counter)");
    let gauge = MetricKey::new(Key::from_name("queue_depth"), MetricKind::Gauge);
    assert_eq!(gauge.title(None, 0), "queue_depth (gauge)");
    let histogram = MetricKey::new(Key::from_name("latency"), MetricKind::Histogram);
    assert_eq!(histogram.title(None, 0), "latency (histogram)");
}

#[test]
fn title_shows_duplicate_number_only_when_positive() {
    let key = MetricKey::new(Key::from_name("requests_total"), MetricKind::Counter);
    assert_eq!(key.title(None, 1), "requests_total (counter) 1");
    assert_eq!(key.title(None, 25), "requests_total (counter) 25");
    assert_eq!(key.title(None, 0), "requests_total (counter)");
}

#[test]
fn title_prefers_display_path() {
    let key = MetricKey::new(
        Key::from_parts("app.http.requests_total", route("/a")),
        MetricKind::Counter,
    );
    assert_eq!(key.title(Some("requests_total"), 0), "requests_total (counter)");
    assert_eq!(key.title(Some("requests_total"), 3), "requests_total (counter) 3");
    assert_eq!(key.title(Some(""), 0), " (counter)");
}

#[test]
fn description_key_drops_labels() {
    let a = MetricKey::new(Key::from_parts("requests_total", route("/a")), MetricKind::Counter);
    let b = MetricKey::new(Key::from_parts("requests_total", route("/b")), MetricKind::Counter);
    let from_a = DescriptionKey::from(&a);
    let from_b = DescriptionKey::from(&b);
    assert_eq!(from_a.name, "requests_total");
    assert_eq!(from_a.kind, MetricKind::Counter);
    assert!(from_a == from_b);
    assert!(from_a == DescriptionKey::new("requests_total", MetricKind::Counter));
    assert!(from_a != DescriptionKey::new("requests_total", MetricKind::Gauge));
    assert!(from_a != DescriptionKey::new("requests", MetricKind::Counter));
    assert!(from_a.clone() == from_a);
}

#[test]
fn unit_labels_are_short() {
    assert_eq!(unit_str(Unit::Count), "count");
    assert_eq!(unit_str(Unit::Percent), "%");
    assert_eq!(unit_str(Unit::Seconds), "s");
    assert_eq!(unit_str(Unit::Milliseconds), "ms");
    assert_eq!(unit_str(Unit::Microseconds), "us");
    assert_eq!(unit_str(Unit::Nanoseconds), "ns");
    assert_eq!(unit_str(Unit::Tebibytes), "TiB");
    assert_eq!(unit_str(Unit::Gibibytes), "GiB");
    assert_eq!(unit_str(Unit::Mebibytes), "MiB");
    assert_eq!(unit_str(Unit::Kibibytes), "KiB");
    assert_eq!(unit_str(Unit::Bytes), "B");
    assert_eq!(unit_str(Unit::TerabitsPerSecond), "Tbps");
    assert_eq!(unit_str(Unit::GigabitsPerSecond), "Gbps");
    assert_eq!(unit_str(Unit::MegabitsPerSecond), "Mbps");
    assert_eq!(unit_str(Unit::KilobitsPerSecond), "kbps");
    assert_eq!(unit_str(Unit::BitsPerSecond), "bps");
    assert_eq!(unit_str(Unit::CountPerSecond), "/s");
}

fn shown(result: &SearchResult, display_path: Option<&str>) -> Vec<(String, TextStyle)> {
    result
        .detailed_text(display_path)
        .into_iter()
        .map(|segment| (segment.text, segment.style))
        .collect()
}

fn piece(text: &str, style: TextStyle) -> (String, TextStyle) {
    (text.to_string(), style)
}

#[test]
fn detailed_text_of_bare_metric_is_its_title() {
    let result = SearchResult {
        key: MetricKey::new(Key::from_name("requests_total"), MetricKind::Counter),
        description: None,
    };
    assert_eq!(
        shown(&result, None),
        vec![piece("requests_total (counter)", TextStyle::Title)]
    );
}

#[test]
fn detailed_text_shows_unit_labels_and_description() {
    let key = Key::from_parts(
        "requests_total",
        vec![Label::new("route", "/a"), Label::new("method", "GET")],
    );
    let result = SearchResult {
        key: MetricKey::new(key, MetricKind::Counter),
        description: Some(MetricDescription::new(Some(Unit::Count), "Total HTTP requests")),
    };
    assert_eq!(
        shown(&result, None),
        vec![
            piece("requests_total (counter)", TextStyle::Title),
            piece(" [count]", TextStyle::Unit),
            piece("\n", TextStyle::Plain),
            piece("route=/a", TextStyle::Label),
            piece("\n", TextStyle::Plain),
            piece("method=GET", TextStyle::Label),
            piece("\n", TextStyle::Plain),
            piece("Total HTTP requests", TextStyle::Description),
        ]
    );
}

#[test]
fn detailed_text_without_unit_skips_the_brackets() {
    let result = SearchResult {
        key: MetricKey::new(Key::from_name("latency"), MetricKind::Histogram),
        description: Some(MetricDescription::new(None, "Request latency")),
    };
    assert_eq!(
        shown(&result, Some("lat")),
        vec![
            piece("lat (histogram)", TextStyle::Title),
            piece("\n", TextStyle::Plain),
            piece("Request latency", TextStyle::Description),
        ]
    );
}

#[test]
fn detailed_text_title_has_no_duplicate_number() {
    let result = SearchResult {
        key: MetricKey::new(Key::from_parts("m", route("/a")), MetricKind::Gauge),
        description: Some(MetricDescription::new(Some(Unit::Bytes), "")),
    };
    assert_eq!(
        shown(&result, None),
        vec![
            piece("m (gauge)", TextStyle::Title),
            piece(" [B]", TextStyle::Unit),
            piece("\n", TextStyle::Plain),
            piece("route=/a", TextStyle::Label),
            piece("\n", TextStyle::Plain),
            piece("", TextStyle::Description),
        ]
    );
}
