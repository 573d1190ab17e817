//! Identities of metrics and of their descriptions.
//!
//! A metric is addressed by its name, its labels and its kind; its description
//! by name and kind alone, so that all label variants of a metric share one.

use crate::text::{decimal, decimal_string};
use vstd::prelude::*;
use vstd::std_specs::cmp::PartialEqSpecImpl;
use vstd::string::*;

verus! {

/// The three kinds of metric that the registry stores.
#[derive(Clone, Copy, Debug, PartialEq, Eq, Structural, Hash)]
pub enum MetricKind {
    Counter,
    Gauge,
    Histogram,
}

/// The lower-case word that names a kind in titles.
pub open spec fn kind_word(kind: MetricKind) -> Seq<char> {
    match kind {
        MetricKind::Counter => "counter"@,
        MetricKind::Gauge => "gauge"@,
        MetricKind::Histogram => "histogram"@,
    }
}

/// Gives the word that names `kind` in titles.
pub fn metric_kind_str(kind: MetricKind) -> (word: &'static str)
    ensures
        word@ == kind_word(kind),
{
    match kind {
        MetricKind::Counter => "counter",
        MetricKind::Gauge => "gauge",
        MetricKind::Histogram => "histogram",
    }
}

/// One label of a metric: a key and its value.
#[derive(Debug)]
pub struct Label {
    pub key: String,
    pub value: String,
}

impl View for Label {
    type V = (Seq<char>, Seq<char>);

    open spec fn view(&self) -> (Seq<char>, Seq<char>) {
        (self.key@, self.value@)
    }
}

impl Label {
    /// Makes the label `key=value`.
    pub fn new(key: &str, value: &str) -> (label: Self)
        ensures
            label@ == (key@, value@),
    {
        Label { key: String::from_str(key), value: String::from_str(value) }
    }

    /// The label's key.
    pub fn key(&self) -> (key: &str)
        ensures
            key@ == self@.0,
    {
        self.key.as_str()
    }

    /// The label's value.
    pub fn value(&self) -> (value: &str)
        ensures
            value@ == self@.1,
    {
        self.value.as_str()
    }
}

impl Clone for Label {
    fn clone(&self) -> (copy: Self)
        ensures
            copy == *self,
    {
        Label { key: self.key.clone(), value: self.value.clone() }
    }
}

/// The labels of a metric as pairs of character sequences, in their order.
pub open spec fn label_views(labels: Seq<Label>) -> Seq<(Seq<char>, Seq<char>)> {
    labels.map_values(|label: Label| label@)
}

/// What a [`Key`] stands for: a name and an ordered sequence of labels.
pub struct KeyView {
    pub name: Seq<char>,
    pub labels: Seq<(Seq<char>, Seq<char>)>,
}

/// The name and the labels of one metric.
#[derive(Debug)]
pub struct Key {
    pub name: String,
    pub labels: Vec<Label>,
}

impl View for Key {
    type V = KeyView;

    open spec fn view(&self) -> KeyView {
        KeyView { name: self.name@, labels: label_views(self.labels@) }
    }
}

impl Key {
    /// A key with a name and no labels.
    pub fn from_name(name: &str) -> (key: Self)
        ensures
            key@ == (KeyView { name: name@, labels: Seq::empty() }),
    {
        let key = Key { name: String::from_str(name), labels: Vec::new() };
        assert(key@.labels =~= Seq::empty());
        key
    }

    /// A key with a name and the given labels, in the given order.
    pub fn from_parts(name: &str, labels: Vec<Label>) -> (key: Self)
        ensures
            key@ == (KeyView { name: name@, labels: label_views(labels@) }),
    {
        Key { name: String::from_str(name), labels }
    }

    /// The name of the metric.
    pub fn name(&self) -> (name: &str)
        ensures
            name@ == self@.name,
    {
        self.name.as_str()
    }

    /// The labels of the metric, in their order.
    pub fn labels(&self) -> (labels: &Vec<Label>)
        ensures
            label_views(labels@) == self@.labels,
    {
        &self.labels
    }
}

impl Clone for Key {
    fn clone(&self) -> (copy: Self)
        ensures
            copy@ == self@,
    {
        let mut labels: Vec<Label> = Vec::new();
        let mut i: usize = 0;
        while i < self.labels.len()
            invariant
                i <= self.labels.len(),
                labels@.len() == i,
                forall|j: int| 0 <= j < i ==> labels@[j] == self.labels@[j],
            decreases self.labels.len() - i,
        {
            labels.push(self.labels[i].clone());
            i += 1;
        }
        assert(labels@ =~= self.labels@);
        Key { name: self.name.clone(), labels }
    }
}

/// The labels in the order in which `metrics` compares the labels of two
/// keys: sorted by label key, labels with the same key staying in the order
/// in which they were given. The `==` of its keys brings the labels of both
/// sides into this order and compares them pair by pair.
pub uninterp spec fn labels_by_key(labels: Seq<(Seq<char>, Seq<char>)>) -> Seq<(Seq<char>, Seq<char>)>;

/// Whether two label sequences belong to the same metric.
///
/// The order of the labels does not count: up to two labels are compared
/// in either order, three or more after sorting them by label key.
pub open spec fn same_labels(
    a: Seq<(Seq<char>, Seq<char>)>,
    b: Seq<(Seq<char>, Seq<char>)>,
) -> bool {
    if a.len() != b.len() {
        false
    } else if a.len() == 0 {
        true
    } else if a.len() == 1 {
        a[0] == b[0]
    } else if a.len() == 2 {
        (a[0] == b[0] && a[1] == b[1]) || (a[0] == b[1] && a[1] == b[0])
    } else {
        labels_by_key(a) == labels_by_key(b)
    }
}

/// Whether two keys address the same metric: the names are equal and the
/// labels are the same but for their order.
pub open spec fn same_key(a: KeyView, b: KeyView) -> bool {
    a.name == b.name && same_labels(a.labels, b.labels)
}

/// Compares `a` and `b`, written as keys of `metrics`, with the `==` of
/// that crate.
///
/// Trusted: two keys are equal there exactly when their names are equal and
/// they have as many labels, which agree as `same_labels` says: one label
/// with the other; two labels in either order; three or more pair by pair,
/// once both sides are sorted by label key.
#[verifier::external_body]
fn outside_keys_equal(a: &Key, b: &Key) -> (equal: bool)
    ensures
        a@.labels.len() <= 2 ==> equal == same_key(a@, b@),
        a@.labels.len() > 2 ==> equal == (a@.name == b@.name && a@.labels.len() == b@.labels.len()
            && labels_by_key(a@.labels) == labels_by_key(b@.labels)),
{
    let outside = |k: &Key| {
        let labels: Vec<metrics::Label> =
            k.labels.iter().map(|l| metrics::Label::new(l.key.clone(), l.value.clone())).collect();
        metrics::Key::from_parts(k.name.clone(), labels)
    };
    outside(a) == outside(b)
}

/// Two keys are equal when they address the same metric, whatever the
/// order of their labels.
impl PartialEq for Key {
    fn eq(&self, other: &Self) -> (equal: bool) {
        outside_keys_equal(self, other)
    }
}

impl PartialEqSpecImpl for Key {
    open spec fn obeys_eq_spec() -> bool {
        true
    }

    open spec fn eq_spec(&self, other: &Self) -> bool {
        same_key(self@, other@)
    }
}

impl Eq for Key {

}

/// Every key addresses the metric that it addresses.
pub proof fn lemma_same_key_reflexive(a: KeyView)
    ensures
        same_key(a, a),
{
}

/// Addressing the same metric does not depend on the side.
pub proof fn lemma_same_key_symmetric(a: KeyView, b: KeyView)
    requires
        same_key(a, b),
    ensures
        same_key(b, a),
{
}

/// Two keys that address the same metric as a third address the same metric.
pub proof fn lemma_same_key_transitive(a: KeyView, b: KeyView, c: KeyView)
    requires
        same_key(a, b),
        same_key(b, c),
    ensures
        same_key(a, c),
{
}

/// What a [`MetricKey`] stands for.
pub struct MetricKeyView {
    pub key: KeyView,
    pub kind: MetricKind,
}

/// Identifies one metric in the registry: name, labels and kind.
#[derive(Debug)]
pub struct MetricKey {
    pub key: Key,
    pub kind: MetricKind,
}

impl View for MetricKey {
    type V = MetricKeyView;

    open spec fn view(&self) -> MetricKeyView {
        MetricKeyView { key: self.key@, kind: self.kind }
    }
}

/// The title of a metric called `name`: the name, its kind in parentheses
/// and, where `n_duplicates` is positive, that number after a space.
pub open spec fn title_text(name: Seq<char>, kind: MetricKind, n_duplicates: nat) -> Seq<char> {
    let base = name + seq![' ', '('] + kind_word(kind) + seq![')'];
    if n_duplicates > 0 {
        base + seq![' '] + decimal(n_duplicates)
    } else {
        base
    }
}

/// The name that a title shows: the display path where one is given, else
/// the metric's own name.
pub open spec fn shown_name(key: MetricKeyView, display_path: Option<&str>) -> Seq<char> {
    match display_path {
        Some(path) => path@,
        None => key.key.name,
    }
}

impl MetricKey {
    /// Puts a key and a kind together.
    pub fn new(key: Key, kind: MetricKind) -> (metric: Self)
        ensures
            metric.key == key,
            metric.kind == kind,
    {
        MetricKey { key, kind }
    }

    /// The text that heads a search result or a plot of this metric.
    ///
    /// `display_path`, where given, stands in for the name; `n_duplicates`
    /// tells apart results with the same title and is shown only when positive.
    pub fn title(&self, display_path: Option<&str>, n_duplicates: usize) -> (title: String)
        ensures
            title@ == title_text(shown_name(self@, display_path), self.kind, n_duplicates as nat),
    {
        let name = match display_path {
            Some(path) => path,
            None => self.key.name(),
        };
        proof {
            reveal_strlit(" (");
            reveal_strlit(")");
            reveal_strlit(" ");
        }
        let mut title = String::from_str(name);
        title.append(" (");
        title.append(metric_kind_str(self.kind));
        title.append(")");
        assert(" ("@ =~= seq![' ', '(']);
        assert(")"@ =~= seq![')']);
        if n_duplicates > 0 {
            let number = decimal_string(n_duplicates);
            title.append(" ");
            title.append(number.as_str());
            assert(" "@ =~= seq![' ']);
        }
        title
    }
}

impl Clone for MetricKey {
    fn clone(&self) -> (copy: Self)
        ensures
            copy@ == self@,
    {
        MetricKey { key: self.key.clone(), kind: self.kind }
    }
}

/// Two metric keys are equal when they address the same metric.
impl PartialEq for MetricKey {
    fn eq(&self, other: &Self) -> (equal: bool) {
        self.kind == other.kind && self.key == other.key
    }
}

impl PartialEqSpecImpl for MetricKey {
    open spec fn obeys_eq_spec() -> bool {
        true
    }

    open spec fn eq_spec(&self, other: &Self) -> bool {
        self.kind == other.kind && same_key(self.key@, other.key@)
    }
}

impl Eq for MetricKey {

}

/// Identifies the description of a metric: name and kind, without labels.
#[derive(Debug)]
pub struct DescriptionKey {
    pub name: String,
    pub kind: MetricKind,
}

impl View for DescriptionKey {
    type V = (Seq<char>, MetricKind);

    open spec fn view(&self) -> (Seq<char>, MetricKind) {
        (self.name@, self.kind)
    }
}

/// The description identity that a metric identity falls under.
pub open spec fn description_key_of(metric: MetricKeyView) -> (Seq<char>, MetricKind) {
    (metric.key.name, metric.kind)
}

impl DescriptionKey {
    /// The description identity of the metrics called `name` of the given kind.
    pub fn new(name: &str, kind: MetricKind) -> (key: Self)
        ensures
            key@ == (name@, kind),
    {
        DescriptionKey { name: String::from_str(name), kind }
    }
}

impl Clone for DescriptionKey {
    fn clone(&self) -> (copy: Self)
        ensures
            copy == *self,
    {
        DescriptionKey { name: self.name.clone(), kind: self.kind }
    }
}

impl PartialEq for DescriptionKey {
    fn eq(&self, other: &Self) -> (equal: bool) {
        self.kind == other.kind && self.name == other.name
    }
}

impl PartialEqSpecImpl for DescriptionKey {
    open spec fn obeys_eq_spec() -> bool {
        true
    }

    open spec fn eq_spec(&self, other: &Self) -> bool {
        self@ == other@
    }
}

impl Eq for DescriptionKey {

}

impl From<&MetricKey> for DescriptionKey {
    fn from(value: &MetricKey) -> (key: Self)
        ensures
            key@ == description_key_of(value@),
    {
        DescriptionKey { name: value.key.name.clone(), kind: value.kind }
    }
}

impl vstd::std_specs::convert::FromSpecImpl<&MetricKey> for DescriptionKey {
    open spec fn obeys_from_spec() -> bool {
        true
    }

    open spec fn from_spec(value: &MetricKey) -> Self {
        DescriptionKey { name: value.key.name, kind: value.kind }
    }
}

} // verus!
