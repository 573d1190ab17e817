//! The cells of the metrics, kept by the registry of `metrics_util`.
//!
//! There is one map from keys to cells for each kind. A cell is shared
//! between the map and every handle given out for it, and it is changed
//! through the handles alone. In contracts a cell therefore stands for which
//! cell it is, never for what it holds at some moment.

use crate::key::{
    lemma_same_key_reflexive, lemma_same_key_symmetric, lemma_same_key_transitive, same_key, Key,
    KeyView, Label,
};
use metrics_util::registry::{AtomicStorage, Registry, Storage};
use metrics_util::storage::AtomicBucket;
use std::sync::atomic::AtomicU64;
use std::sync::Arc;
use vstd::prelude::*;

verus! {

/// The bucket of samples behind a histogram, declared so that a cell can be
/// handed on.
#[verifier::external_type_specification]
#[verifier::external_body]
#[verifier::reject_recursive_types(T)]
pub struct ExAtomicBucket<T>(AtomicBucket<T>);

/// The handle with which instrumented code adds to a counter.
#[verifier::external_type_specification]
#[verifier::external_body]
pub struct ExCounter(metrics::Counter);

/// The handle with which instrumented code sets a gauge.
#[verifier::external_type_specification]
#[verifier::external_body]
pub struct ExGauge(metrics::Gauge);

/// The handle with which instrumented code records into a histogram.
#[verifier::external_type_specification]
#[verifier::external_body]
pub struct ExHistogram(metrics::Histogram);

/// A shared 64-bit cell that is added to.
pub type CounterCell = Arc<AtomicU64>;

/// A shared 64-bit cell that holds the bits of the last value set.
pub type GaugeCell = Arc<AtomicU64>;

/// A shared bucket of samples that is emptied as a whole.
pub type HistogramCell = <AtomicStorage as Storage<metrics::Key>>::Histogram;

/// Whether a map of cells holds one for the metric that `key` addresses.
pub open spec fn registered<C>(cells: Map<KeyView, C>, key: KeyView) -> bool {
    exists|stored: KeyView| cells.dom().contains(stored) && #[trigger] same_key(stored, key)
}

/// The key under which a map of cells keeps the metric that `key` addresses.
pub open spec fn stored_key<C>(cells: Map<KeyView, C>, key: KeyView) -> KeyView {
    choose|stored: KeyView| cells.dom().contains(stored) && #[trigger] same_key(stored, key)
}

/// The cell that a map of cells holds for the metric that `key` addresses.
pub open spec fn cell_of<C>(cells: Map<KeyView, C>, key: KeyView) -> Option<C> {
    if registered(cells, key) {
        Some(cells[stored_key(cells, key)])
    } else {
        None
    }
}

/// The map of cells after asking for the cell of `key`, where `cell` is what
/// would be put in: unchanged if the metric has a cell, else with `cell`
/// under `key`.
pub open spec fn with_cell<C>(cells: Map<KeyView, C>, key: KeyView, cell: C) -> Map<KeyView, C> {
    if registered(cells, key) {
        cells
    } else {
        cells.insert(key, cell)
    }
}

/// No two keys of the map address the same metric.
pub open spec fn distinct_identities<C>(cells: Map<KeyView, C>) -> bool {
    forall|a: KeyView, b: KeyView|
        cells.dom().contains(a) && cells.dom().contains(b) && #[trigger] same_key(a, b) ==> a == b
}

/// Whether a map of cells holds `cell` for some metric.
pub open spec fn holds_cell<C>(cells: Map<KeyView, C>, cell: C) -> bool {
    exists|key: KeyView| cells.dom().contains(key) && (#[trigger] cells[key]) == cell
}

/// No two metrics of the map have the same cell.
pub open spec fn distinct_cells<C>(cells: Map<KeyView, C>) -> bool {
    forall|a: KeyView, b: KeyView|
        #![trigger cells[a], cells[b]]
        cells.dom().contains(a) && cells.dom().contains(b) && a != b ==> cells[a] != cells[b]
}

/// No metric of one map has the cell of a metric of the other.
pub open spec fn no_shared_cell<C>(one: Map<KeyView, C>, other: Map<KeyView, C>) -> bool {
    forall|a: KeyView, b: KeyView|
        #![trigger one[a], other[b]]
        one.dom().contains(a) && other.dom().contains(b) ==> one[a] != other[b]
}

/// After the cell of a key was asked for, the map holds the metric that the
/// key addresses.
pub proof fn lemma_with_cell_registers<C>(cells: Map<KeyView, C>, key: KeyView, cell: C)
    ensures
        registered(with_cell(cells, key, cell), key),
{
    if !registered(cells, key) {
        let after = cells.insert(key, cell);
        lemma_same_key_reflexive(key);
        assert(after.dom().contains(key) && same_key(key, key));
    }
}

/// Asking for a cell keeps the stored keys apart.
pub proof fn lemma_with_cell_keeps_distinct<C>(cells: Map<KeyView, C>, key: KeyView, cell: C)
    requires
        distinct_identities(cells),
    ensures
        distinct_identities(with_cell(cells, key, cell)),
{
    let after = with_cell(cells, key, cell);
    if !registered(cells, key) {
        assert forall|a: KeyView, b: KeyView|
            #![trigger same_key(a, b)]
            after.dom().contains(a) && after.dom().contains(b) && same_key(a, b) implies a
            == b by {
            if a != b {
                if a == key {
                    assert(same_key(b, key));
                } else if b == key {
                    assert(same_key(a, key));
                }
            }
        }
    }
}

/// Asking for a cell keeps the cells apart, as long as a metric that is
/// not stored yet gets a cell that no stored metric has.
pub proof fn lemma_with_cell_keeps_cells_apart<C>(
    cells: Map<KeyView, C>,
    other: Map<KeyView, C>,
    key: KeyView,
    cell: C,
)
    requires
        distinct_cells(cells),
        no_shared_cell(cells, other),
        registered(cells, key) || (!holds_cell(cells, cell) && !holds_cell(other, cell)),
    ensures
        distinct_cells(with_cell(cells, key, cell)),
        no_shared_cell(with_cell(cells, key, cell), other),
        no_shared_cell(other, with_cell(cells, key, cell)),
{
    let after = with_cell(cells, key, cell);
    if !registered(cells, key) {
        assert forall|a: KeyView, b: KeyView|
            #![trigger after[a], after[b]]
            after.dom().contains(a) && after.dom().contains(b) && a != b implies after[a]
            != after[b] by {
            if a == key {
                assert(cells.dom().contains(b) && cells[b] == after[b]);
            } else if b == key {
                assert(cells.dom().contains(a) && cells[a] == after[a]);
            }
        }
        assert forall|a: KeyView, b: KeyView|
            #![trigger after[a], other[b]]
            after.dom().contains(a) && other.dom().contains(b) implies after[a] != other[b] by {
            if a == key {
                assert(other.dom().contains(b) && other[b] == other[b]);
            }
        }
    }
    assert forall|a: KeyView, b: KeyView|
        #![trigger other[a], after[b]]
        other.dom().contains(a) && after.dom().contains(b) implies other[a] != after[b] by {
        assert(after[b] != other[a]);
    }
}

/// Two keys that address the same metric find the same stored key, where no
/// metric is stored twice.
pub proof fn lemma_stored_key_of_same_metric<C>(cells: Map<KeyView, C>, a: KeyView, b: KeyView)
    requires
        distinct_identities(cells),
        same_key(a, b),
    ensures
        registered(cells, a) == registered(cells, b),
        registered(cells, a) ==> stored_key(cells, a) == stored_key(cells, b),
        cell_of(cells, a) == cell_of(cells, b),
{
    if registered(cells, a) {
        let s = stored_key(cells, a);
        assert(same_key(s, b));
        let t = stored_key(cells, b);
        assert(same_key(s, t));
    }
    if registered(cells, b) {
        let t = stored_key(cells, b);
        assert(same_key(t, a));
    }
}

/// Metrics that differ have cells that differ: two keys that address
/// different stored metrics find different cells.
pub proof fn lemma_different_metrics_have_different_cells<C>(
    cells: Map<KeyView, C>,
    a: KeyView,
    b: KeyView,
)
    requires
        distinct_cells(cells),
        registered(cells, a),
        registered(cells, b),
        !same_key(a, b),
    ensures
        cell_of(cells, a) != cell_of(cells, b),
{
    let s = stored_key(cells, a);
    let t = stored_key(cells, b);
    if s == t {
        lemma_same_key_symmetric(s, a);
        lemma_same_key_transitive(a, s, b);
    }
}

/// Asking twice for the cell of one metric gives the same cell twice, and
/// the second request leaves the map as the first left it. The two keys
/// may differ as long as they address the same metric; `first` and `second`
/// are what the two requests gave.
pub proof fn lemma_get_or_create_twice<C>(
    cells: Map<KeyView, C>,
    first_key: KeyView,
    first: C,
    second_key: KeyView,
    second: C,
)
    requires
        distinct_identities(cells),
        same_key(first_key, second_key),
        cell_of(with_cell(cells, first_key, first), first_key) == Some(first),
        cell_of(
            with_cell(with_cell(cells, first_key, first), second_key, second),
            second_key,
        ) == Some(second),
    ensures
        with_cell(with_cell(cells, first_key, first), second_key, second) == with_cell(
            cells,
            first_key,
            first,
        ),
        second == first,
{
    let after = with_cell(cells, first_key, first);
    lemma_with_cell_registers(cells, first_key, first);
    lemma_with_cell_keeps_distinct(cells, first_key, first);
    lemma_stored_key_of_same_metric(after, first_key, second_key);
}

/// Whether `entries` has an entry for `key`.
pub open spec fn lists_key<C>(entries: Seq<(Key, C)>, key: KeyView) -> bool {
    exists|i: int| 0 <= i < entries.len() && #[trigger] entries[i].0@ == key
}

/// `entries` lists the map of cells: each entry is a key of the map with its
/// cell, each key of the map has an entry, and no key comes twice.
pub open spec fn lists_cells<C>(entries: Seq<(Key, C)>, cells: Map<KeyView, C>) -> bool {
    &&& forall|i: int|
        0 <= i < entries.len() ==> cells.dom().contains(#[trigger] entries[i].0@)
            && cells[entries[i].0@] == entries[i].1
    &&& forall|key: KeyView| cells.dom().contains(key) ==> #[trigger] lists_key(entries, key)
    &&& forall|i: int, j: int|
        0 <= i < j < entries.len() ==> #[trigger] entries[i].0@ != #[trigger] entries[j].0@
}

/// The registry of `metrics_util` that keeps the cells, with `metrics`'s key
/// as its key and atomic cells as its storage.
#[verifier::external_body]
pub struct CellStore {
    registry: Registry<metrics::Key, AtomicStorage>,
}

/// The counters that a store holds: for each stored key, its cell.
pub uninterp spec fn counter_cells(store: CellStore) -> Map<KeyView, CounterCell>;

/// The gauges that a store holds: for each stored key, its cell.
pub uninterp spec fn gauge_cells(store: CellStore) -> Map<KeyView, GaugeCell>;

/// The histograms that a store holds: for each stored key, its cell.
pub uninterp spec fn histogram_cells(store: CellStore) -> Map<KeyView, HistogramCell>;

/// Calls `Registry::atomic` of `metrics_util`.
///
/// Trusted: the new registry holds no counter, gauge or histogram.
#[verifier::external_body]
pub(crate) fn new_cell_store() -> (store: CellStore)
    ensures
        counter_cells(store) == (Map::<KeyView, CounterCell>::empty()),
        gauge_cells(store) == (Map::<KeyView, GaugeCell>::empty()),
        histogram_cells(store) == (Map::<KeyView, HistogramCell>::empty()),
{
    CellStore { registry: Registry::atomic() }
}

/// Calls `Registry::get_or_create_counter` of `metrics_util` with `key`
/// written as a key of `metrics`, and takes a share of the cell.
///
/// Trusted: a metric that has a counter keeps it and the maps stay as they
/// are; a metric that has none gets a cell under `key` that is newly made,
/// so that no counter or gauge has it yet. The cell of the metric comes
/// back. Whether two keys address one metric is decided by the equality of
/// `metrics`'s keys, which `same_key` states. The call does not unwind.
#[verifier::external_body]
pub(crate) fn store_counter(store: &mut CellStore, key: &Key) -> (cell: CounterCell)
    ensures
        counter_cells(*final(store)) == with_cell(counter_cells(*old(store)), key@, cell),
        cell_of(counter_cells(*final(store)), key@) == Some(cell),
        registered(counter_cells(*old(store)), key@) || !holds_cell(counter_cells(*old(store)), cell),
        registered(counter_cells(*old(store)), key@) || !holds_cell(gauge_cells(*old(store)), cell),
        gauge_cells(*final(store)) == gauge_cells(*old(store)),
        histogram_cells(*final(store)) == histogram_cells(*old(store)),
    no_unwind
{
    let labels: Vec<metrics::Label> =
        key.labels.iter().map(|l| metrics::Label::new(l.key.clone(), l.value.clone())).collect();
    let outside = metrics::Key::from_parts(key.name.clone(), labels);
    store.registry.get_or_create_counter(&outside, Arc::clone)
}

/// Calls `Registry::get_or_create_gauge` of `metrics_util` with `key`
/// written as a key of `metrics`, and takes a share of the cell.
///
/// Trusted: as for counters, on the map of gauges.
#[verifier::external_body]
pub(crate) fn store_gauge(store: &mut CellStore, key: &Key) -> (cell: GaugeCell)
    ensures
        gauge_cells(*final(store)) == with_cell(gauge_cells(*old(store)), key@, cell),
        cell_of(gauge_cells(*final(store)), key@) == Some(cell),
        registered(gauge_cells(*old(store)), key@) || !holds_cell(gauge_cells(*old(store)), cell),
        registered(gauge_cells(*old(store)), key@) || !holds_cell(counter_cells(*old(store)), cell),
        counter_cells(*final(store)) == counter_cells(*old(store)),
        histogram_cells(*final(store)) == histogram_cells(*old(store)),
    no_unwind
{
    let labels: Vec<metrics::Label> =
        key.labels.iter().map(|l| metrics::Label::new(l.key.clone(), l.value.clone())).collect();
    let outside = metrics::Key::from_parts(key.name.clone(), labels);
    store.registry.get_or_create_gauge(&outside, Arc::clone)
}

/// Calls `Registry::get_or_create_histogram` of `metrics_util` with `key`
/// written as a key of `metrics`, and takes a share of the cell.
///
/// Trusted: as for counters, on the map of histograms.
#[verifier::external_body]
pub(crate) fn store_histogram(store: &mut CellStore, key: &Key) -> (cell: HistogramCell)
    ensures
        histogram_cells(*final(store)) == with_cell(histogram_cells(*old(store)), key@, cell),
        cell_of(histogram_cells(*final(store)), key@) == Some(cell),
        registered(histogram_cells(*old(store)), key@) || !holds_cell(
            histogram_cells(*old(store)),
            cell,
        ),
        counter_cells(*final(store)) == counter_cells(*old(store)),
        gauge_cells(*final(store)) == gauge_cells(*old(store)),
    no_unwind
{
    let labels: Vec<metrics::Label> =
        key.labels.iter().map(|l| metrics::Label::new(l.key.clone(), l.value.clone())).collect();
    let outside = metrics::Key::from_parts(key.name.clone(), labels);
    store.registry.get_or_create_histogram(&outside, Arc::clone)
}

/// Calls `Registry::visit_counters` of `metrics_util` and collects what it
/// visits, each key written as a key of this library.
///
/// Trusted: the visit comes to every stored counter once, in no stated order.
#[verifier::external_body]
pub(crate) fn stored_counters(store: &CellStore) -> (entries: Vec<(Key, CounterCell)>)
    ensures
        lists_cells(entries@, counter_cells(*store)),
{
    let mut entries = Vec::new();
    store.registry.visit_counters(|k, c| entries.push((k.clone(), c.clone())));
    let label = |l: &metrics::Label| Label { key: l.key().to_owned(), value: l.value().to_owned() };
    let own =
        |k: metrics::Key| Key { name: k.name().to_owned(), labels: k.labels().map(label).collect() };
    entries.into_iter().map(|(k, c)| (own(k), c)).collect()
}

/// Calls `Registry::visit_gauges` of `metrics_util` and collects what it
/// visits, each key written as a key of this library.
///
/// Trusted: the visit comes to every stored gauge once, in no stated order.
#[verifier::external_body]
pub(crate) fn stored_gauges(store: &CellStore) -> (entries: Vec<(Key, GaugeCell)>)
    ensures
        lists_cells(entries@, gauge_cells(*store)),
{
    let mut entries = Vec::new();
    store.registry.visit_gauges(|k, c| entries.push((k.clone(), c.clone())));
    let label = |l: &metrics::Label| Label { key: l.key().to_owned(), value: l.value().to_owned() };
    let own =
        |k: metrics::Key| Key { name: k.name().to_owned(), labels: k.labels().map(label).collect() };
    entries.into_iter().map(|(k, c)| (own(k), c)).collect()
}

/// Calls `Registry::visit_histograms` of `metrics_util` and collects what it
/// visits, each key written as a key of this library.
///
/// Trusted: the visit comes to every stored histogram once, in no stated
/// order.
#[verifier::external_body]
pub(crate) fn stored_histograms(store: &CellStore) -> (entries: Vec<(Key, HistogramCell)>)
    ensures
        lists_cells(entries@, histogram_cells(*store)),
{
    let mut entries = Vec::new();
    store.registry.visit_histograms(|k, c| entries.push((k.clone(), c.clone())));
    let label = |l: &metrics::Label| Label { key: l.key().to_owned(), value: l.value().to_owned() };
    let own =
        |k: metrics::Key| Key { name: k.name().to_owned(), labels: k.labels().map(label).collect() };
    entries.into_iter().map(|(k, c)| (own(k), c)).collect()
}

/// Calls `AtomicBucket::clear` of `metrics_util`, which discards the samples
/// that the bucket holds. Nothing is stated of it: what a cell holds is not
/// part of any contract.
#[verifier::external_body]
pub(crate) fn clear_bucket(cell: &HistogramCell) {
    cell.clear();
}

/// Calls `Counter::from_arc` of `metrics`: the handle adds to `cell`.
#[verifier::external_body]
pub(crate) fn counter_handle(cell: CounterCell) -> metrics::Counter {
    metrics::Counter::from_arc(cell)
}

/// Calls `Gauge::from_arc` of `metrics`: the handle sets `cell`.
#[verifier::external_body]
pub(crate) fn gauge_handle(cell: GaugeCell) -> metrics::Gauge {
    metrics::Gauge::from_arc(cell)
}

/// Calls `Histogram::from_arc` of `metrics`: the handle records into `cell`.
#[verifier::external_body]
pub(crate) fn histogram_handle(cell: HistogramCell) -> metrics::Histogram {
    metrics::Histogram::from_arc(cell)
}

} // verus!
