//! What a registry stands for, and what follows of it.
//!
//! The contracts of the registry speak of a [`RegistryView`]: for each kind
//! the cells by stored key, and the descriptions by name and kind. The
//! functions here say how each operation changes it; the lemmas say what
//! holds whatever the order of the operations.

use crate::description::MetricDescriptionView;
use crate::key::{description_key_of, same_key, KeyView, MetricKeyView, MetricKind};
use crate::result::{SearchResult, SearchResultView};
use crate::search::{
    is_substring, lemma_empty_query_matches, lemma_substring_matches, matches_query,
};
use crate::storage::{
    cell_of, distinct_cells, distinct_identities, holds_cell, lemma_get_or_create_twice,
    lemma_with_cell_keeps_cells_apart, lemma_with_cell_keeps_distinct, no_shared_cell,
    registered, with_cell, CounterCell, GaugeCell, HistogramCell,
};
use vstd::prelude::*;

verus! {

/// Whether two metric identities address the same metric: the kinds are
/// equal and the keys address the same metric.
pub open spec fn same_metric(a: MetricKeyView, b: MetricKeyView) -> bool {
    a.kind == b.kind && same_key(a.key, b.key)
}

/// Whether a name passes a query, where there is one.
pub open spec fn passes(query: Option<Seq<char>>, name: Seq<char>) -> bool {
    match query {
        Some(q) => matches_query(name, q),
        None => true,
    }
}

/// Whether `wanted` is among `results`.
pub open spec fn has_result(results: Seq<SearchResult>, wanted: SearchResultView) -> bool {
    exists|i: int| 0 <= i < results.len() && #[trigger] results[i]@ == wanted
}

/// What a registry stands for: for each kind the cells by stored key, and
/// the descriptions by name and kind.
pub struct RegistryView {
    pub counters: Map<KeyView, CounterCell>,
    pub gauges: Map<KeyView, GaugeCell>,
    pub histograms: Map<KeyView, HistogramCell>,
    pub descriptions: Map<(Seq<char>, MetricKind), MetricDescriptionView>,
}

impl RegistryView {
    /// The registry without metrics and descriptions.
    pub open spec fn empty() -> Self {
        RegistryView {
            counters: Map::empty(),
            gauges: Map::empty(),
            histograms: Map::empty(),
            descriptions: Map::empty(),
        }
    }

    /// No metric has two cells and no cell belongs to two metrics: of each
    /// kind, no two stored keys address the same metric, and the cells of
    /// different stored keys are different cells.
    pub open spec fn valid(self) -> bool {
        &&& distinct_identities(self.counters)
        &&& distinct_identities(self.gauges)
        &&& distinct_identities(self.histograms)
        &&& distinct_cells(self.counters)
        &&& distinct_cells(self.gauges)
        &&& distinct_cells(self.histograms)
        &&& no_shared_cell(self.counters, self.gauges)
    }

    /// Whether no counter and no gauge has `cell`.
    pub open spec fn unused_cell(self, cell: CounterCell) -> bool {
        !holds_cell(self.counters, cell) && !holds_cell(self.gauges, cell)
    }

    /// Whether no histogram has `cell`.
    pub open spec fn unused_bucket(self, cell: HistogramCell) -> bool {
        !holds_cell(self.histograms, cell)
    }

    /// The registry after the counter of `key` was asked for: unchanged if
    /// the metric is stored, else with `cell` under `key`.
    pub open spec fn with_counter(self, key: KeyView, cell: CounterCell) -> Self {
        RegistryView {
            counters: with_cell(self.counters, key, cell),
            gauges: self.gauges,
            histograms: self.histograms,
            descriptions: self.descriptions,
        }
    }

    /// The registry after the gauge of `key` was asked for: unchanged if the
    /// metric is stored, else with `cell` under `key`.
    pub open spec fn with_gauge(self, key: KeyView, cell: GaugeCell) -> Self {
        RegistryView {
            counters: self.counters,
            gauges: with_cell(self.gauges, key, cell),
            histograms: self.histograms,
            descriptions: self.descriptions,
        }
    }

    /// The registry after the histogram of `key` was asked for: unchanged if
    /// the metric is stored, else with `cell` under `key`.
    pub open spec fn with_histogram(self, key: KeyView, cell: HistogramCell) -> Self {
        RegistryView {
            counters: self.counters,
            gauges: self.gauges,
            histograms: with_cell(self.histograms, key, cell),
            descriptions: self.descriptions,
        }
    }

    /// The registry after a description was offered for `key`: the first
    /// description of a name and kind stays, a later one is dropped.
    pub open spec fn described(
        self,
        key: (Seq<char>, MetricKind),
        description: MetricDescriptionView,
    ) -> Self {
        if self.descriptions.dom().contains(key) {
            self
        } else {
            RegistryView {
                counters: self.counters,
                gauges: self.gauges,
                histograms: self.histograms,
                descriptions: self.descriptions.insert(key, description),
            }
        }
    }

    /// The description kept for a name and kind, if there is one.
    pub open spec fn description_of(self, key: (Seq<char>, MetricKind)) -> Option<
        MetricDescriptionView,
    > {
        if self.descriptions.dom().contains(key) {
            Some(self.descriptions[key])
        } else {
            None
        }
    }

    /// Whether the registry stores `metric`, under this very key.
    pub open spec fn has_metric(self, metric: MetricKeyView) -> bool {
        match metric.kind {
            MetricKind::Counter => self.counters.dom().contains(metric.key),
            MetricKind::Gauge => self.gauges.dom().contains(metric.key),
            MetricKind::Histogram => self.histograms.dom().contains(metric.key),
        }
    }

    /// Whether `result` is the search result of a stored metric: its key is
    /// stored and its description is the one kept for its name and kind.
    pub open spec fn lists(self, result: SearchResultView) -> bool {
        self.has_metric(result.key) && result.description == self.description_of(
            description_key_of(result.key),
        )
    }

    /// Whether `result` belongs to the answer to a search: it is the result
    /// of a stored metric whose name passes the query, where there is one.
    pub open spec fn wanted(self, query: Option<Seq<char>>, result: SearchResultView) -> bool {
        self.lists(result) && passes(query, result.key.key.name)
    }

    /// Whether `results` is the answer to a search, in some order: every
    /// result is wanted, every wanted result is there, and no metric comes
    /// twice.
    pub open spec fn answers(self, query: Option<Seq<char>>, results: Seq<SearchResult>) -> bool {
        &&& forall|i: int| 0 <= i < results.len() ==> self.wanted(query, #[trigger] results[i]@)
        &&& forall|wanted: SearchResultView|
            self.wanted(query, wanted) ==> #[trigger] has_result(results, wanted)
        &&& forall|i: int, j: int|
            0 <= i < j < results.len() ==> !#[trigger] same_metric(
                results[i]@.key,
                results[j]@.key,
            )
    }
}

/// The registry stays in order when the counter of a key is asked for and a
/// metric that is not stored yet gets a cell that no metric has.
pub proof fn lemma_with_counter_stays_valid(view: RegistryView, key: KeyView, cell: CounterCell)
    requires
        view.valid(),
        registered(view.counters, key) || view.unused_cell(cell),
    ensures
        view.with_counter(key, cell).valid(),
{
    lemma_with_cell_keeps_distinct(view.counters, key, cell);
    lemma_with_cell_keeps_cells_apart(view.counters, view.gauges, key, cell);
}

/// The registry stays in order when the gauge of a key is asked for and a
/// metric that is not stored yet gets a cell that no metric has.
pub proof fn lemma_with_gauge_stays_valid(view: RegistryView, key: KeyView, cell: GaugeCell)
    requires
        view.valid(),
        registered(view.gauges, key) || view.unused_cell(cell),
    ensures
        view.with_gauge(key, cell).valid(),
{
    assert(no_shared_cell(view.gauges, view.counters)) by {
        assert forall|a: KeyView, b: KeyView|
            #![trigger view.gauges[a], view.counters[b]]
            view.gauges.dom().contains(a) && view.counters.dom().contains(b) implies view.gauges[a]
            != view.counters[b] by {
            assert(view.counters[b] != view.gauges[a]);
        }
    }
    lemma_with_cell_keeps_distinct(view.gauges, key, cell);
    lemma_with_cell_keeps_cells_apart(view.gauges, view.counters, key, cell);
}

/// The registry stays in order when the histogram of a key is asked for and
/// a metric that is not stored yet gets a cell that no metric has.
pub proof fn lemma_with_histogram_stays_valid(
    view: RegistryView,
    key: KeyView,
    cell: HistogramCell,
)
    requires
        view.valid(),
        registered(view.histograms, key) || view.unused_bucket(cell),
    ensures
        view.with_histogram(key, cell).valid(),
{
    lemma_with_cell_keeps_distinct(view.histograms, key, cell);
    lemma_with_cell_keeps_cells_apart(view.histograms, Map::empty(), key, cell);
}

/// Asking for a counter twice gives the same cell twice and changes the
/// registry once. The two keys may differ as long as they address the same
/// metric; `first` and `second` are the cells that the two requests gave.
pub proof fn lemma_counter_registered_once(
    view: RegistryView,
    first_key: KeyView,
    first: CounterCell,
    second_key: KeyView,
    second: CounterCell,
)
    requires
        view.valid(),
        same_key(first_key, second_key),
        cell_of(view.with_counter(first_key, first).counters, first_key) == Some(first),
        cell_of(
            view.with_counter(first_key, first).with_counter(second_key, second).counters,
            second_key,
        ) == Some(second),
    ensures
        view.with_counter(first_key, first).with_counter(second_key, second) == view.with_counter(
            first_key,
            first,
        ),
        second == first,
{
    lemma_get_or_create_twice(view.counters, first_key, first, second_key, second);
}

/// Asking for a gauge twice gives the same cell twice and changes the
/// registry once.
pub proof fn lemma_gauge_registered_once(
    view: RegistryView,
    first_key: KeyView,
    first: GaugeCell,
    second_key: KeyView,
    second: GaugeCell,
)
    requires
        view.valid(),
        same_key(first_key, second_key),
        cell_of(view.with_gauge(first_key, first).gauges, first_key) == Some(first),
        cell_of(
            view.with_gauge(first_key, first).with_gauge(second_key, second).gauges,
            second_key,
        ) == Some(second),
    ensures
        view.with_gauge(first_key, first).with_gauge(second_key, second) == view.with_gauge(
            first_key,
            first,
        ),
        second == first,
{
    lemma_get_or_create_twice(view.gauges, first_key, first, second_key, second);
}

/// Asking for a histogram twice gives the same cell twice and changes the
/// registry once.
pub proof fn lemma_histogram_registered_once(
    view: RegistryView,
    first_key: KeyView,
    first: HistogramCell,
    second_key: KeyView,
    second: HistogramCell,
)
    requires
        view.valid(),
        same_key(first_key, second_key),
        cell_of(view.with_histogram(first_key, first).histograms, first_key) == Some(first),
        cell_of(
            view.with_histogram(first_key, first).with_histogram(second_key, second).histograms,
            second_key,
        ) == Some(second),
    ensures
        view.with_histogram(first_key, first).with_histogram(second_key, second)
            == view.with_histogram(first_key, first),
        second == first,
{
    lemma_get_or_create_twice(view.histograms, first_key, first, second_key, second);
}

/// The first description of a name and kind wins: describing it again
/// changes nothing, and where there was none before, the first is kept.
pub proof fn lemma_first_description_wins(
    view: RegistryView,
    key: (Seq<char>, MetricKind),
    first: MetricDescriptionView,
    second: MetricDescriptionView,
)
    ensures
        view.described(key, first).described(key, second) == view.described(key, first),
        view.description_of(key) is None ==> view.described(key, first).described(
            key,
            second,
        ).description_of(key) == Some(first),
        view.description_of(key) is Some ==> view.described(key, first).described(
            key,
            second,
        ).description_of(key) == view.description_of(key),
{
}

/// Describing a metric and asking for its cell do not depend on each other:
/// either order gives the same registry.
pub proof fn lemma_describe_and_register_commute(
    view: RegistryView,
    described: (Seq<char>, MetricKind),
    description: MetricDescriptionView,
    key: KeyView,
    cell: CounterCell,
    bucket: HistogramCell,
)
    ensures
        view.described(described, description).with_counter(key, cell) == view.with_counter(
            key,
            cell,
        ).described(described, description),
        view.described(described, description).with_gauge(key, cell) == view.with_gauge(
            key,
            cell,
        ).described(described, description),
        view.described(described, description).with_histogram(key, bucket) == view.with_histogram(
            key,
            bucket,
        ).described(described, description),
{
}

/// All label variants of a name and kind share one description.
pub proof fn lemma_variants_share_description(
    view: RegistryView,
    a: SearchResultView,
    b: SearchResultView,
)
    requires
        view.lists(a),
        view.lists(b),
        a.key.key.name == b.key.key.name,
        a.key.kind == b.key.kind,
    ensures
        a.description == b.description,
{
}

/// A search with the empty query is a listing of all metrics.
pub proof fn lemma_empty_query_lists_all(view: RegistryView, results: Seq<SearchResult>)
    ensures
        forall|result: SearchResultView| #[trigger]
            view.wanted(Some(Seq::empty()), result) == view.wanted(None, result),
        view.answers(Some(Seq::empty()), results) == view.answers(None, results),
{
    assert forall|result: SearchResultView| #[trigger]
        view.wanted(Some(Seq::empty()), result) == view.wanted(None, result) by {
        lemma_empty_query_matches(result.key.key.name);
    }
}

/// A query that is a contiguous part of the name of a stored metric finds
/// that metric.
pub proof fn lemma_substring_query_finds_metric(
    view: RegistryView,
    query: Seq<char>,
    result: SearchResultView,
    results: Seq<SearchResult>,
)
    requires
        view.lists(result),
        is_substring(query, result.key.key.name),
        view.answers(Some(query), results),
    ensures
        view.wanted(Some(query), result),
        has_result(results, result),
{
    lemma_substring_matches(result.key.key.name, query);
}

} // verus!
