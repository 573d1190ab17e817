//! The registry: the cells of all metrics and their descriptions behind one
//! facade.
//!
//! The registry is an ordinary value: what changes it takes it by `&mut`,
//! so that a contract can say what it was before and what it is after.
//! Whoever shares it between threads wraps it. The cells that it hands out
//! are shared as they are: recording into a metric never goes through the
//! registry again, and a cell lives as long as the registry or a handle
//! holds it.

use crate::description::{
    code_of_kind, description_entries, description_get, description_insert,
    new_description_map, MetricDescription, MetricDescriptionView, Unit,
};
use crate::key::{DescriptionKey, Key, MetricKind};
use crate::listing::{
    descriptions_by_kind, kind_results, lemma_answers_from_parts, lemma_insert_by_kind,
    query_view,
};
use crate::result::{description_view, SearchResult};
use crate::storage::{
    cell_of, clear_bucket, counter_cells, counter_handle, gauge_cells, gauge_handle,
    histogram_cells, histogram_handle, new_cell_store, registered, store_counter, store_gauge,
    store_histogram, stored_counters, stored_gauges, stored_histograms, with_cell, CellStore,
    CounterCell, GaugeCell, HistogramCell,
};
use crate::view::{
    lemma_with_counter_stays_valid, lemma_with_gauge_stays_valid,
    lemma_with_histogram_stays_valid, RegistryView,
};
use bevy::platform::collections::HashMap;
use vstd::prelude::*;

verus! {

/// Keeps every metric of the process: its cells, one for each name, label
/// set and kind, and its descriptions, one for each name and kind.
pub struct MetricsRegistry {
    cells: CellStore,
    descriptions: HashMap<(String, u8), MetricDescription>,
}

impl View for MetricsRegistry {
    type V = RegistryView;

    closed spec fn view(&self) -> RegistryView {
        RegistryView {
            counters: counter_cells(self.cells),
            gauges: gauge_cells(self.cells),
            histograms: histogram_cells(self.cells),
            descriptions: descriptions_by_kind(description_entries(self.descriptions)),
        }
    }
}

impl MetricsRegistry {
    /// No metric has two cells and no cell belongs to two metrics.
    #[verifier::type_invariant]
    spec fn wf(&self) -> bool {
        self@.valid()
    }

    /// Creates an empty registry.
    pub fn new() -> (registry: Self)
        ensures
            registry@ == RegistryView::empty(),
    {
        let registry = MetricsRegistry {
            cells: new_cell_store(),
            descriptions: new_description_map(),
        };
        assert(registry@.descriptions =~= Map::empty());
        registry
    }

    /// Gives the cell of the counter that `key` addresses, and makes the
    /// counter first if there is none. A counter that is made gets a cell
    /// that no other metric has.
    pub fn get_or_create_counter(&mut self, key: &Key) -> (cell: CounterCell)
        ensures
            final(self)@ == old(self)@.with_counter(key@, cell),
            cell_of(final(self)@.counters, key@) == Some(cell),
            registered(old(self)@.counters, key@) || old(self)@.unused_cell(cell),
            final(self)@.valid(),
    {
        proof {
            use_type_invariant(&*self);
            let view = self@;
            assert forall|cell: CounterCell|
                #![trigger with_cell(view.counters, key@, cell)]
                registered(view.counters, key@) || view.unused_cell(cell) implies view.with_counter(
                key@,
                cell,
            ).valid() by {
                lemma_with_counter_stays_valid(view, key@, cell);
            }
        }
        store_counter(&mut self.cells, key)
    }

    /// Gives the cell of the gauge that `key` addresses, and makes the
    /// gauge first if there is none. A gauge that is made gets a cell that
    /// no other metric has.
    pub fn get_or_create_gauge(&mut self, key: &Key) -> (cell: GaugeCell)
        ensures
            final(self)@ == old(self)@.with_gauge(key@, cell),
            cell_of(final(self)@.gauges, key@) == Some(cell),
            registered(old(self)@.gauges, key@) || old(self)@.unused_cell(cell),
            final(self)@.valid(),
    {
        proof {
            use_type_invariant(&*self);
            let view = self@;
            assert forall|cell: GaugeCell|
                #![trigger with_cell(view.gauges, key@, cell)]
                registered(view.gauges, key@) || view.unused_cell(cell) implies view.with_gauge(
                key@,
                cell,
            ).valid() by {
                lemma_with_gauge_stays_valid(view, key@, cell);
            }
        }
        store_gauge(&mut self.cells, key)
    }

    /// Gives the cell of the histogram that `key` addresses, and makes the
    /// histogram first if there is none. A histogram that is made gets a
    /// cell that no other metric has.
    pub fn get_or_create_histogram(&mut self, key: &Key) -> (cell: HistogramCell)
        ensures
            final(self)@ == old(self)@.with_histogram(key@, cell),
            cell_of(final(self)@.histograms, key@) == Some(cell),
            registered(old(self)@.histograms, key@) || old(self)@.unused_bucket(cell),
            final(self)@.valid(),
    {
        proof {
            use_type_invariant(&*self);
            let view = self@;
            assert forall|cell: HistogramCell|
                #![trigger with_cell(view.histograms, key@, cell)]
                registered(view.histograms, key@) || view.unused_bucket(cell)
                implies view.with_histogram(key@, cell).valid() by {
                lemma_with_histogram_stays_valid(view, key@, cell);
            }
        }
        store_histogram(&mut self.cells, key)
    }

    /// Gives a copy of the description kept under `key`, if there is one.
    pub fn get_description(&self, key: &DescriptionKey) -> (found: Option<MetricDescription>)
        ensures
            description_view(found) == self@.description_of(key@),
    {
        let code = code_of_kind(key.kind);
        match description_get(&self.descriptions, key.name.as_str(), code) {
            Some(found) => Some(found.clone()),
            None => None,
        }
    }

    /// Keeps `description` under `key` unless a description is kept there
    /// already.
    fn add_description_if_missing(&mut self, key: DescriptionKey, description: MetricDescription)
        ensures
            final(self)@ == old(self)@.described(key@, description@),
            final(self)@.valid(),
    {
        proof {
            use_type_invariant(&*self);
        }
        let code = code_of_kind(key.kind);
        if description_get(&self.descriptions, key.name.as_str(), code).is_none() {
            proof {
                lemma_insert_by_kind(
                    description_entries(self.descriptions),
                    key.name@,
                    key.kind,
                    description@,
                );
            }
            description_insert(&mut self.descriptions, key.name, code, description);
        }
    }

    /// Describes the counters called `name`. The first description of a
    /// name stays; describing it again changes nothing.
    pub fn describe_counter(&mut self, name: &str, unit: Option<Unit>, description: &str)
        ensures
            final(self)@ == old(self)@.described(
                (name@, MetricKind::Counter),
                (MetricDescriptionView { unit, text: description@ }),
            ),
            final(self)@.valid(),
    {
        self.add_description_if_missing(
            DescriptionKey::new(name, MetricKind::Counter),
            MetricDescription::new(unit, description),
        );
    }

    /// Describes the gauges called `name`. The first description of a name
    /// stays; describing it again changes nothing.
    pub fn describe_gauge(&mut self, name: &str, unit: Option<Unit>, description: &str)
        ensures
            final(self)@ == old(self)@.described(
                (name@, MetricKind::Gauge),
                (MetricDescriptionView { unit, text: description@ }),
            ),
            final(self)@.valid(),
    {
        self.add_description_if_missing(
            DescriptionKey::new(name, MetricKind::Gauge),
            MetricDescription::new(unit, description),
        );
    }

    /// Describes the histograms called `name`. The first description of a
    /// name stays; describing it again changes nothing.
    pub fn describe_histogram(&mut self, name: &str, unit: Option<Unit>, description: &str)
        ensures
            final(self)@ == old(self)@.described(
                (name@, MetricKind::Histogram),
                (MetricDescriptionView { unit, text: description@ }),
            ),
            final(self)@.valid(),
    {
        self.add_description_if_missing(
            DescriptionKey::new(name, MetricKind::Histogram),
            MetricDescription::new(unit, description),
        );
    }

    /// Registers the counter that `key` addresses, as
    /// [`get_or_create_counter`](Self::get_or_create_counter) does, and
    /// gives a handle that adds to its cell.
    pub fn register_counter(&mut self, key: &Key) -> (handle: metrics::Counter)
        ensures
            cell_of(final(self)@.counters, key@) is Some,
            final(self)@ == old(self)@.with_counter(
                key@,
                cell_of(final(self)@.counters, key@)->0,
            ),
            registered(old(self)@.counters, key@) || old(self)@.unused_cell(
                cell_of(final(self)@.counters, key@)->0,
            ),
            final(self)@.valid(),
    {
        counter_handle(self.get_or_create_counter(key))
    }

    /// Registers the gauge that `key` addresses, as
    /// [`get_or_create_gauge`](Self::get_or_create_gauge) does, and gives a
    /// handle that sets its cell.
    pub fn register_gauge(&mut self, key: &Key) -> (handle: metrics::Gauge)
        ensures
            cell_of(final(self)@.gauges, key@) is Some,
            final(self)@ == old(self)@.with_gauge(key@, cell_of(final(self)@.gauges, key@)->0),
            registered(old(self)@.gauges, key@) || old(self)@.unused_cell(
                cell_of(final(self)@.gauges, key@)->0,
            ),
            final(self)@.valid(),
    {
        gauge_handle(self.get_or_create_gauge(key))
    }

    /// Registers the histogram that `key` addresses, as
    /// [`get_or_create_histogram`](Self::get_or_create_histogram) does, and
    /// gives a handle that records into its cell.
    pub fn register_histogram(&mut self, key: &Key) -> (handle: metrics::Histogram)
        ensures
            cell_of(final(self)@.histograms, key@) is Some,
            final(self)@ == old(self)@.with_histogram(
                key@,
                cell_of(final(self)@.histograms, key@)->0,
            ),
            registered(old(self)@.histograms, key@) || old(self)@.unused_bucket(
                cell_of(final(self)@.histograms, key@)->0,
            ),
            final(self)@.valid(),
    {
        histogram_handle(self.get_or_create_histogram(key))
    }

    /// Collects the search results of the stored metrics whose names pass
    /// the query: counters first, then gauges, then histograms.
    fn search(&self, query: Option<&str>) -> (results: Vec<SearchResult>)
        ensures
            self@.answers(query_view(query), results@),
            self@.valid(),
    {
        proof {
            use_type_invariant(self);
        }
        let counters = stored_counters(&self.cells);
        let mut results = kind_results(
            MetricKind::Counter,
            &counters,
            &self.descriptions,
            query,
            Ghost(self@.counters),
        );
        let ghost from_counters = results@;
        let gauges = stored_gauges(&self.cells);
        let mut part = kind_results(
            MetricKind::Gauge,
            &gauges,
            &self.descriptions,
            query,
            Ghost(self@.gauges),
        );
        let ghost from_gauges = part@;
        results.append(&mut part);
        let histograms = stored_histograms(&self.cells);
        let mut part = kind_results(
            MetricKind::Histogram,
            &histograms,
            &self.descriptions,
            query,
            Ghost(self@.histograms),
        );
        let ghost from_histograms = part@;
        results.append(&mut part);
        proof {
            lemma_answers_from_parts(
                self@,
                description_entries(self.descriptions),
                query_view(query),
                from_counters,
                from_gauges,
                from_histograms,
            );
        }
        results
    }

    /// Searches the registry for the metrics whose name matches `input`.
    ///
    /// A name matches when the characters of `input` occur in it in order;
    /// letters are compared with case only if `input` holds an upper-case
    /// ASCII letter. The empty `input` matches everything. The results come
    /// in no particular order.
    pub fn fuzzy_search_by_name(&self, input: &str) -> (results: Vec<SearchResult>)
        ensures
            self@.answers(Some(input@), results@),
            self@.valid(),
    {
        self.search(Some(input))
    }

    /// Gives a search result for every registered metric, in no particular
    /// order.
    pub fn all_metrics(&self) -> (results: Vec<SearchResult>)
        ensures
            self@.answers(None, results@),
            self@.valid(),
    {
        self.search(None)
    }

    /// Discards the samples of every histogram. The histograms stay
    /// registered, each with its cell: the registry is only read.
    pub fn clear_atomic_buckets(&self) {
        let histograms = stored_histograms(&self.cells);
        let mut i: usize = 0;
        while i < histograms.len()
            invariant
                i <= histograms.len(),
            decreases histograms.len() - i,
        {
            clear_bucket(&histograms[i].1);
            i += 1;
        }
    }
}

impl Default for MetricsRegistry {
    fn default() -> (registry: Self)
        ensures
            registry@ == RegistryView::empty(),
    {
        Self::new()
    }
}

} // verus!
