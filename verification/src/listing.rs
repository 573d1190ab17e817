//! Making search results out of what the maps of cells list.

use crate::description::{
    code_of_kind, description_entries, description_get, kind_code, MetricDescription,
    MetricDescriptionView,
};
use crate::key::{DescriptionKey, Key, KeyView, MetricKey, MetricKeyView, MetricKind};
use crate::result::{SearchResult, SearchResultView};
use crate::search::name_matches;
use crate::storage::{lists_cells, lists_key};
use crate::view::{has_result, passes, same_metric, RegistryView};
use bevy::platform::collections::HashMap;
use vstd::prelude::*;

verus! {

/// The description kept under a name and a kind code, if there is one.
pub(crate) open spec fn entry_of(
    entries: Map<(Seq<char>, u8), MetricDescriptionView>,
    name: Seq<char>,
    kind: MetricKind,
) -> Option<MetricDescriptionView> {
    if entries.dom().contains((name, kind_code(kind))) {
        Some(entries[(name, kind_code(kind))])
    } else {
        None
    }
}

/// The descriptions of a description map, by name and kind.
pub(crate) open spec fn descriptions_by_kind(
    entries: Map<(Seq<char>, u8), MetricDescriptionView>,
) -> Map<(Seq<char>, MetricKind), MetricDescriptionView> {
    Map::new(
        |key: (Seq<char>, MetricKind)| entries.dom().contains((key.0, kind_code(key.1))),
        |key: (Seq<char>, MetricKind)| entries[(key.0, kind_code(key.1))],
    )
}

/// The search result for a stored key of the given kind: the metric's
/// identity and the description kept for its name and kind.
pub(crate) open spec fn result_for(
    key: KeyView,
    kind: MetricKind,
    entries: Map<(Seq<char>, u8), MetricDescriptionView>,
) -> SearchResultView {
    SearchResultView {
        key: MetricKeyView { key, kind },
        description: entry_of(entries, key.name, kind),
    }
}

/// What an optional query stands for.
pub(crate) open spec fn query_view(query: Option<&str>) -> Option<Seq<char>> {
    match query {
        Some(q) => Some(q@),
        None => None,
    }
}

/// Whether `part` is the answer to a search among the metrics of one kind,
/// whose stored keys are `keys`: each result is that of a stored key whose
/// name passes the query, each such key has its result, and no key comes
/// twice.
pub(crate) open spec fn kind_answers(
    keys: Set<KeyView>,
    kind: MetricKind,
    entries: Map<(Seq<char>, u8), MetricDescriptionView>,
    query: Option<Seq<char>>,
    part: Seq<SearchResult>,
) -> bool {
    &&& forall|i: int|
        0 <= i < part.len() ==> {
            &&& keys.contains((#[trigger] part[i]@).key.key)
            &&& passes(query, part[i]@.key.key.name)
            &&& part[i]@ == result_for(part[i]@.key.key, kind, entries)
        }
    &&& forall|key: KeyView|
        keys.contains(key) && passes(query, key.name) ==> #[trigger] has_result(
            part,
            result_for(key, kind, entries),
        )
    &&& forall|i: int, j: int|
        #![trigger part[i]@, part[j]@]
        0 <= i < j < part.len() ==> part[i]@.key.key != part[j]@.key.key
}

/// Whether `sources` names the entry `e`.
pub(crate) open spec fn has_source(sources: Seq<int>, e: int) -> bool {
    exists|k: int| 0 <= k < sources.len() && #[trigger] sources[k] == e
}

/// Putting a description under a name and kind code is putting it under
/// the name and kind.
pub(crate) proof fn lemma_insert_by_kind(
    entries: Map<(Seq<char>, u8), MetricDescriptionView>,
    name: Seq<char>,
    kind: MetricKind,
    description: MetricDescriptionView,
)
    ensures
        descriptions_by_kind(entries.insert((name, kind_code(kind)), description))
            == descriptions_by_kind(entries).insert((name, kind), description),
{
    let left = descriptions_by_kind(entries.insert((name, kind_code(kind)), description));
    let right = descriptions_by_kind(entries).insert((name, kind), description);
    assert forall|key: (Seq<char>, MetricKind)|
        left.dom().contains(key) == right.dom().contains(key) by {
        if key.0 == name && kind_code(key.1) == kind_code(kind) {
            assert(key.1 == kind);
            assert(key == (name, kind));
        }
    }
    assert forall|key: (Seq<char>, MetricKind)| left.dom().contains(key) implies left[key]
        == right[key] by {
        if key.0 == name && kind_code(key.1) == kind_code(kind) {
            assert(key.1 == kind);
            assert(key == (name, kind));
        }
    }
    assert(left =~= right);
}

/// Builds the search result of a stored key: the identity, and a copy of
/// the description kept for its name and kind.
pub(crate) fn make_search_result(
    kind: MetricKind,
    key: &Key,
    descriptions: &HashMap<(String, u8), MetricDescription>,
) -> (result: SearchResult)
    ensures
        result@ == result_for(key@, kind, description_entries(*descriptions)),
{
    let key = MetricKey::new(key.clone(), kind);
    let desc_key = DescriptionKey::from(&key);
    let code = code_of_kind(desc_key.kind);
    let description = match description_get(descriptions, desc_key.name.as_str(), code) {
        Some(found) => Some(found.clone()),
        None => None,
    };
    SearchResult { key, description }
}

/// Makes the search result of each entry whose name passes the query, in
/// the order of the entries. `cells` is the map that the entries list.
pub(crate) fn kind_results<C>(
    kind: MetricKind,
    entries: &Vec<(Key, C)>,
    descriptions: &HashMap<(String, u8), MetricDescription>,
    query: Option<&str>,
    Ghost(cells): Ghost<Map<KeyView, C>>,
) -> (part: Vec<SearchResult>)
    requires
        lists_cells(entries@, cells),
    ensures
        kind_answers(
            cells.dom(),
            kind,
            description_entries(*descriptions),
            query_view(query),
            part@,
        ),
{
    let ghost q = query_view(query);
    let ghost kept = description_entries(*descriptions);
    let mut part: Vec<SearchResult> = Vec::new();
    let ghost mut sources: Seq<int> = Seq::empty();
    let mut e: usize = 0;
    while e < entries.len()
        invariant
            e <= entries.len(),
            q == query_view(query),
            kept == description_entries(*descriptions),
            sources.len() == part@.len(),
            forall|k: int|
                0 <= k < sources.len() ==> {
                    &&& 0 <= #[trigger] sources[k] < e
                    &&& passes(q, entries@[sources[k]].0@.name)
                    &&& part@[k]@ == result_for(entries@[sources[k]].0@, kind, kept)
                },
            forall|k: int, l: int|
                0 <= k < l < sources.len() ==> #[trigger] sources[k] < #[trigger] sources[l],
            forall|d: int|
                0 <= d < e && passes(q, entries@[d].0@.name) ==> #[trigger] has_source(sources, d),
        decreases entries.len() - e,
    {
        let key = &entries[e].0;
        let found = match query {
            Some(text) => name_matches(key.name(), text),
            None => true,
        };
        if found {
            let ghost before = sources;
            part.push(make_search_result(kind, key, descriptions));
            proof {
                sources = before.push(e as int);
                assert forall|d: int|
                    0 <= d < e + 1 && passes(q, entries@[d].0@.name) implies #[trigger] has_source(
                    sources,
                    d,
                ) by {
                    if d < e {
                        assert(has_source(before, d));
                        let k = choose|k: int| 0 <= k < before.len() && #[trigger] before[k] == d;
                        assert(sources[k] == d);
                    } else {
                        assert(sources[before.len() as int] == d);
                    }
                }
            }
        }
        e += 1;
    }
    proof {
        assert forall|key: KeyView|
            cells.dom().contains(key) && passes(q, key.name) implies #[trigger] has_result(
            part@,
            result_for(key, kind, kept),
        ) by {
            assert(lists_key(entries@, key));
            let d = choose|d: int| 0 <= d < entries@.len() && #[trigger] entries@[d].0@ == key;
            assert(has_source(sources, d));
            let k = choose|k: int| 0 <= k < sources.len() && #[trigger] sources[k] == d;
            assert(part@[k]@ == result_for(key, kind, kept));
        }
        assert forall|i: int| 0 <= i < part@.len() implies {
            &&& cells.dom().contains((#[trigger] part@[i]@).key.key)
            &&& passes(q, part@[i]@.key.key.name)
            &&& part@[i]@ == result_for(part@[i]@.key.key, kind, kept)
        } by {
            let d = sources[i];
            assert(cells.dom().contains(entries@[d].0@));
        }
        assert forall|i: int, j: int|
            #![trigger part@[i]@, part@[j]@]
            0 <= i < j < part@.len() implies part@[i]@.key.key != part@[j]@.key.key by {
            let c = sources[i];
            let d = sources[j];
            assert(c < d);
            assert(entries@[c].0@ != entries@[d].0@);
        }
    }
    part
}

/// The answers for the three kinds, one after the other, are the answer of
/// the registry.
pub(crate) proof fn lemma_answers_from_parts(
    view: RegistryView,
    entries: Map<(Seq<char>, u8), MetricDescriptionView>,
    query: Option<Seq<char>>,
    counters: Seq<SearchResult>,
    gauges: Seq<SearchResult>,
    histograms: Seq<SearchResult>,
)
    requires
        view.valid(),
        view.descriptions == descriptions_by_kind(entries),
        kind_answers(view.counters.dom(), MetricKind::Counter, entries, query, counters),
        kind_answers(view.gauges.dom(), MetricKind::Gauge, entries, query, gauges),
        kind_answers(view.histograms.dom(), MetricKind::Histogram, entries, query, histograms),
    ensures
        view.answers(query, counters + gauges + histograms),
{
    let all = counters + gauges + histograms;
    let n1 = counters.len() as int;
    let n2 = n1 + gauges.len();
    assert forall|i: int| 0 <= i < all.len() implies view.wanted(query, #[trigger] all[i]@) by {
        if i < n1 {
            assert(all[i] == counters[i]);
            assert(view.counters.dom().contains(counters[i]@.key.key));
        } else if i < n2 {
            assert(all[i] == gauges[i - n1]);
            assert(view.gauges.dom().contains(gauges[i - n1]@.key.key));
        } else {
            assert(all[i] == histograms[i - n2]);
            assert(view.histograms.dom().contains(histograms[i - n2]@.key.key));
        }
    }
    assert forall|wanted: SearchResultView|
        view.wanted(query, wanted) implies #[trigger] has_result(all, wanted) by {
        let key = wanted.key.key;
        assert(wanted == result_for(key, wanted.key.kind, entries));
        match wanted.key.kind {
            MetricKind::Counter => {
                assert(has_result(counters, wanted));
                let i = choose|i: int| 0 <= i < counters.len() && #[trigger] counters[i]@ == wanted;
                assert(all[i] == counters[i]);
            },
            MetricKind::Gauge => {
                assert(has_result(gauges, wanted));
                let i = choose|i: int| 0 <= i < gauges.len() && #[trigger] gauges[i]@ == wanted;
                assert(all[n1 + i] == gauges[i]);
            },
            MetricKind::Histogram => {
                assert(has_result(histograms, wanted));
                let i = choose|i: int|
                    0 <= i < histograms.len() && #[trigger] histograms[i]@ == wanted;
                assert(all[n2 + i] == histograms[i]);
            },
        }
    }
    assert forall|i: int, j: int| 0 <= i < j < all.len() implies !#[trigger] same_metric(
        all[i]@.key,
        all[j]@.key,
    ) by {
        assert(view.wanted(query, all[i]@));
        assert(view.wanted(query, all[j]@));
        if i < n1 {
            assert(all[i] == counters[i]);
        } else if i < n2 {
            assert(all[i] == gauges[i - n1]);
        } else {
            assert(all[i] == histograms[i - n2]);
        }
        if j < n1 {
            assert(all[j] == counters[j]);
        } else if j < n2 {
            assert(all[j] == gauges[j - n1]);
        } else {
            assert(all[j] == histograms[j - n2]);
        }
    }
}

} // verus!
