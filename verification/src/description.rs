//! Descriptions of metrics and the map that keeps them.
//!
//! The map is `bevy`'s hash map. It is keyed by the metric's name and a small
//! number for its kind, so that the keys are compared and hashed by the
//! standard library alone.

use crate::key::MetricKind;
use bevy::platform::collections::HashMap;
use bevy::platform::hash::FixedHasher;
use vstd::prelude::*;
use vstd::string::*;

verus! {

/// The unit in which a metric is measured.
#[derive(Clone, Copy, Debug, PartialEq, Eq, Structural, Hash)]
pub enum Unit {
    Count,
    Percent,
    Seconds,
    Milliseconds,
    Microseconds,
    Nanoseconds,
    Tebibytes,
    Gibibytes,
    Mebibytes,
    Kibibytes,
    Bytes,
    TerabitsPerSecond,
    GigabitsPerSecond,
    MegabitsPerSecond,
    KilobitsPerSecond,
    BitsPerSecond,
    CountPerSecond,
}

/// The short label under which a unit is shown.
pub open spec fn unit_word(unit: Unit) -> Seq<char> {
    match unit {
        Unit::Count => "count"@,
        Unit::Percent => "%"@,
        Unit::Seconds => "s"@,
        Unit::Milliseconds => "ms"@,
        Unit::Microseconds => "us"@,
        Unit::Nanoseconds => "ns"@,
        Unit::Tebibytes => "TiB"@,
        Unit::Gibibytes => "GiB"@,
        Unit::Mebibytes => "MiB"@,
        Unit::Kibibytes => "KiB"@,
        Unit::Bytes => "B"@,
        Unit::TerabitsPerSecond => "Tbps"@,
        Unit::GigabitsPerSecond => "Gbps"@,
        Unit::MegabitsPerSecond => "Mbps"@,
        Unit::KilobitsPerSecond => "kbps"@,
        Unit::BitsPerSecond => "bps"@,
        Unit::CountPerSecond => "/s"@,
    }
}

/// Gives the short label under which `unit` is shown.
pub fn unit_str(unit: Unit) -> (word: &'static str)
    ensures
        word@ == unit_word(unit),
{
    match unit {
        Unit::Count => "count",
        Unit::Percent => "%",
        Unit::Seconds => "s",
        Unit::Milliseconds => "ms",
        Unit::Microseconds => "us",
        Unit::Nanoseconds => "ns",
        Unit::Tebibytes => "TiB",
        Unit::Gibibytes => "GiB",
        Unit::Mebibytes => "MiB",
        Unit::Kibibytes => "KiB",
        Unit::Bytes => "B",
        Unit::TerabitsPerSecond => "Tbps",
        Unit::GigabitsPerSecond => "Gbps",
        Unit::MegabitsPerSecond => "Mbps",
        Unit::KilobitsPerSecond => "kbps",
        Unit::BitsPerSecond => "bps",
        Unit::CountPerSecond => "/s",
    }
}

/// What a [`MetricDescription`] stands for.
pub struct MetricDescriptionView {
    pub unit: Option<Unit>,
    pub text: Seq<char>,
}

/// What is told of a metric when it is described: a unit, if it has one,
/// and a free text.
#[derive(Debug)]
pub struct MetricDescription {
    pub unit: Option<Unit>,
    pub text: String,
}

impl View for MetricDescription {
    type V = MetricDescriptionView;

    open spec fn view(&self) -> MetricDescriptionView {
        MetricDescriptionView { unit: self.unit, text: self.text@ }
    }
}

impl MetricDescription {
    /// A description with the given unit and text.
    pub fn new(unit: Option<Unit>, text: &str) -> (description: Self)
        ensures
            description@ == (MetricDescriptionView { unit, text: text@ }),
    {
        MetricDescription { unit, text: String::from_str(text) }
    }
}

impl Clone for MetricDescription {
    fn clone(&self) -> (copy: Self)
        ensures
            copy == *self,
    {
        MetricDescription { unit: self.unit, text: self.text.clone() }
    }
}

/// The number that stands for a kind in the keys of the description map.
pub open spec fn kind_code(kind: MetricKind) -> u8 {
    match kind {
        MetricKind::Counter => 0,
        MetricKind::Gauge => 1,
        MetricKind::Histogram => 2,
    }
}

/// Gives the number that stands for `kind` in the keys of the description map.
pub(crate) fn code_of_kind(kind: MetricKind) -> (code: u8)
    ensures
        code == kind_code(kind),
{
    match kind {
        MetricKind::Counter => 0,
        MetricKind::Gauge => 1,
        MetricKind::Histogram => 2,
    }
}

/// `bevy`'s hash map, declared so that a field can hold one.
#[verifier::external_type_specification]
#[verifier::external_body]
#[verifier::reject_recursive_types(K)]
#[verifier::reject_recursive_types(V)]
#[verifier::reject_recursive_types(S)]
pub struct ExHashMap<K, V, S>(HashMap<K, V, S>);

/// The hasher that `bevy`'s hash map uses unless told otherwise.
#[verifier::external_type_specification]
#[verifier::external_body]
pub struct ExFixedHasher(FixedHasher);

/// The entries of a description map: for each name and kind code that has
/// one, its description.
pub uninterp spec fn description_entries(
    map: HashMap<(String, u8), MetricDescription>,
) -> Map<(Seq<char>, u8), MetricDescriptionView>;

/// Calls `HashMap::default` of `bevy`.
///
/// Trusted: the new map has no entries.
#[verifier::external_body]
pub(crate) fn new_description_map() -> (map: HashMap<(String, u8), MetricDescription>)
    ensures
        description_entries(map) == (Map::<(Seq<char>, u8), MetricDescriptionView>::empty()),
{
    HashMap::default()
}

/// Calls `HashMap::get` of `bevy` with the key made of `name` and `code`.
///
/// Trusted: the call finds an entry exactly when the map holds one under
/// that name and code, and then gives the description kept there.
#[verifier::external_body]
pub(crate) fn description_get<'a>(
    map: &'a HashMap<(String, u8), MetricDescription>,
    name: &str,
    code: u8,
) -> (found: Option<&'a MetricDescription>)
    ensures
        found is Some <==> description_entries(*map).dom().contains((name@, code)),
        found is Some ==> found->0@ == description_entries(*map)[(name@, code)],
{
    map.get(&(name.to_owned(), code))
}

/// Calls `HashMap::insert` of `bevy` with the key made of `name` and `code`.
///
/// Trusted: afterwards the map holds `description` under that name and code,
/// and every other entry as before. The call does not unwind.
#[verifier::external_body]
pub(crate) fn description_insert(
    map: &mut HashMap<(String, u8), MetricDescription>,
    name: String,
    code: u8,
    description: MetricDescription,
)
    ensures
        description_entries(*final(map)) == description_entries(*old(map)).insert(
            (name@, code),
            description@,
        ),
    no_unwind
{
    map.insert((name, code), description);
}

} // verus!
