//! An in-process registry of named, labelled metrics with descriptions and
//! search.
//!
//! A metric is a counter, a gauge or a histogram. It is addressed by its
//! name and its labels; its value lives in a cell that the registry shares
//! with every handle it gives out. Descriptions are kept by name and kind,
//! so that all label variants of a metric share one, and the first
//! description of a name and kind wins. A search lists the registered
//! metrics whose name matches a query, each with its description.
//!
//! # Identity
//!
//! Whether two keys address the same metric is decided by the equality of
//! the keys of `metrics`, which keeps the cells: the names are equal and the
//! labels are the same but for their order ([`key::same_key`]). The key
//! under which a metric is first registered is the one that searches show.
//!
//! # Cells
//!
//! A cell lives as long as the registry or any handle holds it; nothing
//! takes a metric out of the registry. What a cell holds changes under the
//! hands of whoever records into it, on any thread, so no contract speaks of
//! it: a contract says which cell a metric has.
//!
//! # Verification
//!
//! Every function is verified with Verus but for the calls into `metrics`,
//! `metrics_util`, `fuzzy_matcher` and `bevy`. Each such call stands in a
//! function of a few lines whose contract is believed, not proved; its
//! comment says what is believed.

pub mod description;
pub mod key;
mod listing;
pub mod registry;
pub mod result;
pub mod search;
pub mod storage;
pub mod text;
pub mod view;

pub use description::{MetricDescription, Unit};
pub use key::{DescriptionKey, Key, Label, MetricKey, MetricKind};
pub use registry::MetricsRegistry;
pub use result::{SearchResult, TextSegment, TextStyle};
