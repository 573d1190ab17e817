//! What a search gives back, and the text that shows it.

use crate::description::{unit_str, unit_word, MetricDescription, MetricDescriptionView, Unit};
use crate::key::{shown_name, title_text, Label, MetricKey, MetricKeyView};
use vstd::prelude::*;
use vstd::string::*;

verus! {

/// What a [`SearchResult`] stands for.
pub struct SearchResultView {
    pub key: MetricKeyView,
    pub description: Option<MetricDescriptionView>,
}

/// A registered metric together with its description, where it has one.
#[derive(Debug)]
pub struct SearchResult {
    pub key: MetricKey,
    pub description: Option<MetricDescription>,
}

/// What an optional description stands for.
pub open spec fn description_view(description: Option<MetricDescription>) -> Option<
    MetricDescriptionView,
> {
    match description {
        Some(d) => Some(d@),
        None => None,
    }
}

impl View for SearchResult {
    type V = SearchResultView;

    open spec fn view(&self) -> SearchResultView {
        SearchResultView { key: self.key@, description: description_view(self.description) }
    }
}

impl Clone for SearchResult {
    fn clone(&self) -> (copy: Self)
        ensures
            copy@ == self@,
    {
        let description = match &self.description {
            Some(d) => Some(d.clone()),
            None => None,
        };
        SearchResult { key: self.key.clone(), description }
    }
}

/// The part that a piece of text plays in the display of a search result.
/// How each part is drawn is left to whoever draws it.
#[derive(Clone, Copy, Debug, PartialEq, Eq, Structural, Hash)]
pub enum TextStyle {
    /// The title of the metric.
    Title,
    /// The unit, in square brackets.
    Unit,
    /// One label, as `key=value`.
    Label,
    /// The free text of the description.
    Description,
    /// A line break between the parts.
    Plain,
}

/// A piece of text and the part that it plays.
#[derive(Debug)]
pub struct TextSegment {
    pub text: String,
    pub style: TextStyle,
}

impl View for TextSegment {
    type V = (Seq<char>, TextStyle);

    open spec fn view(&self) -> (Seq<char>, TextStyle) {
        (self.text@, self.style)
    }
}

/// What a sequence of segments stands for.
pub open spec fn segment_views(segments: Seq<TextSegment>) -> Seq<(Seq<char>, TextStyle)> {
    segments.map_values(|segment: TextSegment| segment@)
}

/// The segment that breaks the line.
pub open spec fn line_break() -> (Seq<char>, TextStyle) {
    (seq!['\n'], TextStyle::Plain)
}

/// The segment that shows a unit: its label in square brackets, after a
/// space.
pub open spec fn unit_segment(unit: Unit) -> (Seq<char>, TextStyle) {
    (seq![' ', '['] + unit_word(unit) + seq![']'], TextStyle::Unit)
}

/// The segment that shows a label: key, equals sign, value.
pub open spec fn label_segment(label: (Seq<char>, Seq<char>)) -> (Seq<char>, TextStyle) {
    (label.0 + seq!['='] + label.1, TextStyle::Label)
}

/// The segments that show the labels: each on a line of its own, in order.
pub open spec fn label_segments(labels: Seq<(Seq<char>, Seq<char>)>) -> Seq<(Seq<char>, TextStyle)>
    decreases labels.len(),
{
    if labels.len() == 0 {
        Seq::empty()
    } else {
        label_segments(labels.drop_last()).push(line_break()).push(label_segment(labels.last()))
    }
}

/// The segments that show the unit of a description, if it names one.
pub open spec fn unit_segments(description: Option<MetricDescriptionView>) -> Seq<
    (Seq<char>, TextStyle),
> {
    match description {
        Some(d) => match d.unit {
            Some(unit) => seq![unit_segment(unit)],
            None => Seq::empty(),
        },
        None => Seq::empty(),
    }
}

/// The segments that show the free text of a description, on a line of its
/// own.
pub open spec fn description_segments(description: Option<MetricDescriptionView>) -> Seq<
    (Seq<char>, TextStyle),
> {
    match description {
        Some(d) => seq![line_break(), (d.text, TextStyle::Description)],
        None => Seq::empty(),
    }
}

/// The whole display of a search result: the title, the unit, the labels
/// and the description, in this order.
pub open spec fn detailed_segments(result: SearchResultView, display_path: Option<&str>) -> Seq<
    (Seq<char>, TextStyle),
> {
    seq![(title_text(shown_name(result.key, display_path), result.key.kind, 0), TextStyle::Title)]
        + unit_segments(result.description) + label_segments(result.key.key.labels)
        + description_segments(result.description)
}

/// Makes a segment of `text` in the given style.
fn segment(text: String, style: TextStyle) -> (made: TextSegment)
    ensures
        made@ == (text@, style),
{
    TextSegment { text, style }
}

/// Makes the segment that breaks the line.
fn line_break_segment() -> (made: TextSegment)
    ensures
        made@ == line_break(),
{
    proof {
        reveal_strlit("\n");
    }
    let made = segment(String::from_str("\n"), TextStyle::Plain);
    assert(made@.0 =~= seq!['\n']);
    made
}

/// Writes a label as `key=value`.
fn label_text(label: &Label) -> (text: String)
    ensures
        text@ == label_segment(label@).0,
{
    proof {
        reveal_strlit("=");
    }
    let mut text = String::from_str(label.key());
    text.append("=");
    text.append(label.value());
    assert("="@ =~= seq!['=']);
    text
}

/// Writes a unit as its label in square brackets, after a space.
fn unit_text(unit: Unit) -> (text: String)
    ensures
        text@ == unit_segment(unit).0,
{
    proof {
        reveal_strlit(" [");
        reveal_strlit("]");
    }
    let mut text = String::from_str(" [");
    text.append(unit_str(unit));
    text.append("]");
    assert(" ["@ =~= seq![' ', '[']);
    assert("]"@ =~= seq![']']);
    text
}

impl SearchResult {
    /// Lays out the complete information of a search result as pieces of
    /// text, each with the part it plays.
    ///
    /// `display_path`, where given, stands in for the metric's name in the
    /// title; it serves to leave out layers of namespacing.
    pub fn detailed_text(&self, display_path: Option<&str>) -> (segments: Vec<TextSegment>)
        ensures
            segment_views(segments@) == detailed_segments(self@, display_path),
    {
        let mut segments: Vec<TextSegment> = Vec::new();
        segments.push(segment(self.key.title(display_path, 0), TextStyle::Title));
        if let Some(description) = &self.description {
            if let Some(unit) = description.unit {
                segments.push(segment(unit_text(unit), TextStyle::Unit));
            }
        }
        let ghost head = segment_views(segments@);
        assert(head =~= seq![
            (title_text(shown_name(self@.key, display_path), self@.key.kind, 0), TextStyle::Title),
        ] + unit_segments(self@.description));
        let labels = self.key.key.labels();
        let mut i: usize = 0;
        while i < labels.len()
            invariant
                i <= labels.len(),
                segment_views(segments@) == head + label_segments(
                    self@.key.key.labels.take(i as int),
                ),
                crate::key::label_views(labels@) == self@.key.key.labels,
            decreases labels.len() - i,
        {
            let ghost before = segment_views(segments@);
            segments.push(line_break_segment());
            segments.push(segment(label_text(&labels[i]), TextStyle::Label));
            proof {
                let all = self@.key.key.labels;
                let next = all.take(i + 1);
                assert(next.drop_last() =~= all.take(i as int));
                assert(next.last() == labels@[i as int]@);
                assert(segment_views(segments@) =~= before.push(line_break()).push(
                    label_segment(next.last()),
                ));
                assert(head + label_segments(next) =~= (head + label_segments(
                    all.take(i as int),
                )).push(line_break()).push(label_segment(next.last())));
            }
            i += 1;
        }
        assert(self@.key.key.labels.take(i as int) =~= self@.key.key.labels);
        let ghost body = segment_views(segments@);
        if let Some(description) = &self.description {
            segments.push(line_break_segment());
            segments.push(segment(description.text.clone(), TextStyle::Description));
        }
        assert(segment_views(segments@) =~= body + description_segments(self@.description));
        segments
    }
}

} // verus!
