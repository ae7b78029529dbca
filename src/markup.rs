//! Markup events of a normalized doc buffer, and the outside parser that
//! produces them.
use vstd::prelude::*;
use itertools::Itertools;
use pulldown_cmark::Event::{End, Start, Text};
use pulldown_cmark::{Options, Parser};
use pulldown_cmark::Tag::{CodeBlock, Heading, Item, Link, Paragraph};
use crate::markup::MarkupEvent as M;

verus! {

/// One token of the markup.
#[derive(Clone, Debug)]
pub enum MarkupEvent {
    HeadingStart,
    HeadingEnd,
    /// The start of a paragraph or of a list item.
    BlockStart,
    /// The end of a paragraph or of a list item.
    BlockEnd,
    CodeStart,
    CodeEnd,
    /// The start of a link, with its target.
    LinkStart(String),
    LinkEnd,
    /// Text.
    Text(String),
    /// Other tags, breaks, inline code, rules, HTML and the like.
    Other,
}

/// A markup event as plain values.
pub enum MarkupEventView {
    HeadingStart,
    HeadingEnd,
    BlockStart,
    BlockEnd,
    CodeStart,
    CodeEnd,
    LinkStart(Seq<char>),
    LinkEnd,
    Text(Seq<char>),
    Other,
}

impl View for MarkupEvent {
    type V = MarkupEventView;

    open spec fn view(&self) -> MarkupEventView {
        match self {
            MarkupEvent::HeadingStart => MarkupEventView::HeadingStart,
            MarkupEvent::HeadingEnd => MarkupEventView::HeadingEnd,
            MarkupEvent::BlockStart => MarkupEventView::BlockStart,
            MarkupEvent::BlockEnd => MarkupEventView::BlockEnd,
            MarkupEvent::CodeStart => MarkupEventView::CodeStart,
            MarkupEvent::CodeEnd => MarkupEventView::CodeEnd,
            MarkupEvent::LinkStart(u) => MarkupEventView::LinkStart(u@),
            MarkupEvent::LinkEnd => MarkupEventView::LinkEnd,
            MarkupEvent::Text(t) => MarkupEventView::Text(t@),
            MarkupEvent::Other => MarkupEventView::Other,
        }
    }
}

/// An event with the byte range of the buffer it covers.
pub type Located = (MarkupEvent, usize, usize);

/// An event and its range as plain values.
pub type LocatedView = (MarkupEventView, usize, usize);

/// The views of a sequence of located events.
pub open spec fn events_view(es: Seq<Located>) -> Seq<LocatedView> {
    es.map_values(|e: Located| (e.0@, e.1, e.2))
}

/// The events that `pulldown_cmark` produces for `doc`, unresolved
/// reference links pointing to a placeholder target.
pub uninterp spec fn markdown_events(doc: Seq<char>) -> Seq<LocatedView>;

/// Relies on `pulldown_cmark::Parser::new_with_broken_link_callback` and
/// `into_offset_iter`: the events of `doc` with their byte ranges, with no
/// extensions enabled (so no footnotes); a reference link whose target is
/// not defined becomes a link to the placeholder target `fake`.
#[verifier::external_body]
fn parse_markdown(doc: &str) -> (r: Vec<Located>)
    ensures
        events_view(r@) == markdown_events(doc@),
{
    Parser::new_with_broken_link_callback(doc, Options::empty(), Some(&mut |_| Some(("fake".into(), "fake".into()))))
        .into_offset_iter().map(|(e, r)| (match e {
        Start(Heading(..)) => M::HeadingStart,
        End(Heading(..)) => M::HeadingEnd,
        Start(Paragraph | Item) => M::BlockStart,
        End(Paragraph | Item) => M::BlockEnd,
        Start(CodeBlock(_)) => M::CodeStart,
        End(CodeBlock(_)) => M::CodeEnd,
        Start(Link(_, u, _)) => M::LinkStart(u.to_string()),
        End(Link(..)) => M::LinkEnd,
        Text(t) => M::Text(t.to_string()),
        _ => M::Other,
    }, r.start, r.end)).collect()
}

/// `events` with each run of adjacent text events merged into one, which
/// keeps the range of the first.
pub open spec fn coalesce_texts(events: Seq<LocatedView>) -> Seq<LocatedView> {
    if events.len() == 0 {
        seq![]
    } else {
        coalesce_from(events[0], events.drop_first())
    }
}

/// The merged events when `last` is pending and `rest` follows.
pub open spec fn coalesce_from(last: LocatedView, rest: Seq<LocatedView>) -> Seq<LocatedView>
    decreases rest.len(),
{
    if rest.len() == 0 {
        seq![last]
    } else {
        match (last.0, rest[0].0) {
            (MarkupEventView::Text(a), MarkupEventView::Text(b)) => coalesce_from(
                (MarkupEventView::Text(a + b), last.1, last.2),
                rest.drop_first(),
            ),
            _ => seq![last] + coalesce_from(rest[0], rest.drop_first()),
        }
    }
}

/// Merges two adjacent events when both are text.
pub fn merge_text(previous: Located, current: Located) -> (r: Result<Located, (Located, Located)>)
    ensures
        match (previous.0@, current.0@) {
            (MarkupEventView::Text(a), MarkupEventView::Text(b)) => r is Ok && r->Ok_0.0@
                == MarkupEventView::Text(a + b) && r->Ok_0.1 == previous.1 && r->Ok_0.2 == previous.2,
            _ => r is Err && r->Err_0.0.0@ == previous.0@ && r->Err_0.0.1 == previous.1
                && r->Err_0.0.2 == previous.2 && r->Err_0.1.0@ == current.0@ && r->Err_0.1.1
                == current.1 && r->Err_0.1.2 == current.2,
        },
{
    match (previous, current) {
        ((MarkupEvent::Text(a), s, e), (MarkupEvent::Text(b), _, _)) => {
            let mut a = a;
            a.append(b.as_str());
            Ok((MarkupEvent::Text(a), s, e))
        },
        (p, c) => Err((p, c)),
    }
}

/// Relies on `Itertools::coalesce`: each pair of the pending event and the
/// next is handed to `merge_text`; a merged event stays pending, otherwise
/// the pending one is emitted and the next becomes pending; the last pending
/// event is emitted at the end.
#[verifier::external_body]
fn coalesce_events(events: Vec<Located>) -> (r: Vec<Located>)
    ensures
        events_view(r@) == coalesce_texts(events_view(events@)),
{
    events.into_iter().coalesce(merge_text).collect()
}

/// The events of `doc`, adjacent text merged.
pub fn doc_events(doc: &str) -> (r: Vec<Located>)
    ensures
        events_view(r@) == coalesce_texts(markdown_events(doc@)),
{
    coalesce_events(parse_markdown(doc))
}

} // verus!
