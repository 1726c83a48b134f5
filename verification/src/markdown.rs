//! The events of the Markdown parser, as the tree builder reads them.

use vstd::prelude::*;
use pulldown_cmark::{CodeBlockKind, Event, Parser, Tag, TagEnd};
use crate::document::opt_view;

verus! {

/// `pulldown_cmark::Event`: one event of the parser, of which nothing is
/// known but what `event_view` tells.
#[verifier::external_type_specification]
#[verifier::external_body]
pub struct ExEvent<'a>(Event<'a>);

/// The element that a start event opens.
#[derive(Debug)]
pub enum MdTag {
    Paragraph,
    Heading(u8),
    BlockQuote,
    /// A code block with the language of its fence, if it has one.
    CodeBlock(Option<String>),
    /// A list, with the number of its first item if it is an ordered one.
    List(Option<u64>),
    Item,
    Emphasis,
    Strong,
    Other,
}

/// The element that an end event closes.
#[derive(Debug, Clone, Copy, PartialEq, Eq, Structural)]
pub enum MdTagEnd {
    Paragraph,
    Heading,
    BlockQuote,
    CodeBlock,
    List,
    Item,
    Emphasis,
    Strong,
    Other,
}

/// One parse event, as far as the builder reads it.
#[derive(Debug)]
pub enum MdEvent {
    Start(MdTag),
    End(MdTagEnd),
    Text(String),
    Code(String),
    SoftBreak,
    HardBreak,
    Other,
}

/// What an `MdTag` stands for.
pub enum TagView {
    Paragraph,
    Heading(u8),
    BlockQuote,
    CodeBlock(Option<Seq<char>>),
    List(Option<u64>),
    Item,
    Emphasis,
    Strong,
    Other,
}

/// What an `MdEvent` stands for.
pub enum EventView {
    Start(TagView),
    End(MdTagEnd),
    Text(Seq<char>),
    Code(Seq<char>),
    SoftBreak,
    HardBreak,
    Other,
}

impl View for MdTag {
    type V = TagView;

    open spec fn view(&self) -> TagView {
        match self {
            MdTag::Paragraph => TagView::Paragraph,
            MdTag::Heading(level) => TagView::Heading(*level),
            MdTag::BlockQuote => TagView::BlockQuote,
            MdTag::CodeBlock(language) => TagView::CodeBlock(opt_view(*language)),
            MdTag::List(ordered) => TagView::List(*ordered),
            MdTag::Item => TagView::Item,
            MdTag::Emphasis => TagView::Emphasis,
            MdTag::Strong => TagView::Strong,
            MdTag::Other => TagView::Other,
        }
    }
}

impl View for MdEvent {
    type V = EventView;

    open spec fn view(&self) -> EventView {
        match self {
            MdEvent::Start(tag) => EventView::Start(tag@),
            MdEvent::End(tag) => EventView::End(*tag),
            MdEvent::Text(text) => EventView::Text(text@),
            MdEvent::Code(text) => EventView::Code(text@),
            MdEvent::SoftBreak => EventView::SoftBreak,
            MdEvent::HardBreak => EventView::HardBreak,
            MdEvent::Other => EventView::Other,
        }
    }
}

/// The models of a sequence of events.
pub open spec fn events_view(events: Seq<MdEvent>) -> Seq<EventView> {
    Seq::new(events.len(), |i: int| events[i]@)
}

/// The events that `pulldown_cmark::Parser::new` yields for a text when it
/// is run to its end, in order, each as the builder reads it.
pub uninterp spec fn markdown_events(text: Seq<char>) -> Seq<EventView>;

/// What the builder reads of one `pulldown_cmark::Event`: its variant, the
/// text of a leaf, and of a tag what `MdTag` holds of it.
pub uninterp spec fn event_view(event: Event<'_>) -> EventView;

/// The kind of a parser event, with the text of a leaf.
enum EventShape {
    Start,
    End,
    Text(String),
    Code(String),
    SoftBreak,
    HardBreak,
    Other,
}

/// Whether `shape` tells the kind of `event`, and its text where it has one.
spec fn shape_of(shape: EventShape, event: EventView) -> bool {
    match shape {
        EventShape::Start => event is Start,
        EventShape::End => event is End,
        EventShape::Text(text) => event == EventView::Text(text@),
        EventShape::Code(text) => event == EventView::Code(text@),
        EventShape::SoftBreak => event is SoftBreak,
        EventShape::HardBreak => event is HardBreak,
        EventShape::Other => event is Other,
    }
}

/// `pulldown_cmark::Parser::new`, run to its end: the events of `text`, in
/// the order in which the parser yields them.
#[verifier::external_body]
fn parse_events<'a>(text: &'a str) -> (events: Vec<Event<'a>>)
    ensures
        events@.len() == markdown_events(text@).len(),
        forall|i: int|
            0 <= i < events@.len() ==> event_view(#[trigger] events@[i]) == markdown_events(text@)[i],
{
    Parser::new(text).collect()
}

/// Tells the variants of `pulldown_cmark::Event` apart, and hands out the
/// text of a leaf; every variant that the builder has no use for counts as
/// `Other`.
#[verifier::external_body]
fn event_shape(event: &Event<'_>) -> (shape: EventShape)
    ensures
        shape_of(shape, event_view(*event)),
{
    match event {
        Event::Start(_) => EventShape::Start,
        Event::End(_) => EventShape::End,
        Event::Text(text) => EventShape::Text(text.to_string()),
        Event::Code(text) => EventShape::Code(text.to_string()),
        Event::SoftBreak => EventShape::SoftBreak,
        Event::HardBreak => EventShape::HardBreak,
        _ => EventShape::Other,
    }
}

/// The `pulldown_cmark::Tag` of a start event: its variant, the level of a
/// heading, the language of a fenced code block and the first number of a
/// list; every tag that the builder has no use for counts as `Other`.
#[verifier::external_body]
fn start_tag(event: &Event<'_>) -> (tag: MdTag)
    ensures
        event_view(*event) matches EventView::Start(opened) ==> tag@ == opened,
{
    match event {
        Event::Start(Tag::Paragraph) => MdTag::Paragraph,
        Event::Start(Tag::Heading { level, .. }) => MdTag::Heading(*level as u8),
        Event::Start(Tag::BlockQuote(_)) => MdTag::BlockQuote,
        Event::Start(Tag::CodeBlock(CodeBlockKind::Fenced(lang))) => MdTag::CodeBlock(Some(lang.to_string())),
        Event::Start(Tag::CodeBlock(_)) => MdTag::CodeBlock(None),
        Event::Start(Tag::List(first)) => MdTag::List(*first),
        Event::Start(Tag::Item) => MdTag::Item,
        Event::Start(Tag::Emphasis) => MdTag::Emphasis,
        Event::Start(Tag::Strong) => MdTag::Strong,
        _ => MdTag::Other,
    }
}

/// The `pulldown_cmark::TagEnd` of an end event; every tag that the builder
/// has no use for counts as `Other`.
#[verifier::external_body]
fn end_tag(event: &Event<'_>) -> (tag: MdTagEnd)
    ensures
        event_view(*event) matches EventView::End(closed) ==> tag == closed,
{
    match event {
        Event::End(TagEnd::Paragraph) => MdTagEnd::Paragraph,
        Event::End(TagEnd::Heading(_)) => MdTagEnd::Heading,
        Event::End(TagEnd::BlockQuote) => MdTagEnd::BlockQuote,
        Event::End(TagEnd::CodeBlock) => MdTagEnd::CodeBlock,
        Event::End(TagEnd::List(_)) => MdTagEnd::List,
        Event::End(TagEnd::Item) => MdTagEnd::Item,
        Event::End(TagEnd::Emphasis) => MdTagEnd::Emphasis,
        Event::End(TagEnd::Strong) => MdTagEnd::Strong,
        _ => MdTagEnd::Other,
    }
}

/// One parser event as the builder reads it.
fn convert_event(event: &Event<'_>) -> (out: MdEvent)
    ensures
        out@ == event_view(*event),
{
    match event_shape(event) {
        EventShape::Start => MdEvent::Start(start_tag(event)),
        EventShape::End => MdEvent::End(end_tag(event)),
        EventShape::Text(text) => MdEvent::Text(text),
        EventShape::Code(text) => MdEvent::Code(text),
        EventShape::SoftBreak => MdEvent::SoftBreak,
        EventShape::HardBreak => MdEvent::HardBreak,
        EventShape::Other => MdEvent::Other,
    }
}

/// Parses `text` as Markdown and returns its events in order.
pub fn parse_markdown(text: &str) -> (events: Vec<MdEvent>)
    ensures
        events_view(events@) == markdown_events(text@),
{
    let raw = parse_events(text);
    let mut events: Vec<MdEvent> = Vec::new();
    let mut i: usize = 0;
    while i < raw.len()
        invariant
            i <= raw.len(),
            raw@.len() == markdown_events(text@).len(),
            forall|k: int| 0 <= k < raw@.len() ==> event_view(#[trigger] raw@[k]) == markdown_events(text@)[k],
            events@.len() == i,
            forall|k: int| 0 <= k < i ==> (#[trigger] events@[k])@ == markdown_events(text@)[k],
        decreases raw.len() - i,
    {
        let event = convert_event(&raw[i]);
        events.push(event);
        i += 1;
    }
    events
}

} // verus!
