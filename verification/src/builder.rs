//! The tree builder: a state machine that takes parse events one at a time
//! and leaves a document tree.

use vstd::prelude::*;
use vstd::string::StringExecFns;
use crate::document::{
    all_filled, blocks_view, empty_paragraph, filled, inlines_view, items_filled, items_view,
    lemma_blocks_push, lemma_inlines_push, marks_view, paragraph_of, plain_paragraph, Block,
    BlockView, Document, Inline, InlineView, Mark, MarkView,
};
use crate::markdown::{
    events_view, markdown_events, parse_markdown, EventView, MdEvent, MdTag, MdTagEnd, TagView,
};

verus! {

/// A list that has been opened and not yet closed.
#[derive(Debug)]
pub struct OpenList {
    pub ordered: bool,
    pub items: Vec<Vec<Block>>,
}

/// A heading that has been opened and not yet closed.
#[derive(Debug)]
pub struct OpenHeading {
    pub level: u8,
    pub content: Vec<Inline>,
}

/// A code block that has been opened and not yet closed.
#[derive(Debug)]
pub struct OpenCode {
    pub language: String,
    pub text: String,
}

/// The state of the builder between two events.
#[derive(Debug)]
pub struct Builder {
    /// The blocks placed under the root so far.
    pub content: Vec<Block>,
    /// The runs of the paragraph that is open, if one is.
    pub paragraph: Option<Vec<Inline>>,
    pub strong: bool,
    pub emphasis: bool,
    pub heading: Option<OpenHeading>,
    /// The open lists, innermost last.
    pub lists: Vec<OpenList>,
    /// The blocks of the list item that is open, if one is.
    pub item: Option<Vec<Block>>,
    /// The blocks of the blockquote that is open, if one is.
    pub quote: Option<Vec<Block>>,
    pub code: Option<OpenCode>,
}

/// What an `OpenList` stands for.
pub struct OpenListView {
    pub ordered: bool,
    pub items: Seq<Seq<BlockView>>,
}

/// What an `OpenHeading` stands for.
pub struct OpenHeadingView {
    pub level: u8,
    pub content: Seq<InlineView>,
}

/// What an `OpenCode` stands for.
pub struct OpenCodeView {
    pub language: Seq<char>,
    pub text: Seq<char>,
}

/// What a `Builder` stands for.
pub struct BuilderView {
    pub content: Seq<BlockView>,
    pub paragraph: Option<Seq<InlineView>>,
    pub strong: bool,
    pub emphasis: bool,
    pub heading: Option<OpenHeadingView>,
    pub lists: Seq<OpenListView>,
    pub item: Option<Seq<BlockView>>,
    pub quote: Option<Seq<BlockView>>,
    pub code: Option<OpenCodeView>,
}

impl View for OpenList {
    type V = OpenListView;

    open spec fn view(&self) -> OpenListView {
        OpenListView { ordered: self.ordered, items: items_view(self.items@) }
    }
}

impl View for OpenHeading {
    type V = OpenHeadingView;

    open spec fn view(&self) -> OpenHeadingView {
        OpenHeadingView { level: self.level, content: inlines_view(self.content@) }
    }
}

impl View for OpenCode {
    type V = OpenCodeView;

    open spec fn view(&self) -> OpenCodeView {
        OpenCodeView { language: self.language@, text: self.text@ }
    }
}

/// The models of the open lists.
pub open spec fn lists_view(lists: Seq<OpenList>) -> Seq<OpenListView> {
    Seq::new(lists.len(), |i: int| lists[i]@)
}

/// The models of the runs of an optional paragraph.
pub open spec fn opt_inlines_view(items: Option<Vec<Inline>>) -> Option<Seq<InlineView>> {
    match items {
        Some(items) => Some(inlines_view(items@)),
        None => None,
    }
}

/// The models of an optional sequence of blocks.
pub open spec fn opt_blocks_view(blocks: Option<Vec<Block>>) -> Option<Seq<BlockView>> {
    match blocks {
        Some(blocks) => Some(blocks_view(blocks@)),
        None => None,
    }
}

impl View for Builder {
    type V = BuilderView;

    open spec fn view(&self) -> BuilderView {
        BuilderView {
            content: blocks_view(self.content@),
            paragraph: opt_inlines_view(self.paragraph),
            strong: self.strong,
            emphasis: self.emphasis,
            heading: match self.heading {
                Some(heading) => Some(heading@),
                None => None,
            },
            lists: lists_view(self.lists@),
            item: opt_blocks_view(self.item),
            quote: opt_blocks_view(self.quote),
            code: match self.code {
                Some(code) => Some(code@),
                None => None,
            },
        }
    }
}

/// Where a finished block goes.
pub enum Placement {
    Quote,
    Item,
    Root,
}

/// The state in which no event has been taken.
pub open spec fn initial_state() -> BuilderView {
    BuilderView {
        content: Seq::empty(),
        paragraph: None,
        strong: false,
        emphasis: false,
        heading: None,
        lists: Seq::empty(),
        item: None,
        quote: None,
        code: None,
    }
}

/// The destination of a finished block: the open blockquote before the
/// open list item, and that before the root.
pub open spec fn placement(s: BuilderView) -> Placement {
    if s.quote is Some {
        Placement::Quote
    } else if s.item is Some {
        Placement::Item
    } else {
        Placement::Root
    }
}

/// The state after `block` has been appended to its destination.
pub open spec fn place(s: BuilderView, block: BlockView) -> BuilderView {
    match placement(s) {
        Placement::Quote => BuilderView { quote: Some(s.quote->0.push(block)), ..s },
        Placement::Item => BuilderView { item: Some(s.item->0.push(block)), ..s },
        Placement::Root => BuilderView { content: s.content.push(block), ..s },
    }
}

/// The marks of a text leaf: bold and italic as far as they are active.
pub open spec fn active_marks(s: BuilderView) -> Seq<MarkView> {
    let bold = if s.strong {
        seq![MarkView::Bold]
    } else {
        Seq::empty()
    };
    if s.emphasis {
        bold.push(MarkView::Italic)
    } else {
        bold
    }
}

/// The state after a leaf with the characters `text` has arrived, `run`
/// being the run that stands for it: it goes to the open code block as
/// plain characters, else to the open heading, else to the open paragraph,
/// else nowhere.
pub open spec fn add_leaf(s: BuilderView, text: Seq<char>, run: InlineView) -> BuilderView {
    if s.code is Some {
        let code = s.code->0;
        BuilderView { code: Some(OpenCodeView { text: code.text + text, ..code }), ..s }
    } else if s.heading is Some {
        let heading = s.heading->0;
        BuilderView {
            heading: Some(OpenHeadingView { content: heading.content.push(run), ..heading }),
            ..s
        }
    } else if s.paragraph is Some {
        BuilderView { paragraph: Some(s.paragraph->0.push(run)), ..s }
    } else {
        s
    }
}

/// `items` with one space appended to the text of its last run.
pub open spec fn with_space(items: Seq<InlineView>) -> Seq<InlineView> {
    if items.len() > 0 && items.last() is Text {
        items.drop_last().push(
            InlineView::Text { text: items.last()->text.push(' '), marks: items.last()->marks },
        )
    } else {
        items
    }
}

/// The state after a soft or a hard break.
pub open spec fn add_break(s: BuilderView) -> BuilderView {
    match s.paragraph {
        Some(items) => BuilderView { paragraph: Some(with_space(items)), ..s },
        None => s,
    }
}

/// The state after the start of an element.
pub open spec fn start(s: BuilderView, tag: TagView) -> BuilderView {
    match tag {
        TagView::Heading(level) => BuilderView {
            heading: if level > 0 {
                Some(OpenHeadingView { level, content: Seq::empty() })
            } else {
                None
            },
            ..s
        },
        TagView::Paragraph => if s.paragraph is None {
            BuilderView { paragraph: Some(Seq::empty()), ..s }
        } else {
            s
        },
        TagView::Strong => BuilderView { strong: true, ..s },
        TagView::Emphasis => BuilderView { emphasis: true, ..s },
        TagView::CodeBlock(language) => BuilderView {
            code: Some(
                OpenCodeView {
                    language: match language {
                        Some(language) => language,
                        None => Seq::empty(),
                    },
                    text: Seq::empty(),
                },
            ),
            ..s
        },
        TagView::List(first) => BuilderView {
            lists: s.lists.push(OpenListView { ordered: first is Some, items: Seq::empty() }),
            ..s
        },
        TagView::Item => BuilderView {
            item: Some(Seq::empty()),
            paragraph: if s.paragraph is None {
                Some(Seq::empty())
            } else {
                s.paragraph
            },
            ..s
        },
        TagView::BlockQuote => BuilderView { quote: Some(Seq::empty()), ..s },
        TagView::Other => s,
    }
}

/// The state after the end of a paragraph: the open paragraph goes to its
/// destination; at the root one without runs is left out.
pub open spec fn end_paragraph(s: BuilderView) -> BuilderView {
    match s.paragraph {
        Some(items) => {
            let closed = BuilderView { paragraph: None, ..s };
            if placement(closed) is Root && items.len() == 0 {
                closed
            } else {
                place(closed, plain_paragraph(items))
            }
        },
        None => s,
    }
}

/// The state after the end of a heading.
pub open spec fn end_heading(s: BuilderView) -> BuilderView {
    match s.heading {
        Some(heading) => place(
            BuilderView { heading: None, ..s },
            BlockView::Heading {
                level: Some(heading.level as u64),
                align: None,
                content: heading.content,
            },
        ),
        None => s,
    }
}

/// The code block that the open code buffer amounts to; an empty one where
/// none is open.
pub open spec fn code_block_of(code: Option<OpenCodeView>) -> BlockView {
    match code {
        Some(code) => BlockView::CodeBlock {
            language: if code.language.len() == 0 {
                None
            } else {
                Some(code.language)
            },
            text: code.text,
        },
        None => BlockView::CodeBlock { language: None, text: Seq::empty() },
    }
}

/// The state after the end of a code block.
pub open spec fn end_code(s: BuilderView) -> BuilderView {
    place(BuilderView { code: None, ..s }, code_block_of(s.code))
}

/// The list block that a closed list amounts to.
pub open spec fn list_block(list: OpenListView) -> BlockView {
    if list.ordered {
        BlockView::OrderedList { items: list.items }
    } else {
        BlockView::BulletList { items: list.items }
    }
}

/// The state after the end of a list: the innermost open list is closed,
/// and goes to its destination unless it has no items.
pub open spec fn end_list(s: BuilderView) -> BuilderView {
    if s.lists.len() > 0 {
        let closed = BuilderView { lists: s.lists.drop_last(), ..s };
        if s.lists.last().items.len() > 0 {
            place(closed, list_block(s.lists.last()))
        } else {
            closed
        }
    } else {
        s
    }
}

/// The state after the paragraph that is open at the end of a list item
/// has been moved into the item; one without runs is dropped.
pub open spec fn flush_paragraph(s: BuilderView) -> BuilderView {
    match s.paragraph {
        Some(items) => {
            let closed = BuilderView { paragraph: None, ..s };
            if items.len() > 0 && s.item is Some {
                BuilderView { item: Some(s.item->0.push(plain_paragraph(items))), ..closed }
            } else {
                closed
            }
        },
        None => s,
    }
}

/// The blocks of a finished list item: one empty paragraph where it has
/// gathered nothing.
pub open spec fn item_blocks(blocks: Seq<BlockView>) -> Seq<BlockView> {
    if blocks.len() == 0 {
        seq![plain_paragraph(Seq::empty())]
    } else {
        blocks
    }
}

/// The state after the open item has been added to the innermost open list.
pub open spec fn close_item(s: BuilderView) -> BuilderView {
    match s.item {
        Some(blocks) => {
            let closed = BuilderView { item: None, ..s };
            if s.lists.len() > 0 {
                let list = s.lists.last();
                BuilderView {
                    lists: s.lists.drop_last().push(
                        OpenListView { items: list.items.push(item_blocks(blocks)), ..list },
                    ),
                    ..closed
                }
            } else {
                closed
            }
        },
        None => s,
    }
}

/// The state after the end of a list item.
pub open spec fn end_item(s: BuilderView) -> BuilderView {
    close_item(flush_paragraph(s))
}

/// The state after the end of a blockquote: it goes to its destination
/// unless it holds no blocks.
pub open spec fn end_quote(s: BuilderView) -> BuilderView {
    match s.quote {
        Some(blocks) => {
            let closed = BuilderView { quote: None, ..s };
            if blocks.len() > 0 {
                place(closed, BlockView::Blockquote { blocks })
            } else {
                closed
            }
        },
        None => s,
    }
}

/// The state after the end of an element.
pub open spec fn end(s: BuilderView, tag: MdTagEnd) -> BuilderView {
    match tag {
        MdTagEnd::Heading => end_heading(s),
        MdTagEnd::Paragraph => end_paragraph(s),
        MdTagEnd::Strong => BuilderView { strong: false, ..s },
        MdTagEnd::Emphasis => BuilderView { emphasis: false, ..s },
        MdTagEnd::CodeBlock => end_code(s),
        MdTagEnd::List => end_list(s),
        MdTagEnd::Item => end_item(s),
        MdTagEnd::BlockQuote => end_quote(s),
        MdTagEnd::Other => s,
    }
}

/// The state after one event.
pub open spec fn step(s: BuilderView, event: EventView) -> BuilderView {
    match event {
        EventView::Start(tag) => start(s, tag),
        EventView::End(tag) => end(s, tag),
        EventView::Text(text) => add_leaf(
            s,
            text,
            InlineView::Text { text, marks: active_marks(s) },
        ),
        EventView::Code(text) => add_leaf(
            s,
            text,
            InlineView::Text { text, marks: seq![MarkView::Code] },
        ),
        EventView::SoftBreak => add_break(s),
        EventView::HardBreak => add_break(s),
        EventView::Other => s,
    }
}

/// The state after the events of `events`, taken in order from `s`.
pub open spec fn run(s: BuilderView, events: Seq<EventView>) -> BuilderView
    decreases events.len(),
{
    if events.len() == 0 {
        s
    } else {
        step(run(s, events.drop_last()), events.last())
    }
}

/// The blocks of the finished document: never none, one empty paragraph
/// where nothing was placed under the root.
pub open spec fn finish(s: BuilderView) -> Seq<BlockView> {
    if s.content.len() == 0 {
        seq![plain_paragraph(Seq::empty())]
    } else {
        s.content
    }
}

/// The document that a sequence of events builds.
pub open spec fn events_document(events: Seq<EventView>) -> Seq<BlockView> {
    finish(run(initial_state(), events))
}

/// The runs of `items` with one space appended to the text of the last.
fn add_space(items: Vec<Inline>) -> (out: Vec<Inline>)
    ensures
        inlines_view(out@) == with_space(inlines_view(items@)),
{
    let mut items = items;
    match items.pop() {
        Some(Inline::Text { text, marks }) => {
            let mut text = text;
            text.push(' ');
            items.push(Inline::Text { text, marks });
        },
        Some(Inline::HardBreak) => {
            items.push(Inline::HardBreak);
        },
        None => {},
    }
    items
}

impl Builder {
    /// A builder that has taken no event.
    pub fn new() -> (b: Builder)
        ensures
            b@ == initial_state(),
    {
        let b = Builder {
            content: Vec::new(),
            paragraph: None,
            strong: false,
            emphasis: false,
            heading: None,
            lists: Vec::new(),
            item: None,
            quote: None,
            code: None,
        };
        proof {
            assert(b@.content =~= Seq::empty());
            assert(b@.lists =~= Seq::empty());
        }
        b
    }

    /// Appends a finished block to its destination.
    pub fn place(self, block: Block) -> (out: Builder)
        ensures
            out@ == place(self@, block@),
    {
        let mut s = self;
        if s.quote.is_some() {
            let mut blocks = s.quote.take().unwrap();
            proof {
                lemma_blocks_push(blocks@, block);
            }
            blocks.push(block);
            s.quote = Some(blocks);
        } else if s.item.is_some() {
            let mut blocks = s.item.take().unwrap();
            proof {
                lemma_blocks_push(blocks@, block);
            }
            blocks.push(block);
            s.item = Some(blocks);
        } else {
            proof {
                lemma_blocks_push(s.content@, block);
            }
            s.content.push(block);
        }
        s
    }

    /// The marks of a text leaf in this state.
    fn marks(&self) -> (marks: Vec<Mark>)
        ensures
            marks_view(marks@) == active_marks(self@),
    {
        let mut marks: Vec<Mark> = Vec::new();
        if self.strong {
            marks.push(Mark::Bold);
        }
        if self.emphasis {
            marks.push(Mark::Italic);
        }
        marks
    }

    /// Routes a leaf with the characters of `text`, for which `run` stands.
    fn add_leaf(self, text: &str, run: Inline) -> (out: Builder)
        ensures
            out@ == add_leaf(self@, text@, run@),
    {
        let mut s = self;
        if s.code.is_some() {
            let mut code = s.code.take().unwrap();
            code.text.append(text);
            s.code = Some(code);
        } else if s.heading.is_some() {
            let mut heading = s.heading.take().unwrap();
            proof {
                lemma_inlines_push(heading.content@, run);
            }
            heading.content.push(run);
            s.heading = Some(heading);
        } else if s.paragraph.is_some() {
            let mut items = s.paragraph.take().unwrap();
            proof {
                lemma_inlines_push(items@, run);
            }
            items.push(run);
            s.paragraph = Some(items);
        }
        s
    }

    /// Takes a soft or a hard break.
    fn add_break(self) -> (out: Builder)
        ensures
            out@ == add_break(self@),
    {
        let mut s = self;
        if s.paragraph.is_some() {
            let items = s.paragraph.take().unwrap();
            s.paragraph = Some(add_space(items));
        }
        s
    }

    /// Takes the start of an element.
    fn start(self, tag: &MdTag) -> (out: Builder)
        ensures
            out@ == start(self@, tag@),
    {
        let mut s = self;
        match tag {
            MdTag::Heading(level) => {
                if *level > 0 {
                    let content: Vec<Inline> = Vec::new();
                    proof {
                        assert(inlines_view(content@) =~= Seq::empty());
                    }
                    s.heading = Some(OpenHeading { level: *level, content });
                } else {
                    s.heading = None;
                }
            },
            MdTag::Paragraph => {
                if s.paragraph.is_none() {
                    let items: Vec<Inline> = Vec::new();
                    proof {
                        assert(inlines_view(items@) =~= Seq::empty());
                    }
                    s.paragraph = Some(items);
                }
            },
            MdTag::Strong => {
                s.strong = true;
            },
            MdTag::Emphasis => {
                s.emphasis = true;
            },
            MdTag::CodeBlock(language) => {
                let language = match language {
                    Some(language) => language.clone(),
                    None => String::new(),
                };
                s.code = Some(OpenCode { language, text: String::new() });
            },
            MdTag::List(first) => {
                let items: Vec<Vec<Block>> = Vec::new();
                let list = OpenList { ordered: first.is_some(), items };
                proof {
                    assert(items_view(list.items@) =~= Seq::empty());
                    assert(lists_view(s.lists@.push(list)) =~= lists_view(s.lists@).push(list@));
                }
                s.lists.push(list);
            },
            MdTag::Item => {
                let blocks: Vec<Block> = Vec::new();
                proof {
                    assert(blocks_view(blocks@) =~= Seq::empty());
                }
                s.item = Some(blocks);
                if s.paragraph.is_none() {
                    let items: Vec<Inline> = Vec::new();
                    proof {
                        assert(inlines_view(items@) =~= Seq::empty());
                    }
                    s.paragraph = Some(items);
                }
            },
            MdTag::BlockQuote => {
                let blocks: Vec<Block> = Vec::new();
                proof {
                    assert(blocks_view(blocks@) =~= Seq::empty());
                }
                s.quote = Some(blocks);
            },
            MdTag::Other => {},
        }
        s
    }

    /// Takes the end of a paragraph.
    fn end_paragraph(self) -> (out: Builder)
        ensures
            out@ == end_paragraph(self@),
    {
        let mut s = self;
        if s.paragraph.is_some() {
            let items = s.paragraph.take().unwrap();
            if s.quote.is_none() && s.item.is_none() && items.len() == 0 {
                s
            } else {
                s.place(paragraph_of(items))
            }
        } else {
            s
        }
    }

    /// Takes the end of a heading.
    fn end_heading(self) -> (out: Builder)
        ensures
            out@ == end_heading(self@),
    {
        let mut s = self;
        if s.heading.is_some() {
            let heading = s.heading.take().unwrap();
            let level: u64 = heading.level as u64;
            s.place(Block::Heading { level: Some(level), align: None, content: heading.content })
        } else {
            s
        }
    }

    /// Takes the end of a code block.
    fn end_code(self) -> (out: Builder)
        ensures
            out@ == end_code(self@),
    {
        let mut s = self;
        let block = match s.code.take() {
            Some(code) => {
                let language = if code.language.as_str().is_empty() {
                    None
                } else {
                    Some(code.language)
                };
                Block::CodeBlock { language, text: code.text }
            },
            None => Block::CodeBlock { language: None, text: String::new() },
        };
        s.place(block)
    }

    /// Takes the end of a list.
    fn end_list(self) -> (out: Builder)
        ensures
            out@ == end_list(self@),
    {
        let mut s = self;
        let ghost before = s.lists@;
        match s.lists.pop() {
            Some(list) => {
                proof {
                    assert(lists_view(s.lists@) =~= lists_view(before).drop_last());
                }
                if list.items.len() > 0 {
                    let block = if list.ordered {
                        Block::OrderedList { items: list.items }
                    } else {
                        Block::BulletList { items: list.items }
                    };
                    s.place(block)
                } else {
                    s
                }
            },
            None => s,
        }
    }

    /// Moves the paragraph that is open at the end of a list item into it.
    fn flush_paragraph(self) -> (out: Builder)
        ensures
            out@ == flush_paragraph(self@),
    {
        let mut s = self;
        if s.paragraph.is_some() {
            let items = s.paragraph.take().unwrap();
            if items.len() > 0 && s.item.is_some() {
                let mut blocks = s.item.take().unwrap();
                let block = paragraph_of(items);
                proof {
                    lemma_blocks_push(blocks@, block);
                }
                blocks.push(block);
                s.item = Some(blocks);
            }
        }
        s
    }

    /// Adds the open item to the innermost open list.
    fn close_item(self) -> (out: Builder)
        ensures
            out@ == close_item(self@),
    {
        let mut s = self;
        if s.item.is_some() {
            let blocks = s.item.take().unwrap();
            let ghost before = s.lists@;
            match s.lists.pop() {
                Some(list) => {
                    let mut list = list;
                    let blocks = if blocks.len() == 0 {
                        let mut one: Vec<Block> = Vec::new();
                        one.push(empty_paragraph());
                        proof {
                            assert(blocks_view(one@) =~= seq![plain_paragraph(Seq::empty())]);
                        }
                        one
                    } else {
                        blocks
                    };
                    proof {
                        assert(items_view(list.items@.push(blocks)) =~= items_view(list.items@).push(
                            blocks_view(blocks@),
                        ));
                    }
                    list.items.push(blocks);
                    s.lists.push(list);
                    proof {
                        assert(lists_view(s.lists@) =~= lists_view(before).drop_last().push(list@));
                    }
                },
                None => {},
            }
        }
        s
    }

    /// Takes the end of a blockquote.
    fn end_quote(self) -> (out: Builder)
        ensures
            out@ == end_quote(self@),
    {
        let mut s = self;
        if s.quote.is_some() {
            let blocks = s.quote.take().unwrap();
            if blocks.len() > 0 {
                s.place(Block::Blockquote { blocks })
            } else {
                s
            }
        } else {
            s
        }
    }

    /// Takes the end of an element.
    fn end(self, tag: &MdTagEnd) -> (out: Builder)
        ensures
            out@ == end(self@, *tag),
    {
        match tag {
            MdTagEnd::Heading => self.end_heading(),
            MdTagEnd::Paragraph => self.end_paragraph(),
            MdTagEnd::Strong => {
                let mut s = self;
                s.strong = false;
                s
            },
            MdTagEnd::Emphasis => {
                let mut s = self;
                s.emphasis = false;
                s
            },
            MdTagEnd::CodeBlock => self.end_code(),
            MdTagEnd::List => self.end_list(),
            MdTagEnd::Item => self.flush_paragraph().close_item(),
            MdTagEnd::BlockQuote => self.end_quote(),
            MdTagEnd::Other => self,
        }
    }

    /// Takes one event.
    pub fn step(self, event: &MdEvent) -> (out: Builder)
        ensures
            out@ == step(self@, event@),
    {
        match event {
            MdEvent::Start(tag) => self.start(tag),
            MdEvent::End(tag) => self.end(tag),
            MdEvent::Text(text) => {
                let run = Inline::Text { text: text.clone(), marks: self.marks() };
                self.add_leaf(text.as_str(), run)
            },
            MdEvent::Code(text) => {
                let mut marks: Vec<Mark> = Vec::new();
                marks.push(Mark::Code);
                proof {
                    assert(marks_view(marks@) =~= seq![MarkView::Code]);
                }
                let run = Inline::Text { text: text.clone(), marks };
                self.add_leaf(text.as_str(), run)
            },
            MdEvent::SoftBreak => self.add_break(),
            MdEvent::HardBreak => self.add_break(),
            MdEvent::Other => self,
        }
    }

    /// The document that has been built.
    pub fn finish(self) -> (doc: Document)
        ensures
            doc@ == finish(self@),
    {
        let mut content = self.content;
        if content.len() == 0 {
            content.push(empty_paragraph());
        }
        Document { content }
    }
}

/// Builds the document of a sequence of events.
pub fn document_from_events(events: &Vec<MdEvent>) -> (doc: Document)
    ensures
        doc@ == events_document(events_view(events@)),
        doc@.len() > 0,
{
    let mut builder = Builder::new();
    let mut i: usize = 0;
    while i < events.len()
        invariant
            i <= events.len(),
            builder@ == run(initial_state(), events_view(events@).take(i as int)),
        decreases events.len() - i,
    {
        proof {
            let all = events_view(events@);
            assert(all.take(i + 1).drop_last() =~= all.take(i as int));
        }
        builder = builder.step(&events[i]);
        i += 1;
    }
    proof {
        assert(events_view(events@).take(i as int) =~= events_view(events@));
    }
    builder.finish()
}

/// Converts Markdown to a document: the events of the parser, folded by the
/// builder.
pub fn markdown_to_tiptap_json(markdown: &str) -> (doc: Document)
    ensures
        doc@ == events_document(markdown_events(markdown@)),
        doc@.len() > 0,
{
    let events = parse_markdown(markdown);
    document_from_events(&events)
}

/// Whether every block that a state holds is filled, and every item of its
/// open lists holds a block.
pub open spec fn state_filled(s: BuilderView) -> bool {
    &&& all_filled(s.content)
    &&& s.item is Some ==> all_filled(s.item->0)
    &&& s.quote is Some ==> all_filled(s.quote->0)
    &&& forall|i: int| 0 <= i < s.lists.len() ==> items_filled((#[trigger] s.lists[i]).items)
}

/// One event keeps a state filled.
pub proof fn lemma_step_filled(s: BuilderView, event: EventView)
    requires
        state_filled(s),
    ensures
        state_filled(step(s, event)),
{
    match event {
        EventView::Start(TagView::List(first)) => {
            let list = OpenListView { ordered: first is Some, items: Seq::empty() };
            assert forall|i: int| 0 <= i < s.lists.push(list).len() implies items_filled(
                (#[trigger] s.lists.push(list)[i]).items,
            ) by {}
        },
        EventView::End(MdTagEnd::List) => {
            if s.lists.len() > 0 {
                let closed = BuilderView { lists: s.lists.drop_last(), ..s };
                assert forall|i: int| 0 <= i < closed.lists.len() implies items_filled(
                    (#[trigger] closed.lists[i]).items,
                ) by {}
            }
        },
        EventView::End(MdTagEnd::Item) => {
            let f = flush_paragraph(s);
            assert(state_filled(f)) by {
                if s.paragraph is Some && s.paragraph->0.len() > 0 && s.item is Some {
                    let blocks = s.item->0.push(plain_paragraph(s.paragraph->0));
                    assert forall|i: int| 0 <= i < blocks.len() implies filled(
                        #[trigger] blocks[i],
                    ) by {}
                }
            }
            if f.item is Some && f.lists.len() > 0 {
                let list = f.lists.last();
                let items = list.items.push(item_blocks(f.item->0));
                assert forall|i: int| 0 <= i < items.len() implies (#[trigger] items[i]).len() > 0
                    && all_filled(items[i]) by {}
                let lists = f.lists.drop_last().push(OpenListView { items, ..list });
                assert forall|i: int| 0 <= i < lists.len() implies items_filled(
                    (#[trigger] lists[i]).items,
                ) by {}
            }
        },
        _ => {},
    }
}

/// Every sequence of events keeps a state filled.
pub proof fn lemma_run_filled(s: BuilderView, events: Seq<EventView>)
    requires
        state_filled(s),
    ensures
        state_filled(run(s, events)),
    decreases events.len(),
{
    if events.len() > 0 {
        lemma_run_filled(s, events.drop_last());
        lemma_step_filled(run(s, events.drop_last()), events.last());
    }
}

/// The document of any sequence of events holds a block, and nothing in it
/// is empty that must hold something: no list is without items, no item and
/// no blockquote without blocks.
pub proof fn lemma_document_filled(events: Seq<EventView>)
    ensures
        events_document(events).len() > 0,
        all_filled(events_document(events)),
{
    lemma_run_filled(initial_state(), events);
}

} // verus!
