//! The rich-text document tree and its mathematical model. The tree is that
//! of a TipTap document, which the editor stores as JSON.

use vstd::prelude::*;

verus! {

/// A formatting attribute of a run of text.
#[derive(Debug)]
pub enum Mark {
    Bold,
    Italic,
    Strike,
    Code,
    /// Font settings; `font_size` holds the size in points as decimal text.
    TextStyle { font_size: Option<String>, font_family: Option<String> },
}

/// One piece of inline content.
#[derive(Debug)]
pub enum Inline {
    /// A run of text with its marks, outermost first.
    Text { text: String, marks: Vec<Mark> },
    HardBreak,
}

/// A structural unit of a document.
#[derive(Debug)]
pub enum Block {
    Paragraph { align: Option<String>, content: Vec<Inline> },
    Heading { level: Option<u64>, align: Option<String>, content: Vec<Inline> },
    Blockquote { blocks: Vec<Block> },
    BulletList { items: Vec<Vec<Block>> },
    OrderedList { items: Vec<Vec<Block>> },
    CodeBlock { language: Option<String>, text: String },
    HorizontalRule,
    ColorBleed { background: Option<String>, text_color: Option<String>, blocks: Vec<Block> },
    ImageBleed { name: String, alt: String },
}

/// A document: the blocks under its root, in order.
#[derive(Debug)]
pub struct Document {
    pub content: Vec<Block>,
}

/// What a `Mark` stands for.
pub enum MarkView {
    Bold,
    Italic,
    Strike,
    Code,
    TextStyle { font_size: Option<Seq<char>>, font_family: Option<Seq<char>> },
}

/// What an `Inline` stands for.
pub enum InlineView {
    Text { text: Seq<char>, marks: Seq<MarkView> },
    HardBreak,
}

/// What a `Block` stands for.
pub enum BlockView {
    Paragraph { align: Option<Seq<char>>, content: Seq<InlineView> },
    Heading { level: Option<u64>, align: Option<Seq<char>>, content: Seq<InlineView> },
    Blockquote { blocks: Seq<BlockView> },
    BulletList { items: Seq<Seq<BlockView>> },
    OrderedList { items: Seq<Seq<BlockView>> },
    CodeBlock { language: Option<Seq<char>>, text: Seq<char> },
    HorizontalRule,
    ColorBleed { background: Option<Seq<char>>, text_color: Option<Seq<char>>, blocks: Seq<BlockView> },
    ImageBleed { name: Seq<char>, alt: Seq<char> },
}

/// The characters of an optional string.
pub open spec fn opt_view(s: Option<String>) -> Option<Seq<char>> {
    match s {
        Some(s) => Some(s@),
        None => None,
    }
}

impl View for Mark {
    type V = MarkView;

    open spec fn view(&self) -> MarkView {
        match self {
            Mark::Bold => MarkView::Bold,
            Mark::Italic => MarkView::Italic,
            Mark::Strike => MarkView::Strike,
            Mark::Code => MarkView::Code,
            Mark::TextStyle { font_size, font_family } => MarkView::TextStyle {
                font_size: opt_view(*font_size),
                font_family: opt_view(*font_family),
            },
        }
    }
}

/// The models of a sequence of marks.
pub open spec fn marks_view(marks: Seq<Mark>) -> Seq<MarkView> {
    Seq::new(marks.len(), |i: int| marks[i]@)
}

impl View for Inline {
    type V = InlineView;

    open spec fn view(&self) -> InlineView {
        match self {
            Inline::Text { text, marks } => InlineView::Text { text: text@, marks: marks_view(marks@) },
            Inline::HardBreak => InlineView::HardBreak,
        }
    }
}

/// The models of a sequence of inline items.
pub open spec fn inlines_view(items: Seq<Inline>) -> Seq<InlineView> {
    Seq::new(items.len(), |i: int| items[i]@)
}

impl View for Block {
    type V = BlockView;

    open spec fn view(&self) -> BlockView
        decreases self,
    {
        match self {
            Block::Paragraph { align, content } => BlockView::Paragraph {
                align: opt_view(*align),
                content: inlines_view(content@),
            },
            Block::Heading { level, align, content } => BlockView::Heading {
                level: *level,
                align: opt_view(*align),
                content: inlines_view(content@),
            },
            Block::Blockquote { blocks } => BlockView::Blockquote { blocks: blocks_view(blocks@) },
            Block::BulletList { items } => BlockView::BulletList { items: items_view(items@) },
            Block::OrderedList { items } => BlockView::OrderedList { items: items_view(items@) },
            Block::CodeBlock { language, text } => BlockView::CodeBlock {
                language: opt_view(*language),
                text: text@,
            },
            Block::HorizontalRule => BlockView::HorizontalRule,
            Block::ColorBleed { background, text_color, blocks } => BlockView::ColorBleed {
                background: opt_view(*background),
                text_color: opt_view(*text_color),
                blocks: blocks_view(blocks@),
            },
            Block::ImageBleed { name, alt } => BlockView::ImageBleed { name: name@, alt: alt@ },
        }
    }
}

/// The models of a sequence of blocks.
pub open spec fn blocks_view(blocks: Seq<Block>) -> Seq<BlockView>
    decreases blocks,
{
    Seq::new(
        blocks.len(),
        |i: int|
            if 0 <= i < blocks.len() {
                blocks[i]@
            } else {
                BlockView::HorizontalRule
            },
    )
}

/// The models of the items of a list.
pub open spec fn items_view(items: Seq<Vec<Block>>) -> Seq<Seq<BlockView>>
    decreases items,
{
    Seq::new(
        items.len(),
        |i: int|
            if 0 <= i < items.len() {
                blocks_view(items[i]@)
            } else {
                Seq::empty()
            },
    )
}

impl View for Document {
    type V = Seq<BlockView>;

    open spec fn view(&self) -> Seq<BlockView> {
        blocks_view(self.content@)
    }
}

/// A paragraph without alignment.
pub open spec fn plain_paragraph(content: Seq<InlineView>) -> BlockView {
    BlockView::Paragraph { align: None, content }
}

/// `blocks_view` of a sequence with one more block at its end.
pub proof fn lemma_blocks_push(blocks: Seq<Block>, block: Block)
    ensures
        blocks_view(blocks.push(block)) == blocks_view(blocks).push(block@),
{
}

/// `inlines_view` of a sequence with one more item at its end.
pub proof fn lemma_inlines_push(items: Seq<Inline>, item: Inline)
    ensures
        inlines_view(items.push(item)) == inlines_view(items).push(item@),
{
}

/// A paragraph without alignment that holds `content`.
pub fn paragraph_of(content: Vec<Inline>) -> (block: Block)
    ensures
        block@ == plain_paragraph(inlines_view(content@)),
{
    Block::Paragraph { align: None, content }
}

/// A paragraph that holds nothing.
pub fn empty_paragraph() -> (block: Block)
    ensures
        block@ == plain_paragraph(Seq::empty()),
{
    let content: Vec<Inline> = Vec::new();
    proof {
        assert(inlines_view(content@) =~= Seq::empty());
    }
    paragraph_of(content)
}

/// Whether nothing in `block` is empty that must hold something: every
/// list holds an item, every item a block, and every blockquote a block,
/// all the way down.
pub open spec fn filled(block: BlockView) -> bool
    decreases block,
{
    match block {
        BlockView::Blockquote { blocks } => blocks.len() > 0 && all_filled(blocks),
        BlockView::BulletList { items } => items.len() > 0 && items_filled(items),
        BlockView::OrderedList { items } => items.len() > 0 && items_filled(items),
        BlockView::ColorBleed { blocks, .. } => all_filled(blocks),
        _ => true,
    }
}

/// Whether each of `blocks` is filled.
pub open spec fn all_filled(blocks: Seq<BlockView>) -> bool
    decreases blocks,
{
    forall|i: int| 0 <= i < blocks.len() ==> filled(#[trigger] blocks[i])
}

/// Whether each of `items` holds a block, and only filled ones.
pub open spec fn items_filled(items: Seq<Seq<BlockView>>) -> bool
    decreases items,
{
    forall|i: int| 0 <= i < items.len() ==> (#[trigger] items[i]).len() > 0 && all_filled(items[i])
}

} // verus!
