//! Document tree to XHTML.

use vstd::prelude::*;
use vstd::string::StringExecFns;
use crate::document::{
    blocks_view, inlines_view, items_view, marks_view, opt_view, Block, BlockView, Inline,
    InlineView, Mark, MarkView,
};
use crate::text::{decimal, decimal_string, same_text};

verus! {

/// What stands for one character in XML text: an entity for `&`, `<`, `>`
/// and `"`, the character itself for any other.
pub open spec fn escaped_char(c: char) -> Seq<char> {
    if c == '&' {
        "&amp;"@
    } else if c == '<' {
        "&lt;"@
    } else if c == '>' {
        "&gt;"@
    } else if c == '"' {
        "&quot;"@
    } else {
        seq![c]
    }
}

/// `s` with each of its characters escaped for XML.
pub open spec fn escaped(s: Seq<char>) -> Seq<char>
    decreases s.len(),
{
    if s.len() == 0 {
        Seq::empty()
    } else {
        escaped(s.drop_last()) + escaped_char(s.last())
    }
}

/// Escapes `s` for XML.
pub fn escape_xml(s: &str) -> (out: String)
    ensures
        out@ == escaped(s@),
{
    let mut out = String::new();
    for c in it: s.chars()
        invariant
            it.seq() == s@,
            out@ == escaped(s@.take(it.index() as int)),
    {
        proof {
            let i = it.index() as int;
            assert(s@.take(i + 1).drop_last() =~= s@.take(i));
        }
        if c == '&' {
            out.append("&amp;");
        } else if c == '<' {
            out.append("&lt;");
        } else if c == '>' {
            out.append("&gt;");
        } else if c == '"' {
            out.append("&quot;");
        } else {
            out.push(c);
        }
    }
    proof {
        assert(s@.take(s@.len() as int) =~= s@);
    }
    out
}

/// Whether a text style sets anything: a font size, or a font family that
/// is not empty.
pub open spec fn sets_style(font_size: Option<Seq<char>>, font_family: Option<Seq<char>>) -> bool {
    font_size is Some || (font_family is Some && font_family->0.len() > 0)
}

/// The declarations of a text style.
pub open spec fn style_text(font_size: Option<Seq<char>>, font_family: Option<Seq<char>>) -> Seq<
    char,
> {
    let size = match font_size {
        Some(size) => "font-size:"@ + escaped(size) + "pt;"@,
        None => Seq::empty(),
    };
    match font_family {
        Some(family) => if family.len() > 0 {
            size + "font-family:"@ + escaped(family) + ";"@
        } else {
            size
        },
        None => size,
    }
}

/// The tag that opens a mark.
pub open spec fn mark_open(mark: MarkView) -> Seq<char> {
    match mark {
        MarkView::Bold => "<strong>"@,
        MarkView::Italic => "<em>"@,
        MarkView::Strike => "<s>"@,
        MarkView::Code => "<code>"@,
        MarkView::TextStyle { font_size, font_family } => if sets_style(font_size, font_family) {
            "<span style=\""@ + style_text(font_size, font_family) + "\">"@
        } else {
            Seq::empty()
        },
    }
}

/// The tag that closes a mark.
pub open spec fn mark_close(mark: MarkView) -> Seq<char> {
    match mark {
        MarkView::Bold => "</strong>"@,
        MarkView::Italic => "</em>"@,
        MarkView::Strike => "</s>"@,
        MarkView::Code => "</code>"@,
        MarkView::TextStyle { font_size, font_family } => if sets_style(font_size, font_family) {
            "</span>"@
        } else {
            Seq::empty()
        },
    }
}

/// The opening tags of `marks`, in their order.
pub open spec fn marks_open(marks: Seq<MarkView>) -> Seq<char>
    decreases marks.len(),
{
    if marks.len() == 0 {
        Seq::empty()
    } else {
        marks_open(marks.drop_last()) + mark_open(marks.last())
    }
}

/// The closing tags of `marks`, in the reverse of their order.
pub open spec fn marks_close(marks: Seq<MarkView>) -> Seq<char>
    decreases marks.len(),
{
    if marks.len() == 0 {
        Seq::empty()
    } else {
        marks_close(marks.skip(1)) + mark_close(marks[0])
    }
}

/// The XHTML of one inline item.
pub open spec fn inline_xhtml(item: InlineView) -> Seq<char> {
    match item {
        InlineView::HardBreak => "<br/>"@,
        InlineView::Text { text, marks } => marks_open(marks) + escaped(text) + marks_close(marks),
    }
}

/// The XHTML of a sequence of inline items.
pub open spec fn inlines_xhtml(items: Seq<InlineView>) -> Seq<char>
    decreases items.len(),
{
    if items.len() == 0 {
        Seq::empty()
    } else {
        inlines_xhtml(items.drop_last()) + inline_xhtml(items.last())
    }
}

/// The declarations of the text style `font_size`, `font_family`.
fn style_of(font_size: &Option<String>, font_family: &Option<String>) -> (out: String)
    ensures
        out@ == style_text(opt_view(*font_size), opt_view(*font_family)),
{
    let mut out = String::new();
    match font_size {
        Some(size) => {
            out.append("font-size:");
            out.append(escape_xml(size.as_str()).as_str());
            out.append("pt;");
        },
        None => {},
    }
    match font_family {
        Some(family) => {
            if !family.as_str().is_empty() {
                out.append("font-family:");
                out.append(escape_xml(family.as_str()).as_str());
                out.append(";");
            }
        },
        None => {},
    }
    out
}

/// Tells whether a text style sets anything.
fn style_is_set(font_size: &Option<String>, font_family: &Option<String>) -> (b: bool)
    ensures
        b == sets_style(opt_view(*font_size), opt_view(*font_family)),
{
    font_size.is_some() || match font_family {
        Some(family) => !family.as_str().is_empty(),
        None => false,
    }
}

/// The tag that opens `mark`.
fn open_tag(mark: &Mark) -> (out: String)
    ensures
        out@ == mark_open(mark@),
{
    match mark {
        Mark::Bold => "<strong>".to_owned(),
        Mark::Italic => "<em>".to_owned(),
        Mark::Strike => "<s>".to_owned(),
        Mark::Code => "<code>".to_owned(),
        Mark::TextStyle { font_size, font_family } => {
            if style_is_set(font_size, font_family) {
                let mut out = "<span style=\"".to_owned();
                out.append(style_of(font_size, font_family).as_str());
                out.append("\">");
                out
            } else {
                String::new()
            }
        },
    }
}

/// The tag that closes `mark`.
fn close_tag(mark: &Mark) -> (out: String)
    ensures
        out@ == mark_close(mark@),
{
    match mark {
        Mark::Bold => "</strong>".to_owned(),
        Mark::Italic => "</em>".to_owned(),
        Mark::Strike => "</s>".to_owned(),
        Mark::Code => "</code>".to_owned(),
        Mark::TextStyle { font_size, font_family } => {
            if style_is_set(font_size, font_family) {
                "</span>".to_owned()
            } else {
                String::new()
            }
        },
    }
}

/// The XHTML of one run: its text escaped, inside the tags of its marks.
fn render_run(text: &str, marks: &Vec<Mark>) -> (out: String)
    ensures
        out@ == marks_open(marks_view(marks@)) + escaped(text@) + marks_close(marks_view(marks@)),
{
    let ghost all = marks_view(marks@);
    let mut out = String::new();
    let mut i: usize = 0;
    while i < marks.len()
        invariant
            i <= marks.len(),
            all == marks_view(marks@),
            out@ == marks_open(all.take(i as int)),
        decreases marks.len() - i,
    {
        proof {
            assert(all.take(i + 1).drop_last() =~= all.take(i as int));
        }
        out.append(open_tag(&marks[i]).as_str());
        i += 1;
    }
    out.append(escape_xml(text).as_str());
    let ghost head = out@;
    let mut k: usize = marks.len();
    while k > 0
        invariant
            k <= marks.len(),
            all == marks_view(marks@),
            out@ == head + marks_close(all.skip(k as int)),
        decreases k,
    {
        k -= 1;
        proof {
            assert(all.skip(k as int).skip(1) =~= all.skip(k + 1));
        }
        out.append(close_tag(&marks[k]).as_str());
    }
    proof {
        assert(all.skip(0) =~= all);
    }
    out
}

/// Renders inline content to XHTML.
pub fn render_inline(items: &Vec<Inline>) -> (out: String)
    ensures
        out@ == inlines_xhtml(inlines_view(items@)),
{
    let ghost all = inlines_view(items@);
    let mut out = String::new();
    let mut i: usize = 0;
    while i < items.len()
        invariant
            i <= items.len(),
            all == inlines_view(items@),
            out@ == inlines_xhtml(all.take(i as int)),
        decreases items.len() - i,
    {
        proof {
            assert(all.take(i + 1).drop_last() =~= all.take(i as int));
        }
        match &items[i] {
            Inline::HardBreak => {
                out.append("<br/>");
            },
            Inline::Text { text, marks } => {
                out.append(render_run(text.as_str(), marks).as_str());
            },
        }
        i += 1;
    }
    proof {
        assert(all.take(i as int) =~= all);
    }
    out
}

/// The style attribute of a paragraph or heading: none for no alignment and
/// for `left`.
pub open spec fn align_style(align: Option<Seq<char>>) -> Seq<char> {
    match align {
        Some(align) => if align == "left"@ {
            Seq::empty()
        } else {
            " style=\"text-align:"@ + align + "\""@
        },
        None => Seq::empty(),
    }
}

/// The level with which a heading is rendered: its own, held within 2 and 6;
/// 2 where it has none.
pub open spec fn heading_level(level: Option<u64>) -> nat {
    match level {
        Some(level) => if level < 2 {
            2
        } else if level > 6 {
            6
        } else {
            level as nat
        },
        None => 2,
    }
}

/// What a list item shows of its blocks: the inline content of the
/// paragraphs directly in it.
pub open spec fn item_inline(blocks: Seq<BlockView>) -> Seq<char>
    decreases blocks.len(),
{
    if blocks.len() == 0 {
        Seq::empty()
    } else {
        item_inline(blocks.drop_last()) + (match blocks.last() {
            BlockView::Paragraph { content, .. } => inlines_xhtml(content),
            _ => Seq::empty(),
        })
    }
}

/// The XHTML of the items of a list, one `li` element each.
pub open spec fn items_xhtml(items: Seq<Seq<BlockView>>) -> Seq<char>
    decreases items.len(),
{
    if items.len() == 0 {
        Seq::empty()
    } else {
        items_xhtml(items.drop_last()) + "<li>"@ + item_inline(items.last()) + "</li>\n"@
    }
}

/// The value of a color: `default` where none is given.
pub open spec fn color_or(color: Option<Seq<char>>, default: Seq<char>) -> Seq<char> {
    match color {
        Some(color) => color,
        None => default,
    }
}

/// The XHTML of one block.
pub open spec fn block_xhtml(block: BlockView) -> Seq<char>
    decreases block,
{
    match block {
        BlockView::Paragraph { align, content } => {
            let inner = inlines_xhtml(content);
            "<p"@ + align_style(align) + ">"@ + (if inner.len() == 0 {
                "&#160;"@
            } else {
                inner
            }) + "</p>\n"@
        },
        BlockView::Heading { level, align, content } => "<h"@ + decimal(heading_level(level))
            + align_style(align) + ">"@ + inlines_xhtml(content) + "</h"@ + decimal(
            heading_level(level),
        ) + ">\n"@,
        BlockView::Blockquote { blocks } => "<blockquote>\n"@ + blocks_xhtml(blocks)
            + "</blockquote>\n"@,
        BlockView::BulletList { items } => "<ul>\n"@ + items_xhtml(items) + "</ul>\n"@,
        BlockView::OrderedList { items } => "<ol>\n"@ + items_xhtml(items) + "</ol>\n"@,
        BlockView::CodeBlock { .. } => Seq::empty(),
        BlockView::HorizontalRule => "<hr/>\n"@,
        BlockView::ColorBleed { background, text_color, blocks } => "<div style=\"background-color:"@
            + escaped(color_or(background, "#000000"@)) + ";color:"@ + escaped(
            color_or(text_color, "#ffffff"@),
        ) + ";margin:0 -2em;padding:2em;\">\n"@ + blocks_xhtml(blocks) + "</div>\n"@,
        BlockView::ImageBleed { name, alt } => if name.len() > 0 {
            "<div class=\"image-bleed\"><img src=\"../images/"@ + escaped(name) + "\" alt=\""@
                + escaped(alt) + "\"/></div>\n"@
        } else {
            Seq::empty()
        },
    }
}

/// The XHTML of a sequence of blocks.
pub open spec fn blocks_xhtml(blocks: Seq<BlockView>) -> Seq<char>
    decreases blocks,
{
    if blocks.len() == 0 {
        Seq::empty()
    } else {
        blocks_xhtml(blocks.drop_last()) + block_xhtml(blocks.last())
    }
}

/// The style attribute for `align`.
fn align_attr(align: &Option<String>) -> (out: String)
    ensures
        out@ == align_style(opt_view(*align)),
{
    match align {
        Some(align) => {
            if same_text(align.as_str(), "left") {
                String::new()
            } else {
                let mut out = " style=\"text-align:".to_owned();
                out.append(align.as_str());
                out.append("\"");
                out
            }
        },
        None => String::new(),
    }
}

/// The level with which a heading of level `level` is rendered.
fn clamped_level(level: &Option<u64>) -> (out: u64)
    ensures
        out == heading_level(*level),
{
    match level {
        Some(level) => {
            if *level < 2 {
                2
            } else if *level > 6 {
                6
            } else {
                *level
            }
        },
        None => 2,
    }
}

/// What a list item shows of its blocks.
fn render_item_inline(blocks: &Vec<Block>) -> (out: String)
    ensures
        out@ == item_inline(blocks_view(blocks@)),
{
    let ghost all = blocks_view(blocks@);
    let mut out = String::new();
    let mut i: usize = 0;
    while i < blocks.len()
        invariant
            i <= blocks.len(),
            all == blocks_view(blocks@),
            out@ == item_inline(all.take(i as int)),
        decreases blocks.len() - i,
    {
        proof {
            assert(all.take(i + 1).drop_last() =~= all.take(i as int));
        }
        match &blocks[i] {
            Block::Paragraph { content, .. } => {
                out.append(render_inline(content).as_str());
            },
            _ => {},
        }
        i += 1;
    }
    proof {
        assert(all.take(i as int) =~= all);
    }
    out
}

/// The XHTML of the items of a list.
fn render_items(items: &Vec<Vec<Block>>) -> (out: String)
    ensures
        out@ == items_xhtml(items_view(items@)),
{
    let ghost all = items_view(items@);
    let mut out = String::new();
    let mut i: usize = 0;
    while i < items.len()
        invariant
            i <= items.len(),
            all == items_view(items@),
            out@ == items_xhtml(all.take(i as int)),
        decreases items.len() - i,
    {
        proof {
            assert(all.take(i + 1).drop_last() =~= all.take(i as int));
        }
        out.append("<li>");
        out.append(render_item_inline(&items[i]).as_str());
        out.append("</li>\n");
        i += 1;
    }
    proof {
        assert(all.take(i as int) =~= all);
    }
    out
}

/// The XHTML of one block.
fn render_block(block: &Block) -> (out: String)
    ensures
        out@ == block_xhtml(block@),
    decreases block,
{
    match block {
        Block::Paragraph { align, content } => {
            let inner = render_inline(content);
            let mut out = "<p".to_owned();
            out.append(align_attr(align).as_str());
            out.append(">");
            if inner.as_str().is_empty() {
                out.append("&#160;");
            } else {
                out.append(inner.as_str());
            }
            out.append("</p>\n");
            out
        },
        Block::Heading { level, align, content } => {
            let digits = decimal_string(clamped_level(level));
            let mut out = "<h".to_owned();
            out.append(digits.as_str());
            out.append(align_attr(align).as_str());
            out.append(">");
            out.append(render_inline(content).as_str());
            out.append("</h");
            out.append(digits.as_str());
            out.append(">\n");
            out
        },
        Block::Blockquote { blocks } => {
            let mut out = "<blockquote>\n".to_owned();
            out.append(render_blocks(blocks).as_str());
            out.append("</blockquote>\n");
            out
        },
        Block::BulletList { items } => {
            let mut out = "<ul>\n".to_owned();
            out.append(render_items(items).as_str());
            out.append("</ul>\n");
            out
        },
        Block::OrderedList { items } => {
            let mut out = "<ol>\n".to_owned();
            out.append(render_items(items).as_str());
            out.append("</ol>\n");
            out
        },
        Block::CodeBlock { .. } => String::new(),
        Block::HorizontalRule => "<hr/>\n".to_owned(),
        Block::ColorBleed { background, text_color, blocks } => {
            let mut out = "<div style=\"background-color:".to_owned();
            match background {
                Some(color) => out.append(escape_xml(color.as_str()).as_str()),
                None => out.append(escape_xml("#000000").as_str()),
            }
            out.append(";color:");
            match text_color {
                Some(color) => out.append(escape_xml(color.as_str()).as_str()),
                None => out.append(escape_xml("#ffffff").as_str()),
            }
            out.append(";margin:0 -2em;padding:2em;\">\n");
            out.append(render_blocks(blocks).as_str());
            out.append("</div>\n");
            out
        },
        Block::ImageBleed { name, alt } => {
            if name.as_str().is_empty() {
                String::new()
            } else {
                let mut out = "<div class=\"image-bleed\"><img src=\"../images/".to_owned();
                out.append(escape_xml(name.as_str()).as_str());
                out.append("\" alt=\"");
                out.append(escape_xml(alt.as_str()).as_str());
                out.append("\"/></div>\n");
                out
            }
        },
    }
}

/// Renders blocks to XHTML.
pub fn render_blocks(nodes: &Vec<Block>) -> (out: String)
    ensures
        out@ == blocks_xhtml(blocks_view(nodes@)),
    decreases nodes,
{
    let ghost all = blocks_view(nodes@);
    let mut out = String::new();
    let mut i: usize = 0;
    while i < nodes.len()
        invariant
            i <= nodes.len(),
            all == blocks_view(nodes@),
            out@ == blocks_xhtml(all.take(i as int)),
        decreases nodes.len() - i,
    {
        proof {
            assert(all.take(i + 1).drop_last() =~= all.take(i as int));
        }
        out.append(render_block(&nodes[i]).as_str());
        i += 1;
    }
    proof {
        assert(all.take(i as int) =~= all);
    }
    out
}

/// The opening tags of two sequences of marks, one after the other.
pub proof fn lemma_marks_open_concat(a: Seq<MarkView>, b: Seq<MarkView>)
    ensures
        marks_open(a + b) == marks_open(a) + marks_open(b),
    decreases b.len(),
{
    if b.len() > 0 {
        lemma_marks_open_concat(a, b.drop_last());
        assert((a + b).drop_last() =~= a + b.drop_last());
    }
}

/// The closing tags of two sequences of marks: those of the second come
/// first.
pub proof fn lemma_marks_close_concat(a: Seq<MarkView>, b: Seq<MarkView>)
    ensures
        marks_close(a + b) == marks_close(b) + marks_close(a),
    decreases a.len(),
{
    if a.len() > 0 {
        lemma_marks_close_concat(a.skip(1), b);
        assert((a + b).skip(1) =~= a.skip(1) + b);
    }
}

/// The marks of a run nest: a run with the marks `outer` and then `inner`
/// is the run with the marks `inner`, inside the opening tags of `outer`
/// and, in the reverse of their order, its closing tags.
pub proof fn lemma_marks_nest(outer: Seq<MarkView>, inner: Seq<MarkView>, text: Seq<char>)
    ensures
        inline_xhtml(InlineView::Text { text, marks: outer + inner }) == marks_open(outer)
            + inline_xhtml(InlineView::Text { text, marks: inner }) + marks_close(outer),
{
    lemma_marks_open_concat(outer, inner);
    lemma_marks_close_concat(outer, inner);
}

/// A heading is rendered with a level from 2 to 6, whatever its own.
pub proof fn lemma_heading_level_clamped(level: Option<u64>)
    ensures
        2 <= heading_level(level) <= 6,
        level is Some && 2 <= level->0 <= 6 ==> heading_level(level) == level->0,
{
}

/// A paragraph without inline content is rendered with a no-break space
/// inside, not as an empty element.
pub proof fn lemma_empty_paragraph_visible(align: Option<Seq<char>>)
    ensures
        block_xhtml(BlockView::Paragraph { align, content: Seq::empty() }) == "<p"@ + align_style(
            align,
        ) + ">"@ + "&#160;"@ + "</p>\n"@,
{
}

} // verus!
