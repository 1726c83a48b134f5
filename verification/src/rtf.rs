//! Document tree to RTF: a flat rendering of the blocks under the root.

use vstd::prelude::*;
use vstd::string::StringExecFns;
use crate::document::{
    blocks_view, inlines_view, marks_view, Block, BlockView, Document, Inline, InlineView, Mark,
    MarkView,
};
use crate::chapters::{chapter_title, chapter_title_string};
use crate::clock::{is_day, today};
use crate::project::has_id;
use crate::text::{decimal, decimal_string, push_decimal};

verus! {

/// Whether `marks` holds the mark `wanted`, which is `Bold` or `Italic`.
pub open spec fn has_mark(marks: Seq<MarkView>, wanted: MarkView) -> bool {
    exists|i: int| 0 <= i < marks.len() && #[trigger] marks[i] == wanted
}

/// The RTF of one inline item of a paragraph: the control words of its bold
/// and italic marks, its text, and the reset of both. A hard break is
/// nothing but the reset.
pub open spec fn run_rtf(item: InlineView) -> Seq<char> {
    match item {
        InlineView::Text { text, marks } => (if has_mark(marks, MarkView::Bold) {
            "\\b "@
        } else {
            Seq::empty()
        }) + (if has_mark(marks, MarkView::Italic) {
            "\\i "@
        } else {
            Seq::empty()
        }) + text + "\\b0\\i0 "@,
        InlineView::HardBreak => "\\b0\\i0 "@,
    }
}

/// The RTF of the inline items of a paragraph.
pub open spec fn runs_rtf(items: Seq<InlineView>) -> Seq<char>
    decreases items.len(),
{
    if items.len() == 0 {
        Seq::empty()
    } else {
        runs_rtf(items.drop_last()) + run_rtf(items.last())
    }
}

/// The text of inline items, marks left aside.
pub open spec fn plain_text(items: Seq<InlineView>) -> Seq<char>
    decreases items.len(),
{
    if items.len() == 0 {
        Seq::empty()
    } else {
        plain_text(items.drop_last()) + (match items.last() {
            InlineView::Text { text, .. } => text,
            InlineView::HardBreak => Seq::empty(),
        })
    }
}

/// The text of the paragraphs directly among `blocks`.
pub open spec fn paragraphs_text(blocks: Seq<BlockView>) -> Seq<char>
    decreases blocks.len(),
{
    if blocks.len() == 0 {
        Seq::empty()
    } else {
        paragraphs_text(blocks.drop_last()) + (match blocks.last() {
            BlockView::Paragraph { content, .. } => plain_text(content),
            _ => Seq::empty(),
        })
    }
}

/// The font size of a heading in half-points.
pub open spec fn heading_size(level: Option<u64>) -> nat {
    match level {
        Some(level) => if level == 2 {
            32
        } else if level == 3 {
            28
        } else if level == 4 {
            24
        } else {
            20
        },
        None => 20,
    }
}

/// The RTF of one block under the root: a group for a paragraph, a heading
/// or a blockquote, nothing for any other block.
pub open spec fn block_rtf(block: BlockView) -> Seq<char> {
    match block {
        BlockView::Paragraph { content, .. } => "{\\pard "@ + runs_rtf(content) + "\\par}\n"@,
        BlockView::Heading { level, content, .. } => "{\\pard \\fs"@ + decimal(heading_size(level))
            + " \\b "@ + plain_text(content) + "\\b0\\par}\n"@,
        BlockView::Blockquote { blocks } => "{\\pard \\li720 "@ + paragraphs_text(blocks)
            + "\\par}\n"@,
        _ => Seq::empty(),
    }
}

/// The RTF of the blocks under the root.
pub open spec fn blocks_rtf(blocks: Seq<BlockView>) -> Seq<char>
    decreases blocks.len(),
{
    if blocks.len() == 0 {
        Seq::empty()
    } else {
        blocks_rtf(blocks.drop_last()) + block_rtf(blocks.last())
    }
}

/// The RTF body of a chapter; nothing where the chapter has no content.
pub open spec fn content_rtf(content: Option<Seq<BlockView>>) -> Seq<char> {
    match content {
        Some(blocks) => blocks_rtf(blocks),
        None => Seq::empty(),
    }
}

/// Tells whether `marks` holds `Bold`.
fn is_bold(marks: &Vec<Mark>) -> (b: bool)
    ensures
        b == has_mark(marks_view(marks@), MarkView::Bold),
{
    let mut i: usize = 0;
    while i < marks.len()
        invariant
            i <= marks.len(),
            forall|k: int| 0 <= k < i ==> (#[trigger] marks_view(marks@)[k]) != MarkView::Bold,
        decreases marks.len() - i,
    {
        match &marks[i] {
            Mark::Bold => {
                assert(marks_view(marks@)[i as int] == MarkView::Bold);
                return true;
            },
            _ => {},
        }
        i += 1;
    }
    false
}

/// Tells whether `marks` holds `Italic`.
fn is_italic(marks: &Vec<Mark>) -> (b: bool)
    ensures
        b == has_mark(marks_view(marks@), MarkView::Italic),
{
    let mut i: usize = 0;
    while i < marks.len()
        invariant
            i <= marks.len(),
            forall|k: int| 0 <= k < i ==> (#[trigger] marks_view(marks@)[k]) != MarkView::Italic,
        decreases marks.len() - i,
    {
        match &marks[i] {
            Mark::Italic => {
                assert(marks_view(marks@)[i as int] == MarkView::Italic);
                return true;
            },
            _ => {},
        }
        i += 1;
    }
    false
}

/// The RTF of the inline items of a paragraph.
fn render_runs(items: &Vec<Inline>) -> (out: String)
    ensures
        out@ == runs_rtf(inlines_view(items@)),
{
    let ghost all = inlines_view(items@);
    let mut out = String::new();
    let mut i: usize = 0;
    while i < items.len()
        invariant
            i <= items.len(),
            all == inlines_view(items@),
            out@ == runs_rtf(all.take(i as int)),
        decreases items.len() - i,
    {
        proof {
            assert(all.take(i + 1).drop_last() =~= all.take(i as int));
        }
        let mut run = String::new();
        match &items[i] {
            Inline::Text { text, marks } => {
                if is_bold(marks) {
                    run.append("\\b ");
                }
                if is_italic(marks) {
                    run.append("\\i ");
                }
                run.append(text.as_str());
                run.append("\\b0\\i0 ");
            },
            Inline::HardBreak => {
                run.append("\\b0\\i0 ");
            },
        }
        out.append(run.as_str());
        i += 1;
    }
    proof {
        assert(all.take(i as int) =~= all);
    }
    out
}

/// The text of inline items.
fn render_plain(items: &Vec<Inline>) -> (out: String)
    ensures
        out@ == plain_text(inlines_view(items@)),
{
    let ghost all = inlines_view(items@);
    let mut out = String::new();
    let mut i: usize = 0;
    while i < items.len()
        invariant
            i <= items.len(),
            all == inlines_view(items@),
            out@ == plain_text(all.take(i as int)),
        decreases items.len() - i,
    {
        proof {
            assert(all.take(i + 1).drop_last() =~= all.take(i as int));
        }
        match &items[i] {
            Inline::Text { text, .. } => {
                out.append(text.as_str());
            },
            Inline::HardBreak => {},
        }
        i += 1;
    }
    proof {
        assert(all.take(i as int) =~= all);
    }
    out
}

/// The text of the paragraphs directly among `blocks`.
fn render_paragraphs_text(blocks: &Vec<Block>) -> (out: String)
    ensures
        out@ == paragraphs_text(blocks_view(blocks@)),
{
    let ghost all = blocks_view(blocks@);
    let mut out = String::new();
    let mut i: usize = 0;
    while i < blocks.len()
        invariant
            i <= blocks.len(),
            all == blocks_view(blocks@),
            out@ == paragraphs_text(all.take(i as int)),
        decreases blocks.len() - i,
    {
        proof {
            assert(all.take(i + 1).drop_last() =~= all.take(i as int));
        }
        match &blocks[i] {
            Block::Paragraph { content, .. } => {
                out.append(render_plain(content).as_str());
            },
            _ => {},
        }
        i += 1;
    }
    proof {
        assert(all.take(i as int) =~= all);
    }
    out
}

/// The font size of a heading of level `level`, in half-points.
fn font_size(level: &Option<u64>) -> (size: u64)
    ensures
        size == heading_size(*level),
{
    match level {
        Some(level) => {
            if *level == 2 {
                32
            } else if *level == 3 {
                28
            } else if *level == 4 {
                24
            } else {
                20
            }
        },
        None => 20,
    }
}

/// The RTF of one block under the root.
fn render_block(block: &Block) -> (out: String)
    ensures
        out@ == block_rtf(block@),
{
    match block {
        Block::Paragraph { content, .. } => {
            let mut out = "{\\pard ".to_owned();
            out.append(render_runs(content).as_str());
            out.append("\\par}\n");
            out
        },
        Block::Heading { level, content, .. } => {
            let mut out = "{\\pard \\fs".to_owned();
            out.append(decimal_string(font_size(level)).as_str());
            out.append(" \\b ");
            out.append(render_plain(content).as_str());
            out.append("\\b0\\par}\n");
            out
        },
        Block::Blockquote { blocks } => {
            let mut out = "{\\pard \\li720 ".to_owned();
            out.append(render_paragraphs_text(blocks).as_str());
            out.append("\\par}\n");
            out
        },
        _ => String::new(),
    }
}

/// The view of an optional document.
pub open spec fn opt_document_view(content: Option<Document>) -> Option<Seq<BlockView>> {
    match content {
        Some(doc) => Some(doc@),
        None => None,
    }
}

/// Renders the content of a chapter to an RTF body, without the header
/// and the closing brace of an RTF document.
pub fn json_to_rtf_content(content: &Option<Document>) -> (out: String)
    ensures
        out@ == content_rtf(opt_document_view(*content)),
{
    match content {
        Some(doc) => {
            let ghost all = blocks_view(doc.content@);
            let mut out = String::new();
            let mut i: usize = 0;
            while i < doc.content.len()
                invariant
                    i <= doc.content.len(),
                    all == blocks_view(doc.content@),
                    out@ == blocks_rtf(all.take(i as int)),
                decreases doc.content.len() - i,
            {
                proof {
                    assert(all.take(i + 1).drop_last() =~= all.take(i as int));
                }
                out.append(render_block(&doc.content[i]).as_str());
                i += 1;
            }
            proof {
                assert(all.take(i as int) =~= all);
            }
            out
        },
        None => String::new(),
    }
}

/// A chapter as it goes into an RTF document: its id, whether its file
/// exists, and its content where that could be read.
#[derive(Debug)]
pub struct RtfChapter {
    pub id: u32,
    pub stored: bool,
    pub content: Option<Document>,
}

/// What an `RtfChapter` stands for.
pub struct RtfChapterView {
    pub id: u32,
    pub stored: bool,
    pub content: Option<Seq<BlockView>>,
}

impl View for RtfChapter {
    type V = RtfChapterView;

    open spec fn view(&self) -> RtfChapterView {
        RtfChapterView { id: self.id, stored: self.stored, content: opt_document_view(self.content) }
    }
}

/// The models of a sequence of chapters.
pub open spec fn rtf_chapters_view(chapters: Seq<RtfChapter>) -> Seq<RtfChapterView> {
    Seq::new(chapters.len(), |i: int| chapters[i]@)
}

/// What opens an RTF document: character set, color table, margins and the
/// first paragraph settings.
pub open spec fn rtf_header() -> Seq<char> {
    "{\\rtf1\\ansi\\ansicpg1252\\cocoartf2\n{\\colortbl;\\red255\\green255\\blue255;}\n{\\*\\expandedcolortbl;;}\n\\margl1440\\margr1440\\margtsxn0\\margbsxn0\\vieww11900\\viewh8605\\viewkind0\n\\pard\\tx720\\tx1440\\tx2160\\pardirnatural\\partightenfactor200\n\n"@
}

/// The part of one chapter in an RTF document: a bold heading `Chapter`
/// with its id, two empty paragraphs, its body, and a page break unless it
/// is the last of the chapters. A chapter whose file does not exist has no
/// part.
pub open spec fn chapter_rtf(chapter: RtfChapterView, last: bool) -> Seq<char> {
    if chapter.stored {
        "{\\pard \\fs28 \\b "@ + chapter_title(chapter.id as nat)
            + "\\b0\\par}\n{\\pard \\par}\n{\\pard \\par}\n"@ + content_rtf(chapter.content) + (if last {
            Seq::empty()
        } else {
            "\\page\n"@
        })
    } else {
        Seq::empty()
    }
}

/// The parts of the first `n` of `chapters`.
pub open spec fn chapters_rtf(chapters: Seq<RtfChapterView>, n: nat) -> Seq<char>
    decreases n,
{
    if n == 0 {
        Seq::empty()
    } else {
        chapters_rtf(chapters, (n - 1) as nat) + chapter_rtf(chapters[n - 1], n == chapters.len())
    }
}

/// The RTF document of a project: header, chapters, closing brace.
pub open spec fn project_rtf(chapters: Seq<RtfChapterView>) -> Seq<char> {
    rtf_header() + chapters_rtf(chapters, chapters.len()) + "}"@
}

/// The part of `chapter` in an RTF document.
fn render_chapter(chapter: &RtfChapter, last: bool) -> (out: String)
    ensures
        out@ == chapter_rtf(chapter@, last),
{
    if chapter.stored {
        let mut out = "{\\pard \\fs28 \\b ".to_owned();
        out.append(chapter_title_string(chapter.id as u64).as_str());
        out.append("\\b0\\par}\n{\\pard \\par}\n{\\pard \\par}\n");
        out.append(json_to_rtf_content(&chapter.content).as_str());
        if !last {
            out.append("\\page\n");
        }
        out
    } else {
        String::new()
    }
}

/// Renders the chapters of a project to one RTF document.
pub fn project_to_rtf(chapters: &Vec<RtfChapter>) -> (out: String)
    ensures
        out@ == project_rtf(rtf_chapters_view(chapters@)),
{
    let ghost all = rtf_chapters_view(chapters@);
    let mut body = String::new();
    let mut i: usize = 0;
    while i < chapters.len()
        invariant
            i <= chapters.len(),
            all == rtf_chapters_view(chapters@),
            body@ == chapters_rtf(all, i as nat),
        decreases chapters.len() - i,
    {
        body.append(render_chapter(&chapters[i], i + 1 == chapters.len()).as_str());
        i += 1;
    }
    let mut out =
        "{\\rtf1\\ansi\\ansicpg1252\\cocoartf2\n{\\colortbl;\\red255\\green255\\blue255;}\n{\\*\\expandedcolortbl;;}\n\\margl1440\\margr1440\\margtsxn0\\margbsxn0\\vieww11900\\viewh8605\\viewkind0\n\\pard\\tx720\\tx1440\\tx2160\\pardirnatural\\partightenfactor200\n\n".to_owned();
    out.append(body.as_str());
    out.append("}");
    out
}

/// The ids of the chapters of an RTF export: the chosen ones as they were
/// given, or every chapter of the project where none was chosen.
pub open spec fn rtf_ids(order: Seq<u32>, chosen: Seq<u32>) -> Seq<u32> {
    if chosen.len() == 0 {
        order
    } else {
        chosen
    }
}

/// The ids of the chapters of an RTF export.
pub fn rtf_export_ids(order: &Vec<u32>, chapter_ids: &Vec<u32>) -> (ids: Vec<u32>)
    ensures
        ids@ == rtf_ids(order@, chapter_ids@),
{
    let source = if chapter_ids.len() == 0 {
        order
    } else {
        chapter_ids
    };
    let mut ids: Vec<u32> = Vec::new();
    let mut i: usize = 0;
    while i < source.len()
        invariant
            i <= source.len(),
            ids@ == source@.take(i as int),
        decreases source.len() - i,
    {
        ids.push(source[i]);
        i += 1;
    }
    ids
}

/// A title with an underscore in place of each of its spaces.
pub open spec fn underscored(title: Seq<char>) -> Seq<char> {
    Seq::new(
        title.len(),
        |i: int|
            if title[i] == ' ' {
                '_'
            } else {
                title[i]
            },
    )
}

/// The ids joined by hyphens.
pub open spec fn joined_ids(ids: Seq<u32>) -> Seq<char>
    decreases ids.len(),
{
    if ids.len() == 0 {
        Seq::empty()
    } else if ids.len() == 1 {
        decimal(ids[0] as nat)
    } else {
        joined_ids(ids.drop_last()) + "-"@ + decimal(ids.last() as nat)
    }
}

/// Whether the chapters `ids` are a part of the chapters of the project,
/// and not all of them: each is among `order`, and `order` holds one that
/// is not among them.
pub open spec fn proper_part(ids: Seq<u32>, order: Seq<u32>) -> bool {
    &&& forall|i: int| 0 <= i < ids.len() ==> order.contains(#[trigger] ids[i])
    &&& exists|j: int| 0 <= j < order.len() && !ids.contains(#[trigger] order[j])
}

/// Tells whether the chapters `ids` are a part of those of `order`, and not
/// all of them.
pub fn is_proper_part(ids: &Vec<u32>, order: &Vec<u32>) -> (b: bool)
    ensures
        b == proper_part(ids@, order@),
{
    let mut i: usize = 0;
    while i < ids.len()
        invariant
            i <= ids.len(),
            forall|k: int| 0 <= k < i ==> order@.contains(#[trigger] ids@[k]),
        decreases ids.len() - i,
    {
        if !has_id(order, ids[i]) {
            return false;
        }
        i += 1;
    }
    let mut j: usize = 0;
    while j < order.len()
        invariant
            j <= order.len(),
            forall|k: int| 0 <= k < ids.len() ==> order@.contains(#[trigger] ids@[k]),
            forall|k: int| 0 <= k < j ==> ids@.contains(#[trigger] order@[k]),
        decreases order.len() - j,
    {
        if !has_id(ids, order[j]) {
            return true;
        }
        j += 1;
    }
    false
}

/// The name of the file of an RTF export: title and day, and behind them
/// the ids of the chapters where these are a part of the project's chapters
/// and not all of them.
pub open spec fn rtf_name(title: Seq<char>, date: Seq<char>, ids: Seq<u32>, order: Seq<u32>) -> Seq<
    char,
> {
    if proper_part(ids, order) {
        underscored(title) + "_"@ + date + "_Chapters_"@ + joined_ids(ids) + ".rtf"@
    } else {
        underscored(title) + "_"@ + date + ".rtf"@
    }
}

/// The name of the file of an RTF export of the chapters `ids`, made on the
/// day `date`, of a project whose chapters are `order`.
pub fn rtf_file_name(title: &str, date: &str, ids: &Vec<u32>, order: &Vec<u32>) -> (out: String)
    ensures
        out@ == rtf_name(title@, date@, ids@, order@),
{
    let mut out = String::new();
    for c in it: title.chars()
        invariant
            it.seq() == title@,
            out@ == underscored(title@.take(it.index() as int)),
    {
        let safe = if c == ' ' {
            '_'
        } else {
            c
        };
        out.push(safe);
    }
    out.append("_");
    out.append(date);
    if is_proper_part(ids, order) {
        out.append("_Chapters_");
        let mut range = String::new();
        let mut i: usize = 0;
        while i < ids.len()
            invariant
                i <= ids.len(),
                range@ == joined_ids(ids@.take(i as int)),
            decreases ids.len() - i,
        {
            proof {
                assert(ids@.take(i + 1).drop_last() =~= ids@.take(i as int));
            }
            if i > 0 {
                range.append("-");
            }
            push_decimal(&mut range, ids[i] as u64);
            i += 1;
        }
        proof {
            assert(ids@.take(i as int) =~= ids@);
        }
        out.append(range.as_str());
    }
    out.append(".rtf");
    out
}

/// The name of the file of an RTF export made today.
pub fn rtf_file_name_today(title: &str, ids: &Vec<u32>, order: &Vec<u32>) -> (out: String)
    ensures
        exists|date: Seq<char>|
            is_day(date) && out@ == #[trigger] rtf_name(title@, date, ids@, order@),
{
    let date = today();
    rtf_file_name(title, date.as_str(), ids, order)
}

/// The runs of a paragraph are rendered one by one: the RTF of two
/// sequences of runs is the RTF of the first followed by that of the second,
/// so that no run takes its formatting from a run beside it.
pub proof fn lemma_runs_independent(a: Seq<InlineView>, b: Seq<InlineView>)
    ensures
        runs_rtf(a + b) == runs_rtf(a) + runs_rtf(b),
    decreases b.len(),
{
    if b.len() > 0 {
        lemma_runs_independent(a, b.drop_last());
        assert((a + b).drop_last() =~= a + b.drop_last());
    }
}

/// Every run ends with the reset of bold and italic.
pub proof fn lemma_run_resets(item: InlineView)
    ensures
        exists|head: Seq<char>| run_rtf(item) == head + "\\b0\\i0 "@,
{
    match item {
        InlineView::Text { text, marks } => {
            let head = (if has_mark(marks, MarkView::Bold) {
                "\\b "@
            } else {
                Seq::empty()
            }) + (if has_mark(marks, MarkView::Italic) {
                "\\i "@
            } else {
                Seq::empty()
            }) + text;
            assert(run_rtf(item) == head + "\\b0\\i0 "@);
        },
        InlineView::HardBreak => {
            assert(run_rtf(item) =~= Seq::<char>::empty() + "\\b0\\i0 "@);
        },
    }
}

} // verus!
