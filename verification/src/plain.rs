//! Plain text to document tree: one paragraph for each stretch of text
//! between blank lines.

use vstd::prelude::*;
use crate::document::{
    blocks_view, empty_paragraph, inlines_view, marks_view, paragraph_of,
    plain_paragraph, Block, BlockView, Document, Inline, InlineView, Mark, MarkView,
};
use crate::text::{chars_of, is_whitespace, string_of, trim, trimmed};

verus! {

/// The position of the first pair of line feeds in `s`, or the length of
/// `s` where it holds none.
pub open spec fn first_blank(s: Seq<char>) -> int
    decreases s.len(),
{
    if s.len() < 2 {
        s.len() as int
    } else if s[0] == '\n' && s[1] == '\n' {
        0
    } else {
        1 + first_blank(s.skip(1))
    }
}

/// Whether a pair of line feeds stands at position `k` of `s`.
pub open spec fn blank_at(s: Seq<char>, k: int) -> bool {
    k + 1 < s.len() && s[k] == '\n' && s[k + 1] == '\n'
}

/// The position `i` is the first pair of line feeds of `s`, or the length
/// of `s` where there is none.
pub proof fn lemma_first_blank_is(s: Seq<char>, i: int)
    requires
        0 <= i <= s.len(),
        i < s.len() ==> blank_at(s, i),
        forall|k: int| 0 <= k < i ==> !#[trigger] blank_at(s, k),
    ensures
        first_blank(s) == i,
    decreases s.len(),
{
    if s.len() >= 2 {
        if s[0] == '\n' && s[1] == '\n' {
            assert(blank_at(s, 0));
        } else {
            let t = s.skip(1);
            assert forall|k: int| 0 <= k < i - 1 implies !#[trigger] blank_at(t, k) by {
                assert(!blank_at(s, k + 1));
            }
            lemma_first_blank_is(t, i - 1);
        }
    }
}

/// The pieces of `s` between its pairs of line feeds, the pairs taken from
/// the left and without overlap.
pub open spec fn pieces(s: Seq<char>) -> Seq<Seq<char>>
    decreases s.len(),
{
    let i = first_blank(s);
    if 0 <= i && i + 2 <= s.len() {
        seq![s.take(i)] + pieces(s.skip(i + 2))
    } else {
        seq![s]
    }
}

/// A paragraph that holds `text` as one run without marks.
pub open spec fn text_paragraph(text: Seq<char>) -> BlockView {
    plain_paragraph(seq![InlineView::Text { text, marks: Seq::empty() }])
}

/// The paragraphs of the given pieces: each piece trimmed, the empty ones
/// left out.
pub open spec fn text_blocks(parts: Seq<Seq<char>>) -> Seq<BlockView>
    decreases parts.len(),
{
    if parts.len() == 0 {
        Seq::empty()
    } else {
        let before = text_blocks(parts.drop_last());
        let text = trim(parts.last());
        if text.len() > 0 {
            before.push(text_paragraph(text))
        } else {
            before
        }
    }
}

/// The document of a plain text: its paragraphs, or one empty paragraph
/// where it has none.
pub open spec fn text_document(s: Seq<char>) -> Seq<BlockView> {
    let blocks = text_blocks(pieces(s));
    if blocks.len() == 0 {
        seq![plain_paragraph(Seq::empty())]
    } else {
        blocks
    }
}

/// Converts plain text to a document.
pub fn text_to_tiptap_json(text: &str) -> (doc: Document)
    ensures
        doc@ == text_document(text@),
        doc@.len() > 0,
{
    let chars = chars_of(text);
    let n = chars.len();
    let mut content: Vec<Block> = Vec::new();
    let mut start: usize = 0;
    let mut done = false;
    let ghost mut seen: Seq<Seq<char>> = Seq::empty();
    proof {
        assert(chars@.skip(0) =~= chars@);
    }
    while !done
        invariant
            start <= n == chars.len(),
            chars@ == text@,
            blocks_view(content@) == text_blocks(seen),
            !done ==> pieces(text@) == seen + pieces(chars@.skip(start as int)),
            done ==> pieces(text@) == seen,
        decreases n - start + (if done { 0int } else { 1int }),
    {
        let ghost rest = chars@.skip(start as int);
        let mut end: usize = start;
        while end < n && !(end + 1 < n && chars[end] == '\n' && chars[end + 1] == '\n')
            invariant
                start <= end <= n == chars.len(),
                forall|k: int| start <= k < end ==> !#[trigger] blank_at(chars@, k),
            decreases n - end,
        {
            end += 1;
        }
        proof {
            assert forall|k: int| 0 <= k < end - start implies !#[trigger] blank_at(rest, k) by {
                assert(!blank_at(chars@, start + k));
            }
            lemma_first_blank_is(rest, end - start);
        }
        let piece = trimmed(&chars, start, end);
        let ghost raw = chars@.subrange(start as int, end as int);
        proof {
            assert(rest.take(end - start) =~= raw);
            if end < n {
                assert(rest.skip(end - start + 2) =~= chars@.skip(end + 2));
            }
            assert(seen.push(raw).drop_last() =~= seen);
        }
        if piece.len() > 0 {
            let run = Inline::Text { text: string_of(&piece), marks: Vec::new() };
            let mut runs: Vec<Inline> = Vec::new();
            runs.push(run);
            let block = paragraph_of(runs);
            proof {
                assert(marks_view(Seq::<Mark>::empty()) =~= Seq::<MarkView>::empty());
                assert(inlines_view(runs@) =~= seq![run@]);
            }
            content.push(block);
        }
        proof {
            seen = seen.push(raw);
        }
        if end < n {
            start = end + 2;
        } else {
            start = n;
            done = true;
        }
    }
    if content.len() == 0 {
        content.push(empty_paragraph());
    }
    Document { content }
}

/// Whether `s` holds nothing but whitespace.
pub open spec fn all_whitespace(s: Seq<char>) -> bool {
    forall|i: int| 0 <= i < s.len() ==> is_whitespace(#[trigger] s[i])
}

/// Trimming a text of nothing but whitespace leaves nothing.
pub proof fn lemma_trim_whitespace(s: Seq<char>)
    requires
        all_whitespace(s),
    ensures
        trim(s).len() == 0,
    decreases s.len(),
{
    if s.len() > 0 {
        assert forall|i: int| 0 <= i < s.skip(1).len() implies is_whitespace(
            #[trigger] s.skip(1)[i],
        ) by {}
        lemma_trim_whitespace(s.skip(1));
    }
}

/// The pieces of a text of nothing but whitespace hold nothing but
/// whitespace.
pub proof fn lemma_pieces_whitespace(s: Seq<char>)
    requires
        all_whitespace(s),
    ensures
        forall|k: int| 0 <= k < pieces(s).len() ==> all_whitespace(#[trigger] pieces(s)[k]),
    decreases s.len(),
{
    let i = first_blank(s);
    if 0 <= i && i + 2 <= s.len() {
        let rest = s.skip(i + 2);
        assert forall|j: int| 0 <= j < rest.len() implies is_whitespace(#[trigger] rest[j]) by {}
        lemma_pieces_whitespace(rest);
        assert forall|k: int| 0 <= k < pieces(s).len() implies all_whitespace(
            #[trigger] pieces(s)[k],
        ) by {
            if k == 0 {
                assert forall|j: int| 0 <= j < s.take(i).len() implies is_whitespace(
                    #[trigger] s.take(i)[j],
                ) by {}
            } else {
                assert(pieces(s)[k] == pieces(rest)[k - 1]);
            }
        }
    }
}

/// Pieces of nothing but whitespace give no paragraph.
pub proof fn lemma_text_blocks_whitespace(parts: Seq<Seq<char>>)
    requires
        forall|k: int| 0 <= k < parts.len() ==> all_whitespace(#[trigger] parts[k]),
    ensures
        text_blocks(parts).len() == 0,
    decreases parts.len(),
{
    if parts.len() > 0 {
        lemma_text_blocks_whitespace(parts.drop_last());
        lemma_trim_whitespace(parts.last());
    }
}

/// A plain text that is empty, or holds nothing but whitespace, converts to
/// exactly one paragraph without inline content.
pub proof fn lemma_blank_text_is_one_empty_paragraph(s: Seq<char>)
    requires
        all_whitespace(s),
    ensures
        text_document(s) == seq![plain_paragraph(Seq::empty())],
{
    lemma_pieces_whitespace(s);
    lemma_text_blocks_whitespace(pieces(s));
}

} // verus!
