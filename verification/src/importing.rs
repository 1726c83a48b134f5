//! Importing text and Markdown files as chapters.

use vstd::prelude::*;
use crate::builder::{events_document, markdown_to_tiptap_json};
use crate::chapters::{
    chapter_title, chapter_title_string, exhausted, lemma_unique_title_is_free, make_unique_title,
    sections_view, split_by_delimiter, split_sections, unique_title, used_set, SectionView,
};
use crate::document::{BlockView, Document};
use crate::markdown::markdown_events;
use crate::plain::{text_document, text_to_tiptap_json};
use crate::text::{lowercase, lowercased, same_text};

verus! {

/// The kind of a file that can be imported.
#[derive(Debug, Clone, Copy, PartialEq, Eq, Structural)]
pub enum SourceKind {
    Text,
    Markdown,
}

/// The kind of a file whose extension, in lowercase, is `lower`; none for a
/// file that is not imported.
pub open spec fn kind_of(lower: Seq<char>) -> Option<SourceKind> {
    if lower == "txt"@ {
        Some(SourceKind::Text)
    } else if lower == "md"@ {
        Some(SourceKind::Markdown)
    } else {
        None
    }
}

/// The kind of a file by its extension in lowercase.
pub fn kind_for_lowercase(lower: &str) -> (kind: Option<SourceKind>)
    ensures
        kind == kind_of(lower@),
{
    if same_text(lower, "txt") {
        Some(SourceKind::Text)
    } else if same_text(lower, "md") {
        Some(SourceKind::Markdown)
    } else {
        None
    }
}

/// The kind of a file by its extension, whatever its case.
pub fn source_kind(extension: &str) -> (kind: Option<SourceKind>)
    ensures
        kind == kind_of(lowercase(extension@)),
{
    let lower = lowercased(extension);
    kind_for_lowercase(lower.as_str())
}

/// How the sections of a file are found and titled.
#[derive(Debug)]
pub struct ImportOptions {
    /// Whether a file that is not split is titled by its name.
    pub use_filename_as_title: bool,
    /// The delimiter at which a file is split, if it is to be split.
    pub chapter_delimiter: Option<String>,
    /// Whether the text behind a delimiter is the title of its section.
    pub extract_title_from_delimiter: bool,
}

/// A chapter that an import has made.
#[derive(Debug)]
pub struct ImportedChapter {
    pub id: u32,
    pub title: String,
    pub content: Document,
}

/// What an `ImportedChapter` stands for.
pub struct ImportedView {
    pub id: u32,
    pub title: Seq<char>,
    pub content: Seq<BlockView>,
}

impl View for ImportedChapter {
    type V = ImportedView;

    open spec fn view(&self) -> ImportedView {
        ImportedView { id: self.id, title: self.title@, content: self.content@ }
    }
}

/// The models of a sequence of imported chapters.
pub open spec fn imported_view(chapters: Seq<ImportedChapter>) -> Seq<ImportedView> {
    Seq::new(chapters.len(), |i: int| chapters[i]@)
}

/// The sections of a file: those between its delimiter lines where it is
/// split, else the whole file, titled by its name or as `Chapter` with the
/// next id.
pub open spec fn file_sections(
    content: Seq<char>,
    file_stem: Seq<char>,
    use_filename_as_title: bool,
    delimiter: Option<Seq<char>>,
    extract_titles: bool,
    next_id: u32,
) -> Seq<SectionView> {
    match delimiter {
        Some(delimiter) => split_sections(content, delimiter, extract_titles),
        None => seq![
            (
                if use_filename_as_title {
                    file_stem
                } else {
                    chapter_title(next_id as nat)
                },
                content,
            ),
        ],
    }
}

/// The document of a section.
pub open spec fn section_document(kind: SourceKind, text: Seq<char>) -> Seq<BlockView> {
    match kind {
        SourceKind::Text => text_document(text),
        SourceKind::Markdown => events_document(markdown_events(text)),
    }
}

/// The used titles after the given sections have been imported: each adds
/// the lowercase form of the title it was given.
pub open spec fn used_after(sections: Seq<SectionView>, used: Set<Seq<char>>) -> Set<Seq<char>>
    decreases sections.len(),
{
    if sections.len() == 0 {
        used
    } else {
        let before = used_after(sections.drop_last(), used);
        before.insert(lowercase(unique_title(before, sections.last().0)))
    }
}

/// The chapters that the given sections become: each gets the next id, a
/// title that is distinct from the titles used before it, and its document.
pub open spec fn import_sections(
    sections: Seq<SectionView>,
    kind: SourceKind,
    next_id: u32,
    used: Set<Seq<char>>,
) -> Seq<ImportedView> {
    Seq::new(
        sections.len(),
        |i: int|
            ImportedView {
                id: (next_id + i) as u32,
                title: unique_title(used_after(sections.take(i), used), sections[i].0),
                content: section_document(kind, sections[i].1),
            },
    )
}

/// The sections of the file `content`.
pub fn sections_of(content: &str, file_stem: &str, options: &ImportOptions, next_id: u32) -> (sections:
    Vec<(String, String)>)
    ensures
        sections_view(sections@) == file_sections(
            content@,
            file_stem@,
            options.use_filename_as_title,
            crate::document::opt_view(options.chapter_delimiter),
            options.extract_title_from_delimiter,
            next_id,
        ),
{
    match &options.chapter_delimiter {
        Some(delimiter) => split_by_delimiter(
            content,
            delimiter.as_str(),
            options.extract_title_from_delimiter,
        ),
        None => {
            let title = if options.use_filename_as_title {
                file_stem.to_owned()
            } else {
                chapter_title_string(next_id as u64)
            };
            let mut sections: Vec<(String, String)> = Vec::new();
            sections.push((title, content.to_owned()));
            sections
        },
    }
}

/// Imports the given sections as chapters with the ids from `next_id` on,
/// and adds the lowercase form of each title to `used_titles`. Where the
/// ids that a `u32` holds do not suffice, nothing is imported.
pub fn import_chapters(
    sections: &Vec<(String, String)>,
    kind: SourceKind,
    next_id: u32,
    used_titles: &mut Vec<String>,
) -> (chapters: Option<Vec<ImportedChapter>>)
    ensures
        chapters is Some <==> next_id + sections.len() <= u32::MAX + 1,
        chapters matches Some(made) ==> {
            &&& imported_view(made@) == import_sections(
                sections_view(sections@),
                kind,
                next_id,
                used_set(old(used_titles)@),
            )
            &&& used_set(final(used_titles)@) == used_after(
                sections_view(sections@),
                used_set(old(used_titles)@),
            )
        },
        chapters is None ==> *final(used_titles) == *old(used_titles),
{
    if sections.len() as u64 > (u32::MAX - next_id) as u64 + 1 {
        return None;
    }
    let ghost all = sections_view(sections@);
    let ghost used = used_set(used_titles@);
    let mut made: Vec<ImportedChapter> = Vec::new();
    let mut i: usize = 0;
    while i < sections.len()
        invariant
            i <= sections.len(),
            next_id + sections.len() <= u32::MAX + 1,
            all == sections_view(sections@),
            used == used_set(old(used_titles)@),
            used_set(used_titles@) == used_after(all.take(i as int), used),
            made@.len() == i,
            forall|k: int| 0 <= k < i ==> (#[trigger] made@[k])@ == import_sections(all, kind, next_id, used)[k],
        decreases sections.len() - i,
    {
        let section = &sections[i];
        let title = make_unique_title(section.0.as_str(), used_titles);
        let content = match kind {
            SourceKind::Text => text_to_tiptap_json(section.1.as_str()),
            SourceKind::Markdown => markdown_to_tiptap_json(section.1.as_str()),
        };
        let lower = lowercased(title.as_str());
        proof {
            let before = used_set(used_titles@);
            assert(all.take(i + 1).drop_last() =~= all.take(i as int));
            assert(used_set(used_titles@.push(lower)) =~= before.insert(lower@)) by {
                let after = used_set(used_titles@.push(lower));
                assert forall|t: Seq<char>| after.contains(t) <==> before.insert(lower@).contains(
                    t,
                ) by {
                    if after.contains(t) {
                        let k = choose|k: int|
                            0 <= k < used_titles@.push(lower).len() && (#[trigger] used_titles@.push(
                                lower,
                            )[k])@ == t;
                    }
                    if before.contains(t) {
                        let k = choose|k: int|
                            0 <= k < used_titles@.len() && (#[trigger] used_titles@[k])@ == t;
                        assert(used_titles@.push(lower)[k]@ == t);
                    }
                    if t == lower@ {
                        assert(used_titles@.push(lower)[used_titles@.len() as int]@ == t);
                    }
                }
            }
        }
        used_titles.push(lower);
        let id: u32 = next_id + i as u32;
        made.push(ImportedChapter { id, title, content });
        i += 1;
    }
    proof {
        assert(all.take(i as int) =~= all);
    }
    Some(made)
}

/// The used titles only grow: what is used after the first `a` sections is
/// still used after the first `b`.
pub proof fn lemma_used_grows(sections: Seq<SectionView>, used: Set<Seq<char>>, a: int, b: int)
    requires
        0 <= a <= b <= sections.len(),
    ensures
        used_after(sections.take(a), used).subset_of(used_after(sections.take(b), used)),
    decreases b - a,
{
    if a < b {
        lemma_used_grows(sections, used, a, b - 1);
        assert(sections.take(b).drop_last() =~= sections.take(b - 1));
    }
}

/// The titles that one import gives are distinct from one another and from
/// the titles used before, whatever their case: the lowercase form of the
/// title of a section is none of those used before the import, and none of
/// those given to the sections before it. This holds of every section for
/// which a free number was left.
pub proof fn lemma_import_titles_distinct(
    sections: Seq<SectionView>,
    kind: SourceKind,
    next_id: u32,
    used: Set<Seq<char>>,
    i: int,
    j: int,
)
    requires
        0 <= i < j < sections.len(),
        !exhausted(used_after(sections.take(j), used), sections[j].0),
    ensures
        ({
            let made = import_sections(sections, kind, next_id, used);
            &&& lowercase(made[i].title) != lowercase(made[j].title)
            &&& !used.contains(lowercase(made[j].title))
        }),
{
    let before = used_after(sections.take(j), used);
    lemma_unique_title_is_free(before, sections[j].0);
    lemma_used_grows(sections, used, 0, j);
    lemma_used_grows(sections, used, i + 1, j);
    assert(sections.take(i + 1).drop_last() =~= sections.take(i));
}

} // verus!
