//! The EPUB package: which chapters go into it, its identifier, and its
//! entries in the order of the archive.

use vstd::prelude::*;
use vstd::string::{StrSliceExecFns, StringExecFns};
use vstd::utf8::encode_utf8;
use crate::archive::{
    accepted, archive_bytes, entries_view, refused, stored_time, time_fits, write_archive,
    ArchiveEntry, ArchiveError, Compression, EntryTime, EntryView,
};
use crate::assets::{ascii_alphanumeric, is_ascii_alphanumeric};
use crate::chapters::{chapter_title, chapter_title_string};
use crate::clock::{is_day, is_stamp, now_entry_time, now_millis, now_stamp, today};
use crate::document::{blocks_view, BlockView, Document};
use crate::epub::{
    blocks_images, build_nav, build_ncx, build_opf, chapter_document, chapter_items,
    chapter_to_xhtml, collect_image_names_from_node, distinct_names, image_items,
    lemma_blocks_images_distinct, nav_document, ncx_document, opf_document, pad3, pad3_string,
};
use crate::project::has_id;
use crate::rtf::opt_document_view;
use crate::text::strings_view;

verus! {

/// The ids of `order` that are among `chosen`, in the order of `order`; all
/// of `order` where `chosen` is empty.
pub open spec fn export_ids(order: Seq<u32>, chosen: Seq<u32>) -> Seq<u32> {
    if chosen.len() == 0 {
        order
    } else {
        order.filter(|id: u32| chosen.contains(id))
    }
}

/// The chapters to export: those of `chapter_ids`, in the order that the
/// project gives them; every chapter of the project where `chapter_ids` is
/// empty.
pub fn resolve_export_ids(order: &Vec<u32>, chapter_ids: &Vec<u32>) -> (ids: Vec<u32>)
    ensures
        ids@ == export_ids(order@, chapter_ids@),
{
    let ghost chosen = |id: u32| chapter_ids@.contains(id);
    let mut ids: Vec<u32> = Vec::new();
    let mut i: usize = 0;
    while i < order.len()
        invariant
            i <= order.len(),
            chosen == |id: u32| chapter_ids@.contains(id),
            chapter_ids.len() == 0 ==> ids@ == order@.take(i as int),
            chapter_ids.len() > 0 ==> ids@ == order@.take(i as int).filter(chosen),
        decreases order.len() - i,
    {
        proof {
            assert(order@.take(i + 1).drop_last() =~= order@.take(i as int));
            reveal(Seq::filter);
        }
        if chapter_ids.len() == 0 || has_id(chapter_ids, order[i]) {
            ids.push(order[i]);
        }
        i += 1;
    }
    proof {
        assert(order@.take(i as int) =~= order@);
    }
    ids
}

/// The title under which a chapter is shown: its own, or `Chapter` and its
/// id where it has none.
pub open spec fn display_title(id: u32, custom: Option<Seq<char>>) -> Seq<char> {
    match custom {
        Some(title) => title,
        None => chapter_title(id as nat),
    }
}

/// The title under which the chapter `id` is shown.
pub fn chapter_display_title(id: u32, custom: Option<&str>) -> (title: String)
    ensures
        title@ == display_title(
            id,
            match custom {
                Some(title) => Some(title@),
                None => None,
            },
        ),
{
    match custom {
        Some(title) => title.to_owned(),
        None => chapter_title_string(id as u64),
    }
}

/// A chapter as it goes into a package.
#[derive(Debug)]
pub struct EpubChapter {
    pub title: String,
    pub content: Option<Document>,
}

/// What an `EpubChapter` stands for.
pub struct EpubChapterView {
    pub title: Seq<char>,
    pub content: Option<Seq<BlockView>>,
}

impl View for EpubChapter {
    type V = EpubChapterView;

    open spec fn view(&self) -> EpubChapterView {
        EpubChapterView { title: self.title@, content: opt_document_view(self.content) }
    }
}

/// The models of a sequence of chapters.
pub open spec fn chapters_view(chapters: Seq<EpubChapter>) -> Seq<EpubChapterView> {
    Seq::new(chapters.len(), |i: int| chapters[i]@)
}

/// The titles of a sequence of chapters.
pub open spec fn chapter_titles(chapters: Seq<EpubChapterView>) -> Seq<Seq<char>> {
    Seq::new(chapters.len(), |i: int| chapters[i].title)
}

/// The names of the images that the chapters refer to, each once, in the
/// order of their first appearance.
pub open spec fn chapters_images(chapters: Seq<EpubChapterView>) -> Seq<Seq<char>>
    decreases chapters.len(),
{
    if chapters.len() == 0 {
        Seq::empty()
    } else {
        let before = chapters_images(chapters.drop_last());
        match chapters.last().content {
            Some(blocks) => blocks_images(blocks, before),
            None => before,
        }
    }
}

/// The names of the images of chapters are distinct, and none is empty.
pub proof fn lemma_chapters_images_distinct(chapters: Seq<EpubChapterView>)
    ensures
        distinct_names(chapters_images(chapters)),
    decreases chapters.len(),
{
    if chapters.len() > 0 {
        lemma_chapters_images_distinct(chapters.drop_last());
        match chapters.last().content {
            Some(blocks) => lemma_blocks_images_distinct(
                blocks,
                chapters_images(chapters.drop_last()),
            ),
            None => {},
        }
    }
}

/// The names of the images that `chapters` refer to.
pub fn referenced_images(chapters: &Vec<EpubChapter>) -> (names: Vec<String>)
    ensures
        strings_view(names@) == chapters_images(chapters_view(chapters@)),
        distinct_names(strings_view(names@)),
{
    let ghost all = chapters_view(chapters@);
    let mut names: Vec<String> = Vec::new();
    let mut i: usize = 0;
    while i < chapters.len()
        invariant
            i <= chapters.len(),
            all == chapters_view(chapters@),
            strings_view(names@) == chapters_images(all.take(i as int)),
        decreases chapters.len() - i,
    {
        proof {
            assert(all.take(i + 1).drop_last() =~= all.take(i as int));
        }
        match &chapters[i].content {
            Some(doc) => {
                let ghost blocks = blocks_view(doc.content@);
                let mut k: usize = 0;
                let ghost start = strings_view(names@);
                while k < doc.content.len()
                    invariant
                        k <= doc.content.len(),
                        blocks == blocks_view(doc.content@),
                        strings_view(names@) == blocks_images(blocks.take(k as int), start),
                    decreases doc.content.len() - k,
                {
                    proof {
                        assert(blocks.take(k + 1).drop_last() =~= blocks.take(k as int));
                    }
                    collect_image_names_from_node(&doc.content[k], &mut names);
                    k += 1;
                }
                proof {
                    assert(blocks.take(k as int) =~= blocks);
                }
            },
            None => {},
        }
        i += 1;
    }
    proof {
        assert(all.take(i as int) =~= all);
        lemma_chapters_images_distinct(all);
    }
    names
}

/// What a character of a title becomes in a file name: itself where it is
/// an ASCII letter or digit, `-` or `_`; else `_`.
pub open spec fn title_char(c: char) -> char {
    if is_ascii_alphanumeric(c) || c == '-' || c == '_' {
        c
    } else {
        '_'
    }
}

/// A title with every character that is not safe in a file name replaced
/// by `_`.
pub open spec fn sanitized_title(title: Seq<char>) -> Seq<char> {
    Seq::new(title.len(), |i: int| title_char(title[i]))
}

/// The name of the file of a package: the sanitized title, the day, and
/// the extension `epub`.
pub open spec fn epub_name(title: Seq<char>, date: Seq<char>) -> Seq<char> {
    sanitized_title(title) + "_"@ + date + ".epub"@
}

/// The name of the file of the package of the book `title`, made on the
/// day `date`.
pub fn epub_file_name(title: &str, date: &str) -> (out: String)
    ensures
        out@ == epub_name(title@, date@),
{
    let mut out = String::new();
    for c in it: title.chars()
        invariant
            it.seq() == title@,
            out@ == sanitized_title(title@.take(it.index() as int)),
    {
        let safe = if ascii_alphanumeric(c) || c == '-' || c == '_' {
            c
        } else {
            '_'
        };
        out.push(safe);
    }
    out.append("_");
    out.append(date);
    out.append(".epub");
    out
}

/// The character of a hexadecimal digit, in lowercase.
pub open spec fn hex_digit(d: int) -> char {
    if d < 10 {
        ((48 + d) as u8) as char
    } else {
        ((87 + d) as u8) as char
    }
}

/// The last `width` hexadecimal digits of `n`.
pub open spec fn hex(n: nat, width: nat) -> Seq<char>
    decreases width,
{
    if width == 0 {
        Seq::empty()
    } else {
        hex(n / 16, (width - 1) as nat).push(hex_digit((n % 16) as int))
    }
}

/// Appends the last `width` hexadecimal digits of `n` to `out`.
fn push_hex(out: &mut String, n: u64, width: u8)
    ensures
        final(out)@ == old(out)@ + hex(n as nat, width as nat),
    decreases width,
{
    if width > 0 {
        push_hex(out, n / 16, width - 1);
        let d: u8 = (n % 16) as u8;
        let c = if d < 10 {
            (48 + d) as char
        } else {
            (87 + d) as char
        };
        out.push(c);
    }
}

/// The hash of `bytes`, taken from `h` on: each byte is mixed in, and the
/// result multiplied by a prime, modulo 2 to the 64.
pub open spec fn mix(h: u64, bytes: Seq<u8>) -> u64
    decreases bytes.len(),
{
    if bytes.len() == 0 {
        h
    } else {
        (mix(h, bytes.drop_last()) ^ (bytes.last() as u64)).wrapping_mul(0x100000001b3)
    }
}

/// The hash from which an identifier is made: that of the seed's bytes,
/// with the time mixed in.
pub open spec fn uuid_hash(seed: Seq<char>, millis: i64) -> u64 {
    (mix(0xcbf29ce484222325, encode_utf8(seed)) ^ (millis as u64)).wrapping_mul(0x100000001b3)
}

/// The five groups of an identifier. The third starts with the version 4,
/// the fourth with the two bits of the variant; the rest comes from `h`.
pub open spec fn uuid_groups(h: u64) -> (u64, u64, u64, u64, u64) {
    (
        h >> 32,
        (h >> 16) & 0xffff,
        0x4000 | ((h >> 4) & 0x0fff),
        0x8000 | ((h >> 2) & 0x3fff),
        h.wrapping_mul(0x9e3779b97f4a7c15) & 0xffffffffffff,
    )
}

/// The identifier of a package with the seed `seed`, made at the time
/// `millis`.
pub open spec fn uuid_text(seed: Seq<char>, millis: i64) -> Seq<char> {
    let g = uuid_groups(uuid_hash(seed, millis));
    hex(g.0 as nat, 8) + "-"@ + hex(g.1 as nat, 4) + "-"@ + hex(g.2 as nat, 4) + "-"@ + hex(
        g.3 as nat,
        4,
    ) + "-"@ + hex(g.4 as nat, 12)
}

/// The identifier of a package with the seed `seed`, made at the time
/// `millis`: a hash in the shape of a UUID, with no claim to be unique.
pub fn epub_uuid(seed: &str, millis: i64) -> (out: String)
    ensures
        out@ == uuid_text(seed@, millis),
{
    let bytes = seed.as_bytes();
    let mut h: u64 = 0xcbf29ce484222325;
    let mut i: usize = 0;
    while i < bytes.len()
        invariant
            i <= bytes.len(),
            bytes@ == encode_utf8(seed@),
            h == mix(0xcbf29ce484222325, bytes@.take(i as int)),
        decreases bytes.len() - i,
    {
        proof {
            assert(bytes@.take(i + 1).drop_last() =~= bytes@.take(i as int));
        }
        h = (h ^ (bytes[i] as u64)).wrapping_mul(0x100000001b3);
        i += 1;
    }
    proof {
        assert(bytes@.take(i as int) =~= bytes@);
    }
    let ts: u64 = #[verifier::truncate]
    (millis as u64);
    h = (h ^ ts).wrapping_mul(0x100000001b3);
    let mut out = String::new();
    push_hex(&mut out, h >> 32, 8);
    out.append("-");
    push_hex(&mut out, (h >> 16) & 0xffff, 4);
    out.append("-");
    push_hex(&mut out, 0x4000 | ((h >> 4) & 0x0fff), 4);
    out.append("-");
    push_hex(&mut out, 0x8000 | ((h >> 2) & 0x3fff), 4);
    out.append("-");
    push_hex(&mut out, h.wrapping_mul(0x9e3779b97f4a7c15) & 0xffffffffffff, 12);
    out
}

/// The identifier of a package with the seed `seed`, made now.
pub fn generate_epub_uuid(seed: &str) -> (out: String)
    ensures
        exists|millis: i64| out@ == uuid_text(seed@, millis),
{
    epub_uuid(seed, now_millis())
}

/// `hex` gives as many digits as it is asked for.
pub proof fn lemma_hex_len(n: nat, width: nat)
    ensures
        hex(n, width).len() == width,
    decreases width,
{
    if width > 0 {
        lemma_hex_len(n / 16, (width - 1) as nat);
    }
}

/// The first of four hexadecimal digits of a number below 65536.
pub proof fn lemma_hex4_first(n: nat)
    requires
        n < 65536,
    ensures
        hex(n, 4)[0] == hex_digit((n / 4096) as int),
{
    reveal_with_fuel(hex, 5);
}

/// An identifier has the shape of a UUID: 36 characters in five groups, the
/// version 4 at the head of the third group, and one of `8`, `9`, `a`, `b`,
/// the variant, at the head of the fourth.
pub proof fn lemma_uuid_shape(seed: Seq<char>, millis: i64)
    ensures
        uuid_text(seed, millis).len() == 36,
        uuid_text(seed, millis)[8] == '-',
        uuid_text(seed, millis)[13] == '-',
        uuid_text(seed, millis)[18] == '-',
        uuid_text(seed, millis)[23] == '-',
        uuid_text(seed, millis)[14] == '4',
        ({
            let c = uuid_text(seed, millis)[19];
            c == '8' || c == '9' || c == 'a' || c == 'b'
        }),
{
    let h = uuid_hash(seed, millis);
    let g = uuid_groups(h);
    reveal_strlit("-");
    lemma_hex_len(g.0 as nat, 8);
    lemma_hex_len(g.1 as nat, 4);
    lemma_hex_len(g.2 as nat, 4);
    lemma_hex_len(g.3 as nat, 4);
    lemma_hex_len(g.4 as nat, 12);
    assert((0x4000u64 | ((h >> 4) & 0x0fff)) < 65536 && (0x4000u64 | ((h >> 4) & 0x0fff)) / 4096
        == 4) by (bit_vector);
    assert((0x8000u64 | ((h >> 2) & 0x3fff)) < 65536 && 8 <= (0x8000u64 | ((h >> 2) & 0x3fff))
        / 4096 <= 11) by (bit_vector);
    lemma_hex4_first(g.2 as nat);
    lemma_hex4_first(g.3 as nat);
}

/// An image that a chapter refers to, as it was looked up among the assets
/// of the project: its name, and its bytes where its file exists.
#[derive(Debug)]
pub struct ImageLookup {
    pub name: String,
    pub data: Option<Vec<u8>>,
}

/// What an `ImageLookup` stands for.
pub struct ImageLookupView {
    pub name: Seq<char>,
    pub data: Option<Seq<u8>>,
}

impl View for ImageLookup {
    type V = ImageLookupView;

    open spec fn view(&self) -> ImageLookupView {
        ImageLookupView {
            name: self.name@,
            data: match self.data {
                Some(data) => Some(data@),
                None => None,
            },
        }
    }
}

/// The models of a sequence of looked-up images.
pub open spec fn lookups_view(images: Seq<ImageLookup>) -> Seq<ImageLookupView> {
    Seq::new(images.len(), |i: int| images[i]@)
}

/// The images whose file exists, in their order.
pub open spec fn existing(images: Seq<ImageLookupView>) -> Seq<ImageLookupView> {
    images.filter(|image: ImageLookupView| image.data is Some)
}

/// The names of the given images.
pub open spec fn image_names(images: Seq<ImageLookupView>) -> Seq<Seq<char>> {
    Seq::new(images.len(), |i: int| images[i].name)
}

/// An entry that holds a text in UTF-8.
pub open spec fn text_entry(name: Seq<char>, compression: Compression, text: Seq<char>) -> EntryView {
    EntryView { name, compression, data: encode_utf8(text) }
}

/// The entry that tells the media type of the archive.
pub open spec fn mimetype_entry() -> EntryView {
    text_entry("mimetype"@, Compression::Stored, "application/epub+zip"@)
}

/// The text of the container descriptor, which points to the package
/// document.
pub open spec fn container_text() -> Seq<char> {
    "<?xml version=\"1.0\" encoding=\"UTF-8\"?>\n<container version=\"1.0\" xmlns=\"urn:oasis:names:tc:opendocument:xmlns:container\">\n<rootfiles>\n<rootfile full-path=\"OEBPS/content.opf\" media-type=\"application/oebps-package+xml\"/>\n</rootfiles>\n</container>"@
}

/// The text of the stylesheet.
pub open spec fn stylesheet_text() -> Seq<char> {
    "body { font-family: serif; font-size: 1em; line-height: 1.6; margin: 0; padding: 0; }\np { margin: 0 0 1em; orphans: 2; widows: 2; }\nh2 { font-size: 1.5em; font-weight: bold; margin: 1.5em 0 0.5em; page-break-after: avoid; }\nh3 { font-size: 1.3em; font-weight: bold; margin: 1.5em 0 0.5em; page-break-after: avoid; }\nh4 { font-size: 1.1em; font-weight: bold; margin: 1.5em 0 0.5em; page-break-after: avoid; }\nh5 { font-size: 1em;   font-weight: bold; margin: 1.5em 0 0.5em; page-break-after: avoid; }\nh6 { font-size: 0.9em; font-weight: bold; margin: 1.5em 0 0.5em; page-break-after: avoid; }\nblockquote { margin: 1em 2em; font-style: italic; }\nul, ol { margin: 0 0 1em; padding-left: 2em; }\nli { margin: 0.25em 0; }\nhr { border: none; border-top: 1px solid #ccc; margin: 2em 0; }\nstrong { font-weight: bold; }\nem { font-style: italic; }\ns { text-decoration: line-through; }\ncode { font-family: monospace; font-size: 0.9em; }"@
}

/// The entries of the images, one for each.
pub open spec fn image_entries(images: Seq<ImageLookupView>) -> Seq<EntryView> {
    Seq::new(
        images.len(),
        |i: int|
            EntryView {
                name: "OEBPS/images/"@ + images[i].name,
                compression: Compression::Deflated,
                data: images[i].data->0,
            },
    )
}

/// The name of the entry of the chapter with the number `k`.
pub open spec fn chapter_entry_name(k: nat) -> Seq<char> {
    "OEBPS/chapters/ch"@ + pad3(k) + ".xhtml"@
}

/// The entries of the chapters, one for each, numbered from 1.
pub open spec fn chapter_entries(chapters: Seq<EpubChapterView>) -> Seq<EntryView> {
    Seq::new(
        chapters.len(),
        |i: int|
            text_entry(
                chapter_entry_name((i + 1) as nat),
                Compression::Deflated,
                chapter_document(chapters[i].title, chapters[i].content),
            ),
    )
}

/// The entries that stand before the images and the chapters.
pub open spec fn leading_entries() -> Seq<EntryView> {
    seq![
        mimetype_entry(),
        text_entry("META-INF/container.xml"@, Compression::Deflated, container_text()),
        text_entry("OEBPS/style.css"@, Compression::Deflated, stylesheet_text()),
    ]
}

/// The entries that stand behind the images and the chapters: the
/// navigation document, the table of contents and the package document.
pub open spec fn closing_entries(
    title: Seq<char>,
    author: Seq<char>,
    uuid: Seq<char>,
    modified: Seq<char>,
    chapters: Seq<EpubChapterView>,
    images: Seq<ImageLookupView>,
) -> Seq<EntryView> {
    seq![
        text_entry(
            "OEBPS/nav.xhtml"@,
            Compression::Deflated,
            nav_document(title, chapter_titles(chapters)),
        ),
        text_entry(
            "OEBPS/toc.ncx"@,
            Compression::Deflated,
            ncx_document(title, uuid, chapter_titles(chapters)),
        ),
        text_entry(
            "OEBPS/content.opf"@,
            Compression::Deflated,
            opf_document(
                title,
                author,
                uuid,
                modified,
                chapters.len(),
                image_names(existing(images)),
            ),
        ),
    ]
}

/// The entries of a package, in the order of the archive: the media type
/// first and stored as it is, then the container descriptor, the
/// stylesheet, the images whose file exists, the chapters, the navigation
/// document, the table of contents and the package document.
pub open spec fn epub_entries(
    title: Seq<char>,
    author: Seq<char>,
    uuid: Seq<char>,
    modified: Seq<char>,
    chapters: Seq<EpubChapterView>,
    images: Seq<ImageLookupView>,
) -> Seq<EntryView> {
    leading_entries() + image_entries(existing(images)) + chapter_entries(chapters)
        + closing_entries(title, author, uuid, modified, chapters, images)
}

/// An entry that holds `text` in UTF-8.
fn text_entry_of(name: String, compression: Compression, text: &str) -> (entry: ArchiveEntry)
    ensures
        entry@ == text_entry(name@, compression, text@),
{
    ArchiveEntry { name, compression, data: text.as_bytes_vec() }
}

/// The text of the container descriptor.
fn container_string() -> (out: &'static str)
    ensures
        out@ == container_text(),
{
    "<?xml version=\"1.0\" encoding=\"UTF-8\"?>\n<container version=\"1.0\" xmlns=\"urn:oasis:names:tc:opendocument:xmlns:container\">\n<rootfiles>\n<rootfile full-path=\"OEBPS/content.opf\" media-type=\"application/oebps-package+xml\"/>\n</rootfiles>\n</container>"
}

/// The text of the stylesheet.
fn stylesheet_string() -> (out: &'static str)
    ensures
        out@ == stylesheet_text(),
{
    "body { font-family: serif; font-size: 1em; line-height: 1.6; margin: 0; padding: 0; }\np { margin: 0 0 1em; orphans: 2; widows: 2; }\nh2 { font-size: 1.5em; font-weight: bold; margin: 1.5em 0 0.5em; page-break-after: avoid; }\nh3 { font-size: 1.3em; font-weight: bold; margin: 1.5em 0 0.5em; page-break-after: avoid; }\nh4 { font-size: 1.1em; font-weight: bold; margin: 1.5em 0 0.5em; page-break-after: avoid; }\nh5 { font-size: 1em;   font-weight: bold; margin: 1.5em 0 0.5em; page-break-after: avoid; }\nh6 { font-size: 0.9em; font-weight: bold; margin: 1.5em 0 0.5em; page-break-after: avoid; }\nblockquote { margin: 1em 2em; font-style: italic; }\nul, ol { margin: 0 0 1em; padding-left: 2em; }\nli { margin: 0.25em 0; }\nhr { border: none; border-top: 1px solid #ccc; margin: 2em 0; }\nstrong { font-weight: bold; }\nem { font-style: italic; }\ns { text-decoration: line-through; }\ncode { font-family: monospace; font-size: 0.9em; }"
}

/// A copy of `data`.
fn copy_bytes(data: &Vec<u8>) -> (out: Vec<u8>)
    ensures
        out@ == data@,
{
    let mut out: Vec<u8> = Vec::new();
    let mut i: usize = 0;
    while i < data.len()
        invariant
            i <= data.len(),
            out@ == data@.take(i as int),
        decreases data.len() - i,
    {
        out.push(data[i]);
        i += 1;
    }
    out
}

/// The entries of the package of a book, in the order of the archive.
pub fn package_entries(
    title: &str,
    author: &str,
    uuid: &str,
    modified: &str,
    chapters: &Vec<EpubChapter>,
    images: &Vec<ImageLookup>,
) -> (entries: Vec<ArchiveEntry>)
    ensures
        entries_view(entries@) == epub_entries(
            title@,
            author@,
            uuid@,
            modified@,
            chapters_view(chapters@),
            lookups_view(images@),
        ),
{
    let ghost all_images = lookups_view(images@);
    let ghost all_chapters = chapters_view(chapters@);
    let ghost has_file = |image: ImageLookupView| image.data is Some;
    let mut entries: Vec<ArchiveEntry> = Vec::new();
    entries.push(text_entry_of("mimetype".to_owned(), Compression::Stored, "application/epub+zip"));
    entries.push(
        text_entry_of(
            "META-INF/container.xml".to_owned(),
            Compression::Deflated,
            container_string(),
        ),
    );
    entries.push(
        text_entry_of("OEBPS/style.css".to_owned(), Compression::Deflated, stylesheet_string()),
    );
    let mut names: Vec<String> = Vec::new();
    let mut i: usize = 0;
    while i < images.len()
        invariant
            i <= images.len(),
            all_images == lookups_view(images@),
            has_file == |image: ImageLookupView| image.data is Some,
            strings_view(names@) == image_names(all_images.take(i as int).filter(has_file)),
            entries_view(entries@) == leading_entries() + image_entries(
                all_images.take(i as int).filter(has_file),
            ),
        decreases images.len() - i,
    {
        let ghost found = all_images.take(i as int).filter(has_file);
        proof {
            assert(all_images.take(i + 1).drop_last() =~= all_images.take(i as int));
            reveal(Seq::filter);
        }
        let image = &images[i];
        match &image.data {
            Some(data) => {
                let mut name = "OEBPS/images/".to_owned();
                name.append(image.name.as_str());
                let entry = ArchiveEntry {
                    name,
                    compression: Compression::Deflated,
                    data: copy_bytes(data),
                };
                let owned = image.name.clone();
                proof {
                    let next = found.push(image@);
                    assert(image_names(next) =~= image_names(found).push(image@.name));
                    assert((leading_entries() + image_entries(found)).push(entry@) =~= leading_entries()
                        + image_entries(next));
                }
                names.push(owned);
                entries.push(entry);
            },
            None => {},
        }
        i += 1;
    }
    proof {
        assert(all_images.take(i as int) =~= all_images);
    }
    let ghost head = leading_entries() + image_entries(existing(all_images));
    let mut titles: Vec<String> = Vec::new();
    let mut k: usize = 0;
    while k < chapters.len()
        invariant
            k <= chapters.len(),
            all_chapters == chapters_view(chapters@),
            strings_view(titles@) == chapter_titles(all_chapters.take(k as int)),
            entries_view(entries@) == head + chapter_entries(all_chapters.take(k as int)),
        decreases chapters.len() - k,
    {
        let chapter = &chapters[k];
        let mut name = "OEBPS/chapters/ch".to_owned();
        name.append(pad3_string((k + 1) as u64).as_str());
        name.append(".xhtml");
        let text = chapter_to_xhtml(chapter.title.as_str(), &chapter.content);
        let entry = text_entry_of(name, Compression::Deflated, text.as_str());
        let owned = chapter.title.clone();
        proof {
            let done = all_chapters.take(k as int);
            let next = all_chapters.take(k + 1);
            assert(chapter_titles(next) =~= chapter_titles(done).push(chapter@.title));
            assert((head + chapter_entries(done)).push(entry@) =~= head + chapter_entries(next));
        }
        titles.push(owned);
        entries.push(entry);
        k += 1;
    }
    proof {
        assert(all_chapters.take(k as int) =~= all_chapters);
    }
    let nav = text_entry_of(
        "OEBPS/nav.xhtml".to_owned(),
        Compression::Deflated,
        build_nav(title, titles.as_slice()).as_str(),
    );
    let ncx = text_entry_of(
        "OEBPS/toc.ncx".to_owned(),
        Compression::Deflated,
        build_ncx(title, uuid, titles.as_slice()).as_str(),
    );
    let opf = text_entry_of(
        "OEBPS/content.opf".to_owned(),
        Compression::Deflated,
        build_opf(title, author, uuid, modified, chapters.len(), names.as_slice()).as_str(),
    );
    entries.push(nav);
    entries.push(ncx);
    entries.push(opf);
    entries
}

/// In every package the first entry is named `mimetype`, is stored without
/// compression, and holds exactly `application/epub+zip`.
pub proof fn lemma_mimetype_first(
    title: Seq<char>,
    author: Seq<char>,
    uuid: Seq<char>,
    modified: Seq<char>,
    chapters: Seq<EpubChapterView>,
    images: Seq<ImageLookupView>,
)
    ensures
        epub_entries(title, author, uuid, modified, chapters, images)[0] == (EntryView {
            name: "mimetype"@,
            compression: Compression::Stored,
            data: encode_utf8("application/epub+zip"@),
        }),
{
}

/// Where the names of the looked-up images are distinct and none is
/// empty, so are the names of those whose file exists.
pub proof fn lemma_existing_distinct(images: Seq<ImageLookupView>)
    requires
        distinct_names(image_names(images)),
    ensures
        distinct_names(image_names(existing(images))),
    decreases images.len(),
{
    reveal(Seq::filter);
    let has_file = |image: ImageLookupView| image.data is Some;
    if images.len() > 0 {
        let rest = images.drop_last();
        assert forall|i: int| 0 <= i < rest.len() implies (#[trigger] image_names(rest)[i]).len()
            > 0 by {
            assert(image_names(images)[i] == image_names(rest)[i]);
        }
        assert forall|i: int, j: int| 0 <= i < j < rest.len() implies image_names(rest)[i]
            != image_names(rest)[j] by {
            assert(image_names(images)[i] == image_names(rest)[i]);
            assert(image_names(images)[j] == image_names(rest)[j]);
        }
        lemma_existing_distinct(rest);
        if images.last().data is Some {
            let found = existing(rest);
            let all = found.push(images.last());
            assert forall|i: int| 0 <= i < all.len() implies (#[trigger] image_names(all)[i]).len()
                > 0 by {
                if i < found.len() {
                    assert(image_names(all)[i] == image_names(found)[i]);
                } else {
                    assert(image_names(all)[i] == image_names(images)[images.len() - 1]);
                }
            }
            assert forall|i: int, j: int| 0 <= i < j < all.len() implies image_names(all)[i]
                != image_names(all)[j] by {
                if j < found.len() {
                    assert(image_names(all)[i] == image_names(found)[i]);
                    assert(image_names(all)[j] == image_names(found)[j]);
                } else {
                    rest.lemma_filter_contains_rev(has_file, found[i]);
                    let k = choose|k: int| 0 <= k < rest.len() && rest[k] == found[i];
                    assert(image_names(images)[k] == found[i].name);
                    assert(image_names(images)[images.len() - 1] == images.last().name);
                }
            }
        }
    }
}

/// In every package each entry but the first is compressed.
pub proof fn lemma_other_entries_deflated(
    title: Seq<char>,
    author: Seq<char>,
    uuid: Seq<char>,
    modified: Seq<char>,
    chapters: Seq<EpubChapterView>,
    images: Seq<ImageLookupView>,
    i: int,
)
    requires
        1 <= i < epub_entries(title, author, uuid, modified, chapters, images).len(),
    ensures
        epub_entries(title, author, uuid, modified, chapters, images)[i].compression
            == Compression::Deflated,
{
}

/// The package document is the last entry of a package, and its manifest
/// holds one item for each chapter and one for each image whose file
/// exists.
pub proof fn lemma_package_manifest(
    title: Seq<char>,
    author: Seq<char>,
    uuid: Seq<char>,
    modified: Seq<char>,
    chapters: Seq<EpubChapterView>,
    images: Seq<ImageLookupView>,
)
    ensures
        epub_entries(title, author, uuid, modified, chapters, images).last() == text_entry(
            "OEBPS/content.opf"@,
            Compression::Deflated,
            opf_document(
                title,
                author,
                uuid,
                modified,
                chapters.len(),
                image_names(existing(images)),
            ),
        ),
        chapter_items(chapters.len()).len() == chapters.len(),
        image_items(image_names(existing(images))).len() == existing(images).len(),
{
}

/// Writes the archive of the package of a book, its entries with the time
/// `at`: it is written exactly where the writer accepts every entry of the
/// package.
pub fn build_epub(
    title: &str,
    author: &str,
    uuid: &str,
    modified: &str,
    chapters: &Vec<EpubChapter>,
    images: &Vec<ImageLookup>,
    at: EntryTime,
) -> (r: Result<Vec<u8>, ArchiveError>)
    ensures
        ({
            let entries = epub_entries(
                title@,
                author@,
                uuid@,
                modified@,
                chapters_view(chapters@),
                lookups_view(images@),
            );
            &&& r is Ok <==> accepted(entries)
            &&& r matches Ok(bytes) ==> bytes@ == archive_bytes(entries, stored_time(at))
            &&& r matches Err(error) ==> refused(entries, error)
        }),
{
    let entries = package_entries(title, author, uuid, modified, chapters, images);
    write_archive(&entries, at)
}

/// A package that is ready to be stored: the name of its file and the bytes
/// of its archive.
#[derive(Debug)]
pub struct EpubFile {
    pub file_name: String,
    pub bytes: Vec<u8>,
}

/// Whether `r` is what packing the given entries at the time `at` comes to
/// for a book with the title `title`: the bytes of their archive, in a file
/// named by the title and a day, where the writer accepts them; else the
/// step that it refused.
pub open spec fn packed(
    r: Result<EpubFile, ArchiveError>,
    title: Seq<char>,
    entries: Seq<EntryView>,
    at: EntryTime,
) -> bool {
    &&& r is Ok <==> accepted(entries)
    &&& r matches Ok(file) ==> {
        &&& file.bytes@ == archive_bytes(entries, at)
        &&& exists|date: Seq<char>|
            is_day(date) && file.file_name@ == #[trigger] epub_name(title, date)
    }
    &&& r matches Err(error) ==> refused(entries, error)
}

/// Packs a book at the present time: its identifier comes from its title
/// and the clock, the time goes into the package document and onto the
/// entries, and the day into the name of the file.
pub fn export_epub(title: &str, author: &str, chapters: &Vec<EpubChapter>, images: &Vec<ImageLookup>) -> (r:
    Result<EpubFile, ArchiveError>)
    ensures
        exists|millis: i64, modified: Seq<char>, at: EntryTime|
            is_stamp(modified) && time_fits(at) && #[trigger] packed(
                r,
                title@,
                epub_entries(
                    title@,
                    author@,
                    uuid_text(title@, millis),
                    modified,
                    chapters_view(chapters@),
                    lookups_view(images@),
                ),
                at,
            ),
{
    let millis = now_millis();
    let uuid = epub_uuid(title, millis);
    let modified = now_stamp();
    let date = today();
    let at = now_entry_time();
    let file_name = epub_file_name(title, date.as_str());
    let ghost entries = epub_entries(
        title@,
        author@,
        uuid_text(title@, millis),
        modified@,
        chapters_view(chapters@),
        lookups_view(images@),
    );
    let r = match build_epub(title, author, uuid.as_str(), modified.as_str(), chapters, images, at) {
        Ok(bytes) => Ok(EpubFile { file_name, bytes }),
        Err(e) => Err(e),
    };
    proof {
        assert(file_name@ == epub_name(title@, date@));
        assert(packed(r, title@, entries, at));
    }
    r
}

} // verus!
