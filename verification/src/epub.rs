//! The documents of an EPUB package: chapters, navigation, table of
//! contents and manifest.

use vstd::prelude::*;
use vstd::string::StringExecFns;
use crate::assets::{extension, extension_of, image_mime_for_ext, mime_of};
use crate::document::{blocks_view, items_view, Block, BlockView, Document};
use crate::rtf::opt_document_view;
use crate::text::{
    is_alphanumeric_char, decimal, decimal_string, is_alphanumeric, lowercase, push_decimal,
    same_text, strings_view,
};
use crate::xhtml::{blocks_xhtml, escape_xml, escaped, render_blocks};

verus! {

/// A number in at least three digits, zeros in front where it has fewer.
pub open spec fn pad3(n: nat) -> Seq<char> {
    if n < 10 {
        "00"@ + decimal(n)
    } else if n < 100 {
        "0"@ + decimal(n)
    } else {
        decimal(n)
    }
}

/// `n` in at least three digits.
pub fn pad3_string(n: u64) -> (out: String)
    ensures
        out@ == pad3(n as nat),
{
    if n < 10 {
        let mut out = "00".to_owned();
        push_decimal(&mut out, n);
        out
    } else if n < 100 {
        let mut out = "0".to_owned();
        push_decimal(&mut out, n);
        out
    } else {
        decimal_string(n)
    }
}

/// The parts of `parts` one after the other.
pub open spec fn concat(parts: Seq<Seq<char>>) -> Seq<char>
    decreases parts.len(),
{
    if parts.len() == 0 {
        Seq::empty()
    } else {
        concat(parts.drop_last()) + parts.last()
    }
}

/// What a character of an image's name becomes in its manifest id: itself
/// where it is a letter, a digit or `-`; else `_`.
pub open spec fn id_char(c: char) -> char {
    if is_alphanumeric(c) || c == '-' {
        c
    } else {
        '_'
    }
}

/// The part of an image's manifest id that stands for its name.
pub open spec fn image_id(name: Seq<char>) -> Seq<char> {
    Seq::new(name.len(), |i: int| id_char(name[i]))
}

/// The part of an image's manifest id that stands for `name`.
pub fn image_id_string(name: &str) -> (out: String)
    ensures
        out@ == image_id(name@),
{
    let mut out = String::new();
    for c in it: name.chars()
        invariant
            it.seq() == name@,
            out@ == image_id(name@.take(it.index() as int)),
    {
        let safe = if is_alphanumeric_char(c) || c == '-' {
            c
        } else {
            '_'
        };
        out.push(safe);
    }
    out
}

/// The manifest item of the chapter with the number `k`.
pub open spec fn chapter_item(k: nat) -> Seq<char> {
    "    <item id=\"ch"@
        + pad3(k)
        + "\" href=\"chapters/ch"@
        + pad3(k)
        + ".xhtml\" media-type=\"application/xhtml+xml\"/>\n"@
}

/// The manifest item of the chapter with the number `k`.
fn chapter_item_string(k: u64) -> (out: String)
    ensures
        out@ == chapter_item(k as nat),
{
    let digits = pad3_string(k);
    let mut out = "    <item id=\"ch".to_owned();
    out.append(digits.as_str());
    out.append("\" href=\"chapters/ch");
    out.append(digits.as_str());
    out.append(".xhtml\" media-type=\"application/xhtml+xml\"/>\n");
    out
}

/// The spine item of the chapter with the number `k`.
pub open spec fn spine_item(k: nat) -> Seq<char> {
    "    <itemref idref=\"ch"@
        + pad3(k)
        + "\"/>\n"@
}

/// The spine item of the chapter with the number `k`.
fn spine_item_string(k: u64) -> (out: String)
    ensures
        out@ == spine_item(k as nat),
{
    let digits = pad3_string(k);
    let mut out = "    <itemref idref=\"ch".to_owned();
    out.append(digits.as_str());
    out.append("\"/>\n");
    out
}

/// The manifest item of the image with the name `name`.
pub open spec fn image_item(name: Seq<char>) -> Seq<char> {
    "    <item id=\"img-"@
        + image_id(name)
        + "\" href=\"images/"@
        + escaped(name)
        + "\" media-type=\""@
        + mime_of(lowercase(extension(name)))
        + "\"/>\n"@
}

/// The manifest item of the image with the name `name`.
fn image_item_string(name: &str) -> (out: String)
    ensures
        out@ == image_item(name@),
{
    let mut out = "    <item id=\"img-".to_owned();
    out.append(image_id_string(name).as_str());
    out.append("\" href=\"images/");
    out.append(escape_xml(name).as_str());
    out.append("\" media-type=\"");
    out.append(image_mime_for_ext(extension_of(name).as_str()));
    out.append("\"/>\n");
    out
}

/// The entry of the navigation document for the chapter with the number `k`.
pub open spec fn nav_item(k: nat, title: Seq<char>) -> Seq<char> {
    "      <li><a href=\"chapters/ch"@
        + pad3(k)
        + ".xhtml\">"@
        + escaped(title)
        + "</a></li>\n"@
}

/// The entry of the navigation document for the chapter with the number `k`.
fn nav_item_string(k: u64, title: &str) -> (out: String)
    ensures
        out@ == nav_item(k as nat, title@),
{
    let mut out = "      <li><a href=\"chapters/ch".to_owned();
    out.append(pad3_string(k).as_str());
    out.append(".xhtml\">");
    out.append(escape_xml(title).as_str());
    out.append("</a></li>\n");
    out
}

/// The entry of the table of contents for the chapter with the number `k`.
pub open spec fn nav_point(k: nat, title: Seq<char>) -> Seq<char> {
    "    <navPoint id=\"ch"@
        + pad3(k)
        + "\" playOrder=\""@
        + decimal(k)
        + "\">\n<navLabel><text>"@
        + escaped(title)
        + "</text></navLabel>\n<content src=\"chapters/ch"@
        + pad3(k)
        + ".xhtml\"/>\n</navPoint>\n"@
}

/// The entry of the table of contents for the chapter with the number `k`.
fn nav_point_string(k: u64, title: &str) -> (out: String)
    ensures
        out@ == nav_point(k as nat, title@),
{
    let digits = pad3_string(k);
    let mut out = "    <navPoint id=\"ch".to_owned();
    out.append(digits.as_str());
    out.append("\" playOrder=\"");
    out.append(decimal_string(k).as_str());
    out.append("\">\n<navLabel><text>");
    out.append(escape_xml(title).as_str());
    out.append("</text></navLabel>\n<content src=\"chapters/ch");
    out.append(digits.as_str());
    out.append(".xhtml\"/>\n</navPoint>\n");
    out
}


/// The manifest items of `n` chapters, numbered from 1.
pub open spec fn chapter_items(n: nat) -> Seq<Seq<char>> {
    Seq::new(n, |i: int| chapter_item((i + 1) as nat))
}

/// The spine items of `n` chapters, numbered from 1.
pub open spec fn spine_items(n: nat) -> Seq<Seq<char>> {
    Seq::new(n, |i: int| spine_item((i + 1) as nat))
}

/// The manifest items of the images with the given names.
pub open spec fn image_items(names: Seq<Seq<char>>) -> Seq<Seq<char>> {
    Seq::new(names.len(), |i: int| image_item(names[i]))
}

/// The entries of the navigation document for chapters with the given
/// titles, numbered from 1.
pub open spec fn nav_items(titles: Seq<Seq<char>>) -> Seq<Seq<char>> {
    Seq::new(titles.len(), |i: int| nav_item((i + 1) as nat, titles[i]))
}

/// The entries of the table of contents for chapters with the given
/// titles, numbered from 1.
pub open spec fn nav_points(titles: Seq<Seq<char>>) -> Seq<Seq<char>> {
    Seq::new(titles.len(), |i: int| nav_point((i + 1) as nat, titles[i]))
}

/// The creator element of the manifest; none for an author without a name.
pub open spec fn author_element(author: Seq<char>) -> Seq<char> {
    if author.len() > 0 {
        "    <dc:creator>"@ + escaped(author) + "</dc:creator>\n"@
    } else {
        Seq::empty()
    }
}

/// The creator element for `author`.
fn author_element_string(author: &str) -> (out: String)
    ensures
        out@ == author_element(author@),
{
    if author.is_empty() {
        String::new()
    } else {
        let mut out = "    <dc:creator>".to_owned();
        out.append(escape_xml(author).as_str());
        out.append("</dc:creator>\n");
        out
    }
}

/// The manifest items of `n` chapters.
fn chapter_items_string(n: usize) -> (out: String)
    ensures
        out@ == concat(chapter_items(n as nat)),
{
    let ghost all = chapter_items(n as nat);
    let mut out = String::new();
    let mut i: usize = 0;
    while i < n
        invariant
            i <= n,
            all == chapter_items(n as nat),
            out@ == concat(all.take(i as int)),
        decreases n - i,
    {
        proof {
            assert(all.take(i + 1).drop_last() =~= all.take(i as int));
        }
        out.append(chapter_item_string((i + 1) as u64).as_str());
        i += 1;
    }
    proof {
        assert(all.take(i as int) =~= all);
    }
    out
}

/// The spine items of `n` chapters.
fn spine_items_string(n: usize) -> (out: String)
    ensures
        out@ == concat(spine_items(n as nat)),
{
    let ghost all = spine_items(n as nat);
    let mut out = String::new();
    let mut i: usize = 0;
    while i < n
        invariant
            i <= n,
            all == spine_items(n as nat),
            out@ == concat(all.take(i as int)),
        decreases n - i,
    {
        proof {
            assert(all.take(i + 1).drop_last() =~= all.take(i as int));
        }
        out.append(spine_item_string((i + 1) as u64).as_str());
        i += 1;
    }
    proof {
        assert(all.take(i as int) =~= all);
    }
    out
}

/// The manifest items of the images with the names `names`.
fn image_items_string(names: &[String]) -> (out: String)
    ensures
        out@ == concat(image_items(strings_view(names@))),
{
    let ghost all = image_items(strings_view(names@));
    let mut out = String::new();
    let mut i: usize = 0;
    while i < names.len()
        invariant
            i <= names.len(),
            all == image_items(strings_view(names@)),
            out@ == concat(all.take(i as int)),
        decreases names.len() - i,
    {
        proof {
            assert(all.take(i + 1).drop_last() =~= all.take(i as int));
        }
        out.append(image_item_string(names[i].as_str()).as_str());
        i += 1;
    }
    proof {
        assert(all.take(i as int) =~= all);
    }
    out
}

/// The entries of the navigation document for chapters with the titles
/// `titles`.
fn nav_items_string(titles: &[String]) -> (out: String)
    ensures
        out@ == concat(nav_items(strings_view(titles@))),
{
    let ghost all = nav_items(strings_view(titles@));
    let mut out = String::new();
    let mut i: usize = 0;
    while i < titles.len()
        invariant
            i <= titles.len(),
            all == nav_items(strings_view(titles@)),
            out@ == concat(all.take(i as int)),
        decreases titles.len() - i,
    {
        proof {
            assert(all.take(i + 1).drop_last() =~= all.take(i as int));
        }
        out.append(nav_item_string((i + 1) as u64, titles[i].as_str()).as_str());
        i += 1;
    }
    proof {
        assert(all.take(i as int) =~= all);
    }
    out
}

/// The entries of the table of contents for chapters with the titles
/// `titles`.
fn nav_points_string(titles: &[String]) -> (out: String)
    ensures
        out@ == concat(nav_points(strings_view(titles@))),
{
    let ghost all = nav_points(strings_view(titles@));
    let mut out = String::new();
    let mut i: usize = 0;
    while i < titles.len()
        invariant
            i <= titles.len(),
            all == nav_points(strings_view(titles@)),
            out@ == concat(all.take(i as int)),
        decreases titles.len() - i,
    {
        proof {
            assert(all.take(i + 1).drop_last() =~= all.take(i as int));
        }
        out.append(nav_point_string((i + 1) as u64, titles[i].as_str()).as_str());
        i += 1;
    }
    proof {
        assert(all.take(i as int) =~= all);
    }
    out
}

/// The package document: metadata, one manifest item for each of `n` chapters and for each image of `images`, and the spine.
pub open spec fn opf_document(title: Seq<char>, author: Seq<char>, uuid: Seq<char>, modified: Seq<char>, n: nat, images: Seq<Seq<char>>) -> Seq<char> {
    "<?xml version=\"1.0\" encoding=\"UTF-8\"?>\n<package xmlns=\"http://www.idpf.org/2007/opf\" version=\"3.0\" unique-identifier=\"book-id\">\n<metadata xmlns:dc=\"http://purl.org/dc/elements/1.1/\">\n<dc:identifier id=\"book-id\">urn:uuid:"@
        + uuid
        + "</dc:identifier>\n<dc:title>"@
        + escaped(title)
        + "</dc:title>\n"@
        + author_element(author)
        + "    <dc:language>en</dc:language>\n<meta property=\"dcterms:modified\">"@
        + modified
        + "</meta>\n</metadata>\n<manifest>\n<item id=\"nav\" href=\"nav.xhtml\" media-type=\"application/xhtml+xml\" properties=\"nav\"/>\n<item id=\"ncx\" href=\"toc.ncx\" media-type=\"application/x-dtbncx+xml\"/>\n<item id=\"css\" href=\"style.css\" media-type=\"text/css\"/>\n"@
        + concat(chapter_items(n))
        + concat(image_items(images))
        + "  </manifest>\n<spine toc=\"ncx\">\n"@
        + concat(spine_items(n))
        + "  </spine>\n</package>"@
}

/// Builds the package document of a book with `n` chapters and the images `images`.
pub fn build_opf(title: &str, author: &str, uuid: &str, modified: &str, n: usize, images: &[String]) -> (out: String)
    ensures
        out@ == opf_document(title@, author@, uuid@, modified@, n as nat, strings_view(images@)),
{
    let mut out = "<?xml version=\"1.0\" encoding=\"UTF-8\"?>\n<package xmlns=\"http://www.idpf.org/2007/opf\" version=\"3.0\" unique-identifier=\"book-id\">\n<metadata xmlns:dc=\"http://purl.org/dc/elements/1.1/\">\n<dc:identifier id=\"book-id\">urn:uuid:".to_owned();
    out.append(uuid);
    out.append("</dc:identifier>\n<dc:title>");
    out.append(escape_xml(title).as_str());
    out.append("</dc:title>\n");
    out.append(author_element_string(author).as_str());
    out.append("    <dc:language>en</dc:language>\n<meta property=\"dcterms:modified\">");
    out.append(modified);
    out.append("</meta>\n</metadata>\n<manifest>\n<item id=\"nav\" href=\"nav.xhtml\" media-type=\"application/xhtml+xml\" properties=\"nav\"/>\n<item id=\"ncx\" href=\"toc.ncx\" media-type=\"application/x-dtbncx+xml\"/>\n<item id=\"css\" href=\"style.css\" media-type=\"text/css\"/>\n");
    out.append(chapter_items_string(n).as_str());
    out.append(image_items_string(images).as_str());
    out.append("  </manifest>\n<spine toc=\"ncx\">\n");
    out.append(spine_items_string(n).as_str());
    out.append("  </spine>\n</package>");
    out
}

/// The navigation document of a book with the given chapter titles.
pub open spec fn nav_document(title: Seq<char>, chapter_titles: Seq<Seq<char>>) -> Seq<char> {
    "<?xml version=\"1.0\" encoding=\"UTF-8\"?>\n<!DOCTYPE html>\n<html xmlns=\"http://www.w3.org/1999/xhtml\" xmlns:epub=\"http://www.idpf.org/2007/ops\">\n<head><title>"@
        + escaped(title)
        + "</title></head>\n<body>\n  <nav epub:type=\"toc\">\n    <h1>"@
        + escaped(title)
        + "</h1>\n    <ol>\n"@
        + concat(nav_items(chapter_titles))
        + "    </ol>\n  </nav>\n</body>\n</html>"@
}

/// Builds the navigation document.
pub fn build_nav(title: &str, chapter_titles: &[String]) -> (out: String)
    ensures
        out@ == nav_document(title@, strings_view(chapter_titles@)),
{
    let mut out = "<?xml version=\"1.0\" encoding=\"UTF-8\"?>\n<!DOCTYPE html>\n<html xmlns=\"http://www.w3.org/1999/xhtml\" xmlns:epub=\"http://www.idpf.org/2007/ops\">\n<head><title>".to_owned();
    out.append(escape_xml(title).as_str());
    out.append("</title></head>\n<body>\n  <nav epub:type=\"toc\">\n    <h1>");
    out.append(escape_xml(title).as_str());
    out.append("</h1>\n    <ol>\n");
    out.append(nav_items_string(chapter_titles).as_str());
    out.append("    </ol>\n  </nav>\n</body>\n</html>");
    out
}

/// The table of contents of a book with the given chapter titles.
pub open spec fn ncx_document(title: Seq<char>, uuid: Seq<char>, chapter_titles: Seq<Seq<char>>) -> Seq<char> {
    "<?xml version=\"1.0\" encoding=\"UTF-8\"?>\n<ncx xmlns=\"http://www.daisy.org/z3986/2005/ncx/\" version=\"2005-1\">\n<head>\n<meta name=\"dtb:uid\" content=\"urn:uuid:"@
        + uuid
        + "\"/>\n<meta name=\"dtb:depth\" content=\"1\"/>\n<meta name=\"dtb:totalPageCount\" content=\"0\"/>\n<meta name=\"dtb:maxPageNumber\" content=\"0\"/>\n</head>\n<docTitle><text>"@
        + escaped(title)
        + "</text></docTitle>\n<navMap>\n"@
        + concat(nav_points(chapter_titles))
        + "  </navMap>\n</ncx>"@
}

/// Builds the table of contents.
pub fn build_ncx(title: &str, uuid: &str, chapter_titles: &[String]) -> (out: String)
    ensures
        out@ == ncx_document(title@, uuid@, strings_view(chapter_titles@)),
{
    let mut out = "<?xml version=\"1.0\" encoding=\"UTF-8\"?>\n<ncx xmlns=\"http://www.daisy.org/z3986/2005/ncx/\" version=\"2005-1\">\n<head>\n<meta name=\"dtb:uid\" content=\"urn:uuid:".to_owned();
    out.append(uuid);
    out.append("\"/>\n<meta name=\"dtb:depth\" content=\"1\"/>\n<meta name=\"dtb:totalPageCount\" content=\"0\"/>\n<meta name=\"dtb:maxPageNumber\" content=\"0\"/>\n</head>\n<docTitle><text>");
    out.append(escape_xml(title).as_str());
    out.append("</text></docTitle>\n<navMap>\n");
    out.append(nav_points_string(chapter_titles).as_str());
    out.append("  </navMap>\n</ncx>");
    out
}


/// The XHTML body of a chapter; nothing where the chapter has no content.
pub open spec fn body_xhtml(content: Option<Seq<BlockView>>) -> Seq<char> {
    match content {
        Some(blocks) => blocks_xhtml(blocks),
        None => Seq::empty(),
    }
}

/// The XHTML body of a chapter.
fn body_string(content: &Option<Document>) -> (out: String)
    ensures
        out@ == body_xhtml(opt_document_view(*content)),
{
    match content {
        Some(doc) => render_blocks(&doc.content),
        None => String::new(),
    }
}

/// The XHTML document of a chapter.
pub open spec fn chapter_document(title: Seq<char>, content: Option<Seq<BlockView>>) -> Seq<char> {
    "<?xml version=\"1.0\" encoding=\"UTF-8\"?>\n<!DOCTYPE html>\n<html xmlns=\"http://www.w3.org/1999/xhtml\">\n<head>\n<title>"@
        + escaped(title)
        + "</title>\n<link rel=\"stylesheet\" type=\"text/css\" href=\"../style.css\"/>\n</head>\n<body>\n"@
        + body_xhtml(content)
        + "</body>\n</html>\n"@
}

/// Renders a chapter to an XHTML document.
pub fn chapter_to_xhtml(title: &str, content: &Option<Document>) -> (out: String)
    ensures
        out@ == chapter_document(title@, opt_document_view(*content)),
{
    let mut out = "<?xml version=\"1.0\" encoding=\"UTF-8\"?>\n<!DOCTYPE html>\n<html xmlns=\"http://www.w3.org/1999/xhtml\">\n<head>\n<title>".to_owned();
    out.append(escape_xml(title).as_str());
    out.append("</title>\n<link rel=\"stylesheet\" type=\"text/css\" href=\"../style.css\"/>\n</head>\n<body>\n");
    out.append(body_string(content).as_str());
    out.append("</body>\n</html>\n");
    out
}


/// The manifest holds one item for each chapter and one for each image.
pub proof fn lemma_manifest_items(n: nat, images: Seq<Seq<char>>)
    ensures
        chapter_items(n).len() == n,
        image_items(images).len() == images.len(),
        spine_items(n).len() == n,
        (chapter_items(n) + image_items(images)).len() == n + images.len(),
{
}

/// `names` with `name` added at its end, unless `name` is empty or already
/// among them.
pub open spec fn add_name(names: Seq<Seq<char>>, name: Seq<char>) -> Seq<Seq<char>> {
    if name.len() > 0 && !names.contains(name) {
        names.push(name)
    } else {
        names
    }
}

/// `names` with the names of the images of `block` added, in the order in
/// which the tree holds them.
pub open spec fn block_images(block: BlockView, names: Seq<Seq<char>>) -> Seq<Seq<char>>
    decreases block,
{
    match block {
        BlockView::ImageBleed { name, .. } => add_name(names, name),
        BlockView::Blockquote { blocks } => blocks_images(blocks, names),
        BlockView::ColorBleed { blocks, .. } => blocks_images(blocks, names),
        BlockView::BulletList { items } => items_images(items, names),
        BlockView::OrderedList { items } => items_images(items, names),
        _ => names,
    }
}

/// `names` with the names of the images of `blocks` added.
pub open spec fn blocks_images(blocks: Seq<BlockView>, names: Seq<Seq<char>>) -> Seq<Seq<char>>
    decreases blocks,
{
    if blocks.len() == 0 {
        names
    } else {
        block_images(blocks.last(), blocks_images(blocks.drop_last(), names))
    }
}

/// `names` with the names of the images of the items of a list added.
pub open spec fn items_images(items: Seq<Seq<BlockView>>, names: Seq<Seq<char>>) -> Seq<Seq<char>>
    decreases items,
{
    if items.len() == 0 {
        names
    } else {
        blocks_images(items.last(), items_images(items.drop_last(), names))
    }
}

/// The names of the images of a chapter.
pub open spec fn content_images(content: Option<Seq<BlockView>>) -> Seq<Seq<char>> {
    match content {
        Some(blocks) => blocks_images(blocks, Seq::empty()),
        None => Seq::empty(),
    }
}

/// Whether `names` holds no empty name and no name twice.
pub open spec fn distinct_names(names: Seq<Seq<char>>) -> bool {
    &&& forall|i: int| 0 <= i < names.len() ==> (#[trigger] names[i]).len() > 0
    &&& forall|i: int, j: int| 0 <= i < j < names.len() ==> names[i] != names[j]
}

/// Adding a name keeps the names distinct.
pub proof fn lemma_add_name_distinct(names: Seq<Seq<char>>, name: Seq<char>)
    requires
        distinct_names(names),
    ensures
        distinct_names(add_name(names, name)),
{
}

/// Collecting the images of a block keeps the names distinct.
pub proof fn lemma_block_images_distinct(block: BlockView, names: Seq<Seq<char>>)
    requires
        distinct_names(names),
    ensures
        distinct_names(block_images(block, names)),
    decreases block,
{
    match block {
        BlockView::ImageBleed { name, .. } => lemma_add_name_distinct(names, name),
        BlockView::Blockquote { blocks } => lemma_blocks_images_distinct(blocks, names),
        BlockView::ColorBleed { blocks, .. } => lemma_blocks_images_distinct(blocks, names),
        BlockView::BulletList { items } => lemma_items_images_distinct(items, names),
        BlockView::OrderedList { items } => lemma_items_images_distinct(items, names),
        _ => {},
    }
}

/// Collecting the images of blocks keeps the names distinct.
pub proof fn lemma_blocks_images_distinct(blocks: Seq<BlockView>, names: Seq<Seq<char>>)
    requires
        distinct_names(names),
    ensures
        distinct_names(blocks_images(blocks, names)),
    decreases blocks,
{
    if blocks.len() > 0 {
        lemma_blocks_images_distinct(blocks.drop_last(), names);
        lemma_block_images_distinct(blocks.last(), blocks_images(blocks.drop_last(), names));
    }
}

/// Collecting the images of list items keeps the names distinct.
pub proof fn lemma_items_images_distinct(items: Seq<Seq<BlockView>>, names: Seq<Seq<char>>)
    requires
        distinct_names(names),
    ensures
        distinct_names(items_images(items, names)),
    decreases items,
{
    if items.len() > 0 {
        lemma_items_images_distinct(items.drop_last(), names);
        lemma_blocks_images_distinct(items.last(), items_images(items.drop_last(), names));
    }
}

/// Adds `name` to `names` unless it is empty or already there.
fn push_name(names: &mut Vec<String>, name: &str)
    ensures
        strings_view(final(names)@) == add_name(strings_view(old(names)@), name@),
{
    if name.is_empty() {
        return ;
    }
    let mut i: usize = 0;
    while i < names.len()
        invariant
            i <= names.len(),
            *names == *old(names),
            forall|k: int| 0 <= k < i ==> (#[trigger] strings_view(names@)[k]) != name@,
        decreases names.len() - i,
    {
        if same_text(names[i].as_str(), name) {
            proof {
                assert(strings_view(names@)[i as int] == name@);
            }
            return ;
        }
        i += 1;
    }
    let owned = name.to_owned();
    names.push(owned);
}

/// Adds the names of the images of `node` and of the blocks below it to
/// `names`.
pub fn collect_image_names_from_node(node: &Block, names: &mut Vec<String>)
    ensures
        strings_view(final(names)@) == block_images(node@, strings_view(old(names)@)),
    decreases node,
{
    match node {
        Block::ImageBleed { name, .. } => push_name(names, name.as_str()),
        Block::Blockquote { blocks } => collect_from_blocks(blocks, names),
        Block::ColorBleed { blocks, .. } => collect_from_blocks(blocks, names),
        Block::BulletList { items } => collect_from_items(items, names),
        Block::OrderedList { items } => collect_from_items(items, names),
        _ => {},
    }
}

/// Adds the names of the images of `blocks` to `names`.
fn collect_from_blocks(blocks: &Vec<Block>, names: &mut Vec<String>)
    ensures
        strings_view(final(names)@) == blocks_images(blocks_view(blocks@), strings_view(old(names)@)),
    decreases blocks,
{
    let ghost all = blocks_view(blocks@);
    let mut i: usize = 0;
    while i < blocks.len()
        invariant
            i <= blocks.len(),
            all == blocks_view(blocks@),
            strings_view(names@) == blocks_images(all.take(i as int), strings_view(old(names)@)),
        decreases blocks.len() - i,
    {
        proof {
            assert(all.take(i + 1).drop_last() =~= all.take(i as int));
        }
        collect_image_names_from_node(&blocks[i], names);
        i += 1;
    }
    proof {
        assert(all.take(i as int) =~= all);
    }
}

/// Adds the names of the images of the items of a list to `names`.
fn collect_from_items(items: &Vec<Vec<Block>>, names: &mut Vec<String>)
    ensures
        strings_view(final(names)@) == items_images(items_view(items@), strings_view(old(names)@)),
    decreases items,
{
    let ghost all = items_view(items@);
    let mut i: usize = 0;
    while i < items.len()
        invariant
            i <= items.len(),
            all == items_view(items@),
            strings_view(names@) == items_images(all.take(i as int), strings_view(old(names)@)),
        decreases items.len() - i,
    {
        proof {
            assert(all.take(i + 1).drop_last() =~= all.take(i as int));
        }
        collect_from_blocks(&items[i], names);
        i += 1;
    }
    proof {
        assert(all.take(i as int) =~= all);
    }
}

/// The names of the images that the content of a chapter refers to, each
/// once, in the order of their first appearance.
pub fn collect_image_names(content: &Option<Document>) -> (names: Vec<String>)
    ensures
        strings_view(names@) == content_images(opt_document_view(*content)),
        distinct_names(strings_view(names@)),
{
    let mut names: Vec<String> = Vec::new();
    proof {
        assert(strings_view(names@) =~= Seq::empty());
    }
    match content {
        Some(doc) => {
            collect_from_blocks(&doc.content, &mut names);
            proof {
                lemma_blocks_images_distinct(doc@, Seq::empty());
            }
        },
        None => {},
    }
    names
}

} // verus!
