use scout_core::assets::{
    asset_candidate, base64_encode, data_url, extension_of, image_mime_for_ext, sanitize_file_name,
};
use scout_core::document::{Block, Document, Inline, Mark};
use scout_core::epub::{build_nav, build_ncx, build_opf, chapter_to_xhtml};
use scout_core::rtf::json_to_rtf_content;
use scout_core::xhtml::{escape_xml, render_blocks, render_inline};

fn text(s: &str, marks: Vec<Mark>) -> Inline {
    Inline::Text { text: s.to_string(), marks }
}

fn paragraph(content: Vec<Inline>) -> Block {
    Block::Paragraph { align: None, content }
}

#[test]
fn escape_covers_four_characters() {
    assert_eq!(escape_xml("<b>&\""), "&lt;b&gt;&amp;&quot;");
    assert_eq!(escape_xml("plain 'text'"), "plain 'text'");
}

#[test]
fn heading_level_is_clamped() {
    let low = Block::Heading { level: Some(1), align: None, content: vec![text("a", vec![])] };
    let high = Block::Heading { level: Some(9), align: None, content: vec![text("b", vec![])] };
    let none = Block::Heading { level: None, align: None, content: vec![] };
    assert_eq!(render_blocks(&vec![low]), "<h2>a</h2>\n");
    assert_eq!(render_blocks(&vec![high]), "<h6>b</h6>\n");
    assert_eq!(render_blocks(&vec![none]), "<h2></h2>\n");
}

#[test]
fn marks_close_in_reverse_order() {
    let items = vec![
        text("x<y", vec![Mark::Bold, Mark::Italic, Mark::Strike, Mark::Code]),
        Inline::HardBreak,
        text(
            "z",
            vec![
                Mark::TextStyle { font_size: Some("12.5".to_string()), font_family: Some("A&B".to_string()) },
                Mark::TextStyle { font_size: None, font_family: Some(String::new()) },
            ],
        ),
    ];
    assert_eq!(
        render_inline(&items),
        "<strong><em><s><code>x&lt;y</code></s></em></strong><br/>\
         <span style=\"font-size:12.5pt;font-family:A&amp;B;\">z</span>"
    );
}

#[test]
fn blocks_render_to_xhtml() {
    let blocks = vec![
        paragraph(vec![]),
        Block::Paragraph { align: Some("center".to_string()), content: vec![text("c", vec![])] },
        Block::Paragraph { align: Some("left".to_string()), content: vec![text("l", vec![])] },
        Block::Blockquote { blocks: vec![paragraph(vec![text("q", vec![])])] },
        Block::BulletList {
            items: vec![vec![
                paragraph(vec![text("a", vec![])]),
                Block::HorizontalRule,
                paragraph(vec![text("b", vec![])]),
            ]],
        },
        Block::OrderedList { items: vec![vec![]] },
        Block::CodeBlock { language: None, text: "code".to_string() },
        Block::HorizontalRule,
        Block::ColorBleed { background: None, text_color: Some("#123".to_string()), blocks: vec![] },
        Block::ImageBleed { name: "a b.png".to_string(), alt: "\"alt\"".to_string() },
        Block::ImageBleed { name: String::new(), alt: "none".to_string() },
    ];
    assert_eq!(
        render_blocks(&blocks),
        "<p>&#160;</p>\n\
         <p style=\"text-align:center\">c</p>\n\
         <p>l</p>\n\
         <blockquote>\n<p>q</p>\n</blockquote>\n\
         <ul>\n<li>ab</li>\n</ul>\n\
         <ol>\n<li></li>\n</ol>\n\
         <hr/>\n\
         <div style=\"background-color:#000000;color:#123;margin:0 -2em;padding:2em;\">\n</div>\n\
         <div class=\"image-bleed\"><img src=\"../images/a b.png\" alt=\"&quot;alt&quot;\"/></div>\n"
    );
}

#[test]
fn rtf_renders_top_level_blocks() {
    let doc = Document {
        content: vec![
            paragraph(vec![
                text("b", vec![Mark::Bold]),
                text("i", vec![Mark::Code, Mark::Italic]),
                Inline::HardBreak,
                text("bi", vec![Mark::Italic, Mark::Bold]),
            ]),
            Block::Heading { level: Some(2), align: None, content: vec![text("H", vec![Mark::Italic])] },
            Block::Heading { level: Some(3), align: None, content: vec![] },
            Block::Heading { level: Some(4), align: None, content: vec![] },
            Block::Heading { level: Some(5), align: None, content: vec![] },
            Block::Heading { level: None, align: None, content: vec![] },
            Block::Blockquote {
                blocks: vec![
                    paragraph(vec![text("q1", vec![Mark::Bold]), text("q2", vec![])]),
                    Block::Heading { level: Some(2), align: None, content: vec![text("no", vec![])] },
                    paragraph(vec![text("q3", vec![])]),
                ],
            },
            Block::HorizontalRule,
            Block::BulletList { items: vec![vec![paragraph(vec![text("skipped", vec![])])]] },
        ],
    };
    assert_eq!(
        json_to_rtf_content(&Some(doc)),
        "{\\pard \\b b\\b0\\i0 \\i i\\b0\\i0 \\b0\\i0 \\b \\i bi\\b0\\i0 \\par}\n\
         {\\pard \\fs32 \\b H\\b0\\par}\n\
         {\\pard \\fs28 \\b \\b0\\par}\n\
         {\\pard \\fs24 \\b \\b0\\par}\n\
         {\\pard \\fs20 \\b \\b0\\par}\n\
         {\\pard \\fs20 \\b \\b0\\par}\n\
         {\\pard \\li720 q1q2q3\\par}\n"
    );
    assert_eq!(json_to_rtf_content(&None), "");
}

#[test]
fn base64_pads_the_last_group() {
    assert_eq!(base64_encode(b""), "");
    assert_eq!(base64_encode(b"f"), "Zg==");
    assert_eq!(base64_encode(b"fo"), "Zm8=");
    assert_eq!(base64_encode(b"foo"), "Zm9v");
    assert_eq!(base64_encode(b"foobar"), "Zm9vYmFy");
    assert_eq!(base64_encode(&[0xfb, 0xff, 0xfe, 0x00]), "+//+AA==");
}

#[test]
fn mime_by_extension() {
    assert_eq!(image_mime_for_ext("jpg"), "image/jpeg");
    assert_eq!(image_mime_for_ext("JPEG"), "image/jpeg");
    assert_eq!(image_mime_for_ext("Png"), "image/png");
    assert_eq!(image_mime_for_ext("gif"), "image/gif");
    assert_eq!(image_mime_for_ext("webp"), "image/webp");
    assert_eq!(image_mime_for_ext("SVG"), "image/svg+xml");
    assert_eq!(image_mime_for_ext("bmp"), "image/jpeg");
    assert_eq!(image_mime_for_ext(""), "image/jpeg");
}

#[test]
fn file_names_are_sanitized() {
    assert_eq!(sanitize_file_name("my photo (1).JPG"), "my_photo__1_.JPG");
    assert_eq!(sanitize_file_name("été-2_a.png"), "_t_-2_a.png");
}

#[test]
fn candidates_number_before_the_extension() {
    assert_eq!(asset_candidate("a.tar.gz", 0), "a.tar.gz");
    assert_eq!(asset_candidate("a.tar.gz", 1), "a.tar_1.gz");
    assert_eq!(asset_candidate("photo", 12), "photo_12");
    assert_eq!(asset_candidate(".hidden", 2), ".hidden_2");
    assert_eq!(asset_candidate("name.", 3), "name_3.");
    assert_eq!(asset_candidate("..", 1), ".._1");
}

#[test]
fn extension_is_that_of_the_last_component() {
    for name in [
        "", ".", "..", "/", "a", "a.png", "a.tar.gz", ".hidden", "name.", "...", "a/.png", "a.b/c",
        "x.png/", "x.png//", "x.png/.", "x.png/./", "a/..", "./", "./.", "a/b.c", "a//b.c//",
        "a/./b.c/.", "a/..b", "a/b..", "dir.d/.e.f", "..a", "a..", "/.png", "a/.b/", ".a.b",
    ] {
        let expected = std::path::Path::new(name)
            .extension()
            .and_then(|e| e.to_str())
            .unwrap_or("");
        assert_eq!(extension_of(name), expected, "for {:?}", name);
    }
}

#[test]
fn media_type_goes_by_the_last_component() {
    let images = vec!["a/.png".to_string(), "b.gif/c".to_string(), "d.PNG/".to_string()];
    let opf = build_opf("T", "", "u", "m", 0, &images);
    assert!(opf.contains("href=\"images/a/.png\" media-type=\"image/jpeg\""));
    assert!(opf.contains("href=\"images/b.gif/c\" media-type=\"image/jpeg\""));
    assert!(opf.contains("href=\"images/d.PNG/\" media-type=\"image/png\""));
    assert_eq!(data_url("a/.png", b"f"), "data:image/jpeg;base64,Zg==");
    assert_eq!(asset_candidate("a/.png", 1), "a/.png_1");
    assert_eq!(asset_candidate("d.PNG/", 2), "d._2.PNG");
}

#[test]
fn data_url_names_the_media_type() {
    assert_eq!(data_url("x.PNG", b"foo"), "data:image/png;base64,Zm9v");
    assert_eq!(data_url("x", b"f"), "data:image/jpeg;base64,Zg==");
}

#[test]
fn chapter_document_wraps_the_body() {
    let doc = Document { content: vec![paragraph(vec![text("hi", vec![])])] };
    assert_eq!(
        chapter_to_xhtml("A & B", &Some(doc)),
        "<?xml version=\"1.0\" encoding=\"UTF-8\"?>\n\
         <!DOCTYPE html>\n\
         <html xmlns=\"http://www.w3.org/1999/xhtml\">\n\
         <head>\n<title>A &amp; B</title>\n\
         <link rel=\"stylesheet\" type=\"text/css\" href=\"../style.css\"/>\n\
         </head>\n<body>\n<p>hi</p>\n</body>\n</html>\n"
    );
    assert!(chapter_to_xhtml("t", &None).contains("<body>\n</body>"));
}

#[test]
fn opf_lists_chapters_and_images() {
    let images = vec!["pic one.PNG".to_string(), "b-2.svg".to_string()];
    let opf = build_opf("T<1>", "Me", "u-u", "2024-01-02T03:04:05Z", 2, &images);
    assert_eq!(
        opf,
        "<?xml version=\"1.0\" encoding=\"UTF-8\"?>\n\
         <package xmlns=\"http://www.idpf.org/2007/opf\" version=\"3.0\" unique-identifier=\"book-id\">\n\
         <metadata xmlns:dc=\"http://purl.org/dc/elements/1.1/\">\n\
         <dc:identifier id=\"book-id\">urn:uuid:u-u</dc:identifier>\n\
         <dc:title>T&lt;1&gt;</dc:title>\n    \
         <dc:creator>Me</dc:creator>\n    \
         <dc:language>en</dc:language>\n\
         <meta property=\"dcterms:modified\">2024-01-02T03:04:05Z</meta>\n\
         </metadata>\n\
         <manifest>\n\
         <item id=\"nav\" href=\"nav.xhtml\" media-type=\"application/xhtml+xml\" properties=\"nav\"/>\n\
         <item id=\"ncx\" href=\"toc.ncx\" media-type=\"application/x-dtbncx+xml\"/>\n\
         <item id=\"css\" href=\"style.css\" media-type=\"text/css\"/>\n    \
         <item id=\"ch001\" href=\"chapters/ch001.xhtml\" media-type=\"application/xhtml+xml\"/>\n    \
         <item id=\"ch002\" href=\"chapters/ch002.xhtml\" media-type=\"application/xhtml+xml\"/>\n    \
         <item id=\"img-pic_one_PNG\" href=\"images/pic one.PNG\" media-type=\"image/png\"/>\n    \
         <item id=\"img-b-2_svg\" href=\"images/b-2.svg\" media-type=\"image/svg+xml\"/>\n  \
         </manifest>\n\
         <spine toc=\"ncx\">\n    \
         <itemref idref=\"ch001\"/>\n    \
         <itemref idref=\"ch002\"/>\n  \
         </spine>\n\
         </package>"
    );
    let bare = build_opf("T", "", "u", "m", 0, &[]);
    assert!(!bare.contains("dc:creator"));
    assert_eq!(bare.matches("<item ").count(), 3);
}

#[test]
fn opf_has_one_item_for_each_chapter_and_image() {
    let images = vec!["a.png".to_string(), "b.gif".to_string(), "c".to_string()];
    let opf = build_opf("T", "A", "u", "m", 12, &images);
    assert_eq!(opf.matches("<item id=\"ch").count(), 12);
    assert_eq!(opf.matches("<item id=\"img-").count(), 3);
    assert_eq!(opf.matches("<itemref ").count(), 12);
    assert!(opf.contains("ch012"));
}

#[test]
fn image_id_keeps_letters_and_digits_of_any_script() {
    let images = vec!["été-1_ß.PNG".to_string()];
    let opf = build_opf("T", "", "u", "m", 0, &images);
    assert!(opf.contains("<item id=\"img-été-1_ß_PNG\" href=\"images/été-1_ß.PNG\" media-type=\"image/png\"/>"));
}

#[test]
fn nav_lists_the_chapters() {
    let titles = vec!["One".to_string(), "Two & more".to_string()];
    assert_eq!(
        build_nav("Book", &titles),
        "<?xml version=\"1.0\" encoding=\"UTF-8\"?>\n\
         <!DOCTYPE html>\n\
         <html xmlns=\"http://www.w3.org/1999/xhtml\" xmlns:epub=\"http://www.idpf.org/2007/ops\">\n\
         <head><title>Book</title></head>\n\
         <body>\n  <nav epub:type=\"toc\">\n    <h1>Book</h1>\n    <ol>\n      \
         <li><a href=\"chapters/ch001.xhtml\">One</a></li>\n      \
         <li><a href=\"chapters/ch002.xhtml\">Two &amp; more</a></li>\n    \
         </ol>\n  </nav>\n</body>\n</html>"
    );
}

#[test]
fn ncx_lists_the_chapters() {
    let titles = vec!["One".to_string()];
    assert_eq!(
        build_ncx("Book", "id-1", &titles),
        "<?xml version=\"1.0\" encoding=\"UTF-8\"?>\n\
         <ncx xmlns=\"http://www.daisy.org/z3986/2005/ncx/\" version=\"2005-1\">\n\
         <head>\n\
         <meta name=\"dtb:uid\" content=\"urn:uuid:id-1\"/>\n\
         <meta name=\"dtb:depth\" content=\"1\"/>\n\
         <meta name=\"dtb:totalPageCount\" content=\"0\"/>\n\
         <meta name=\"dtb:maxPageNumber\" content=\"0\"/>\n\
         </head>\n\
         <docTitle><text>Book</text></docTitle>\n\
         <navMap>\n    \
         <navPoint id=\"ch001\" playOrder=\"1\">\n\
         <navLabel><text>One</text></navLabel>\n\
         <content src=\"chapters/ch001.xhtml\"/>\n\
         </navPoint>\n  \
         </navMap>\n\
         </ncx>"
    );
}
