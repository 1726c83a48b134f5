use scout_core::builder::{document_from_events, Builder};
use scout_core::document::{Block, Document, Inline, Mark};
use scout_core::importing::{
    import_chapters, kind_for_lowercase, sections_of, source_kind, ImportOptions, SourceKind,
};
use scout_core::markdown::{parse_markdown, MdEvent, MdTag, MdTagEnd};
use scout_core::project::{chapter_position, has_id, has_word, max_chapter_id};
use scout_core::rtf::{
    is_proper_part, project_to_rtf, rtf_export_ids, rtf_file_name, rtf_file_name_today, RtfChapter,
};
use scout_core::text::{
    chars_of, decimal_string, is_whitespace_char, lowercased, same_text, split_lines, string_of, trim_string,
};

fn text(s: &str) -> Inline {
    Inline::Text { text: s.to_string(), marks: vec![] }
}

fn paragraph(s: &str) -> Block {
    Block::Paragraph { align: None, content: vec![text(s)] }
}

fn first_text(block: &Block) -> String {
    match block {
        Block::Paragraph { content, .. } | Block::Heading { content, .. } => match &content[0] {
            Inline::Text { text, .. } => text.clone(),
            Inline::HardBreak => panic!("a run was expected"),
        },
        _ => panic!("a paragraph or a heading was expected"),
    }
}

#[test]
fn source_kind_by_extension() {
    assert!(source_kind("txt") == Some(SourceKind::Text));
    assert!(source_kind("TXT") == Some(SourceKind::Text));
    assert!(source_kind("Md") == Some(SourceKind::Markdown));
    assert!(source_kind("rtf").is_none());
    assert!(source_kind("").is_none());
    assert!(kind_for_lowercase("MD").is_none());
}

#[test]
fn unsplit_file_is_titled_by_name_or_id() {
    let by_name = ImportOptions {
        use_filename_as_title: true,
        chapter_delimiter: None,
        extract_title_from_delimiter: false,
    };
    assert_eq!(
        sections_of("body\n## x", "notes", &by_name, 5),
        vec![("notes".to_string(), "body\n## x".to_string())]
    );
    let by_id = ImportOptions {
        use_filename_as_title: false,
        chapter_delimiter: None,
        extract_title_from_delimiter: true,
    };
    assert_eq!(sections_of("body", "notes", &by_id, 5), vec![("Chapter 5".to_string(), "body".to_string())]);
    let split = ImportOptions {
        use_filename_as_title: true,
        chapter_delimiter: Some("# ".to_string()),
        extract_title_from_delimiter: true,
    };
    assert_eq!(
        sections_of("# A\none\n# B\ntwo", "notes", &split, 5),
        vec![("A".to_string(), "one".to_string()), ("B".to_string(), "two".to_string())]
    );
}

#[test]
fn import_gives_ids_and_distinct_titles() {
    let sections = vec![
        ("Intro".to_string(), "first".to_string()),
        ("intro".to_string(), "second".to_string()),
        ("INTRO".to_string(), "**third**".to_string()),
        ("Other".to_string(), "".to_string()),
    ];
    let mut used = vec!["intro".to_string(), "intro (2)".to_string()];
    let made = import_chapters(&sections, SourceKind::Markdown, 10, &mut used).unwrap();
    let titles: Vec<&str> = made.iter().map(|c| c.title.as_str()).collect();
    assert_eq!(titles, vec!["Intro (1)", "intro (3)", "INTRO (4)", "Other"]);
    let ids: Vec<u32> = made.iter().map(|c| c.id).collect();
    assert_eq!(ids, vec![10, 11, 12, 13]);
    assert_eq!(used, vec!["intro", "intro (2)", "intro (1)", "intro (3)", "intro (4)", "other"]);
    assert_eq!(first_text(&made[0].content.content[0]), "first");
    match &made[2].content.content[0] {
        Block::Paragraph { content, .. } => match &content[0] {
            Inline::Text { text, marks } => {
                assert_eq!(text, "third");
                assert!(matches!(marks[0], Mark::Bold));
            }
            Inline::HardBreak => panic!("a run was expected"),
        },
        _ => panic!("a paragraph was expected"),
    }
    assert_eq!(made[3].content.content.len(), 1);
}

#[test]
fn import_of_text_keeps_markdown_signs() {
    let sections = vec![("T".to_string(), "**not bold**\n\nnext".to_string())];
    let mut used = vec![];
    let made = import_chapters(&sections, SourceKind::Text, 1, &mut used).unwrap();
    assert_eq!(made[0].content.content.len(), 2);
    assert_eq!(first_text(&made[0].content.content[0]), "**not bold**");
    assert_eq!(used, vec!["t"]);
}

#[test]
fn import_stops_where_ids_run_out() {
    let sections = vec![("a".to_string(), "x".to_string()), ("b".to_string(), "y".to_string())];
    let mut used = vec!["seen".to_string()];
    assert!(import_chapters(&sections, SourceKind::Text, u32::MAX, &mut used).is_none());
    assert_eq!(used, vec!["seen"]);
    let made = import_chapters(&sections, SourceKind::Text, u32::MAX - 1, &mut used).unwrap();
    assert_eq!(made[1].id, u32::MAX);
}

#[test]
fn parser_events_are_read() {
    let events = parse_markdown("# H\n\n- *a*\n\n> q\n\n```py\nc\n```\n\nx  \ny\nz `k`\n\n---\n");
    let mut shape = Vec::new();
    for event in &events {
        shape.push(match event {
            MdEvent::Start(MdTag::Heading(level)) => format!("+h{}", level),
            MdEvent::Start(MdTag::Paragraph) => "+p".to_string(),
            MdEvent::Start(MdTag::BlockQuote) => "+q".to_string(),
            MdEvent::Start(MdTag::CodeBlock(Some(lang))) => format!("+c:{}", lang),
            MdEvent::Start(MdTag::CodeBlock(None)) => "+c".to_string(),
            MdEvent::Start(MdTag::List(first)) => format!("+l{}", first.is_some()),
            MdEvent::Start(MdTag::Item) => "+i".to_string(),
            MdEvent::Start(MdTag::Emphasis) => "+e".to_string(),
            MdEvent::Start(MdTag::Strong) => "+s".to_string(),
            MdEvent::Start(MdTag::Other) => "+?".to_string(),
            MdEvent::End(MdTagEnd::Heading) => "-h".to_string(),
            MdEvent::End(MdTagEnd::Paragraph) => "-p".to_string(),
            MdEvent::End(MdTagEnd::BlockQuote) => "-q".to_string(),
            MdEvent::End(MdTagEnd::CodeBlock) => "-c".to_string(),
            MdEvent::End(MdTagEnd::List) => "-l".to_string(),
            MdEvent::End(MdTagEnd::Item) => "-i".to_string(),
            MdEvent::End(MdTagEnd::Emphasis) => "-e".to_string(),
            MdEvent::End(MdTagEnd::Strong) => "-s".to_string(),
            MdEvent::End(MdTagEnd::Other) => "-?".to_string(),
            MdEvent::Text(t) => format!("t:{}", t),
            MdEvent::Code(t) => format!("k:{}", t),
            MdEvent::SoftBreak => "soft".to_string(),
            MdEvent::HardBreak => "hard".to_string(),
            MdEvent::Other => "?".to_string(),
        });
    }
    assert_eq!(
        shape,
        vec![
            "+h1", "t:H", "-h", "+lfalse", "+i", "+e", "t:a", "-e", "-i", "-l", "+q", "+p", "t:q", "-p",
            "-q", "+c:py", "t:c\n", "-c", "+p", "t:x", "hard", "t:y", "soft", "t:z ", "k:k", "-p", "?",
        ]
    );
}

#[test]
fn ordered_list_is_told_from_its_events() {
    let events = parse_markdown("3. three\n");
    assert!(matches!(events[0], MdEvent::Start(MdTag::List(Some(3)))));
}

fn build(events: Vec<MdEvent>) -> Document {
    document_from_events(&events)
}

#[test]
fn finished_blocks_go_to_the_open_blockquote_first() {
    let doc = build(vec![
        MdEvent::Start(MdTag::List(None)),
        MdEvent::Start(MdTag::Item),
        MdEvent::Start(MdTag::BlockQuote),
        MdEvent::Start(MdTag::Heading(2)),
        MdEvent::Text("h".to_string()),
        MdEvent::End(MdTagEnd::Heading),
        MdEvent::Start(MdTag::Paragraph),
        MdEvent::End(MdTagEnd::Paragraph),
        MdEvent::End(MdTagEnd::BlockQuote),
        MdEvent::End(MdTagEnd::Item),
        MdEvent::End(MdTagEnd::List),
    ]);
    assert_eq!(doc.content.len(), 1);
    match &doc.content[0] {
        Block::BulletList { items } => {
            assert_eq!(items.len(), 1);
            assert_eq!(items[0].len(), 1);
            match &items[0][0] {
                Block::Blockquote { blocks } => {
                    assert_eq!(blocks.len(), 2);
                    assert!(matches!(blocks[0], Block::Heading { level: Some(2), .. }));
                    assert_eq!(first_text(&blocks[0]), "h");
                    match &blocks[1] {
                        Block::Paragraph { content, .. } => assert!(content.is_empty()),
                        _ => panic!("a paragraph was expected"),
                    }
                }
                _ => panic!("a blockquote was expected"),
            }
        }
        _ => panic!("a bullet list was expected"),
    }
}

#[test]
fn empty_item_holds_one_empty_paragraph() {
    let doc = build(vec![
        MdEvent::Start(MdTag::List(Some(1))),
        MdEvent::Start(MdTag::Item),
        MdEvent::End(MdTagEnd::Item),
        MdEvent::End(MdTagEnd::List),
    ]);
    match &doc.content[0] {
        Block::OrderedList { items } => {
            assert_eq!(items.len(), 1);
            assert_eq!(items[0].len(), 1);
            match &items[0][0] {
                Block::Paragraph { content, .. } => assert!(content.is_empty()),
                _ => panic!("a paragraph was expected"),
            }
        }
        _ => panic!("an ordered list was expected"),
    }
}

#[test]
fn empty_structures_are_left_out() {
    let doc = build(vec![
        MdEvent::Start(MdTag::Paragraph),
        MdEvent::End(MdTagEnd::Paragraph),
        MdEvent::Start(MdTag::List(None)),
        MdEvent::End(MdTagEnd::List),
        MdEvent::Start(MdTag::BlockQuote),
        MdEvent::End(MdTagEnd::BlockQuote),
        MdEvent::Other,
        MdEvent::Start(MdTag::Other),
        MdEvent::End(MdTagEnd::Other),
        MdEvent::Text("lost".to_string()),
        MdEvent::SoftBreak,
    ]);
    assert_eq!(doc.content.len(), 1);
    match &doc.content[0] {
        Block::Paragraph { content, .. } => assert!(content.is_empty()),
        _ => panic!("a paragraph was expected"),
    }
}

#[test]
fn leaves_go_to_code_then_heading_then_paragraph() {
    let doc = build(vec![
        MdEvent::Start(MdTag::Paragraph),
        MdEvent::Start(MdTag::Heading(3)),
        MdEvent::Start(MdTag::CodeBlock(None)),
        MdEvent::Start(MdTag::Strong),
        MdEvent::Text("a".to_string()),
        MdEvent::Code("b".to_string()),
        MdEvent::End(MdTagEnd::CodeBlock),
        MdEvent::Text("c".to_string()),
        MdEvent::End(MdTagEnd::Heading),
        MdEvent::Start(MdTag::Emphasis),
        MdEvent::Text("d".to_string()),
        MdEvent::End(MdTagEnd::Strong),
        MdEvent::Code("e".to_string()),
        MdEvent::HardBreak,
        MdEvent::End(MdTagEnd::Paragraph),
    ]);
    assert_eq!(doc.content.len(), 3);
    match &doc.content[0] {
        Block::CodeBlock { language, text } => {
            assert!(language.is_none());
            assert_eq!(text, "ab");
        }
        _ => panic!("a code block was expected"),
    }
    match &doc.content[1] {
        Block::Heading { level, content, .. } => {
            assert_eq!(*level, Some(3));
            assert_eq!(content.len(), 1);
            match &content[0] {
                Inline::Text { text, marks } => {
                    assert_eq!(text, "c");
                    assert_eq!(marks.len(), 1);
                    assert!(matches!(marks[0], Mark::Bold));
                }
                Inline::HardBreak => panic!("a run was expected"),
            }
        }
        _ => panic!("a heading was expected"),
    }
    match &doc.content[2] {
        Block::Paragraph { content, .. } => {
            assert_eq!(content.len(), 2);
            match &content[0] {
                Inline::Text { text, marks } => {
                    assert_eq!(text, "d");
                    assert_eq!(marks.len(), 2);
                    assert!(matches!(marks[0], Mark::Bold));
                    assert!(matches!(marks[1], Mark::Italic));
                }
                Inline::HardBreak => panic!("a run was expected"),
            }
            match &content[1] {
                Inline::Text { text, marks } => {
                    assert_eq!(text, "e ");
                    assert_eq!(marks.len(), 1);
                    assert!(matches!(marks[0], Mark::Code));
                }
                Inline::HardBreak => panic!("a run was expected"),
            }
        }
        _ => panic!("a paragraph was expected"),
    }
}

#[test]
fn builder_takes_events_one_by_one() {
    let builder = Builder::new()
        .step(&MdEvent::Start(MdTag::Paragraph))
        .step(&MdEvent::Text("x".to_string()))
        .step(&MdEvent::End(MdTagEnd::Paragraph));
    let doc = builder.place(paragraph("y")).finish();
    assert_eq!(doc.content.len(), 2);
    assert_eq!(first_text(&doc.content[0]), "x");
    assert_eq!(first_text(&doc.content[1]), "y");
}

#[test]
fn rtf_document_breaks_pages_between_chapters() {
    let chapters = vec![
        RtfChapter { id: 4, stored: true, content: Some(Document { content: vec![paragraph("a")] }) },
        RtfChapter { id: 9, stored: false, content: None },
        RtfChapter { id: 2, stored: true, content: None },
    ];
    assert_eq!(
        project_to_rtf(&chapters),
        "{\\rtf1\\ansi\\ansicpg1252\\cocoartf2\n\
         {\\colortbl;\\red255\\green255\\blue255;}\n\
         {\\*\\expandedcolortbl;;}\n\
         \\margl1440\\margr1440\\margtsxn0\\margbsxn0\\vieww11900\\viewh8605\\viewkind0\n\
         \\pard\\tx720\\tx1440\\tx2160\\pardirnatural\\partightenfactor200\n\n\
         {\\pard \\fs28 \\b Chapter 4\\b0\\par}\n\
         {\\pard \\par}\n\
         {\\pard \\par}\n\
         {\\pard a\\b0\\i0 \\par}\n\
         \\page\n\
         {\\pard \\fs28 \\b Chapter 2\\b0\\par}\n\
         {\\pard \\par}\n\
         {\\pard \\par}\n\
         }"
    );
    let empty = project_to_rtf(&vec![]);
    assert!(empty.starts_with("{\\rtf1"));
    assert!(empty.ends_with("\n\n}"));
}

#[test]
fn rtf_export_takes_the_chosen_ids_as_given() {
    assert_eq!(rtf_export_ids(&vec![1, 2, 3], &vec![]), vec![1, 2, 3]);
    assert_eq!(rtf_export_ids(&vec![1, 2, 3], &vec![3, 1]), vec![3, 1]);
}

#[test]
fn rtf_file_name_names_a_part_export() {
    let order = vec![1, 2, 3, 7, 10];
    assert_eq!(rtf_file_name("My  Book", "2024-05-06", &order, &order), "My__Book_2024-05-06.rtf");
    assert_eq!(
        rtf_file_name("My Book", "2024-05-06", &vec![3, 10, 7], &order),
        "My_Book_2024-05-06_Chapters_3-10-7.rtf"
    );
    assert_eq!(rtf_file_name("B", "d", &vec![3], &order), "B_d_Chapters_3.rtf");
    assert_eq!(rtf_file_name("B", "d", &vec![], &order), "B_d_Chapters_.rtf");
    assert_eq!(rtf_file_name("B", "d", &vec![], &vec![]), "B_d.rtf");
    let today = rtf_file_name_today("B", &vec![1], &vec![1]);
    assert!(today.starts_with("B_") && today.ends_with(".rtf"));
    assert_eq!(today, rtf_file_name("B", &scout_core::clock::today(), &vec![1], &vec![1]));
}

#[test]
fn rtf_suffix_goes_by_the_chapters_not_their_number() {
    let order = vec![1, 2];
    assert_eq!(rtf_file_name("B", "d", &vec![1, 1], &order), "B_d_Chapters_1-1.rtf");
    assert_eq!(rtf_file_name("B", "d", &vec![2, 1, 2], &order), "B_d.rtf");
    assert_eq!(rtf_file_name("B", "d", &vec![2, 1], &order), "B_d.rtf");
    assert_eq!(rtf_file_name("B", "d", &vec![3], &order), "B_d.rtf");
    assert_eq!(rtf_file_name("B", "d", &vec![1, 3], &order), "B_d.rtf");
    assert!(is_proper_part(&vec![2], &order));
    assert!(!is_proper_part(&vec![], &vec![]));
    assert!(is_proper_part(&vec![], &order));
    assert!(has_id(&order, 2) && !has_id(&order, 3));
}

#[test]
fn chapters_are_placed_by_the_project_order() {
    assert_eq!(chapter_position(&vec![5, 3, 9], 3), 1);
    assert_eq!(chapter_position(&vec![5, 3, 9, 3], 3), 3);
    assert_eq!(chapter_position(&vec![5, 3, 9], 4), usize::MAX);
    assert_eq!(chapter_position(&vec![], 4), usize::MAX);
}

#[test]
fn greatest_chapter_id() {
    assert_eq!(max_chapter_id(&vec![]), 0);
    assert_eq!(max_chapter_id(&vec![0]), 0);
    assert_eq!(max_chapter_id(&vec![3, 9, 2, 9, 1]), 9);
    assert_eq!(max_chapter_id(&vec![u32::MAX, 1]), u32::MAX);
}

#[test]
fn dictionary_words_are_compared_without_case() {
    let words = vec!["Alpha".to_string(), "béta".to_string()];
    assert!(has_word(&words, "alpha"));
    assert!(has_word(&words, "BÉTA"));
    assert!(!has_word(&words, "gamma"));
}

#[test]
fn text_primitives() {
    assert_eq!(decimal_string(0), "0");
    assert_eq!(decimal_string(907), "907");
    assert_eq!(decimal_string(u64::MAX), "18446744073709551615");
    for c in ['\t', '\n', '\u{b}', '\u{c}', '\r', ' ', '\u{85}', '\u{a0}', '\u{1680}', '\u{2000}', '\u{200a}', '\u{2028}', '\u{2029}', '\u{202f}', '\u{205f}', '\u{3000}'] {
        assert!(is_whitespace_char(c));
        assert!(c.is_whitespace());
    }
    for c in ['a', '0', '\u{200b}', '\u{feff}', '\u{1c}', '\u{8}', '\u{e}', '\u{180e}'] {
        assert_eq!(is_whitespace_char(c), c.is_whitespace());
    }
    assert_eq!(trim_string(" \u{3000}a b\t\n"), "a b");
    assert_eq!(trim_string(" \n "), "");
    assert_eq!(trim_string("\u{200b}x\u{200b}"), "\u{200b}x\u{200b}");
    assert_eq!(string_of(&chars_of("héllo")), "héllo");
    assert_eq!(lowercased("ÀB ΣΑΣ"), "àb σας");
    assert!(same_text("a", "a") && !same_text("a", "A"));
}

#[test]
fn lines_are_split_as_by_the_standard_library() {
    for text in ["", "a", "a\n", "a\n\n", "\n", "a\r\nb\r", "\r\n\r\n", "a\rb\nc", "x\n\ry\n", "\r"] {
        let rows: Vec<String> = split_lines(&chars_of(text)).iter().map(string_of).collect();
        let expected: Vec<String> = text.lines().map(|l| l.to_string()).collect();
        assert_eq!(rows, expected, "for {:?}", text);
    }
}
