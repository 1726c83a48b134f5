use scout_core::builder::markdown_to_tiptap_json;
use scout_core::chapters::{holds_title, is_taken, make_unique_title, numbered_title, split_by_delimiter};
use scout_core::document::{Block, Inline, Mark};
use scout_core::plain::text_to_tiptap_json;

fn run_of(item: &Inline) -> (String, Vec<&'static str>) {
    match item {
        Inline::Text { text, marks } => {
            let names = marks
                .iter()
                .map(|m| match m {
                    Mark::Bold => "bold",
                    Mark::Italic => "italic",
                    Mark::Strike => "strike",
                    Mark::Code => "code",
                    Mark::TextStyle { .. } => "style",
                })
                .collect();
            (text.clone(), names)
        }
        Inline::HardBreak => panic!("a run was expected"),
    }
}

fn paragraph_runs(block: &Block) -> Vec<(String, Vec<&'static str>)> {
    match block {
        Block::Paragraph { content, .. } => content.iter().map(run_of).collect(),
        _ => panic!("a paragraph was expected"),
    }
}

#[test]
fn empty_text_is_one_empty_paragraph() {
    let doc = text_to_tiptap_json("");
    assert_eq!(doc.content.len(), 1);
    assert!(paragraph_runs(&doc.content[0]).is_empty());
}

#[test]
fn whitespace_text_is_one_empty_paragraph() {
    let doc = text_to_tiptap_json(" \n\n\t \n\n\n \u{3000}");
    assert_eq!(doc.content.len(), 1);
    assert!(paragraph_runs(&doc.content[0]).is_empty());
}

#[test]
fn text_splits_on_blank_lines_and_trims() {
    let doc = text_to_tiptap_json("  first\nline \n\n\n second\n\n   \n\nthird");
    assert_eq!(doc.content.len(), 3);
    assert_eq!(paragraph_runs(&doc.content[0]), vec![("first\nline".to_string(), vec![])]);
    assert_eq!(paragraph_runs(&doc.content[1]), vec![("second".to_string(), vec![])]);
    assert_eq!(paragraph_runs(&doc.content[2]), vec![("third".to_string(), vec![])]);
}

#[test]
fn dedupe_leaves_a_free_title() {
    assert_eq!(make_unique_title("Intro", &vec![]), "Intro");
}

#[test]
fn dedupe_appends_the_first_free_number() {
    assert_eq!(make_unique_title("Intro", &vec!["intro".to_string()]), "Intro (1)");
    assert_eq!(
        make_unique_title("Intro", &vec!["intro".to_string(), "intro (1)".to_string()]),
        "Intro (2)"
    );
}

#[test]
fn dedupe_compares_in_lowercase() {
    assert_eq!(make_unique_title("ÉTÉ", &vec!["été".to_string()]), "ÉTÉ (1)");
    assert_eq!(make_unique_title("Intro", &vec!["Intro".to_string()]), "Intro");
}

#[test]
fn used_titles_are_looked_up_in_lowercase() {
    let used = vec!["intro".to_string(), "été (2)".to_string()];
    assert!(holds_title(&used, "intro"));
    assert!(!holds_title(&used, "Intro"));
    assert!(is_taken(&used, "INTRO"));
    assert!(is_taken(&used, "Été (2)"));
    assert!(!is_taken(&used, "intro "));
    assert_eq!(numbered_title("A b", 12), "A b (12)");
}

#[test]
fn split_with_titles() {
    let sections = split_by_delimiter("junk\n## A\nfoo\nbar\n## \nbaz", "## ", true);
    assert_eq!(
        sections,
        vec![
            ("A".to_string(), "foo\nbar".to_string()),
            ("Chapter 2".to_string(), "baz".to_string()),
        ]
    );
}

#[test]
fn split_drops_an_empty_section_when_extracting() {
    let sections = split_by_delimiter("## A\n\n## B\ntext", "## ", true);
    assert_eq!(sections, vec![("B".to_string(), "text".to_string())]);
}

#[test]
fn split_keeps_an_empty_section_without_extraction() {
    let sections = split_by_delimiter("## A\n\n## B\ntext\n", "## ", false);
    assert_eq!(
        sections,
        vec![
            ("Chapter 1".to_string(), "".to_string()),
            ("Chapter 2".to_string(), "text".to_string()),
        ]
    );
}

#[test]
fn split_without_a_delimiter_line_is_one_chapter() {
    let sections = split_by_delimiter("no delimiter\r\nhere", "## ", true);
    assert_eq!(sections, vec![("Chapter 1".to_string(), "no delimiter\r\nhere".to_string())]);
}

#[test]
fn split_strips_carriage_returns_before_line_feeds() {
    let sections = split_by_delimiter("## T \r\na\r\nb\r\n", "## ", true);
    assert_eq!(sections, vec![("T".to_string(), "a\nb".to_string())]);
}

#[test]
fn markdown_bold_and_emphasis() {
    let doc = markdown_to_tiptap_json("**bold** and *em*");
    assert_eq!(doc.content.len(), 1);
    assert_eq!(
        paragraph_runs(&doc.content[0]),
        vec![
            ("bold".to_string(), vec!["bold"]),
            (" and ".to_string(), vec![]),
            ("em".to_string(), vec!["italic"]),
        ]
    );
}

#[test]
fn markdown_empty_is_one_empty_paragraph() {
    let doc = markdown_to_tiptap_json("");
    assert_eq!(doc.content.len(), 1);
    assert!(paragraph_runs(&doc.content[0]).is_empty());
}

#[test]
fn markdown_heading_code_and_list() {
    let doc = markdown_to_tiptap_json("# Title\n\ntext `code`\nmore\n\n- one\n- two\n\n```rust\nfn f() {}\n```\n");
    assert_eq!(doc.content.len(), 4);
    match &doc.content[0] {
        Block::Heading { level, content, .. } => {
            assert_eq!(*level, Some(1));
            assert_eq!(run_of(&content[0]), ("Title".to_string(), vec![]));
        }
        _ => panic!("a heading was expected"),
    }
    assert_eq!(
        paragraph_runs(&doc.content[1]),
        vec![
            ("text ".to_string(), vec![]),
            ("code ".to_string(), vec!["code"]),
            ("more".to_string(), vec![]),
        ]
    );
    match &doc.content[2] {
        Block::BulletList { items } => {
            assert_eq!(items.len(), 2);
            assert_eq!(paragraph_runs(&items[0][0]), vec![("one".to_string(), vec![])]);
            assert_eq!(paragraph_runs(&items[1][0]), vec![("two".to_string(), vec![])]);
        }
        _ => panic!("a bullet list was expected"),
    }
    match &doc.content[3] {
        Block::CodeBlock { language, text } => {
            assert_eq!(language.as_deref(), Some("rust"));
            assert_eq!(text, "fn f() {}\n");
        }
        _ => panic!("a code block was expected"),
    }
}

#[test]
fn markdown_blockquote_holds_its_paragraphs() {
    let doc = markdown_to_tiptap_json("> quoted\n>\n> again\n\n1. first\n");
    assert_eq!(doc.content.len(), 2);
    match &doc.content[0] {
        Block::Blockquote { blocks } => {
            assert_eq!(blocks.len(), 2);
            assert_eq!(paragraph_runs(&blocks[0]), vec![("quoted".to_string(), vec![])]);
            assert_eq!(paragraph_runs(&blocks[1]), vec![("again".to_string(), vec![])]);
        }
        _ => panic!("a blockquote was expected"),
    }
    match &doc.content[1] {
        Block::OrderedList { items } => assert_eq!(items.len(), 1),
        _ => panic!("an ordered list was expected"),
    }
}
