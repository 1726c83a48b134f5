use std::io::{Cursor, Read};

use scout_core::archive::{
    entry_time, finish_outcome, start_outcome, time_to_store, write_archive, write_outcome,
    ArchiveEntry, ArchiveError, Compression, EntryTime,
};
use scout_core::clock::{now_entry_time, now_millis, now_stamp, today};
use scout_core::document::{Block, Document, Inline};
use scout_core::epub::{collect_image_names, collect_image_names_from_node};
use scout_core::package::{
    build_epub, chapter_display_title, epub_file_name, epub_uuid, export_epub, generate_epub_uuid,
    package_entries, referenced_images, resolve_export_ids, EpubChapter, ImageLookup,
};

fn image(name: &str) -> Block {
    Block::ImageBleed { name: name.to_string(), alt: String::new() }
}

fn paragraph(text: &str) -> Block {
    Block::Paragraph {
        align: None,
        content: vec![Inline::Text { text: text.to_string(), marks: vec![] }],
    }
}

fn chapter(title: &str, blocks: Vec<Block>) -> EpubChapter {
    EpubChapter { title: title.to_string(), content: Some(Document { content: blocks }) }
}

#[test]
fn export_ids_follow_the_project_order() {
    assert_eq!(resolve_export_ids(&vec![3, 1, 2], &vec![]), vec![3, 1, 2]);
    assert_eq!(resolve_export_ids(&vec![3, 1, 2], &vec![2, 3, 9]), vec![3, 2]);
    assert_eq!(resolve_export_ids(&vec![3, 1, 2], &vec![7]), Vec::<u32>::new());
    assert_eq!(resolve_export_ids(&vec![], &vec![1]), Vec::<u32>::new());
}

#[test]
fn display_title_falls_back_to_the_id() {
    assert_eq!(chapter_display_title(7, Some("Seven")), "Seven");
    assert_eq!(chapter_display_title(7, None), "Chapter 7");
    assert_eq!(chapter_display_title(4294967295, None), "Chapter 4294967295");
}

#[test]
fn image_names_are_collected_once_in_order() {
    let doc = Document {
        content: vec![
            image("b.png"),
            Block::Blockquote { blocks: vec![image("a.png"), image("b.png")] },
            Block::BulletList { items: vec![vec![paragraph("x"), image("c.png")], vec![image("")]] },
            Block::ColorBleed { background: None, text_color: None, blocks: vec![image("a.png"), image("d.png")] },
            Block::OrderedList { items: vec![vec![Block::Blockquote { blocks: vec![image("e.png")] }]] },
        ],
    };
    assert_eq!(collect_image_names(&Some(doc)), vec!["b.png", "a.png", "c.png", "d.png", "e.png"]);
    assert!(collect_image_names(&None).is_empty());
    let mut names = vec!["a.png".to_string()];
    collect_image_names_from_node(&image("a.png"), &mut names);
    collect_image_names_from_node(&image("z.png"), &mut names);
    collect_image_names_from_node(&paragraph("a.png"), &mut names);
    assert_eq!(names, vec!["a.png", "z.png"]);
}

#[test]
fn images_of_all_chapters_are_merged() {
    let chapters = vec![
        chapter("One", vec![image("x.png"), image("y.png")]),
        EpubChapter { title: "None".to_string(), content: None },
        chapter("Two", vec![image("y.png"), image("z.png"), image("x.png")]),
    ];
    assert_eq!(referenced_images(&chapters), vec!["x.png", "y.png", "z.png"]);
}

#[test]
fn epub_file_name_is_sanitized() {
    assert_eq!(epub_file_name("My Book: été_2-a.b", "2024-05-06"), "My_Book___t__2-a_b_2024-05-06.epub");
    assert_eq!(epub_file_name("", "d"), "_d.epub");
}

#[test]
fn uuid_is_the_hash_of_seed_and_time() {
    assert_eq!(epub_uuid("Book", 1700000000000), "bc9bbfd1-33e2-434a-8d2a-be35639fb1c8");
    assert_eq!(epub_uuid("", 0), "af63bd4c-8601-4b7d-adf7-760d9aaa194b");
    assert_eq!(epub_uuid("Été", -5), "db5a7db2-edce-478a-9e29-d8e9bfc75574");
}

#[test]
fn uuid_has_version_and_variant() {
    for (seed, millis) in [("a", 1i64), ("b", i64::MAX), ("c", i64::MIN), ("", -1)] {
        let id = epub_uuid(seed, millis);
        let chars: Vec<char> = id.chars().collect();
        assert_eq!(chars.len(), 36);
        for at in [8, 13, 18, 23] {
            assert_eq!(chars[at], '-');
        }
        assert_eq!(chars[14], '4');
        assert!(matches!(chars[19], '8' | '9' | 'a' | 'b'));
    }
    let made = generate_epub_uuid("seed");
    assert_eq!(made.len(), 36);
    assert_eq!(made.as_bytes()[14], b'4');
}

fn is_day(text: &str) -> bool {
    let bytes = text.as_bytes();
    let n = bytes.len();
    if n < 10 {
        return false;
    }
    let year = &bytes[..n - 6];
    let digits = if year[0] == b'+' || year[0] == b'-' { &year[1..] } else { year };
    let year_ok = digits.iter().all(|b| b.is_ascii_digit())
        && if digits.len() == year.len() { year.len() == 4 } else { year.len() >= 5 };
    year_ok
        && bytes[n - 6] == b'-'
        && bytes[n - 5].is_ascii_digit()
        && bytes[n - 4].is_ascii_digit()
        && bytes[n - 3] == b'-'
        && bytes[n - 2].is_ascii_digit()
        && bytes[n - 1].is_ascii_digit()
}

#[test]
fn clock_gives_day_and_stamp() {
    let day = today();
    assert!(is_day(&day), "{}", day);
    let stamp = now_stamp();
    let bytes = stamp.as_bytes();
    let n = bytes.len();
    assert!(n >= 20);
    assert!(is_day(&stamp[..n - 10]), "{}", stamp);
    assert_eq!(bytes[n - 10], b'T');
    assert!(bytes[n - 9].is_ascii_digit() && bytes[n - 8].is_ascii_digit());
    assert_eq!(bytes[n - 7], b':');
    assert!(bytes[n - 6].is_ascii_digit() && bytes[n - 5].is_ascii_digit());
    assert_eq!(bytes[n - 4], b':');
    assert!(bytes[n - 3].is_ascii_digit() && bytes[n - 2].is_ascii_digit());
    assert_eq!(bytes[n - 1], b'Z');
    assert!(now_millis() > 1_600_000_000_000);
}

#[test]
fn outside_results_become_archive_results() {
    assert!(matches!(start_outcome(Ok(())), Ok(())));
    match start_outcome(Err(zip::result::ZipError::FileNotFound)) {
        Err(ArchiveError::Start(words)) => assert!(!words.is_empty()),
        _ => panic!("a start error was expected"),
    }
    assert!(matches!(write_outcome(Ok(())), Ok(())));
    match write_outcome(Err(std::io::Error::new(std::io::ErrorKind::Other, "full"))) {
        Err(ArchiveError::Write(words)) => assert_eq!(words, "full"),
        _ => panic!("a write error was expected"),
    }
    match finish_outcome(Ok(vec![1, 2])) {
        Ok(bytes) => assert_eq!(bytes, vec![1, 2]),
        Err(_) => panic!("the bytes were expected"),
    }
    match finish_outcome(Err(zip::result::ZipError::FileNotFound)) {
        Err(ArchiveError::Finish(words)) => assert!(!words.is_empty()),
        _ => panic!("a finish error was expected"),
    }
}

fn moment() -> EntryTime {
    EntryTime { year: 2024, month: 2, day: 29, hour: 13, minute: 14, second: 16 }
}

fn read_times(bytes: Vec<u8>) -> Vec<(u16, u8, u8, u8, u8, u8)> {
    let mut archive = zip::ZipArchive::new(Cursor::new(bytes)).unwrap();
    let mut out = Vec::new();
    for i in 0..archive.len() {
        let file = archive.by_index(i).unwrap();
        let t = file.last_modified().unwrap();
        out.push((t.year(), t.month(), t.day(), t.hour(), t.minute(), t.second()));
    }
    out
}

#[test]
fn entries_carry_the_given_time() {
    let entries = sample_entries();
    let bytes = write_archive(&entries, moment()).unwrap();
    let times = read_times(bytes);
    assert_eq!(times.len(), entries.len());
    for time in times {
        assert_eq!(time, (2024, 2, 29, 13, 14, 16));
    }
}

#[test]
fn a_time_that_does_not_fit_becomes_the_first_moment() {
    let entries = sample_entries();
    for at in [
        EntryTime { year: 2023, month: 2, day: 29, hour: 0, minute: 0, second: 0 },
        EntryTime { year: 1979, month: 12, day: 31, hour: 23, minute: 59, second: 59 },
        EntryTime { year: 2108, month: 1, day: 1, hour: 0, minute: 0, second: 0 },
        EntryTime { year: 2024, month: 4, day: 31, hour: 0, minute: 0, second: 0 },
        EntryTime { year: 2024, month: 13, day: 1, hour: 0, minute: 0, second: 0 },
        EntryTime { year: 2024, month: 1, day: 0, hour: 0, minute: 0, second: 0 },
        EntryTime { year: 2024, month: 1, day: 1, hour: 24, minute: 0, second: 0 },
        EntryTime { year: 2024, month: 1, day: 1, hour: 0, minute: 60, second: 0 },
        EntryTime { year: 2024, month: 1, day: 1, hour: 0, minute: 0, second: 61 },
        EntryTime { year: 2100, month: 2, day: 29, hour: 0, minute: 0, second: 0 },
    ] {
        assert!(time_to_store(at) == EntryTime { year: 1980, month: 1, day: 1, hour: 0, minute: 0, second: 0 });
        let bytes = write_archive(&entries, at).unwrap();
        assert_eq!(read_times(bytes)[0], (1980, 1, 1, 0, 0, 0));
    }
    for at in [
        moment(),
        EntryTime { year: 1980, month: 1, day: 1, hour: 0, minute: 0, second: 0 },
        EntryTime { year: 2107, month: 12, day: 31, hour: 23, minute: 59, second: 60 },
        EntryTime { year: 2000, month: 2, day: 29, hour: 1, minute: 2, second: 4 },
    ] {
        assert!(time_to_store(at) == at);
        assert!(zip::DateTime::from_date_and_time(at.year, at.month, at.day, at.hour, at.minute, at.second).is_ok());
    }
}

#[test]
fn entry_time_is_made_of_the_fields_of_a_moment() {
    assert!(entry_time(2024, 2, 29, 13, 14, 16) == moment());
    let first = EntryTime { year: 1980, month: 1, day: 1, hour: 0, minute: 0, second: 0 };
    assert!(entry_time(-5, 1, 1, 0, 0, 0) == first);
    assert!(entry_time(70000, 1, 1, 0, 0, 0) == first);
    assert!(entry_time(2024, 300, 1, 0, 0, 0) == first);
    assert!(entry_time(2024, 1, 257, 0, 0, 0) == first);
    assert!(entry_time(2023, 2, 29, 0, 0, 0) == first);
    let now = now_entry_time();
    assert!(now.year >= 2024 && now.month >= 1 && now.month <= 12);
}

fn sample_entries() -> Vec<ArchiveEntry> {
    let chapters = vec![chapter("One & only", vec![paragraph("hello"), image("pic.png")])];
    let images = vec![
        ImageLookup { name: "pic.png".to_string(), data: Some(vec![1, 2, 3, 255]) },
        ImageLookup { name: "gone.png".to_string(), data: None },
    ];
    package_entries("Title", "Author", "u-1", "2024-01-01T00:00:00Z", &chapters, &images)
}

#[test]
fn package_entries_are_in_archive_order() {
    let entries = sample_entries();
    let names: Vec<&str> = entries.iter().map(|e| e.name.as_str()).collect();
    assert_eq!(
        names,
        vec![
            "mimetype",
            "META-INF/container.xml",
            "OEBPS/style.css",
            "OEBPS/images/pic.png",
            "OEBPS/chapters/ch001.xhtml",
            "OEBPS/nav.xhtml",
            "OEBPS/toc.ncx",
            "OEBPS/content.opf",
        ]
    );
    assert!(entries[0].compression == Compression::Stored);
    assert_eq!(entries[0].data, b"application/epub+zip");
    for entry in &entries[1..] {
        assert!(entry.compression == Compression::Deflated);
    }
    assert_eq!(entries[3].data, vec![1, 2, 3, 255]);
    let container = String::from_utf8(entries[1].data.clone()).unwrap();
    assert_eq!(
        container,
        "<?xml version=\"1.0\" encoding=\"UTF-8\"?>\n\
         <container version=\"1.0\" xmlns=\"urn:oasis:names:tc:opendocument:xmlns:container\">\n\
         <rootfiles>\n\
         <rootfile full-path=\"OEBPS/content.opf\" media-type=\"application/oebps-package+xml\"/>\n\
         </rootfiles>\n\
         </container>"
    );
    let css = String::from_utf8(entries[2].data.clone()).unwrap();
    assert!(css.starts_with("body { font-family: serif;"));
    assert!(css.contains("h5 { font-size: 1em;   font-weight: bold;"));
    assert!(css.ends_with("code { font-family: monospace; font-size: 0.9em; }"));
    let chapter = String::from_utf8(entries[4].data.clone()).unwrap();
    assert!(chapter.contains("<title>One &amp; only</title>"));
    assert!(chapter.contains("<p>hello</p>\n<div class=\"image-bleed\"><img src=\"../images/pic.png\" alt=\"\"/></div>\n"));
    let opf = String::from_utf8(entries[7].data.clone()).unwrap();
    assert_eq!(opf.matches("<item id=\"ch").count(), 1);
    assert_eq!(opf.matches("<item id=\"img-").count(), 1);
    assert!(opf.contains("href=\"images/pic.png\""));
    assert!(!opf.contains("gone.png"));
}

#[test]
fn manifest_counts_chapters_and_existing_images() {
    let chapters = vec![chapter("a", vec![]), chapter("b", vec![]), chapter("c", vec![])];
    let images = vec![
        ImageLookup { name: "1.png".to_string(), data: Some(vec![]) },
        ImageLookup { name: "2.png".to_string(), data: None },
        ImageLookup { name: "3.gif".to_string(), data: Some(vec![9]) },
    ];
    let entries = package_entries("T", "", "u", "m", &chapters, &images);
    assert_eq!(entries.len(), 3 + 2 + 3 + 3);
    let opf = String::from_utf8(entries.last().unwrap().data.clone()).unwrap();
    assert_eq!(opf.matches("<item id=\"ch").count(), 3);
    assert_eq!(opf.matches("<item id=\"img-").count(), 2);
    assert_eq!(opf.matches("<itemref ").count(), 3);
}

fn read_back(bytes: Vec<u8>) -> Vec<(String, zip::CompressionMethod, Vec<u8>)> {
    let mut archive = zip::ZipArchive::new(Cursor::new(bytes)).unwrap();
    let mut out = Vec::new();
    for i in 0..archive.len() {
        let mut file = archive.by_index(i).unwrap();
        let mut data = Vec::new();
        file.read_to_end(&mut data).unwrap();
        out.push((file.name().to_string(), file.compression(), data));
    }
    out
}

#[test]
fn archive_holds_the_entries_in_order() {
    let entries = sample_entries();
    let bytes = match write_archive(&entries, moment()) {
        Ok(bytes) => bytes,
        Err(_) => panic!("the archive was not written"),
    };
    let files = read_back(bytes);
    assert_eq!(files.len(), entries.len());
    for (file, entry) in files.iter().zip(entries.iter()) {
        assert_eq!(file.0, entry.name);
        assert_eq!(file.2, entry.data);
    }
    assert_eq!(files[0].0, "mimetype");
    assert_eq!(files[0].1, zip::CompressionMethod::Stored);
    assert_eq!(files[0].2, b"application/epub+zip");
    for file in &files[1..] {
        assert_eq!(file.1, zip::CompressionMethod::Deflated);
    }
}

#[test]
fn archive_starts_with_the_stored_media_type() {
    let chapters = vec![chapter("One", vec![paragraph("text")])];
    let bytes = match build_epub("T", "A", "u", "m", &chapters, &vec![], moment()) {
        Ok(bytes) => bytes,
        Err(_) => panic!("the archive was not written"),
    };
    assert_eq!(&bytes[0..4], b"PK\x03\x04");
    assert_eq!(&bytes[30..38], b"mimetype");
    assert_eq!(&bytes[38..58], b"application/epub+zip");
}

#[test]
fn archive_refuses_a_name_twice() {
    let entries = vec![
        ArchiveEntry { name: "a".to_string(), compression: Compression::Stored, data: vec![1] },
        ArchiveEntry { name: "a".to_string(), compression: Compression::Deflated, data: vec![2] },
    ];
    match write_archive(&entries, moment()) {
        Err(ArchiveError::Start(words)) => assert!(words.contains("Duplicate")),
        _ => panic!("the second entry should not start"),
    }
}

#[test]
fn archive_refuses_a_name_that_does_not_fit() {
    let fits = ArchiveEntry { name: "n".repeat(65535), compression: Compression::Stored, data: vec![] };
    assert!(write_archive(&vec![fits], moment()).is_ok());
    let long = ArchiveEntry { name: "n".repeat(65536), compression: Compression::Stored, data: vec![] };
    match write_archive(&vec![long], moment()) {
        Err(ArchiveError::Start(words)) => assert!(words.contains("too long")),
        _ => panic!("the entry should not start"),
    }
    let wide = ArchiveEntry { name: "é".repeat(32768), compression: Compression::Deflated, data: vec![1] };
    assert!(matches!(write_archive(&vec![wide], moment()), Err(ArchiveError::Start(_))));
    let chapters = vec![chapter("One", vec![image(&"i".repeat(70000))])];
    let images = vec![ImageLookup { name: "i".repeat(70000), data: Some(vec![1]) }];
    assert!(matches!(
        build_epub("T", "A", "u", "m", &chapters, &images, moment()),
        Err(ArchiveError::Start(_))
    ));
}

#[test]
fn empty_archive_is_written() {
    match write_archive(&vec![], moment()) {
        Ok(bytes) => assert!(read_back(bytes).is_empty()),
        Err(_) => panic!("the archive was not written"),
    }
}

#[test]
fn export_names_the_file_by_title_and_day() {
    let chapters = vec![chapter("One", vec![paragraph("text")])];
    let file = match export_epub("My Book", "Me", &chapters, &vec![]) {
        Ok(file) => file,
        Err(_) => panic!("the package was not written"),
    };
    assert!(file.file_name.starts_with("My_Book_"));
    assert!(file.file_name.ends_with(".epub"));
    assert_eq!(file.file_name, format!("My_Book_{}.epub", today()));
    let times = read_times(file.bytes.clone());
    assert!(times.iter().all(|t| *t == times[0]));
    assert!(times[0].0 >= 2024);
    let files = read_back(file.bytes);
    assert_eq!(files[0].0, "mimetype");
    assert_eq!(files.last().unwrap().0, "OEBPS/content.opf");
    let opf = String::from_utf8(files.last().unwrap().2.clone()).unwrap();
    assert!(opf.contains("<dc:creator>Me</dc:creator>"));
    assert!(opf.contains("urn:uuid:"));
}
