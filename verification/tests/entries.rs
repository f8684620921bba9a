use ooxml_inspect::is_textual_entry;
use ooxml_inspect::ArchiveEntry;

#[test]
fn xml_rels_and_txt_are_textual() {
    assert!(is_textual_entry("word/document.xml"));
    assert!(is_textual_entry("_rels/.rels"));
    assert!(is_textual_entry("notes.txt"));
}

#[test]
fn case_of_the_extension_does_not_matter() {
    assert!(is_textual_entry("DOCUMENT.XML"));
    assert!(is_textual_entry("a.ReLs"));
    assert!(is_textual_entry("b.Txt"));
}

#[test]
fn other_extensions_are_not_textual() {
    assert!(!is_textual_entry("image.png"));
    assert!(!is_textual_entry("a.xm"));
    assert!(!is_textual_entry("a.xmll"));
    assert!(!is_textual_entry("a.rel"));
    assert!(!is_textual_entry("a.text"));
    assert!(!is_textual_entry("a.xml.zip"));
}

#[test]
fn a_name_without_a_dot_is_not_textual() {
    assert!(!is_textual_entry(""));
    assert!(!is_textual_entry("xml"));
    assert!(!is_textual_entry("rels"));
    assert!(!is_textual_entry("dir/txt"));
}

#[test]
fn only_the_part_after_the_last_dot_counts() {
    assert!(is_textual_entry("archive.tar.xml"));
    assert!(is_textual_entry(".xml"));
    assert!(is_textual_entry("a..txt"));
    assert!(!is_textual_entry("a.xml."));
    assert!(!is_textual_entry("a.b/xml"));
}

#[test]
fn letters_outside_ascii_are_not_folded() {
    // U+212A, the Kelvin sign, lower-cases to `k` only under Unicode rules.
    assert!(!is_textual_entry("a.t\u{212a}t"));
    assert!(is_textual_entry("\u{e9}t\u{e9}.txt"));
    assert!(!is_textual_entry("a.tx\u{1e97}"));
}

#[test]
fn directory_loses_one_trailing_separator() {
    let entry = ArchiveEntry::directory("word/");
    assert_eq!(entry.path, "word");
    assert!(entry.is_dir);
    assert_eq!(entry.size, 0);
    assert_eq!(entry.content, None);
}

#[test]
fn directory_keeps_the_inner_separators() {
    assert_eq!(ArchiveEntry::directory("a//").path, "a/");
    assert_eq!(ArchiveEntry::directory("a/b/").path, "a/b");
    assert_eq!(ArchiveEntry::directory("/").path, "");
}

#[test]
fn directory_without_trailing_separator_keeps_its_name() {
    assert_eq!(ArchiveEntry::directory("plain").path, "plain");
    assert_eq!(ArchiveEntry::directory("back\\").path, "back\\");
    assert_eq!(ArchiveEntry::directory("").path, "");
}

#[test]
fn directory_with_a_textual_name_has_no_content() {
    let entry = ArchiveEntry::directory("folder.xml/");
    assert_eq!(entry.path, "folder.xml");
    assert_eq!(entry.content, None);
}

#[test]
fn textual_file_has_its_payload_as_content() {
    let entry = ArchiveEntry::file("a.xml".to_string(), b"<a/>");
    assert_eq!(
        entry,
        ArchiveEntry {
            path: "a.xml".to_string(),
            is_dir: false,
            size: 4,
            content: Some("<a/>".to_string()),
        }
    );
}

#[test]
fn other_file_has_no_content() {
    let entry = ArchiveEntry::file("image.png".to_string(), &[0, 159, 146, 150]);
    assert_eq!(
        entry,
        ArchiveEntry {
            path: "image.png".to_string(),
            is_dir: false,
            size: 4,
            content: None,
        }
    );
}

#[test]
fn file_keeps_a_trailing_separator_in_its_path() {
    let entry = ArchiveEntry::file("odd.txt/x".to_string(), b"");
    assert_eq!(entry.path, "odd.txt/x");
    assert_eq!(entry.content, None);
}

#[test]
fn empty_textual_file_has_empty_content() {
    let entry = ArchiveEntry::file("empty.txt".to_string(), b"");
    assert_eq!(entry.size, 0);
    assert_eq!(entry.content.as_deref(), Some(""));
}

#[test]
fn invalid_sequences_become_replacement_characters() {
    let entry = ArchiveEntry::file("a.txt".to_string(), &[b'a', 0xc3, b'b', 0xe2, 0x82]);
    assert_eq!(entry.content.as_deref(), Some("a\u{fffd}b\u{fffd}"));
    assert_eq!(entry.size, 5);
}

#[test]
fn size_counts_bytes_not_characters() {
    let entry = ArchiveEntry::file("a.txt".to_string(), "h\u{e9}llo".as_bytes());
    assert_eq!(entry.content.as_deref(), Some("h\u{e9}llo"));
    assert_eq!(entry.size, 6);
}
