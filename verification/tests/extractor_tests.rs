use git_analyse::extractor::{build_corpus, extract, file_extension, RawEntry};
use git_analyse::AnalyseError;
use std::io::Write;

fn make_zip(entries: &[(&str, &[u8])]) -> Vec<u8> {
    let mut writer = zip::write::ZipWriter::new(std::io::Cursor::new(Vec::new()));
    let options = zip::write::SimpleFileOptions::default();
    for (name, data) in entries {
        writer.start_file(*name, options).unwrap();
        writer.write_all(data).unwrap();
    }
    writer.finish().unwrap().into_inner()
}

#[test]
fn test_file_extension() {
    let file_name = "main.rs";
    let ext = file_extension(file_name);
    assert_eq!(ext, Some("rs"));
}

#[test]
fn file_extension_of_dotless_name_is_none() {
    assert_eq!(file_extension("Makefile"), None);
    assert_eq!(file_extension("archive.tar.gz"), Some("gz"));
    assert_eq!(file_extension("trailing."), Some(""));
}

#[test]
fn extraction_concatenates_recognized_entries_in_order() {
    let bytes = make_zip(&[
        ("a.rs", b"fn a() {}\n"),
        ("b.md", b"# notes\n"),
        ("c.rs", b"fn c() {}\n"),
    ]);
    let corpus = extract(bytes).unwrap();
    assert_eq!(corpus.text, "fn a() {}\n# notes\nfn c() {}\n");
    assert_eq!(corpus.file_types, vec!["rs".to_string(), "md".to_string()]);
}

#[test]
fn excluded_entries_still_join_the_inventory() {
    let nested = make_zip(&[("inner.rs", b"fn inner() {}\n")]);
    let bytes = make_zip(&[("main.rs", b"fn main() {}\n"), ("nested.zip", &nested)]);
    let corpus = extract(bytes).unwrap();
    assert_eq!(corpus.text, "fn main() {}\n");
    assert_eq!(corpus.file_types, vec!["rs".to_string(), "zip".to_string()]);
}

#[test]
fn dotless_entries_are_classified_but_not_read() {
    let bytes = make_zip(&[("LICENSE", b"\xff\xfe\x00binary"), ("lib.rs", b"ok")]);
    let corpus = extract(bytes).unwrap();
    assert_eq!(corpus.text, "ok");
    assert_eq!(
        corpus.file_types,
        vec!["no extension".to_string(), "rs".to_string()]
    );
}

#[test]
fn inventory_lists_each_extension_once() {
    let bytes = make_zip(&[
        ("a.rs", b"a"),
        ("b.rs", b"b"),
        ("c.toml", b"c = 1\n"),
        ("d.rs", b"d"),
    ]);
    let corpus = extract(bytes).unwrap();
    assert_eq!(
        corpus.file_types,
        vec!["rs".to_string(), "toml".to_string()]
    );
    assert_eq!(corpus.text, "abc = 1\nd");
}

#[test]
fn unreadable_recognized_entry_fails_extraction() {
    let bytes = make_zip(&[("good.rs", b"ok"), ("bad.rs", b"\xff\xfe\x00")]);
    match extract(bytes) {
        Err(AnalyseError::EntryReadFailed { name }) => assert_eq!(name, "bad.rs"),
        _ => panic!("expected EntryReadFailed"),
    }
}

#[test]
fn corpus_can_be_built_from_entries_directly() {
    let entries = vec![
        RawEntry {
            name: "a.rs".to_string(),
            text: Some("fn a() {}".to_string()),
        },
        RawEntry {
            name: "img.png".to_string(),
            text: None,
        },
    ];
    let corpus = build_corpus(&entries).unwrap();
    assert_eq!(corpus.text, "fn a() {}");
    assert_eq!(corpus.file_types, vec!["rs".to_string(), "png".to_string()]);
}

#[test]
fn build_corpus_reports_first_unreadable_included_entry() {
    let entries = vec![
        RawEntry {
            name: "ok.rs".to_string(),
            text: Some("x".to_string()),
        },
        RawEntry {
            name: "bad.rs".to_string(),
            text: None,
        },
    ];
    match build_corpus(&entries) {
        Err(AnalyseError::EntryReadFailed { name }) => assert_eq!(name, "bad.rs"),
        _ => panic!("expected EntryReadFailed"),
    }
}

#[test]
fn garbage_bytes_are_a_corrupt_archive() {
    assert!(matches!(
        extract(vec![0u8, 1, 2, 3, 4]),
        Err(AnalyseError::ArchiveCorrupt)
    ));
}

#[test]
fn empty_archive_yields_empty_corpus() {
    let bytes = make_zip(&[]);
    let corpus = extract(bytes).unwrap();
    assert_eq!(corpus.text, "");
    assert!(corpus.file_types.is_empty());
}
