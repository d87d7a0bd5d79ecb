use wordcount::{accepts, file_name, process_files, resolve};
use wordcount::{Entry, ExtractionError, FileInput, Source};

fn entry(path: &str, is_file: bool) -> Entry {
    Entry { path: path.to_string(), is_file }
}

fn input(path: &str, content: &[u8]) -> FileInput {
    FileInput { path: path.to_string(), source: Source::Bytes(content.to_vec()) }
}

#[test]
fn file_name_is_the_last_component() {
    assert_eq!(file_name("docs/notes/today.txt"), "today.txt");
    assert_eq!(file_name("today.txt"), "today.txt");
    assert_eq!(file_name("/abs.txt"), "abs.txt");
    assert_eq!(file_name("dir/"), "");
    assert_eq!(file_name(""), "");
}

#[test]
fn only_regular_files_are_accepted() {
    assert!(accepts("docs/a.txt", true));
    assert!(!accepts("docs/a.txt", false));
    assert!(!accepts("docs", false));
}

#[test]
fn lock_files_are_left_out() {
    assert!(!accepts("docs/~$report.docx", true));
    assert!(!accepts("~$report.docx", true));
    assert!(accepts("docs/report~$.docx", true));
    assert!(accepts("~$dir/report.docx", true));
    assert!(accepts("docs/~report.docx", true));
    assert!(accepts("docs/$~report.docx", true));
    assert!(accepts("docs/~", true));
    assert!(!accepts("docs/~$", true));
}

#[test]
fn resolve_keeps_candidates_in_order() {
    let entries = vec![
        entry("d/b.txt", true),
        entry("d/sub", false),
        entry("d/~$b.docx", true),
        entry("d/a.txt", true),
        entry("d/c.pdf", true),
    ];
    assert_eq!(resolve(&entries), vec!["d/b.txt", "d/a.txt", "d/c.pdf"]);
}

#[test]
fn resolve_lists_each_path_once() {
    let entries = vec![
        entry("a.txt", true),
        entry("b.txt", true),
        entry("a.txt", true),
        entry("a.txt", false),
        entry("b.txt", true),
    ];
    assert_eq!(resolve(&entries), vec!["a.txt", "b.txt"]);
}

#[test]
fn resolve_of_nothing() {
    assert!(resolve(&Vec::new()).is_empty());
    assert!(resolve(&vec![entry("dir", false)]).is_empty());
}

#[test]
fn no_file_is_no_match() {
    let result = process_files(&Vec::new());
    let error = result.unwrap_err();
    assert!(error.failures.is_empty());
    assert_eq!(error.message(), "No files found matching the pattern");
}

#[test]
fn only_malformed_files_are_no_match() {
    let files = vec![input("a.docx", b"not an archive"), input("b.txt", &[0xff])];
    let error = process_files(&files).unwrap_err();
    assert_eq!(error.failures.len(), 2);
    assert_eq!(error.failures[0].path, "a.docx");
    assert_eq!(error.failures[0].error, ExtractionError::InvalidArchive);
    assert_eq!(error.failures[1].path, "b.txt");
    assert_eq!(error.failures[1].error, ExtractionError::InvalidText);
}

#[test]
fn malformed_file_is_left_out_and_reported() {
    let files = vec![
        input("good.txt", b"hello world"),
        FileInput { path: "bad.pdf".to_string(), source: Source::Unreadable },
    ];
    let batch = process_files(&files).unwrap();
    assert_eq!(batch.reports.len(), 1);
    assert_eq!(batch.reports[0].record.file_path, "good.txt");
    assert_eq!(batch.reports[0].record.total_words, 2);
    assert_eq!(batch.failures.len(), 1);
    assert_eq!(batch.failures[0].path, "bad.pdf");
    assert_eq!(batch.failures[0].error, ExtractionError::Unreadable);
}

#[test]
fn reports_and_failures_keep_the_order_of_the_files() {
    let files = vec![
        input("1.txt", b"one"),
        input("2.docx", b"zip?"),
        input("3.txt", b"three three"),
        input("4.txt", &[0x80]),
        input("5.txt", b""),
    ];
    let batch = process_files(&files).unwrap();
    let reported: Vec<&str> = batch.reports.iter().map(|r| r.record.file_path.as_str()).collect();
    assert_eq!(reported, vec!["1.txt", "3.txt", "5.txt"]);
    let failed: Vec<&str> = batch.failures.iter().map(|f| f.path.as_str()).collect();
    assert_eq!(failed, vec!["2.docx", "4.txt"]);
    assert_eq!(batch.reports.len() + batch.failures.len(), files.len());
    assert_eq!(batch.reports[1].words, vec!["three", "three"]);
    assert_eq!(batch.reports[2].record.total_words, 0);
}

#[test]
fn a_file_without_words_still_counts_as_a_match() {
    let batch = process_files(&vec![input("empty.txt", b"")]).unwrap();
    assert_eq!(batch.reports.len(), 1);
    assert_eq!(batch.reports[0].record.total_words, 0);
}
