use wordcount::{count_words_in_file, process_files, resolve};
use wordcount::{Entry, ExtractionError, FileInput, Source, WordCount};

/// What a text file holds whose one line is `content`.
fn text_file(content: &str) -> Source {
    Source::Bytes(format!("{}\n", content).into_bytes())
}

/// The files of a directory kept in memory: path and content.
fn directory(dir: &str, files: &[(&str, &str)]) -> Vec<(String, String)> {
    files
        .iter()
        .map(|(name, content)| (format!("{}/{}", dir, name), content.to_string()))
        .collect()
}

/// What `pattern` matches among `listing`, read and ready to be processed.
fn matched(pattern: &str, listing: &[(String, String)]) -> Vec<FileInput> {
    let compiled = glob::Pattern::new(pattern).unwrap();
    let entries: Vec<Entry> = listing
        .iter()
        .filter(|(path, _)| compiled.matches(path))
        .map(|(path, _)| Entry { path: path.clone(), is_file: true })
        .collect();
    let mut inputs = Vec::new();
    for path in resolve(&entries) {
        let content = &listing.iter().find(|(p, _)| *p == path).unwrap().1;
        inputs.push(FileInput { path, source: text_file(content) });
    }
    inputs
}

fn counted(path: &str, content: &str) -> WordCount {
    count_words_in_file(path, &text_file(content)).unwrap()
}

#[test]
fn test_empty_file() {
    let result = counted("empty.txt", "");
    assert_eq!(result.unique_words, 0);
    assert_eq!(result.total_words, 0);
}

#[test]
fn test_single_word() {
    let result = counted("single.txt", "hello");
    assert_eq!(result.unique_words, 1);
    assert_eq!(result.total_words, 1);
}

#[test]
fn test_repeated_words() {
    let result = counted("repeated.txt", "hello hello HELLO");
    assert_eq!(result.unique_words, 1);
    assert_eq!(result.total_words, 3);
}

#[test]
fn test_multiple_words() {
    let result = counted("multiple.txt", "The quick brown fox jumps");
    assert_eq!(result.unique_words, 5);
    assert_eq!(result.total_words, 5);
}

#[test]
fn test_punctuation() {
    let result = counted("punct.txt", "hello, world! How are you?");
    assert_eq!(result.unique_words, 5);
    assert_eq!(result.total_words, 5);
}

#[test]
fn test_glob_pattern() {
    let dir = "/tmp/words";
    let listing = directory(dir, &[("test1.txt", "hello world"), ("test2.txt", "hello rust")]);

    let pattern = format!("{}/*.txt", dir);
    let results = process_files(&matched(&pattern, &listing)).unwrap().reports;

    assert_eq!(results.len(), 2);
    // Both files contain 2 words each.
    assert!(results.iter().all(|r| r.record.unique_words == 2));
}

#[test]
fn test_nonexistent_pattern() {
    let listing = directory("/tmp/words", &[("test1.txt", "hello world")]);
    let result = process_files(&matched("nonexistent*.txt", &listing));
    assert!(result.is_err());
}

#[test]
fn test_aggregation_totals() {
    let dir = "/tmp/words";
    // file1.txt: "hello world" (2 words)
    // file2.txt: "rust language" (2 words)
    let listing = directory(dir, &[("file1.txt", "hello world"), ("file2.txt", "rust language")]);

    let pattern = format!("{}/*.txt", dir);
    let results = process_files(&matched(&pattern, &listing)).unwrap().reports;

    // Expected total words: 2 + 2 = 4
    let expected_total_words = 4;
    let actual_total_words: usize = results.iter().map(|r| r.record.total_words).sum();
    assert_eq!(
        actual_total_words, expected_total_words,
        "Aggregated total words should equal the sum of words in each file"
    );
}

#[test]
fn count_keeps_the_path() {
    let result = counted("notes/today.txt", "one two");
    assert_eq!(result.file_path, "notes/today.txt");
}

#[test]
fn digits_separate_words() {
    let result = counted("model.txt", "word2vec");
    assert_eq!(result.total_words, 2);
    assert_eq!(result.unique_words, 2);
}

#[test]
fn unique_never_exceeds_total() {
    for content in ["", "a", "a a", "a b a", "To be, or not to be", "x1y2x3"] {
        let result = counted("any.txt", content);
        assert!(result.unique_words <= result.total_words);
    }
}

#[test]
fn unique_equals_total_when_no_word_repeats() {
    let distinct = counted("a.txt", "alpha beta gamma");
    assert_eq!(distinct.unique_words, distinct.total_words);
    let repeated = counted("b.txt", "alpha beta Alpha");
    assert_eq!(repeated.total_words, 3);
    assert_eq!(repeated.unique_words, 2);
}

#[test]
fn count_fails_on_text_that_is_not_utf8() {
    let result = count_words_in_file("broken.txt", &Source::Bytes(vec![b'a', 0xff, b'b']));
    assert_eq!(result.unwrap_err(), ExtractionError::InvalidText);
}

#[test]
fn count_fails_on_unreadable_file() {
    let result = count_words_in_file("gone.txt", &Source::Unreadable);
    assert_eq!(result.unwrap_err(), ExtractionError::Unreadable);
}

#[test]
fn count_takes_pdf_text_as_it_is() {
    let source = Source::PdfText("Portable Document Format document".to_string());
    let result = count_words_in_file("paper.pdf", &source).unwrap();
    assert_eq!(result.total_words, 4);
    assert_eq!(result.unique_words, 3);
}
