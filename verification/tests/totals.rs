use wordcount::{aggregate, analyze_text, process_files, tokenize};
use wordcount::{FileInput, FileReport, GrandTotal, PatternResult, Source};

fn input(path: &str, content: &str) -> FileInput {
    FileInput { path: path.to_string(), source: Source::Bytes(content.as_bytes().to_vec()) }
}

fn reports(texts: &[&str]) -> Vec<FileReport> {
    texts.iter().map(|text| analyze_text("file.txt", text)).collect()
}

#[test]
fn grand_totals_of_files_without_common_words() {
    let files = vec![input("a.txt", "hello world"), input("b.txt", "rust language")];
    let batch = process_files(&files).unwrap();
    let mut grand = GrandTotal::new();
    let pattern = aggregate(&batch.reports, &mut grand).unwrap();
    assert_eq!(grand.total_words(), 4);
    assert_eq!(grand.unique_words(), 4);
    assert_eq!(grand.files_processed(), 2);
    assert_eq!(pattern.total_words(), 4);
    assert_eq!(pattern.unique_words(), 4);
}

#[test]
fn grand_totals_of_files_with_a_common_word() {
    let files = vec![input("a.txt", "hello world"), input("b.txt", "hello rust")];
    let batch = process_files(&files).unwrap();
    let mut grand = GrandTotal::new();
    aggregate(&batch.reports, &mut grand).unwrap();
    assert_eq!(grand.total_words(), 4);
    assert_eq!(grand.unique_words(), 3);
}

#[test]
fn totals_start_at_zero() {
    let grand = GrandTotal::new();
    assert_eq!(grand.files_processed(), 0);
    assert_eq!(grand.total_words(), 0);
    assert_eq!(grand.unique_words(), 0);
    let pattern = PatternResult::new();
    assert_eq!(pattern.total_words(), 0);
    assert_eq!(pattern.unique_words(), 0);
}

#[test]
fn grand_totals_span_patterns() {
    let mut grand = GrandTotal::new();
    let first = aggregate(&reports(&["one two", "two three"]), &mut grand).unwrap();
    assert_eq!(first.total_words(), 4);
    assert_eq!(first.unique_words(), 3);
    let second = aggregate(&reports(&["three four four"]), &mut grand).unwrap();
    assert_eq!(second.total_words(), 3);
    assert_eq!(second.unique_words(), 2);
    assert_eq!(grand.files_processed(), 3);
    assert_eq!(grand.total_words(), 7);
    assert_eq!(grand.unique_words(), 4);
}

#[test]
fn pattern_without_files_adds_nothing() {
    let mut grand = GrandTotal::new();
    let pattern = aggregate(&Vec::new(), &mut grand).unwrap();
    assert_eq!(pattern.total_words(), 0);
    assert_eq!(grand.files_processed(), 0);
}

#[test]
fn order_of_files_makes_no_difference() {
    let texts = ["a b c", "c d", "A e e"];
    let mut forward = GrandTotal::new();
    aggregate(&reports(&texts), &mut forward).unwrap();
    let mut backward = GrandTotal::new();
    aggregate(&reports(&[texts[2], texts[1], texts[0]]), &mut backward).unwrap();
    assert_eq!(forward.total_words(), backward.total_words());
    assert_eq!(forward.unique_words(), backward.unique_words());
    assert_eq!(forward.total_words(), 8);
    assert_eq!(forward.unique_words(), 5);
}

#[test]
fn same_file_twice_adds_words_and_no_different_word() {
    let mut grand = GrandTotal::new();
    aggregate(&reports(&["x y", "x y"]), &mut grand).unwrap();
    assert_eq!(grand.total_words(), 4);
    assert_eq!(grand.unique_words(), 2);
}

#[test]
fn files_are_folded_in_one_by_one() {
    let mut pattern = PatternResult::new();
    let mut grand = GrandTotal::new();
    for text in ["to be", "or not to be"] {
        let words = tokenize(text);
        pattern.add_file(&words);
        grand.add_file(&words);
        assert!(pattern.unique_words() <= pattern.total_words());
        assert!(grand.unique_words() <= grand.total_words());
    }
    assert_eq!(pattern.total_words(), 6);
    assert_eq!(pattern.unique_words(), 4);
    assert_eq!(grand.files_processed(), 2);
}

#[test]
fn ratio_needs_a_word() {
    let mut grand = GrandTotal::new();
    assert_eq!(grand.unique_ratio_terms(), None);
    aggregate(&reports(&["", "123"]), &mut grand).unwrap();
    assert_eq!(grand.files_processed(), 2);
    assert_eq!(grand.unique_ratio_terms(), None);
    aggregate(&reports(&["a b a c"]), &mut grand).unwrap();
    assert_eq!(grand.unique_ratio_terms(), Some((3, 4)));
}

#[test]
fn ratio_of_three_different_words_in_four() {
    let mut grand = GrandTotal::new();
    aggregate(&reports(&["a b a c"]), &mut grand).unwrap();
    let (unique, total) = grand.unique_ratio_terms().unwrap();
    let ratio = unique as f64 / total as f64 * 100.0;
    assert_eq!(format!("{:.1}", ratio), "75.0");
}
