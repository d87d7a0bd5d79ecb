use vstd::prelude::*;
use vstd::string::StringExecFns;
use crate::extract::{ExtractionError, Source, file_text, extract_file_content};
use crate::chars::views;
use crate::tokens::{words_of, tokenize};
use crate::wordset::count_unique;

verus! {

/// The word statistics of one file.
#[derive(Debug)]
pub struct WordCount {
    pub file_path: String,
    pub unique_words: usize,
    pub total_words: usize,
}

/// A `WordCount` with its path taken by its characters.
pub struct WordCountView {
    pub file_path: Seq<char>,
    pub unique_words: nat,
    pub total_words: nat,
}

impl View for WordCount {
    type V = WordCountView;

    open spec fn view(&self) -> WordCountView {
        WordCountView {
            file_path: self.file_path@,
            unique_words: self.unique_words as nat,
            total_words: self.total_words as nat,
        }
    }
}

/// The statistics of a file at `path` whose words are `words`: how many words
/// there are, and how many different ones.
pub open spec fn counted(path: Seq<char>, words: Seq<Seq<char>>) -> WordCountView {
    WordCountView {
        file_path: path,
        unique_words: words.to_set().len(),
        total_words: words.len(),
    }
}

/// A file's statistics together with its words, in lowercase and in the order
/// in which they occur.
#[derive(Debug)]
pub struct FileReport {
    pub record: WordCount,
    pub words: Vec<String>,
}

/// A `FileReport` with its strings taken by their characters.
pub struct FileReportView {
    pub record: WordCountView,
    pub words: Seq<Seq<char>>,
}

impl View for FileReport {
    type V = FileReportView;

    open spec fn view(&self) -> FileReportView {
        FileReportView { record: self.record@, words: views(self.words@) }
    }
}

/// The report on a file at `path` whose text is `text`.
pub open spec fn report_of(path: Seq<char>, text: Seq<char>) -> FileReportView {
    FileReportView { record: counted(path, words_of(text)), words: words_of(text) }
}

/// A file never has more different words than words, and has as many exactly
/// where none of its words occurs twice.
pub proof fn lemma_unique_at_most_total(path: Seq<char>, words: Seq<Seq<char>>)
    ensures
        counted(path, words).unique_words <= counted(path, words).total_words,
        counted(path, words).unique_words == counted(path, words).total_words
            <==> words.no_duplicates(),
{
    words.lemma_cardinality_of_set();
    if words.no_duplicates() {
        words.unique_seq_to_set();
    }
    if words.to_set().len() == words.len() {
        words.lemma_no_dup_set_cardinality();
    }
}

/// The statistics of `text`, recorded for the file at `file_path`, and its words.
pub fn analyze_text(file_path: &str, text: &str) -> (report: FileReport)
    ensures
        report@ == report_of(file_path@, text@),
        report.record.unique_words <= report.record.total_words,
        report.record.unique_words == report.record.total_words <==> words_of(
            text@,
        ).no_duplicates(),
{
    let words = tokenize(text);
    let unique = count_unique(&words);
    proof {
        lemma_unique_at_most_total(file_path@, words_of(text@));
    }
    FileReport {
        record: WordCount {
            file_path: String::from_str(file_path),
            unique_words: unique,
            total_words: words.len(),
        },
        words,
    }
}

/// The outcome for one file: its report, or why its text could not be recovered.
pub open spec fn file_outcome(path: Seq<char>, source: Source) -> Result<
    FileReportView,
    ExtractionError,
> {
    match file_text(path, source) {
        Ok(text) => Ok(report_of(path, text)),
        Err(e) => Err(e),
    }
}

/// An outcome with the report taken by its view.
pub open spec fn outcome_view(r: Result<FileReport, ExtractionError>) -> Result<
    FileReportView,
    ExtractionError,
> {
    match r {
        Ok(report) => Ok(report@),
        Err(e) => Err(e),
    }
}

/// Recovers the text of the file at `file_path` from what was read from it,
/// and reports its statistics and its words.
pub fn analyze_file(file_path: &str, source: &Source) -> (r: Result<FileReport, ExtractionError>)
    ensures
        outcome_view(r) == file_outcome(file_path@, *source),
        r matches Ok(report) ==> report.record.unique_words <= report.record.total_words,
{
    match extract_file_content(file_path, source) {
        Ok(text) => {
            proof {
                lemma_unique_at_most_total(file_path@, words_of(text@));
            }
            Ok(analyze_text(file_path, text.as_str()))
        },
        Err(e) => Err(e),
    }
}

/// Counts the words of the file at `file_path`, given what was read from it.
/// It fails exactly where the text of the file cannot be recovered, with the
/// reason.
pub fn count_words_in_file(file_path: &str, source: &Source) -> (r: Result<
    WordCount,
    ExtractionError,
>)
    ensures
        match file_text(file_path@, *source) {
            Ok(text) => {
                &&& r matches Ok(count)
                &&& count@ == counted(file_path@, words_of(text))
                &&& count.unique_words <= count.total_words
                &&& count.unique_words == count.total_words <==> words_of(text).no_duplicates()
            },
            Err(e) => r matches Err(reason) && reason == e,
        },
{
    proof {
        if let Ok(text) = file_text(file_path@, *source) {
            lemma_unique_at_most_total(file_path@, words_of(text));
        }
    }
    match analyze_file(file_path, source) {
        Ok(report) => Ok(report.record),
        Err(e) => Err(e),
    }
}

} // verus!
