//! Word statistics for text, PDF and DOCX files: recovering the text of a file
//! from what was read from it, splitting it into words, counting the words and
//! the different words, and adding the counts up over patterns and runs.

pub mod aggregate;
pub mod chars;
pub mod count;
pub mod extract;
pub mod format;
pub mod paths;
pub mod process;
pub mod resolve;
pub mod tokens;
pub mod wordset;

pub use aggregate::{aggregate, GrandTotal, PatternResult};
pub use count::{analyze_file, analyze_text, count_words_in_file, FileReport, WordCount};
pub use extract::{
    extract_docx_text, extract_file_content, extract_plain_text, file_kind, strip_tags,
    ExtractionError, FileKind, Source,
};
pub use format::{format_filename, format_number};
pub use paths::file_name;
pub use process::{process_files, Batch, Failure, FileInput, NoMatchError};
pub use resolve::{accepts, resolve, Entry};
pub use tokens::tokenize;
pub use wordset::{count_unique, WordSet};
