use vstd::prelude::*;
use vstd::utf8::{valid_utf8, decode_utf8, encode_utf8_decode_utf8};
use vstd::string::StringSliceAdditionalSpecFns;
use vstd::string::StringExecFns;
use std::io::Cursor;
use std::io::Read;
use std::str::Utf8Error;
use regex::Regex;
use zip::ZipArchive;
use zip::result::ZipError;
use crate::paths::{has_extension, ends_with_extension};

verus! {

/// Why the text of a file could not be recovered.
#[derive(Clone, Copy, Debug, PartialEq, Eq, Structural)]
pub enum ExtractionError {
    /// The file could not be read, or it is a PDF from which no text could be
    /// recovered.
    Unreadable,
    /// The bytes of a DOCX file are not a ZIP archive.
    InvalidArchive,
    /// The archive of a DOCX file holds no document entry.
    MissingDocument,
    /// The document entry of a DOCX file could not be unpacked.
    DamagedDocument,
    /// The content is not valid UTF-8.
    InvalidText,
    /// The pattern for markup tags was not accepted.
    TagPattern,
    /// The content handed over is not of the form that the file's extension
    /// calls for: a PDF needs the text that a PDF reader recovered, every other
    /// file its bytes.
    WrongContent,
}

/// What is said of `error` to those who run the program.
pub open spec fn message_of(error: ExtractionError) -> Seq<char> {
    match error {
        ExtractionError::Unreadable => "the file could not be read"@,
        ExtractionError::InvalidArchive => "the file is not a ZIP archive"@,
        ExtractionError::MissingDocument => "the archive holds no word/document.xml"@,
        ExtractionError::DamagedDocument => "word/document.xml could not be unpacked"@,
        ExtractionError::InvalidText => "the content is not valid UTF-8"@,
        ExtractionError::TagPattern => "the pattern for markup tags was not accepted"@,
        ExtractionError::WrongContent => "the content does not fit the file's extension"@,
    }
}

impl ExtractionError {
    /// What is said of this error to those who run the program.
    pub fn message(&self) -> (text: &'static str)
        ensures
            text@ == message_of(*self),
    {
        match self {
            ExtractionError::Unreadable => "the file could not be read",
            ExtractionError::InvalidArchive => "the file is not a ZIP archive",
            ExtractionError::MissingDocument => "the archive holds no word/document.xml",
            ExtractionError::DamagedDocument => "word/document.xml could not be unpacked",
            ExtractionError::InvalidText => "the content is not valid UTF-8",
            ExtractionError::TagPattern => "the pattern for markup tags was not accepted",
            ExtractionError::WrongContent => "the content does not fit the file's extension",
        }
    }
}

/// The format of a file, which its extension decides.
#[derive(Clone, Copy, Debug, PartialEq, Eq, Structural)]
pub enum FileKind {
    /// The extension is `pdf`.
    Pdf,
    /// The extension is `docx`.
    Docx,
    /// Any other extension, or none.
    PlainText,
}

/// What was read from a file.
#[derive(Debug)]
pub enum Source {
    /// The bytes of the file.
    Bytes(Vec<u8>),
    /// The text that a PDF reader recovered from the file.
    PdfText(String),
    /// The file could not be read, or no text could be recovered from its PDF.
    Unreadable,
}

/// Why an entry could not be read from a ZIP archive.
#[derive(Clone, Copy, Debug, PartialEq, Eq, Structural)]
pub enum EntryError {
    /// The bytes are not an archive that can be opened.
    NotAnArchive,
    /// The archive has no entry of the name asked for.
    NotFound,
    /// The entry is there and its content could not be read.
    Unreadable,
}

/// `std::str::Utf8Error`, the error of `std::str::from_utf8`. Nothing is read
/// from it.
#[verifier::external_type_specification]
#[verifier::external_body]
pub struct ExUtf8Error(Utf8Error);

/// `regex::Error`, the error of `regex::Regex::new`. Nothing is read from it.
#[verifier::external_type_specification]
#[verifier::external_body]
pub struct ExRegexError(regex::Error);

/// What reading the entry `name` from the ZIP archive `archive` gives: its
/// unpacked bytes, or the step that failed. It stands for what the `zip` crate
/// computes from these bytes.
pub uninterp spec fn archive_entry(archive: Seq<u8>, name: Seq<char>) -> Result<
    Seq<u8>,
    EntryError,
>;

/// What replacing every match of the regular expression `pattern` in `text` by
/// `replacement` gives, or `None` where `pattern` is no regular expression that
/// the `regex` crate compiles.
pub uninterp spec fn replaced(pattern: Seq<char>, text: Seq<char>, replacement: Seq<char>) -> Option<
    Seq<char>,
>;

/// An outcome of reading an archive entry with the data taken by its bytes.
pub open spec fn entry_view(r: Result<Vec<u8>, EntryError>) -> Result<Seq<u8>, EntryError> {
    match r {
        Ok(data) => Ok(data@),
        Err(e) => Err(e),
    }
}

/// Calls `std::str::from_utf8`: the bytes as a string slice where they are valid
/// UTF-8, an error where they are not.
#[verifier::external_body]
fn str_from_utf8(bytes: &[u8]) -> (r: Result<&str, Utf8Error>)
    ensures
        r is Ok <==> valid_utf8(bytes@),
        r matches Ok(s) ==> s.spec_bytes() == bytes@,
{
    std::str::from_utf8(bytes)
}

/// Opens `archive` with `zip::ZipArchive::new`, looks `name` up with
/// `ZipArchive::by_name` and reads the entry to its end. The contract names the
/// outcome: the entry's bytes, or which of the three steps failed. `by_name`
/// reports a name that the archive does not list as `ZipError::FileNotFound`.
#[verifier::external_body]
fn read_archive_entry(archive: &[u8], name: &str) -> (r: Result<Vec<u8>, EntryError>)
    ensures
        entry_view(r) == archive_entry(archive@, name@),
{
    let mut zip = match ZipArchive::new(Cursor::new(archive)) {
        Ok(zip) => zip,
        Err(_) => return Err(EntryError::NotAnArchive),
    };
    let mut entry = match zip.by_name(name) {
        Ok(entry) => entry,
        Err(ZipError::FileNotFound) => return Err(EntryError::NotFound),
        Err(_) => return Err(EntryError::Unreadable),
    };
    let mut data = Vec::new();
    match entry.read_to_end(&mut data) {
        Ok(_) => Ok(data),
        Err(_) => Err(EntryError::Unreadable),
    }
}

/// Compiles `pattern` with `regex::Regex::new` and replaces every match in
/// `text` with `Regex::replace_all`. The contract names the outcome; an error
/// comes back exactly where the pattern does not compile.
#[verifier::external_body]
fn replace_all(pattern: &str, text: &str, replacement: &str) -> (r: Result<String, regex::Error>)
    ensures
        r matches Ok(s) ==> replaced(pattern@, text@, replacement@) == Some(s@),
        r is Err ==> replaced(pattern@, text@, replacement@) is None,
{
    match Regex::new(pattern) {
        Ok(re) => Ok(re.replace_all(text, replacement).into_owned()),
        Err(e) => Err(e),
    }
}

/// An outcome of extraction with the text taken by its characters.
pub open spec fn text_view(r: Result<String, ExtractionError>) -> Result<
    Seq<char>,
    ExtractionError,
> {
    match r {
        Ok(text) => Ok(text@),
        Err(e) => Err(e),
    }
}

/// The text that `bytes` hold as UTF-8.
pub open spec fn plain_text(bytes: Seq<u8>) -> Result<Seq<char>, ExtractionError> {
    if valid_utf8(bytes) {
        Ok(decode_utf8(bytes))
    } else {
        Err(ExtractionError::InvalidText)
    }
}

/// Reads `bytes` as UTF-8 text.
pub fn extract_plain_text(bytes: &[u8]) -> (r: Result<String, ExtractionError>)
    ensures
        text_view(r) == plain_text(bytes@),
{
    match str_from_utf8(bytes) {
        Ok(text) => {
            proof {
                encode_utf8_decode_utf8(text@);
            }
            Ok(String::from_str(text))
        },
        Err(_) => Err(ExtractionError::InvalidText),
    }
}

/// The name of the archive entry that holds the body of a DOCX document.
pub open spec fn document_entry() -> Seq<char> {
    "word/document.xml"@
}

/// The regular expression for a markup tag: `<`, one or more characters other
/// than `>`, and `>`.
pub open spec fn tag_pattern() -> Seq<char> {
    "<[^>]+>"@
}

/// The text of `xml` with every markup tag replaced by one space.
pub open spec fn without_tags(xml: Seq<char>) -> Result<Seq<char>, ExtractionError> {
    match replaced(tag_pattern(), xml, " "@) {
        Some(text) => Ok(text),
        None => Err(ExtractionError::TagPattern),
    }
}

/// Replaces every markup tag in `xml` by one space.
pub fn strip_tags(xml: &str) -> (r: Result<String, ExtractionError>)
    ensures
        text_view(r) == without_tags(xml@),
{
    match replace_all("<[^>]+>", xml, " ") {
        Ok(text) => Ok(text),
        Err(_) => Err(ExtractionError::TagPattern),
    }
}

/// The text of the DOCX file whose bytes are `archive`: its document entry,
/// read as UTF-8, with every markup tag replaced by one space.
pub open spec fn docx_text(archive: Seq<u8>) -> Result<Seq<char>, ExtractionError> {
    match archive_entry(archive, document_entry()) {
        Err(EntryError::NotAnArchive) => Err(ExtractionError::InvalidArchive),
        Err(EntryError::NotFound) => Err(ExtractionError::MissingDocument),
        Err(EntryError::Unreadable) => Err(ExtractionError::DamagedDocument),
        Ok(xml) => match plain_text(xml) {
            Ok(text) => without_tags(text),
            Err(e) => Err(e),
        },
    }
}

/// Recovers the text of a DOCX file from its bytes.
pub fn extract_docx_text(archive: &[u8]) -> (r: Result<String, ExtractionError>)
    ensures
        text_view(r) == docx_text(archive@),
{
    match read_archive_entry(archive, "word/document.xml") {
        Err(EntryError::NotAnArchive) => Err(ExtractionError::InvalidArchive),
        Err(EntryError::NotFound) => Err(ExtractionError::MissingDocument),
        Err(EntryError::Unreadable) => Err(ExtractionError::DamagedDocument),
        Ok(xml) => match extract_plain_text(xml.as_slice()) {
            Ok(text) => strip_tags(text.as_str()),
            Err(e) => Err(e),
        },
    }
}

/// The format that the extension of `path` stands for. The extension is
/// compared as it is written: `PDF` is not `pdf`.
pub open spec fn kind_of(path: Seq<char>) -> FileKind {
    if has_extension(path, "pdf"@) {
        FileKind::Pdf
    } else if has_extension(path, "docx"@) {
        FileKind::Docx
    } else {
        FileKind::PlainText
    }
}

/// The format of the file at `path`, by its extension.
pub fn file_kind(path: &str) -> (kind: FileKind)
    ensures
        kind == kind_of(path@),
{
    if ends_with_extension(path, "pdf") {
        FileKind::Pdf
    } else if ends_with_extension(path, "docx") {
        FileKind::Docx
    } else {
        FileKind::PlainText
    }
}

/// The text of the file at `path`, given what was read from it.
pub open spec fn file_text(path: Seq<char>, source: Source) -> Result<Seq<char>, ExtractionError> {
    match source {
        Source::Unreadable => Err(ExtractionError::Unreadable),
        Source::PdfText(text) => match kind_of(path) {
            FileKind::Pdf => Ok(text@),
            _ => Err(ExtractionError::WrongContent),
        },
        Source::Bytes(bytes) => match kind_of(path) {
            FileKind::Pdf => Err(ExtractionError::WrongContent),
            FileKind::Docx => docx_text(bytes@),
            FileKind::PlainText => plain_text(bytes@),
        },
    }
}

/// Recovers the text of the file at `file_path` from what was read from it: for
/// a PDF the text that the reader recovered, for a DOCX file the text of its
/// document entry, for any other file its bytes as UTF-8.
pub fn extract_file_content(file_path: &str, source: &Source) -> (r: Result<String, ExtractionError>)
    ensures
        text_view(r) == file_text(file_path@, *source),
{
    match source {
        Source::Unreadable => Err(ExtractionError::Unreadable),
        Source::PdfText(text) => match file_kind(file_path) {
            FileKind::Pdf => Ok(text.clone()),
            _ => Err(ExtractionError::WrongContent),
        },
        Source::Bytes(bytes) => match file_kind(file_path) {
            FileKind::Pdf => Err(ExtractionError::WrongContent),
            FileKind::Docx => extract_docx_text(bytes.as_slice()),
            FileKind::PlainText => extract_plain_text(bytes.as_slice()),
        },
    }
}

} // verus!
