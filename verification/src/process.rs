use vstd::prelude::*;
use crate::count::{FileReport, FileReportView, analyze_file, file_outcome};
use crate::extract::{ExtractionError, Source};

verus! {

/// A file to count: its path and what was read from it.
#[derive(Debug)]
pub struct FileInput {
    pub path: String,
    pub source: Source,
}

/// A file whose text could not be recovered, and why.
#[derive(Debug)]
pub struct Failure {
    pub path: String,
    pub error: ExtractionError,
}

/// A `Failure` with its path taken by its characters.
pub struct FailureView {
    pub path: Seq<char>,
    pub error: ExtractionError,
}

impl View for Failure {
    type V = FailureView;

    open spec fn view(&self) -> FailureView {
        FailureView { path: self.path@, error: self.error }
    }
}

/// What processing the files of one pattern gave: a report for each file that
/// was counted, and the files that were left out.
#[derive(Debug)]
pub struct Batch {
    pub reports: Vec<FileReport>,
    pub failures: Vec<Failure>,
}

/// No file of a pattern could be counted. The files that were tried and left
/// out come with it.
#[derive(Debug)]
pub struct NoMatchError {
    pub failures: Vec<Failure>,
}

impl NoMatchError {
    /// What is said of a pattern without a match to those who run the program.
    pub fn message(&self) -> (text: &'static str)
        ensures
            text@ == "No files found matching the pattern"@,
    {
        "No files found matching the pattern"
    }
}

/// The reports on those of `files` whose text can be recovered, in order.
pub open spec fn reports_of(files: Seq<FileInput>) -> Seq<FileReportView>
    decreases files.len(),
{
    if files.len() == 0 {
        Seq::empty()
    } else {
        let before = reports_of(files.drop_last());
        match file_outcome(files.last().path@, files.last().source) {
            Ok(report) => before.push(report),
            Err(_) => before,
        }
    }
}

/// Those of `files` whose text cannot be recovered, in order, each with the
/// reason.
pub open spec fn failures_of(files: Seq<FileInput>) -> Seq<FailureView>
    decreases files.len(),
{
    if files.len() == 0 {
        Seq::empty()
    } else {
        let before = failures_of(files.drop_last());
        match file_outcome(files.last().path@, files.last().source) {
            Ok(_) => before,
            Err(error) => before.push(FailureView { path: files.last().path@, error }),
        }
    }
}

/// The views of `reports`, in order.
pub open spec fn report_views(reports: Seq<FileReport>) -> Seq<FileReportView> {
    reports.map_values(|r: FileReport| r@)
}

/// The views of `failures`, in order.
pub open spec fn failure_views(failures: Seq<Failure>) -> Seq<FailureView> {
    failures.map_values(|f: Failure| f@)
}

/// Every file is either reported or left out.
pub proof fn lemma_every_file_accounted(files: Seq<FileInput>)
    ensures
        reports_of(files).len() + failures_of(files).len() == files.len(),
    decreases files.len(),
{
    if files.len() > 0 {
        lemma_every_file_accounted(files.drop_last());
    }
}

/// One file whose text can be recovered is enough for a report.
pub proof fn lemma_one_good_file_suffices(files: Seq<FileInput>, i: int)
    requires
        0 <= i < files.len(),
        file_outcome(files[i].path@, files[i].source) is Ok,
    ensures
        reports_of(files).len() > 0,
    decreases files.len(),
{
    if i < files.len() - 1 {
        lemma_one_good_file_suffices(files.drop_last(), i);
    }
}

/// Without files there is no report.
pub proof fn lemma_no_files_no_reports()
    ensures
        reports_of(Seq::<FileInput>::empty()).len() == 0,
        failures_of(Seq::<FileInput>::empty()).len() == 0,
{
}

/// Counts the words of each of `files`. A file whose text cannot be recovered
/// is left out and listed among the failures; the others are reported in the
/// order given. Where no file at all could be counted the pattern has no match.
pub fn process_files(files: &Vec<FileInput>) -> (r: Result<Batch, NoMatchError>)
    ensures
        r is Ok <==> reports_of(files@).len() > 0,
        r matches Ok(batch) ==> {
            &&& report_views(batch.reports@) == reports_of(files@)
            &&& failure_views(batch.failures@) == failures_of(files@)
        },
        r matches Err(none) ==> failure_views(none.failures@) == failures_of(files@),
{
    let mut reports: Vec<FileReport> = Vec::new();
    let mut failures: Vec<Failure> = Vec::new();
    let mut i: usize = 0;
    assert(files@.take(0) =~= Seq::<FileInput>::empty());
    assert(report_views(reports@) =~= Seq::<FileReportView>::empty());
    assert(failure_views(failures@) =~= Seq::<FailureView>::empty());
    while i < files.len()
        invariant
            i <= files.len(),
            report_views(reports@) == reports_of(files@.take(i as int)),
            failure_views(failures@) == failures_of(files@.take(i as int)),
        decreases files.len() - i,
    {
        let file = &files[i];
        proof {
            assert(files@.take(i as int + 1).drop_last() =~= files@.take(i as int));
            assert(files@.take(i as int + 1).last() == files@[i as int]);
        }
        match analyze_file(file.path.as_str(), &file.source) {
            Ok(report) => {
                proof {
                    assert(report_views(reports@.push(report)) =~= report_views(reports@).push(
                        report@,
                    ));
                }
                reports.push(report);
            },
            Err(error) => {
                let failure = Failure { path: file.path.clone(), error };
                proof {
                    assert(failure_views(failures@.push(failure)) =~= failure_views(
                        failures@,
                    ).push(failure@));
                }
                failures.push(failure);
            },
        }
        i += 1;
    }
    assert(files@.take(files.len() as int) =~= files@);
    if reports.len() == 0 {
        Err(NoMatchError { failures })
    } else {
        Ok(Batch { reports, failures })
    }
}

} // verus!
