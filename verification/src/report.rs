//! What became of the files of a batch.

use vstd::prelude::*;
use crate::error::{FileError, FileErrorModel};

verus! {

/// What became of one file.
#[derive(Debug)]
pub enum FileOutcome {
    /// It was converted and written to the given path.
    Written(String),
    /// It was passed over, for the given reason.
    Skipped(FileError),
}

/// The mathematical value of a [`FileOutcome`].
pub enum FileOutcomeModel {
    Written(Seq<char>),
    Skipped(FileErrorModel),
}

impl View for FileOutcome {
    type V = FileOutcomeModel;

    open spec fn view(&self) -> FileOutcomeModel {
        match self {
            FileOutcome::Written(path) => FileOutcomeModel::Written(path@),
            FileOutcome::Skipped(reason) => FileOutcomeModel::Skipped(reason@),
        }
    }
}

/// One file of a batch and what became of it.
#[derive(Debug)]
pub struct FileResult {
    pub source: String,
    pub outcome: FileOutcome,
}

/// The mathematical value of a [`FileResult`].
pub struct FileResultModel {
    pub source: Seq<char>,
    pub outcome: FileOutcomeModel,
}

impl View for FileResult {
    type V = FileResultModel;

    open spec fn view(&self) -> FileResultModel {
        FileResultModel { source: self.source@, outcome: self.outcome@ }
    }
}

impl DeepView for FileResult {
    type V = FileResultModel;

    open spec fn deep_view(&self) -> FileResultModel {
        self@
    }
}

/// A file that was converted.
#[derive(Debug)]
pub struct Written {
    pub source: String,
    pub path: String,
}

/// The mathematical value of a [`Written`].
pub struct WrittenModel {
    pub source: Seq<char>,
    pub path: Seq<char>,
}

impl View for Written {
    type V = WrittenModel;

    open spec fn view(&self) -> WrittenModel {
        WrittenModel { source: self.source@, path: self.path@ }
    }
}

impl DeepView for Written {
    type V = WrittenModel;

    open spec fn deep_view(&self) -> WrittenModel {
        self@
    }
}

/// A file that was passed over.
#[derive(Debug)]
pub struct Skipped {
    pub source: String,
    pub reason: FileError,
}

/// The mathematical value of a [`Skipped`].
pub struct SkippedModel {
    pub source: Seq<char>,
    pub reason: FileErrorModel,
}

impl View for Skipped {
    type V = SkippedModel;

    open spec fn view(&self) -> SkippedModel {
        SkippedModel { source: self.source@, reason: self.reason@ }
    }
}

impl DeepView for Skipped {
    type V = SkippedModel;

    open spec fn deep_view(&self) -> SkippedModel {
        self@
    }
}

/// The report of a batch: the files converted and the files passed over,
/// each list in the order in which the results were recorded.
#[derive(Debug)]
pub struct BatchReport {
    pub written: Vec<Written>,
    pub skipped: Vec<Skipped>,
}

/// The mathematical value of a [`BatchReport`].
pub struct BatchReportModel {
    pub written: Seq<WrittenModel>,
    pub skipped: Seq<SkippedModel>,
}

impl View for BatchReport {
    type V = BatchReportModel;

    open spec fn view(&self) -> BatchReportModel {
        BatchReportModel { written: self.written.deep_view(), skipped: self.skipped.deep_view() }
    }
}

/// The report after one more result.
pub open spec fn recorded(report: BatchReportModel, result: FileResultModel) -> BatchReportModel {
    match result.outcome {
        FileOutcomeModel::Written(path) => BatchReportModel {
            written: report.written.push(WrittenModel { source: result.source, path }),
            skipped: report.skipped,
        },
        FileOutcomeModel::Skipped(reason) => BatchReportModel {
            written: report.written,
            skipped: report.skipped.push(SkippedModel { source: result.source, reason }),
        },
    }
}

/// The report of the first `n` results.
pub open spec fn report_of(results: Seq<FileResultModel>, n: int) -> BatchReportModel
    decreases n,
{
    if n <= 0 {
        BatchReportModel {
            written: Seq::<WrittenModel>::empty(),
            skipped: Seq::<SkippedModel>::empty(),
        }
    } else {
        recorded(report_of(results, n - 1), results[n - 1])
    }
}

impl BatchReport {
    /// The report of a batch without files.
    pub fn new() -> (report: BatchReport)
        ensures
            report@.written.len() == 0,
            report@.skipped.len() == 0,
    {
        BatchReport { written: Vec::new(), skipped: Vec::new() }
    }

    /// Adds the result of one file.
    pub fn record(&mut self, source: String, outcome: FileOutcome)
        ensures
            final(self)@ == recorded(
                old(self)@,
                FileResultModel { source: source@, outcome: outcome@ },
            ),
    {
        let ghost before = self@;
        match outcome {
            FileOutcome::Written(path) => {
                self.written.push(Written { source, path });
                assert(self.written.deep_view() =~= before.written.push(
                    WrittenModel { source: source@, path: path@ },
                ));
            },
            FileOutcome::Skipped(reason) => {
                self.skipped.push(Skipped { source, reason });
                assert(self.skipped.deep_view() =~= before.skipped.push(
                    SkippedModel { source: source@, reason: reason@ },
                ));
            },
        }
    }

    /// How many files were converted.
    pub fn written_count(&self) -> (count: usize)
        ensures
            count == self@.written.len(),
    {
        self.written.len()
    }

    /// How many files were passed over.
    pub fn skipped_count(&self) -> (count: usize)
        ensures
            count == self@.skipped.len(),
    {
        self.skipped.len()
    }

    /// How many files the batch had; the greatest number that fits where
    /// they were more.
    pub fn processed(&self) -> (count: usize)
        ensures
            count == if self@.written.len() + self@.skipped.len() <= usize::MAX {
                self@.written.len() + self@.skipped.len()
            } else {
                usize::MAX as nat
            },
    {
        self.written.len().saturating_add(self.skipped.len())
    }
}

/// The report of a batch from the results of its files.
pub fn summarize(results: Vec<FileResult>) -> (report: BatchReport)
    ensures
        report@ == report_of(results.deep_view(), results.len() as int),
        report@.written.len() + report@.skipped.len() == results.len(),
{
    let ghost model = results.deep_view();
    let mut report = BatchReport::new();
    let mut i: usize = 0;
    assert(report@.written =~= Seq::<WrittenModel>::empty());
    assert(report@.skipped =~= Seq::<SkippedModel>::empty());
    while i < results.len()
        invariant
            i <= results.len(),
            model == results.deep_view(),
            report@ == report_of(model, i as int),
            report@.written.len() + report@.skipped.len() == i,
        decreases results.len() - i,
    {
        let result = &results[i];
        assert(model[i as int] == result@);
        let outcome = match &result.outcome {
            FileOutcome::Written(path) => FileOutcome::Written(path.clone()),
            FileOutcome::Skipped(reason) => FileOutcome::Skipped(reason.duplicate()),
        };
        report.record(result.source.clone(), outcome);
        i = i + 1;
    }
    report
}

/// Every file of a batch is in its report once: among the converted or among
/// those passed over.
pub proof fn lemma_report_counts(results: Seq<FileResultModel>, n: int)
    requires
        0 <= n <= results.len(),
    ensures
        report_of(results, n).written.len() + report_of(results, n).skipped.len() == n,
    decreases n,
{
    if n > 0 {
        lemma_report_counts(results, n - 1);
    }
}

} // verus!
