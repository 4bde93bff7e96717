//! The course of a batch: what is done in which order, and what ends it.
//!
//! A batch first looks whether its source is there. A batch that re-encodes
//! files then probes its destination. Then the files of the source are
//! listed, and then they are worked on. Looking, probing, listing and
//! working are the caller's; which comes next, and what a failure means, is
//! decided here.

use vstd::prelude::*;
use crate::readiness::ReadinessError;

verus! {

/// What a batch does with the files of its source.
#[derive(Clone, Copy, Debug, PartialEq, Eq, Structural)]
pub enum Pipeline {
    /// Each file is re-encoded and written to its place under a destination.
    Transcode,
    /// The files are scanned and gathered into the aggregate document.
    Aggregate,
}

/// Why a batch ended before its files were worked on, or while they were.
#[derive(Clone, Copy, Debug, PartialEq, Eq, Structural)]
pub enum BatchError {
    /// The source does not exist.
    SourceNotFound,
    /// The destination is not ready.
    Destination(ReadinessError),
    /// A directory of the source could not be listed.
    ListingFailed,
    /// A file could not be read into an object.
    FileUnreadable,
}

/// How a batch ended.
#[derive(Clone, Copy, Debug, PartialEq, Eq, Structural)]
pub enum BatchEnd {
    /// Every file was worked on.
    Completed,
    /// The source holds no file: nothing was worked on and nothing written.
    NothingFound,
    /// The batch was given up.
    Failed(BatchError),
}

/// Where a batch stands.
#[derive(Clone, Copy, Debug, PartialEq, Eq, Structural)]
pub enum BatchStage {
    /// Next, the source is looked for.
    CheckSource,
    /// Next, the destination is probed.
    ProbeDestination,
    /// Next, the files of the source are listed.
    ListFiles,
    /// Next, a file is worked on, or the files are done with.
    ProcessFiles,
    /// The batch is over.
    Finished(BatchEnd),
}

/// What the caller found when it did what the stage asked for.
#[derive(Clone, Copy, Debug, PartialEq, Eq, Structural)]
pub enum StageOutcome {
    /// The source exists.
    SourceFound,
    /// The source does not exist.
    SourceMissing,
    /// The probe of the destination succeeded.
    DestinationReady,
    /// The probe of the destination failed.
    DestinationFailed(ReadinessError),
    /// The source was listed and holds this many files.
    Listed { files: usize },
    /// A directory of the source could not be listed.
    ListingFailed,
    /// A file could not be read into an object.
    FileUnreadable,
    /// All files were worked on.
    FilesProcessed,
}

/// The stage after an outcome.
///
/// A missing source ends the batch before anything else is done. A batch
/// that re-encodes goes on to probe the destination, and a failed probe ends
/// it before any file is listed or touched. A failed listing ends the batch;
/// a listing without files ends it with nothing done. A file that cannot be
/// read ends a batch that gathers, and is passed over by a batch that
/// re-encodes. An outcome that does not answer the stage leaves the stage as
/// it is, and a batch that is over stays over.
pub open spec fn next_stage_spec(
    pipeline: Pipeline,
    stage: BatchStage,
    outcome: StageOutcome,
) -> BatchStage {
    match (stage, outcome) {
        (BatchStage::CheckSource, StageOutcome::SourceFound) => match pipeline {
            Pipeline::Transcode => BatchStage::ProbeDestination,
            Pipeline::Aggregate => BatchStage::ListFiles,
        },
        (BatchStage::CheckSource, StageOutcome::SourceMissing) => BatchStage::Finished(
            BatchEnd::Failed(BatchError::SourceNotFound),
        ),
        (BatchStage::ProbeDestination, StageOutcome::DestinationReady) => BatchStage::ListFiles,
        (BatchStage::ProbeDestination, StageOutcome::DestinationFailed(error)) => {
            BatchStage::Finished(BatchEnd::Failed(BatchError::Destination(error)))
        },
        (BatchStage::ListFiles, StageOutcome::Listed { files }) => if files == 0 {
            BatchStage::Finished(BatchEnd::NothingFound)
        } else {
            BatchStage::ProcessFiles
        },
        (BatchStage::ListFiles, StageOutcome::ListingFailed) => BatchStage::Finished(
            BatchEnd::Failed(BatchError::ListingFailed),
        ),
        (BatchStage::ProcessFiles, StageOutcome::FileUnreadable) => match pipeline {
            Pipeline::Transcode => BatchStage::ProcessFiles,
            Pipeline::Aggregate => BatchStage::Finished(
                BatchEnd::Failed(BatchError::FileUnreadable),
            ),
        },
        (BatchStage::ProcessFiles, StageOutcome::FilesProcessed) => BatchStage::Finished(
            BatchEnd::Completed,
        ),
        _ => stage,
    }
}

/// The stage after an outcome.
pub fn next_stage(pipeline: Pipeline, stage: BatchStage, outcome: StageOutcome) -> (next:
    BatchStage)
    ensures
        next == next_stage_spec(pipeline, stage, outcome),
{
    match (stage, outcome) {
        (BatchStage::CheckSource, StageOutcome::SourceFound) => match pipeline {
            Pipeline::Transcode => BatchStage::ProbeDestination,
            Pipeline::Aggregate => BatchStage::ListFiles,
        },
        (BatchStage::CheckSource, StageOutcome::SourceMissing) => BatchStage::Finished(
            BatchEnd::Failed(BatchError::SourceNotFound),
        ),
        (BatchStage::ProbeDestination, StageOutcome::DestinationReady) => BatchStage::ListFiles,
        (BatchStage::ProbeDestination, StageOutcome::DestinationFailed(error)) => {
            BatchStage::Finished(BatchEnd::Failed(BatchError::Destination(error)))
        },
        (BatchStage::ListFiles, StageOutcome::Listed { files }) => if files == 0 {
            BatchStage::Finished(BatchEnd::NothingFound)
        } else {
            BatchStage::ProcessFiles
        },
        (BatchStage::ListFiles, StageOutcome::ListingFailed) => BatchStage::Finished(
            BatchEnd::Failed(BatchError::ListingFailed),
        ),
        (BatchStage::ProcessFiles, StageOutcome::FileUnreadable) => match pipeline {
            Pipeline::Transcode => BatchStage::ProcessFiles,
            Pipeline::Aggregate => BatchStage::Finished(
                BatchEnd::Failed(BatchError::FileUnreadable),
            ),
        },
        (BatchStage::ProcessFiles, StageOutcome::FilesProcessed) => BatchStage::Finished(
            BatchEnd::Completed,
        ),
        _ => stage,
    }
}

/// The stage of a batch after the given outcomes, one after the other.
pub open spec fn batch_run(pipeline: Pipeline, outcomes: Seq<StageOutcome>) -> BatchStage
    decreases outcomes.len(),
{
    if outcomes.len() == 0 {
        BatchStage::CheckSource
    } else {
        next_stage_spec(pipeline, batch_run(pipeline, outcomes.drop_last()), outcomes.last())
    }
}

/// Whether one of the outcomes is a listing that holds files.
pub open spec fn listed_some(outcomes: Seq<StageOutcome>) -> bool {
    exists|i: int|
        0 <= i < outcomes.len() && (#[trigger] outcomes[i] matches StageOutcome::Listed {
            files,
        } && files > 0)
}

/// Nothing is done out of order. The destination is probed only when the
/// source was found; files are listed only when the source was found and,
/// in a batch that re-encodes, the destination was ready; and files are
/// worked on only when, besides, the listing held files. A batch completes
/// only from there.
pub proof fn lemma_batch_order(pipeline: Pipeline, outcomes: Seq<StageOutcome>)
    ensures
        match batch_run(pipeline, outcomes) {
            BatchStage::CheckSource => true,
            BatchStage::ProbeDestination => pipeline == Pipeline::Transcode && outcomes.contains(
                StageOutcome::SourceFound,
            ),
            BatchStage::ListFiles => outcomes.contains(StageOutcome::SourceFound) && (pipeline
                == Pipeline::Transcode ==> outcomes.contains(StageOutcome::DestinationReady)),
            BatchStage::ProcessFiles | BatchStage::Finished(BatchEnd::Completed) => {
                &&& outcomes.contains(StageOutcome::SourceFound)
                &&& pipeline == Pipeline::Transcode ==> outcomes.contains(
                    StageOutcome::DestinationReady,
                )
                &&& listed_some(outcomes)
            },
            BatchStage::Finished(BatchEnd::NothingFound) => outcomes.contains(
                StageOutcome::SourceFound,
            ) && outcomes.contains(StageOutcome::Listed { files: 0 }),
            BatchStage::Finished(BatchEnd::Failed(BatchError::SourceNotFound)) => outcomes.contains(
                StageOutcome::SourceMissing,
            ),
            BatchStage::Finished(BatchEnd::Failed(BatchError::Destination(error))) => pipeline
                == Pipeline::Transcode && outcomes.contains(
                StageOutcome::DestinationFailed(error),
            ),
            BatchStage::Finished(BatchEnd::Failed(BatchError::ListingFailed)) => outcomes.contains(
                StageOutcome::ListingFailed,
            ),
            BatchStage::Finished(BatchEnd::Failed(BatchError::FileUnreadable)) => pipeline
                == Pipeline::Aggregate && listed_some(outcomes) && outcomes.contains(
                StageOutcome::FileUnreadable,
            ),
        },
    decreases outcomes.len(),
{
    if outcomes.len() > 0 {
        let before = outcomes.drop_last();
        let last = outcomes.last();
        lemma_batch_order(pipeline, before);
        assert(outcomes[outcomes.len() - 1] == last);
        assert forall|outcome: StageOutcome| before.contains(outcome) implies outcomes.contains(
            outcome,
        ) by {
            let i = choose|i: int| 0 <= i < before.len() && before[i] == outcome;
            assert(outcomes[i] == outcome);
        }
        if listed_some(before) {
            let i = choose|i: int|
                0 <= i < before.len() && (#[trigger] before[i] matches StageOutcome::Listed {
                    files,
                } && files > 0);
            assert(outcomes[i] == before[i]);
        }
    }
}

/// A batch that is over stays over, whatever comes.
pub proof fn lemma_finished_stays(pipeline: Pipeline, end: BatchEnd, outcome: StageOutcome)
    ensures
        next_stage_spec(pipeline, BatchStage::Finished(end), outcome) == BatchStage::Finished(end),
{
}

} // verus!
