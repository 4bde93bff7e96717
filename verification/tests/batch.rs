use dicom_batch::batch::{
    next_stage, BatchEnd, BatchError, BatchStage, Pipeline, StageOutcome,
};
use dicom_batch::readiness::ReadinessError;

fn run(pipeline: Pipeline, outcomes: &[StageOutcome]) -> (Vec<BatchStage>, BatchStage) {
    let mut stage = BatchStage::CheckSource;
    let mut passed = Vec::new();
    for outcome in outcomes {
        passed.push(stage);
        stage = next_stage(pipeline, stage, *outcome);
    }
    (passed, stage)
}

#[test]
fn batch_that_re_encodes_takes_its_course() {
    let (passed, end) = run(
        Pipeline::Transcode,
        &[
            StageOutcome::SourceFound,
            StageOutcome::DestinationReady,
            StageOutcome::Listed { files: 3 },
            StageOutcome::FilesProcessed,
        ],
    );
    assert_eq!(
        passed,
        vec![
            BatchStage::CheckSource,
            BatchStage::ProbeDestination,
            BatchStage::ListFiles,
            BatchStage::ProcessFiles,
        ]
    );
    assert_eq!(end, BatchStage::Finished(BatchEnd::Completed));
}

#[test]
fn batch_that_gathers_does_not_probe() {
    let (passed, end) = run(
        Pipeline::Aggregate,
        &[StageOutcome::SourceFound, StageOutcome::Listed { files: 1 }, StageOutcome::FilesProcessed],
    );
    assert_eq!(
        passed,
        vec![BatchStage::CheckSource, BatchStage::ListFiles, BatchStage::ProcessFiles]
    );
    assert_eq!(end, BatchStage::Finished(BatchEnd::Completed));
}

#[test]
fn missing_source_ends_the_batch_before_the_probe() {
    for pipeline in [Pipeline::Transcode, Pipeline::Aggregate] {
        assert_eq!(
            next_stage(pipeline, BatchStage::CheckSource, StageOutcome::SourceMissing),
            BatchStage::Finished(BatchEnd::Failed(BatchError::SourceNotFound))
        );
    }
}

#[test]
fn failed_probe_ends_the_batch_before_any_file() {
    for error in [ReadinessError::DestinationUnavailable, ReadinessError::DestinationNotWritable] {
        let (passed, end) = run(
            Pipeline::Transcode,
            &[StageOutcome::SourceFound, StageOutcome::DestinationFailed(error)],
        );
        assert_eq!(passed, vec![BatchStage::CheckSource, BatchStage::ProbeDestination]);
        assert_eq!(end, BatchStage::Finished(BatchEnd::Failed(BatchError::Destination(error))));
    }
}

#[test]
fn listing_without_files_and_failed_listing() {
    assert_eq!(
        next_stage(Pipeline::Transcode, BatchStage::ListFiles, StageOutcome::Listed { files: 0 }),
        BatchStage::Finished(BatchEnd::NothingFound)
    );
    assert_eq!(
        next_stage(Pipeline::Aggregate, BatchStage::ListFiles, StageOutcome::Listed { files: 0 }),
        BatchStage::Finished(BatchEnd::NothingFound)
    );
    assert_eq!(
        next_stage(Pipeline::Aggregate, BatchStage::ListFiles, StageOutcome::ListingFailed),
        BatchStage::Finished(BatchEnd::Failed(BatchError::ListingFailed))
    );
    assert_eq!(
        next_stage(Pipeline::Transcode, BatchStage::ListFiles, StageOutcome::Listed { files: 1 }),
        BatchStage::ProcessFiles
    );
}

#[test]
fn file_that_cannot_be_read() {
    assert_eq!(
        next_stage(Pipeline::Transcode, BatchStage::ProcessFiles, StageOutcome::FileUnreadable),
        BatchStage::ProcessFiles
    );
    assert_eq!(
        next_stage(Pipeline::Aggregate, BatchStage::ProcessFiles, StageOutcome::FileUnreadable),
        BatchStage::Finished(BatchEnd::Failed(BatchError::FileUnreadable))
    );
}

#[test]
fn outcome_that_does_not_answer_the_stage_changes_nothing() {
    assert_eq!(
        next_stage(Pipeline::Transcode, BatchStage::CheckSource, StageOutcome::FilesProcessed),
        BatchStage::CheckSource
    );
    assert_eq!(
        next_stage(Pipeline::Aggregate, BatchStage::ProbeDestination, StageOutcome::SourceFound),
        BatchStage::ProbeDestination
    );
    let over = BatchStage::Finished(BatchEnd::NothingFound);
    assert_eq!(next_stage(Pipeline::Transcode, over, StageOutcome::SourceFound), over);
    let failed = BatchStage::Finished(BatchEnd::Failed(BatchError::SourceNotFound));
    assert_eq!(next_stage(Pipeline::Aggregate, failed, StageOutcome::FilesProcessed), failed);
}
