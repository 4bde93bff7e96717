//! Re-encoding one file: what is handed to the transcoding engine, and where
//! its result is written.
//!
//! The engine itself and the file system stay outside. For each file the
//! caller reads the bytes, has a [`TranscodeJob`] made of them, runs the
//! engine on the job's request, has an [`OutputPlan`] made of what the engine
//! gave, and carries the plan out.

use vstd::prelude::*;
use dicom_object::DefaultDicomObject;
use crate::dcmobj::{
    get_string, object_bytes, object_field, object_to_bytes, parsed_object, read_object,
};
use crate::error::{FileError, FileErrorModel, Identifier};
use crate::tags::{PATIENT_ID, SERIES_INSTANCE_UID, SOP_INSTANCE_UID, STUDY_INSTANCE_UID};
use crate::text::{free_of, join_spec, lemma_split_join};

verus! {

/// A transfer syntax that the engine can convert to, with the parameters of
/// the lossy ones.
#[derive(Clone, Copy, Debug, PartialEq, Eq, Structural)]
pub enum TransferSyntax {
    /// No conversion.
    Unchanged,
    ImplicitVRLittleEndian,
    ExplicitVRLittleEndian,
    ExplicitVRBigEndian,
    RLELossless,
    /// With the quality.
    JPEGBaselineProcess1(u32),
    /// With the quality.
    JPEGExtendedProcess2_4(u32),
    JPEGLosslessProcess14,
    JPEGLosslessProcess14_1,
    JPEGLSLossless,
    /// With the error allowed.
    JPEGLSNearLossless(u32),
    JPEG2000Lossless,
    /// With three qualities, and whether the transform is irreversible.
    JPEG2000(u32, u32, u32, bool),
    JPEG2000Part2Lossless,
    /// With three qualities, and whether the transform is irreversible.
    JPEG2000Part2(u32, u32, u32, bool),
    MPEG2MainProfile,
}

/// A photometric interpretation that the engine can convert to.
#[derive(Clone, Copy, Debug, PartialEq, Eq, Structural)]
pub enum PhotometricInterpretation {
    /// No conversion.
    Unchanged,
    Monochrome1,
    Monochrome2,
    PaletteColor,
    RGB,
    HSV,
    ARGB,
    CMYK,
    YbrFull,
    YbrFull422,
    YbrPartial422,
    YbrPartial420,
    YbrIct,
    YbrRct,
}

/// What the engine is called with.
#[derive(Debug)]
pub struct TranscodeRequest {
    /// The bytes of the file to convert.
    pub input: Vec<u8>,
    /// How long the result may get, if the caller knows.
    pub estimated_length: Option<usize>,
    /// The transfer syntax to convert to first.
    pub first: TransferSyntax,
    /// The photometric interpretation to convert to then.
    pub photometric: PhotometricInterpretation,
    /// The transfer syntax to convert to last.
    pub second: TransferSyntax,
}

/// The request of this library: the bytes are converted to the target
/// transfer syntax and nothing else is done to them. No length is estimated.
pub open spec fn request_for(request: TranscodeRequest, input: Seq<u8>, target: TransferSyntax) -> bool {
    &&& request.input@ == input
    &&& request.estimated_length is None
    &&& request.first == target
    &&& request.photometric == PhotometricInterpretation::Unchanged
    &&& request.second == TransferSyntax::Unchanged
}

/// The request to convert the given bytes to the target transfer syntax.
pub fn transcode_request(input: Vec<u8>, target: TransferSyntax) -> (request: TranscodeRequest)
    ensures
        request_for(request, input@, target),
{
    TranscodeRequest {
        input,
        estimated_length: None,
        first: target,
        photometric: PhotometricInterpretation::Unchanged,
        second: TransferSyntax::Unchanged,
    }
}

/// The four identifiers of an object, from which the place of its file
/// follows. An identifier that the object does not have is empty.
#[derive(Debug, Clone)]
pub struct IdentifierSet {
    pub patient_id: String,
    pub study_uid: String,
    pub series_uid: String,
    pub sop_instance_uid: String,
}

/// The mathematical value of an [`IdentifierSet`].
pub struct IdentifierModel {
    pub patient_id: Seq<char>,
    pub study_uid: Seq<char>,
    pub series_uid: Seq<char>,
    pub sop_instance_uid: Seq<char>,
}

impl View for IdentifierSet {
    type V = IdentifierModel;

    open spec fn view(&self) -> IdentifierModel {
        IdentifierModel {
            patient_id: self.patient_id@,
            study_uid: self.study_uid@,
            series_uid: self.series_uid@,
            sop_instance_uid: self.sop_instance_uid@,
        }
    }
}

/// The first of the four identifiers that is empty, if one is.
pub open spec fn missing_spec(ids: IdentifierModel) -> Option<Identifier> {
    if ids.patient_id.len() == 0 {
        Some(Identifier::PatientId)
    } else if ids.study_uid.len() == 0 {
        Some(Identifier::StudyUid)
    } else if ids.series_uid.len() == 0 {
        Some(Identifier::SeriesUid)
    } else if ids.sop_instance_uid.len() == 0 {
        Some(Identifier::SopInstanceUid)
    } else {
        None
    }
}

/// The identifiers of an object.
pub open spec fn identifiers_of(obj: DefaultDicomObject) -> IdentifierModel {
    IdentifierModel {
        patient_id: object_field(obj, PATIENT_ID),
        study_uid: object_field(obj, STUDY_INSTANCE_UID),
        series_uid: object_field(obj, SERIES_INSTANCE_UID),
        sop_instance_uid: object_field(obj, SOP_INSTANCE_UID),
    }
}

/// The directory of the file of an object under a destination root: the
/// root, then the patient ID, the study UID and the series UID, each as it
/// is, with a slash before each.
pub open spec fn directory_spec(root: Seq<char>, ids: IdentifierModel) -> Seq<char> {
    root + "/"@ + ids.patient_id + "/"@ + ids.study_uid + "/"@ + ids.series_uid
}

/// The file of an object under a destination root: in its directory, the SOP
/// instance UID as it is, then `.dcm`.
pub open spec fn path_spec(root: Seq<char>, ids: IdentifierModel) -> Seq<char> {
    directory_spec(root, ids) + "/"@ + ids.sop_instance_uid + ".dcm"@
}

/// Whether none of the identifiers holds a slash.
pub open spec fn plain_identifiers(ids: IdentifierModel) -> bool {
    &&& !ids.patient_id.contains('/')
    &&& !ids.study_uid.contains('/')
    &&& !ids.series_uid.contains('/')
    &&& !ids.sop_instance_uid.contains('/')
}

impl IdentifierSet {
    /// Reads the identifiers of an object.
    pub fn from_object(obj: &DefaultDicomObject) -> (ids: Self)
        ensures
            ids@ == identifiers_of(*obj),
    {
        Self {
            patient_id: get_string(PATIENT_ID, obj),
            study_uid: get_string(STUDY_INSTANCE_UID, obj),
            series_uid: get_string(SERIES_INSTANCE_UID, obj),
            sop_instance_uid: get_string(SOP_INSTANCE_UID, obj),
        }
    }

    /// The first of the four identifiers that is empty, if one is. The place
    /// of a file is made of the identifiers as they are, empty or not; a
    /// caller that will not have a file there asks here first.
    pub fn missing(&self) -> (missing: Option<Identifier>)
        ensures
            missing == missing_spec(self@),
    {
        if self.patient_id.as_str().is_empty() {
            Some(Identifier::PatientId)
        } else if self.study_uid.as_str().is_empty() {
            Some(Identifier::StudyUid)
        } else if self.series_uid.as_str().is_empty() {
            Some(Identifier::SeriesUid)
        } else if self.sop_instance_uid.as_str().is_empty() {
            Some(Identifier::SopInstanceUid)
        } else {
            None
        }
    }

    /// Refuses identifiers of which one is empty, and says which: the first
    /// of the four that is.
    pub fn require_all(&self) -> (result: Result<(), FileError>)
        ensures
            match missing_spec(self@) {
                Some(which) => result matches Err(error) && error@
                    == FileErrorModel::MissingIdentifier(which),
                None => result is Ok,
            },
    {
        match self.missing() {
            Some(which) => Err(FileError::MissingIdentifier(which)),
            None => Ok(()),
        }
    }

    /// The directory of the object's file under a destination root.
    pub fn output_directory(&self, dest_root: &str) -> (directory: String)
        ensures
            directory@ == directory_spec(dest_root@, self@),
    {
        let mut directory = String::from_str(dest_root);
        directory.append("/");
        directory.append(self.patient_id.as_str());
        directory.append("/");
        directory.append(self.study_uid.as_str());
        directory.append("/");
        directory.append(self.series_uid.as_str());
        directory
    }

    /// The object's file under a destination root.
    pub fn output_path(&self, dest_root: &str) -> (path: String)
        ensures
            path@ == path_spec(dest_root@, self@),
    {
        let mut path = self.output_directory(dest_root);
        path.append("/");
        path.append(self.sop_instance_uid.as_str());
        path.append(".dcm");
        path
    }
}

/// Two objects with the same four identifiers have the same file under a
/// destination root: the one written later replaces the other.
pub proof fn lemma_same_identifiers_same_path(
    root: Seq<char>,
    ids: IdentifierModel,
    other: IdentifierModel,
)
    requires
        ids == other,
    ensures
        path_spec(root, ids) == path_spec(root, other),
        directory_spec(root, ids) == directory_spec(root, other),
{
}

/// The path of an object's file below the root, as the segments joined by
/// slashes.
proof fn lemma_path_is_join(root: Seq<char>, ids: IdentifierModel)
    ensures
        path_spec(root, ids) == (root + seq!['/']) + join_spec(
            seq![
                ids.patient_id,
                ids.study_uid,
                ids.series_uid,
                ids.sop_instance_uid + ".dcm"@,
            ],
            '/',
        ),
{
    reveal_strlit("/");
    let parts = seq![
        ids.patient_id,
        ids.study_uid,
        ids.series_uid,
        ids.sop_instance_uid + ".dcm"@,
    ];
    let three = parts.drop_last();
    let two = three.drop_last();
    let one = two.drop_last();
    assert(one.len() == 1 && one[0] == ids.patient_id);
    assert(join_spec(one, '/') == ids.patient_id);
    assert(two.last() == ids.study_uid);
    assert(join_spec(two, '/') == join_spec(one, '/').push('/') + ids.study_uid);
    assert(three.last() == ids.series_uid);
    assert(join_spec(three, '/') == join_spec(two, '/').push('/') + ids.series_uid);
    assert(join_spec(parts, '/') == join_spec(three, '/').push('/') + parts.last());
    assert("/"@ =~= seq!['/']);
    assert(path_spec(root, ids) =~= (root + seq!['/']) + join_spec(parts, '/'));
}

/// Objects whose identifiers hold no slash have the same file under a
/// destination root only if they have the same four identifiers.
pub proof fn lemma_same_path_same_identifiers(
    root: Seq<char>,
    ids: IdentifierModel,
    other: IdentifierModel,
)
    requires
        plain_identifiers(ids),
        plain_identifiers(other),
        path_spec(root, ids) == path_spec(root, other),
    ensures
        ids == other,
{
    reveal_strlit(".dcm");
    let parts = seq![
        ids.patient_id,
        ids.study_uid,
        ids.series_uid,
        ids.sop_instance_uid + ".dcm"@,
    ];
    let other_parts = seq![
        other.patient_id,
        other.study_uid,
        other.series_uid,
        other.sop_instance_uid + ".dcm"@,
    ];
    lemma_path_is_join(root, ids);
    lemma_path_is_join(root, other);
    let head = root + seq!['/'];
    let joined = join_spec(parts, '/');
    let other_joined = join_spec(other_parts, '/');
    assert(joined =~= (head + joined).skip(head.len() as int));
    assert(other_joined =~= (head + other_joined).skip(head.len() as int));
    assert(joined == other_joined);
    assert(free_of(parts, '/')) by {
        assert forall|i: int, j: int| 0 <= i < parts.len() && 0 <= j < parts[i].len() implies (
        #[trigger] parts[i][j]) != '/' by {
            if i == 0 {
                assert(ids.patient_id.contains(parts[i][j]));
            } else if i == 1 {
                assert(ids.study_uid.contains(parts[i][j]));
            } else if i == 2 {
                assert(ids.series_uid.contains(parts[i][j]));
            } else if j < ids.sop_instance_uid.len() {
                assert(ids.sop_instance_uid.contains(parts[i][j]));
            }
        }
    }
    assert(free_of(other_parts, '/')) by {
        assert forall|i: int, j: int|
            0 <= i < other_parts.len() && 0 <= j < other_parts[i].len() implies (
        #[trigger] other_parts[i][j]) != '/' by {
            if i == 0 {
                assert(other.patient_id.contains(other_parts[i][j]));
            } else if i == 1 {
                assert(other.study_uid.contains(other_parts[i][j]));
            } else if i == 2 {
                assert(other.series_uid.contains(other_parts[i][j]));
            } else if j < other.sop_instance_uid.len() {
                assert(other.sop_instance_uid.contains(other_parts[i][j]));
            }
        }
    }
    lemma_split_join(parts, '/');
    lemma_split_join(other_parts, '/');
    assert(parts == other_parts);
    assert(parts[0] == other_parts[0] && parts[1] == other_parts[1] && parts[2]
        == other_parts[2] && parts[3] == other_parts[3]);
    let full = ids.sop_instance_uid + ".dcm"@;
    let other_full = other.sop_instance_uid + ".dcm"@;
    assert(full.len() == other_full.len());
    assert(ids.sop_instance_uid =~= full.take(full.len() - 4));
    assert(other.sop_instance_uid =~= other_full.take(other_full.len() - 4));
}

/// One file made ready for the engine.
#[derive(Debug)]
pub struct TranscodeJob {
    /// The identifiers of the object in the file.
    pub identifiers: IdentifierSet,
    /// What the engine is to be called with.
    pub request: TranscodeRequest,
}

/// Whether a job is the job for an object and a target transfer syntax: it
/// has the identifiers of the object, and its request is to convert the bytes
/// of the object to the target.
pub open spec fn job_for(job: TranscodeJob, obj: DefaultDicomObject, target: TransferSyntax) -> bool {
    &&& job.identifiers@ == identifiers_of(obj)
    &&& object_bytes(obj) is Some
    &&& request_for(job.request, object_bytes(obj).unwrap(), target)
}

/// Makes an object ready for the engine: reads its identifiers and writes it
/// to bytes. Fails where the object cannot be written to bytes.
pub fn prepare_object(obj: &DefaultDicomObject, target: TransferSyntax) -> (result: Result<
    TranscodeJob,
    FileError,
>)
    ensures
        match object_bytes(*obj) {
            Some(_) => result matches Ok(job) && job_for(job, *obj, target),
            None => result matches Err(error) && error is Encode,
        },
{
    let identifiers = IdentifierSet::from_object(obj);
    match object_to_bytes(obj) {
        Ok(input) => Ok(TranscodeJob { identifiers, request: transcode_request(input, target) }),
        Err(error) => Err(error),
    }
}

/// Makes the bytes of a file ready for the engine. Fails where the bytes do
/// not parse, and where the object read from them cannot be written to bytes.
pub fn prepare_transcode(bytes: &Vec<u8>, target: TransferSyntax) -> (result: Result<
    TranscodeJob,
    FileError,
>)
    ensures
        match parsed_object(bytes@) {
            Some(obj) => match object_bytes(obj) {
                Some(_) => result matches Ok(job) && job_for(job, obj, target),
                None => result matches Err(error) && error is Encode,
            },
            None => result matches Err(error) && error is Open,
        },
{
    match read_object(bytes) {
        Ok(obj) => prepare_object(&obj, target),
        Err(error) => Err(error),
    }
}

/// Where the converted bytes of one file go.
#[derive(Debug)]
pub struct OutputPlan {
    /// The directory to make, with all that lead to it, if it is not there.
    pub directory: String,
    /// The file to write; one that is there is replaced.
    pub path: String,
    /// What to write.
    pub bytes: Vec<u8>,
}

/// Decides what to do with what the engine gave for one file: its bytes are
/// to be written to the file that follows from the identifiers; its refusal
/// means that the file is passed over.
pub fn plan_output(
    dest_root: &str,
    identifiers: &IdentifierSet,
    transcoded: Result<Vec<u8>, String>,
) -> (result: Result<OutputPlan, FileError>)
    ensures
        match transcoded {
            Ok(bytes) => result matches Ok(plan) && plan.directory@ == directory_spec(
                dest_root@,
                identifiers@,
            ) && plan.path@ == path_spec(dest_root@, identifiers@) && plan.bytes@ == bytes@,
            Err(words) => result matches Err(error) && error@ == FileErrorModel::Transcode(
                words@,
            ),
        },
{
    match transcoded {
        Ok(bytes) => Ok(
            OutputPlan {
                directory: identifiers.output_directory(dest_root),
                path: identifiers.output_path(dest_root),
                bytes,
            },
        ),
        Err(words) => Err(FileError::Transcode(words)),
    }
}

} // verus!
