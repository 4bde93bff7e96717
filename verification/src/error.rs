//! Why a file is passed over.

use vstd::prelude::*;

verus! {

/// One of the four identifiers from which the place of a file follows.
#[derive(Clone, Copy, Debug, PartialEq, Eq, Structural)]
pub enum Identifier {
    PatientId,
    StudyUid,
    SeriesUid,
    SopInstanceUid,
}

/// Why a file was passed over.
#[derive(Debug)]
pub enum FileError {
    /// The bytes of the file do not parse. The text says why.
    Open(String),
    /// The object read from the file cannot be written to bytes. The text
    /// says why.
    Encode(String),
    /// The engine did not convert the file. The text is what it said.
    Transcode(String),
    /// The directory of the converted file could not be made. The text says
    /// why.
    CreateDirectory(String),
    /// The converted file could not be written. The text says why.
    Write(String),
    /// The object has none of the given identifier, and the caller will not
    /// have its file at a place made without it.
    MissingIdentifier(Identifier),
}

/// The mathematical value of a [`FileError`].
pub enum FileErrorModel {
    Open(Seq<char>),
    Encode(Seq<char>),
    Transcode(Seq<char>),
    CreateDirectory(Seq<char>),
    Write(Seq<char>),
    MissingIdentifier(Identifier),
}

impl View for FileError {
    type V = FileErrorModel;

    open spec fn view(&self) -> FileErrorModel {
        match self {
            FileError::Open(words) => FileErrorModel::Open(words@),
            FileError::Encode(words) => FileErrorModel::Encode(words@),
            FileError::Transcode(words) => FileErrorModel::Transcode(words@),
            FileError::CreateDirectory(words) => FileErrorModel::CreateDirectory(words@),
            FileError::Write(words) => FileErrorModel::Write(words@),
            FileError::MissingIdentifier(which) => FileErrorModel::MissingIdentifier(*which),
        }
    }
}

/// The name of an identifier.
pub open spec fn identifier_name(which: Identifier) -> Seq<char> {
    match which {
        Identifier::PatientId => "patient ID"@,
        Identifier::StudyUid => "study instance UID"@,
        Identifier::SeriesUid => "series instance UID"@,
        Identifier::SopInstanceUid => "SOP instance UID"@,
    }
}

/// What is said of a file that was passed over: which step failed, a colon
/// and a space, and the words of the failure or the name of what is missing.
pub open spec fn description_spec(error: FileErrorModel) -> Seq<char> {
    match error {
        FileErrorModel::Open(words) => "Error opening file: "@ + words,
        FileErrorModel::Encode(words) => "Error writing to buffer: "@ + words,
        FileErrorModel::Transcode(words) => "Error during transcoding: "@ + words,
        FileErrorModel::CreateDirectory(words) => "Error creating directory: "@ + words,
        FileErrorModel::Write(words) => "Error writing file: "@ + words,
        FileErrorModel::MissingIdentifier(which) => "Missing identifier: "@ + identifier_name(
            which,
        ),
    }
}

impl FileError {
    /// What is said of a file that was passed over for this reason.
    pub fn describe(&self) -> (description: String)
        ensures
            description@ == description_spec(self@),
    {
        let (mut description, words) = match self {
            FileError::Open(words) => (String::from_str("Error opening file: "), words.as_str()),
            FileError::Encode(words) => (
                String::from_str("Error writing to buffer: "),
                words.as_str(),
            ),
            FileError::Transcode(words) => (
                String::from_str("Error during transcoding: "),
                words.as_str(),
            ),
            FileError::CreateDirectory(words) => (
                String::from_str("Error creating directory: "),
                words.as_str(),
            ),
            FileError::Write(words) => (String::from_str("Error writing file: "), words.as_str()),
            FileError::MissingIdentifier(which) => (
                String::from_str("Missing identifier: "),
                match which {
                    Identifier::PatientId => "patient ID",
                    Identifier::StudyUid => "study instance UID",
                    Identifier::SeriesUid => "series instance UID",
                    Identifier::SopInstanceUid => "SOP instance UID",
                },
            ),
        };
        description.append(words);
        description
    }

    /// A copy of the error.
    pub fn duplicate(&self) -> (copy: FileError)
        ensures
            copy@ == self@,
    {
        match self {
            FileError::Open(words) => FileError::Open(words.clone()),
            FileError::Encode(words) => FileError::Encode(words.clone()),
            FileError::Transcode(words) => FileError::Transcode(words.clone()),
            FileError::CreateDirectory(words) => FileError::CreateDirectory(words.clone()),
            FileError::Write(words) => FileError::Write(words.clone()),
            FileError::MissingIdentifier(which) => FileError::MissingIdentifier(*which),
        }
    }
}

} // verus!
