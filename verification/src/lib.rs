//! Batches over DICOM files: re-encoding each file into a directory layout
//! made of its identifiers, and gathering the files of a directory tree into
//! one JSON document of series and instances.
//!
//! The library decides and computes; it reads no file and writes none. What
//! it takes from `dicom_object` and `serde_json` stands in `dcmobj` and in
//! `json`, behind functions whose contracts are stated there and not proved.
//!
//! - `batch` holds the course of a batch: what is done in which order, and
//!   what ends it.
//! - `walker`, `readiness`, `transcode` and `report` carry a batch that
//!   re-encodes files: which directories to list, whether the destination is
//!   ready, what the engine is called with, where each result goes, and what
//!   became of each file.
//! - `scan`, `aggregate` and `json` build the aggregate document: the records
//!   of each file, their grouping and order, and the JSON text.
//! - `patient_info`, `study_info`, `series_info`, `image_info`, `dicom_info`
//!   and `dcm_meta` are data classes read from one object and written as
//!   tag-keyed records; `codec` and `record` are what they share.

pub mod aggregate;
pub mod aggregate_laws;
pub mod batch;
pub mod cli;
pub mod codec;
pub mod dcm_meta;
pub mod dcmobj;
pub mod dicom_info;
pub mod error;
pub mod image_info;
pub mod json;
pub mod order;
pub mod patient_info;
pub mod readiness;
pub mod record;
pub mod report;
pub mod scan;
pub mod series_info;
pub mod study_info;
pub mod tags;
pub mod text;
pub mod transcode;
pub mod walker;
pub mod walker_laws;
