[package]
name = "dicom_batch"
version = "0.1.0"
edition = "2021"
publish = false

[dependencies]
clap = { version = "4", features = ["derive"] }
dicom = "*"
dicom-core = "*"
dicom-dictionary-std = "*"
dicom-encoding = "*"
dicom-object = "*"
dicom-transfer-syntax-registry = "*"
gdcm_conv = "*"
rayon = "1"
serde = { version = "1", features = ["derive"] }
serde_json = "1"
