use dicom_batch::readiness::{probe_plan, ProbeAction, ProbeState, ReadinessError};
use std::collections::BTreeSet;

// A file system of paths in memory: directories and files, each by its path.
struct Files {
    directories: BTreeSet<String>,
    files: BTreeSet<String>,
    read_only: bool,
}

impl Files {
    fn new() -> Files {
        Files { directories: BTreeSet::new(), files: BTreeSet::new(), read_only: false }
    }

    fn create_dir_all(&mut self, path: &str) -> bool {
        if self.read_only {
            return false;
        }
        let mut prefix = String::new();
        for (index, segment) in path.split('/').enumerate() {
            if index > 0 {
                prefix.push('/');
            }
            prefix.push_str(segment);
            if self.files.contains(&prefix) {
                return false;
            }
            self.directories.insert(prefix.clone());
        }
        true
    }

    fn write(&mut self, path: &str) -> bool {
        let parent = &path[..path.rfind('/').unwrap()];
        if self.read_only || !self.directories.contains(parent) {
            return false;
        }
        self.files.insert(path.to_string());
        true
    }

    fn remove_dir_all(&mut self, path: &str) -> bool {
        if self.read_only || !self.directories.contains(path) {
            return false;
        }
        let below = format!("{}/", path);
        self.directories.retain(|entry| entry != path && !entry.starts_with(&below));
        self.files.retain(|entry| !entry.starts_with(&below));
        true
    }

    fn below(&self, path: &str) -> Vec<String> {
        let below = format!("{}/", path);
        self.directories
            .iter()
            .chain(self.files.iter())
            .filter(|entry| *entry == path || entry.starts_with(&below))
            .cloned()
            .collect()
    }
}

fn probe(files: &mut Files, dest_root: &str, run_id: Option<&str>) -> Result<(), ReadinessError> {
    let plan = probe_plan(dest_root, run_id);
    let mut state = ProbeState::new();
    while let Some(action) = state.next_action() {
        let done = match action {
            ProbeAction::CreateDirectories => files.create_dir_all(&plan.marker_directory),
            ProbeAction::WriteMarker => files.write(&plan.marker_file),
            ProbeAction::RemoveRunRoot => files.remove_dir_all(&plan.run_root),
        };
        state = state.advance(done);
    }
    state.verdict().unwrap()
}

#[test]
fn stale_files_of_a_run_are_gone_after_the_probe() {
    let mut files = Files::new();
    assert!(files.create_dir_all("out/run1/PAT1/1.2/1.2.3"));
    assert!(files.write("out/run1/PAT1/1.2/1.2.3/old.dcm"));
    assert!(files.write("out/run1/left.txt"));
    assert!(files.create_dir_all("out/run2"));
    assert!(files.write("out/run2/keep.dcm"));

    assert_eq!(probe(&mut files, "out", Some("run1")), Ok(()));

    assert!(files.below("out/run1").is_empty());
    assert_eq!(files.below("out/run2"), vec!["out/run2", "out/run2/keep.dcm"]);
}

#[test]
fn probe_twice_leaves_the_destination_as_after_the_first() {
    let mut files = Files::new();
    assert!(files.create_dir_all("out"));
    assert_eq!(probe(&mut files, "out", None), Ok(()));
    let after_first = files.below("out");
    assert_eq!(after_first, vec!["out"]);
    assert_eq!(probe(&mut files, "out", None), Ok(()));
    assert_eq!(files.below("out"), after_first);
}

#[test]
fn probe_of_a_destination_that_cannot_be_made() {
    let mut files = Files::new();
    assert!(files.create_dir_all("out"));
    assert!(files.write("out/run"));
    assert_eq!(
        probe(&mut files, "out", Some("run")),
        Err(ReadinessError::DestinationUnavailable)
    );
    files.read_only = true;
    assert_eq!(
        probe(&mut files, "elsewhere", Some("run")),
        Err(ReadinessError::DestinationUnavailable)
    );
}
