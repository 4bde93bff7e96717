use dicom_batch::readiness::{
    probe_plan, ProbeAction, ProbeState, ReadinessError, DEFAULT_RUN_ID,
};

fn run(results: &[bool]) -> (Vec<ProbeAction>, ProbeState) {
    let mut state = ProbeState::new();
    let mut actions = Vec::new();
    let mut results = results.iter();
    while let Some(action) = state.next_action() {
        actions.push(action);
        state = state.advance(*results.next().unwrap());
    }
    (actions, state)
}

#[test]
fn probe_paths() {
    let plan = probe_plan("/mnt/out", Some("run7"));
    assert_eq!(plan.run_root, "/mnt/out/run7");
    assert_eq!(plan.marker_directory, "/mnt/out/run7/2222/3333");
    assert_eq!(plan.marker_file, "/mnt/out/run7/2222/3333/12345.99.txt");
    assert_eq!(plan.marker_content, "test");
}

#[test]
fn probe_paths_of_a_run_without_a_name() {
    let plan = probe_plan("out", None);
    assert_eq!(DEFAULT_RUN_ID, "starSky14kWAKAME2k10X");
    assert_eq!(plan.run_root, "out/starSky14kWAKAME2k10X");
    assert_eq!(plan.marker_directory, "out/starSky14kWAKAME2k10X/2222/3333");
    assert_eq!(plan.marker_file, "out/starSky14kWAKAME2k10X/2222/3333/12345.99.txt");
}

#[test]
fn probe_leaves_nothing_outside_the_root_of_the_run() {
    for (root, id) in [("", Some("")), ("a/b", Some("c")), ("/x", None)] {
        let plan = probe_plan(root, id);
        assert!(plan.marker_directory.starts_with(&format!("{}/", plan.run_root)));
        assert!(plan.marker_file.starts_with(&format!("{}/", plan.marker_directory)));
    }
}

#[test]
fn probe_that_succeeds() {
    let (actions, state) = run(&[true, true, true]);
    assert_eq!(
        actions,
        vec![ProbeAction::CreateDirectories, ProbeAction::WriteMarker, ProbeAction::RemoveRunRoot]
    );
    assert_eq!(state, ProbeState::Ready);
    assert_eq!(state.verdict(), Some(Ok(())));
}

#[test]
fn probe_run_twice_takes_the_same_course() {
    let first = run(&[true, true, true]);
    let second = run(&[true, true, true]);
    assert_eq!(first, second);
    assert_eq!(probe_plan("d", Some("r")).run_root, probe_plan("d", Some("r")).run_root);
}

#[test]
fn probe_that_fails() {
    let (actions, state) = run(&[false]);
    assert_eq!(actions, vec![ProbeAction::CreateDirectories]);
    assert_eq!(state.verdict(), Some(Err(ReadinessError::DestinationUnavailable)));

    let (actions, state) = run(&[true, false]);
    assert_eq!(actions, vec![ProbeAction::CreateDirectories, ProbeAction::WriteMarker]);
    assert_eq!(state.verdict(), Some(Err(ReadinessError::DestinationNotWritable)));

    let (actions, state) = run(&[true, true, false]);
    assert_eq!(actions.len(), 3);
    assert_eq!(state, ProbeState::Failed(ReadinessError::DestinationNotWritable));
}

#[test]
fn probe_that_is_over_stays_as_it_is() {
    assert_eq!(ProbeState::Ready.advance(false), ProbeState::Ready);
    assert_eq!(ProbeState::Ready.next_action(), None);
    let failed = ProbeState::Failed(ReadinessError::DestinationUnavailable);
    assert_eq!(failed.advance(true), failed);
    assert_eq!(failed.next_action(), None);
    assert_eq!(ProbeState::Start.verdict(), None);
    assert_eq!(ProbeState::Created.verdict(), None);
    assert_eq!(ProbeState::Marked.verdict(), None);
}
