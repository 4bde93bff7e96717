//! Probing the destination before a batch: can it be written to, and is
//! nothing left there of an earlier run with the same name.
//!
//! The probe makes a directory deep below the root of the run, writes a
//! marker file into it, and removes the root of the run with all that is
//! below it. The three actions are the caller's; which comes next, and what
//! a failure means, is decided here.

use vstd::prelude::*;

verus! {

/// The name of a run for which none is given.
pub const DEFAULT_RUN_ID: &'static str = "starSky14kWAKAME2k10X";

/// The paths of a probe.
#[derive(Debug)]
pub struct ProbePlan {
    /// The root of the run: removed last, with all that is below it.
    pub run_root: String,
    /// The directory to make, with all that lead to it.
    pub marker_directory: String,
    /// The file to write into that directory.
    pub marker_file: String,
    /// What to write into the file.
    pub marker_content: String,
}

/// The name of the run: the one given, or the default.
pub open spec fn run_id_spec(run_id: Option<Seq<char>>) -> Seq<char> {
    match run_id {
        Some(id) => id,
        None => DEFAULT_RUN_ID@,
    }
}

/// The root of a run under a destination root.
pub open spec fn run_root_spec(dest_root: Seq<char>, run_id: Option<Seq<char>>) -> Seq<char> {
    dest_root + "/"@ + run_id_spec(run_id)
}

/// The directory of the marker file.
pub open spec fn marker_directory_spec(dest_root: Seq<char>, run_id: Option<Seq<char>>) -> Seq<
    char,
> {
    run_root_spec(dest_root, run_id) + "/2222/3333"@
}

/// The marker file.
pub open spec fn marker_file_spec(dest_root: Seq<char>, run_id: Option<Seq<char>>) -> Seq<char> {
    marker_directory_spec(dest_root, run_id) + "/12345.99.txt"@
}

/// The view of an optional run name.
pub open spec fn run_id_view(run_id: Option<&str>) -> Option<Seq<char>> {
    match run_id {
        Some(id) => Some(id@),
        None => None,
    }
}

/// The paths of the probe of a destination for a run.
pub fn probe_plan(dest_root: &str, run_id: Option<&str>) -> (plan: ProbePlan)
    ensures
        plan.run_root@ == run_root_spec(dest_root@, run_id_view(run_id)),
        plan.marker_directory@ == marker_directory_spec(dest_root@, run_id_view(run_id)),
        plan.marker_file@ == marker_file_spec(dest_root@, run_id_view(run_id)),
        plan.marker_content@ == "test"@,
{
    let name = match run_id {
        Some(id) => id,
        None => DEFAULT_RUN_ID,
    };
    let mut run_root = String::from_str(dest_root);
    run_root.append("/");
    run_root.append(name);
    let mut marker_directory = run_root.clone();
    marker_directory.append("/2222/3333");
    let mut marker_file = marker_directory.clone();
    marker_file.append("/12345.99.txt");
    ProbePlan {
        run_root,
        marker_directory,
        marker_file,
        marker_content: String::from_str("test"),
    }
}

/// All that a probe makes lies below the root of the run, which it removes:
/// the marker directory is the root of the run with more segments behind it,
/// and the marker file lies in the marker directory.
pub proof fn lemma_probe_leaves_nothing(dest_root: Seq<char>, run_id: Option<Seq<char>>)
    ensures
        (run_root_spec(dest_root, run_id) + seq!['/']).is_prefix_of(
            marker_directory_spec(dest_root, run_id),
        ),
        (marker_directory_spec(dest_root, run_id) + seq!['/']).is_prefix_of(
            marker_file_spec(dest_root, run_id),
        ),
{
    reveal_strlit("/2222/3333");
    reveal_strlit("/12345.99.txt");
    let root = run_root_spec(dest_root, run_id);
    let directory = marker_directory_spec(dest_root, run_id);
    let file = marker_file_spec(dest_root, run_id);
    assert((root + seq!['/']) =~= directory.subrange(0, root.len() as int + 1));
    assert((directory + seq!['/']) =~= file.subrange(0, directory.len() as int + 1));
}

/// One action of a probe.
#[derive(Clone, Copy, Debug, PartialEq, Eq, Structural)]
pub enum ProbeAction {
    /// Make the marker directory, with all that lead to it.
    CreateDirectories,
    /// Write the marker file.
    WriteMarker,
    /// Remove the root of the run with all that is below it.
    RemoveRunRoot,
}

/// Why a destination is not ready.
#[derive(Clone, Copy, Debug, PartialEq, Eq, Structural)]
pub enum ReadinessError {
    /// The marker directory could not be made.
    DestinationUnavailable,
    /// The marker file could not be written, or the root of the run could
    /// not be removed.
    DestinationNotWritable,
}

/// How far a probe has come.
#[derive(Clone, Copy, Debug, PartialEq, Eq, Structural)]
pub enum ProbeState {
    /// Nothing was done yet.
    Start,
    /// The marker directory is there.
    Created,
    /// The marker file is written.
    Marked,
    /// The root of the run is removed: the destination is ready.
    Ready,
    /// An action failed: the destination is not ready.
    Failed(ReadinessError),
}

/// The action that comes next, if the probe is not over.
pub open spec fn next_action_spec(state: ProbeState) -> Option<ProbeAction> {
    match state {
        ProbeState::Start => Some(ProbeAction::CreateDirectories),
        ProbeState::Created => Some(ProbeAction::WriteMarker),
        ProbeState::Marked => Some(ProbeAction::RemoveRunRoot),
        ProbeState::Ready => None,
        ProbeState::Failed(_) => None,
    }
}

/// The state after the next action succeeded or failed. A probe that is over
/// stays as it is.
pub open spec fn advance_spec(state: ProbeState, succeeded: bool) -> ProbeState {
    match state {
        ProbeState::Start => if succeeded {
            ProbeState::Created
        } else {
            ProbeState::Failed(ReadinessError::DestinationUnavailable)
        },
        ProbeState::Created => if succeeded {
            ProbeState::Marked
        } else {
            ProbeState::Failed(ReadinessError::DestinationNotWritable)
        },
        ProbeState::Marked => if succeeded {
            ProbeState::Ready
        } else {
            ProbeState::Failed(ReadinessError::DestinationNotWritable)
        },
        ProbeState::Ready => ProbeState::Ready,
        ProbeState::Failed(error) => ProbeState::Failed(error),
    }
}

/// What a probe gave, once it is over.
pub open spec fn verdict_spec(state: ProbeState) -> Option<Result<(), ReadinessError>> {
    match state {
        ProbeState::Ready => Some(Ok(())),
        ProbeState::Failed(error) => Some(Err(error)),
        _ => None,
    }
}

impl ProbeState {
    /// The state of a probe before its first action.
    pub fn new() -> (state: ProbeState)
        ensures
            state == ProbeState::Start,
    {
        ProbeState::Start
    }

    /// The action that comes next; `None` once the probe is over.
    pub fn next_action(&self) -> (action: Option<ProbeAction>)
        ensures
            action == next_action_spec(*self),
    {
        match self {
            ProbeState::Start => Some(ProbeAction::CreateDirectories),
            ProbeState::Created => Some(ProbeAction::WriteMarker),
            ProbeState::Marked => Some(ProbeAction::RemoveRunRoot),
            ProbeState::Ready => None,
            ProbeState::Failed(_) => None,
        }
    }

    /// The state after the next action succeeded or failed.
    pub fn advance(self, succeeded: bool) -> (state: ProbeState)
        ensures
            state == advance_spec(self, succeeded),
    {
        match self {
            ProbeState::Start => if succeeded {
                ProbeState::Created
            } else {
                ProbeState::Failed(ReadinessError::DestinationUnavailable)
            },
            ProbeState::Created => if succeeded {
                ProbeState::Marked
            } else {
                ProbeState::Failed(ReadinessError::DestinationNotWritable)
            },
            ProbeState::Marked => if succeeded {
                ProbeState::Ready
            } else {
                ProbeState::Failed(ReadinessError::DestinationNotWritable)
            },
            ProbeState::Ready => ProbeState::Ready,
            ProbeState::Failed(error) => ProbeState::Failed(error),
        }
    }

    /// What the probe gave; `None` while it is not over.
    pub fn verdict(&self) -> (verdict: Option<Result<(), ReadinessError>>)
        ensures
            verdict == verdict_spec(*self),
    {
        match self {
            ProbeState::Ready => Some(Ok(())),
            ProbeState::Failed(error) => Some(Err(*error)),
            _ => None,
        }
    }
}

/// The state of a probe after the given results of its actions, one after
/// the other.
pub open spec fn probe_run(results: Seq<bool>) -> ProbeState
    decreases results.len(),
{
    if results.len() == 0 {
        ProbeState::Start
    } else {
        advance_spec(probe_run(results.drop_last()), results.last())
    }
}

/// A probe is the same every time: it makes the directory, writes the marker
/// and removes the root of the run, in this order, and the destination is
/// ready exactly when all three succeeded. The first action that fails ends
/// the probe, and no other action follows it.
pub proof fn lemma_probe_course(created: bool, marked: bool, removed: bool)
    ensures
        next_action_spec(probe_run(seq![])) == Some(ProbeAction::CreateDirectories),
        next_action_spec(probe_run(seq![true])) == Some(ProbeAction::WriteMarker),
        next_action_spec(probe_run(seq![true, true])) == Some(ProbeAction::RemoveRunRoot),
        next_action_spec(probe_run(seq![true, true, true])) is None,
        verdict_spec(probe_run(seq![created, marked, removed])) == Some(
            if !created {
                Err::<(), ReadinessError>(ReadinessError::DestinationUnavailable)
            } else if !marked || !removed {
                Err::<(), ReadinessError>(ReadinessError::DestinationNotWritable)
            } else {
                Ok::<(), ReadinessError>(())
            },
        ),
        !created ==> next_action_spec(probe_run(seq![created])) is None,
        !marked ==> next_action_spec(probe_run(seq![created, marked])) is None,
{
    let none = Seq::<bool>::empty();
    let one = seq![created];
    let two = seq![created, marked];
    let three = seq![created, marked, removed];
    assert(one.drop_last() =~= none);
    assert(two.drop_last() =~= one);
    assert(three.drop_last() =~= two);
    assert(probe_run(none) == ProbeState::Start);
    assert(probe_run(one) == advance_spec(ProbeState::Start, created));
    assert(probe_run(two) == advance_spec(probe_run(one), marked));
    assert(probe_run(three) == advance_spec(probe_run(two), removed));
    assert(seq![true].drop_last() =~= none);
    assert(seq![true, true].drop_last() =~= seq![true]);
    assert(seq![true, true, true].drop_last() =~= seq![true, true]);
    assert(probe_run(seq![true]) == ProbeState::Created);
    assert(probe_run(seq![true, true]) == ProbeState::Marked);
    assert(probe_run(seq![true, true, true]) == ProbeState::Ready);
}

} // verus!
