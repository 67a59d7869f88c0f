use vstd::prelude::*;
use crate::paths::{directory_of, parent_dir};
use crate::run::{MusicFile, MusicItems};
use crate::validate::{directory_exists, file_exists, is_directory_kind, is_file_kind, EntryKind};

verus! {

/// How the copy of one file ended.
#[derive(Clone, Copy, Debug, PartialEq, Eq, Structural)]
pub enum CopyOutcome {
    Copied,
    Skipped,
    Failed,
}

/// Where the copy of one file stands.
#[derive(Clone, Copy, Debug, PartialEq, Eq, Structural)]
pub enum CopyStep {
    /// Look whether the destination's directory exists.
    CheckParent,
    /// Create the destination's directory and its missing ancestors.
    CreateParent,
    /// Look again whether the destination's directory exists.
    RecheckParent,
    /// Look whether a file already stands at the destination.
    CheckDestination,
    /// Copy the source to the destination.
    CopyFile,
    /// Nothing is left to do for this file.
    Done(CopyOutcome),
}

/// What the caller observed when it carried out an action.
#[derive(Clone, Copy, Debug, PartialEq, Eq, Structural)]
pub enum CopyEvent {
    /// A query reported this kind of entry at the path.
    Found(EntryKind),
    /// A creation or a copy was attempted, and succeeded or not.
    Attempted(bool),
}

/// What the caller is to do next for one file.
#[derive(Debug)]
pub enum CopyAction {
    /// Query the entry kind of this directory path.
    StatDirectory(String),
    /// Create this directory and all its missing ancestors.
    CreateDirectory(String),
    /// Query the entry kind of this file path.
    StatFile(String),
    /// Copy the file at `from` to `to`.
    CopyFile { from: String, to: String },
    /// Count this outcome; the file is done.
    Finish(CopyOutcome),
}

/// The step that follows `step` once `event` was observed. An event that
/// does not answer the step leaves it where it is.
pub open spec fn step_after(step: CopyStep, event: CopyEvent) -> CopyStep {
    match (step, event) {
        (CopyStep::CheckParent, CopyEvent::Found(k)) => if is_directory_kind(k) {
            CopyStep::CheckDestination
        } else {
            CopyStep::CreateParent
        },
        (CopyStep::CreateParent, CopyEvent::Attempted(_)) => CopyStep::RecheckParent,
        (CopyStep::RecheckParent, CopyEvent::Found(k)) => if is_directory_kind(k) {
            CopyStep::CheckDestination
        } else {
            CopyStep::Done(CopyOutcome::Failed)
        },
        (CopyStep::CheckDestination, CopyEvent::Found(k)) => if is_file_kind(k) {
            CopyStep::Done(CopyOutcome::Skipped)
        } else {
            CopyStep::CopyFile
        },
        (CopyStep::CopyFile, CopyEvent::Attempted(ok)) => if ok {
            CopyStep::Done(CopyOutcome::Copied)
        } else {
            CopyStep::Done(CopyOutcome::Failed)
        },
        _ => step,
    }
}

/// The first step of every file's copy.
pub fn start_copy() -> (r: CopyStep)
    ensures
        r == CopyStep::CheckParent,
{
    CopyStep::CheckParent
}

/// Advances the copy of one file by what the caller observed.
pub fn next_step(step: CopyStep, event: CopyEvent) -> (r: CopyStep)
    ensures
        r == step_after(step, event),
{
    match (step, event) {
        (CopyStep::CheckParent, CopyEvent::Found(k)) => {
            if directory_exists(k) {
                CopyStep::CheckDestination
            } else {
                CopyStep::CreateParent
            }
        },
        (CopyStep::CreateParent, CopyEvent::Attempted(_)) => CopyStep::RecheckParent,
        (CopyStep::RecheckParent, CopyEvent::Found(k)) => {
            if directory_exists(k) {
                CopyStep::CheckDestination
            } else {
                CopyStep::Done(CopyOutcome::Failed)
            }
        },
        (CopyStep::CheckDestination, CopyEvent::Found(k)) => {
            if file_exists(k) {
                CopyStep::Done(CopyOutcome::Skipped)
            } else {
                CopyStep::CopyFile
            }
        },
        (CopyStep::CopyFile, CopyEvent::Attempted(ok)) => {
            if ok {
                CopyStep::Done(CopyOutcome::Copied)
            } else {
                CopyStep::Done(CopyOutcome::Failed)
            }
        },
        _ => step,
    }
}

/// The action that carries out `step` for `file`.
pub fn copy_action(file: &MusicFile, step: CopyStep) -> (r: CopyAction)
    ensures
        match r {
            CopyAction::StatDirectory(p) => (step is CheckParent || step is RecheckParent)
                && p@ == directory_of(file.dest_file@),
            CopyAction::CreateDirectory(p) => step is CreateParent && p@ == directory_of(
                file.dest_file@,
            ),
            CopyAction::StatFile(p) => step is CheckDestination && p@ == file.dest_file@,
            CopyAction::CopyFile { from, to } => step is CopyFile && from@ == file.source_file@
                && to@ == file.dest_file@,
            CopyAction::Finish(o) => step == CopyStep::Done(o),
        },
{
    match step {
        CopyStep::CheckParent | CopyStep::RecheckParent => CopyAction::StatDirectory(
            parent_dir(file.dest_file.as_str()),
        ),
        CopyStep::CreateParent => CopyAction::CreateDirectory(parent_dir(file.dest_file.as_str())),
        CopyStep::CheckDestination => CopyAction::StatFile(file.dest_file.clone()),
        CopyStep::CopyFile => CopyAction::CopyFile {
            from: file.source_file.clone(),
            to: file.dest_file.clone(),
        },
        CopyStep::Done(o) => CopyAction::Finish(o),
    }
}

impl MusicItems {
    /// How many files have been through the copy stage.
    pub open spec fn processed_spec(&self) -> int {
        self.music_files_copied + self.music_files_skipped + self.music_files_failed
    }

    /// `self` with one more file counted under `outcome`.
    pub open spec fn with_outcome(self, outcome: CopyOutcome) -> MusicItems {
        match outcome {
            CopyOutcome::Copied => MusicItems {
                music_files_copied: (self.music_files_copied + 1) as usize,
                ..self
            },
            CopyOutcome::Skipped => MusicItems {
                music_files_skipped: (self.music_files_skipped + 1) as usize,
                ..self
            },
            CopyOutcome::Failed => MusicItems {
                music_files_failed: (self.music_files_failed + 1) as usize,
                ..self
            },
        }
    }

    /// How many files have been through the copy stage.
    pub fn processed(&self) -> (r: usize)
        requires
            self.wf(),
        ensures
            r == self.processed_spec(),
    {
        self.music_files_copied + self.music_files_skipped + self.music_files_failed
    }

    /// Counts one file's outcome; each found file is counted once.
    pub fn record_copy(&mut self, outcome: CopyOutcome)
        requires
            old(self).wf(),
            old(self).processed_spec() < old(self).music_files_found,
        ensures
            final(self).wf(),
            *final(self) == old(self).with_outcome(outcome),
    {
        match outcome {
            CopyOutcome::Copied => self.music_files_copied = self.music_files_copied + 1,
            CopyOutcome::Skipped => self.music_files_skipped = self.music_files_skipped + 1,
            CopyOutcome::Failed => self.music_files_failed = self.music_files_failed + 1,
        }
    }
}

/// The run state after counting `outcomes` in order.
pub open spec fn after_outcomes(items: MusicItems, outcomes: Seq<CopyOutcome>) -> MusicItems
    decreases outcomes.len(),
{
    if outcomes.len() == 0 {
        items
    } else {
        after_outcomes(items, outcomes.drop_last()).with_outcome(outcomes.last())
    }
}

/// How many of `outcomes` equal `o`.
pub open spec fn count_of(outcomes: Seq<CopyOutcome>, o: CopyOutcome) -> nat
    decreases outcomes.len(),
{
    if outcomes.len() == 0 {
        0
    } else {
        count_of(outcomes.drop_last(), o) + if outcomes.last() == o {
            1nat
        } else {
            0nat
        }
    }
}

proof fn lemma_after_outcomes_counts(items: MusicItems, outcomes: Seq<CopyOutcome>)
    requires
        items.wf(),
        items.processed_spec() + outcomes.len() <= items.music_files_found,
    ensures
        after_outcomes(items, outcomes).wf(),
        after_outcomes(items, outcomes).music_files_found == items.music_files_found,
        after_outcomes(items, outcomes).music_files_copied == items.music_files_copied
            + count_of(outcomes, CopyOutcome::Copied),
        after_outcomes(items, outcomes).music_files_skipped == items.music_files_skipped
            + count_of(outcomes, CopyOutcome::Skipped),
        after_outcomes(items, outcomes).music_files_failed == items.music_files_failed
            + count_of(outcomes, CopyOutcome::Failed),
        after_outcomes(items, outcomes).processed_spec() == items.processed_spec()
            + outcomes.len(),
    decreases outcomes.len(),
{
    if outcomes.len() > 0 {
        lemma_after_outcomes_counts(items, outcomes.drop_last());
    }
}

/// Once every found file has been counted exactly once, the copied, skipped
/// and failed counts add up to the found count.
pub proof fn lemma_counter_conservation(items: MusicItems, outcomes: Seq<CopyOutcome>)
    requires
        items.wf(),
        items.music_files_copied == 0,
        items.music_files_skipped == 0,
        items.music_files_failed == 0,
        outcomes.len() == items.music_files_found,
    ensures
        after_outcomes(items, outcomes).music_files_copied + after_outcomes(
            items,
            outcomes,
        ).music_files_skipped + after_outcomes(items, outcomes).music_files_failed
            == after_outcomes(items, outcomes).music_files_found,
        after_outcomes(items, outcomes).music_files_found == items.music_files_found,
{
    lemma_after_outcomes_counts(items, outcomes);
}

/// How a file's copy ends once its directory is in place: skipped where a
/// file already stands at the destination, else copied or failed as the copy
/// went.
pub open spec fn destination_outcome(exists: bool, copy_ok: bool) -> CopyOutcome {
    if exists {
        CopyOutcome::Skipped
    } else if copy_ok {
        CopyOutcome::Copied
    } else {
        CopyOutcome::Failed
    }
}

/// From the destination check on, the steps end in `destination_outcome`.
pub proof fn lemma_destination_steps(kind: EntryKind, copy_ok: bool)
    ensures
        is_file_kind(kind) ==> step_after(CopyStep::CheckDestination, CopyEvent::Found(kind))
            == CopyStep::Done(destination_outcome(true, copy_ok)),
        !is_file_kind(kind) ==> step_after(
            step_after(CopyStep::CheckDestination, CopyEvent::Found(kind)),
            CopyEvent::Attempted(copy_ok),
        ) == CopyStep::Done(destination_outcome(false, copy_ok)),
{
}

/// A run of the copy stage over `dests` in order, against the set of paths
/// at which a file already stands: the outcomes, and the set afterwards.
/// `copy_ok[i]` says whether copying file `i` would succeed.
pub open spec fn copy_run(
    dests: Seq<Seq<char>>,
    existing: Set<Seq<char>>,
    copy_ok: Seq<bool>,
) -> (Seq<CopyOutcome>, Set<Seq<char>>)
    decreases dests.len(),
{
    if dests.len() == 0 {
        (Seq::empty(), existing)
    } else {
        let (outs, present) = copy_run(dests.drop_last(), existing, copy_ok);
        let d = dests.last();
        let o = destination_outcome(present.contains(d), copy_ok[dests.len() - 1]);
        (outs.push(o), if o is Copied {
            present.insert(d)
        } else {
            present
        })
    }
}

proof fn lemma_copy_run_grows(dests: Seq<Seq<char>>, existing: Set<Seq<char>>, copy_ok: Seq<bool>)
    ensures
        copy_run(dests, existing, copy_ok).0.len() == dests.len(),
        existing.subset_of(copy_run(dests, existing, copy_ok).1),
        forall|i: int|
            0 <= i < dests.len() && copy_run(dests, existing, copy_ok).0[i]
                != CopyOutcome::Failed ==> copy_run(dests, existing, copy_ok).1.contains(
                #[trigger] dests[i],
            ),
    decreases dests.len(),
{
    if dests.len() > 0 {
        let prev = dests.drop_last();
        lemma_copy_run_grows(prev, existing, copy_ok);
        let run = copy_run(dests, existing, copy_ok);
        let (outs, present) = copy_run(prev, existing, copy_ok);
        assert(present.subset_of(run.1));
        assert forall|i: int|
            0 <= i < dests.len() && run.0[i] != CopyOutcome::Failed implies run.1.contains(
                #[trigger] dests[i],
            ) by {
            if i < dests.len() - 1 {
                assert(run.0[i] == outs[i]);
                assert(prev[i] == dests[i]);
            }
        }
    }
}

proof fn lemma_copy_run_all_present(
    dests: Seq<Seq<char>>,
    existing: Set<Seq<char>>,
    copy_ok: Seq<bool>,
)
    requires
        forall|i: int| 0 <= i < dests.len() ==> existing.contains(#[trigger] dests[i]),
    ensures
        copy_run(dests, existing, copy_ok).0.len() == dests.len(),
        copy_run(dests, existing, copy_ok).1 == existing,
        forall|i: int|
            0 <= i < dests.len() ==> #[trigger] copy_run(dests, existing, copy_ok).0[i]
                == CopyOutcome::Skipped,
    decreases dests.len(),
{
    if dests.len() > 0 {
        let prev = dests.drop_last();
        assert forall|i: int| 0 <= i < prev.len() implies existing.contains(#[trigger] prev[i]) by {
            assert(prev[i] == dests[i]);
        }
        lemma_copy_run_all_present(prev, existing, copy_ok);
        assert(existing.contains(dests[dests.len() - 1]));
    }
}

/// Running the copy stage a second time over the same destinations, after a
/// first run in which no copy failed, copies nothing and skips every file.
pub proof fn lemma_second_run_skips(
    items: MusicItems,
    dests: Seq<Seq<char>>,
    existing: Set<Seq<char>>,
    first_ok: Seq<bool>,
    second_ok: Seq<bool>,
)
    requires
        items.wf(),
        items.music_files_copied == 0,
        items.music_files_skipped == 0,
        items.music_files_failed == 0,
        items.music_files_found == dests.len(),
        forall|i: int|
            0 <= i < dests.len() ==> #[trigger] copy_run(dests, existing, first_ok).0[i]
                != CopyOutcome::Failed,
    ensures
        ({
            let second = copy_run(dests, copy_run(dests, existing, first_ok).1, second_ok).0;
            &&& after_outcomes(items, second).music_files_copied == 0
            &&& after_outcomes(items, second).music_files_failed == 0
            &&& after_outcomes(items, second).music_files_skipped == items.music_files_found
        }),
{
    let after_first = copy_run(dests, existing, first_ok).1;
    lemma_copy_run_grows(dests, existing, first_ok);
    lemma_copy_run_all_present(dests, after_first, second_ok);
    let second = copy_run(dests, after_first, second_ok).0;
    lemma_all_skipped_counts(second);
    lemma_after_outcomes_counts(items, second);
}

proof fn lemma_all_skipped_counts(outcomes: Seq<CopyOutcome>)
    requires
        forall|i: int| 0 <= i < outcomes.len() ==> #[trigger] outcomes[i] == CopyOutcome::Skipped,
    ensures
        count_of(outcomes, CopyOutcome::Skipped) == outcomes.len(),
        count_of(outcomes, CopyOutcome::Copied) == 0,
        count_of(outcomes, CopyOutcome::Failed) == 0,
    decreases outcomes.len(),
{
    if outcomes.len() > 0 {
        let prev = outcomes.drop_last();
        assert forall|i: int| 0 <= i < prev.len() implies #[trigger] prev[i]
            == CopyOutcome::Skipped by {
            assert(prev[i] == outcomes[i]);
        }
        lemma_all_skipped_counts(prev);
        assert(outcomes.last() == outcomes[outcomes.len() - 1]);
    }
}

} // verus!
