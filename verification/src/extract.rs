//! What an extractor decides for each record: the path it writes to, and the
//! next thing to do given how far the record has come. The caller performs the
//! actions and tells how each one went.

use vstd::prelude::*;
use vstd::string::{StrSliceExecFns, StringExecFns};
use crate::block::{NamedPayload, NamedPayloadView};
use crate::report::{spec_status_line, status_line};

verus! {

/// A path made relative to the extraction root: one leading `/` is dropped,
/// anything else is kept as it is. Segments that walk upward are not touched.
pub open spec fn spec_normalize(path: Seq<char>) -> Seq<char> {
    if path.len() > 0 && path[0] == '/' {
        path.skip(1)
    } else {
        path
    }
}

/// Makes a path relative to the extraction root.
pub fn normalize_path(path: &str) -> (r: &str)
    ensures
        r@ == spec_normalize(path@),
{
    let n: usize = path.unicode_len();
    if n > 0 && path.get_char(0) == '/' {
        path.substring_char(1, n)
    } else {
        path
    }
}

/// How far the extraction of one record has come.
#[derive(Debug, Clone, Copy, PartialEq, Eq, Structural)]
pub enum Phase {
    /// Nothing has happened yet.
    Pending,
    /// The status line is out.
    Reported,
    /// Dry run: the record is finished and the disk untouched.
    DryRunDone,
    /// The parent directory exists.
    DirEnsured,
    /// The payload is on disk: the record is finished.
    Written,
    /// An action failed: the whole run stops here.
    Failed,
}

/// What the caller is to do next for a record.
#[derive(Debug, Clone)]
pub enum Action {
    /// Print this status line.
    Report(String),
    /// Nothing to perform; move on to the next phase.
    Skip,
    /// Create the parent directory of this path, with all missing ancestors.
    EnsureParent(String),
    /// Write the record's payload to this path, replacing what is there.
    Write(String),
    /// The record is finished; take the next one.
    NextRecord,
    /// Stop the run and report the failure.
    Abort,
}

/// An action as a mathematical value.
pub enum ActionView {
    Report(Seq<char>),
    Skip,
    EnsureParent(Seq<char>),
    Write(Seq<char>),
    NextRecord,
    Abort,
}

impl View for Action {
    type V = ActionView;

    open spec fn view(&self) -> ActionView {
        match self {
            Action::Report(line) => ActionView::Report(line@),
            Action::Skip => ActionView::Skip,
            Action::EnsureParent(path) => ActionView::EnsureParent(path@),
            Action::Write(path) => ActionView::Write(path@),
            Action::NextRecord => ActionView::NextRecord,
            Action::Abort => ActionView::Abort,
        }
    }
}

/// Whether an action changes the disk.
pub open spec fn spec_touches_disk(action: ActionView) -> bool {
    action is EnsureParent || action is Write
}

/// The action that a phase calls for.
pub open spec fn spec_action(
    phase: Phase,
    dry_run: bool,
    index: nat,
    record: NamedPayloadView,
) -> ActionView {
    match phase {
        Phase::Pending => ActionView::Report(spec_status_line(index, record)),
        Phase::Reported => if dry_run {
            ActionView::Skip
        } else {
            ActionView::EnsureParent(spec_normalize(record.file_name))
        },
        Phase::DirEnsured => if dry_run {
            ActionView::Skip
        } else {
            ActionView::Write(spec_normalize(record.file_name))
        },
        Phase::DryRunDone => ActionView::NextRecord,
        Phase::Written => ActionView::NextRecord,
        Phase::Failed => ActionView::Abort,
    }
}

/// The phase that follows once the action of `phase` has been performed and
/// has succeeded or not. A failure is final, and so is a finished record.
pub open spec fn spec_advance(phase: Phase, dry_run: bool, succeeded: bool) -> Phase {
    match phase {
        Phase::DryRunDone => Phase::DryRunDone,
        Phase::Written => Phase::Written,
        Phase::Failed => Phase::Failed,
        Phase::Pending => if succeeded {
            Phase::Reported
        } else {
            Phase::Failed
        },
        Phase::Reported => if !succeeded {
            Phase::Failed
        } else if dry_run {
            Phase::DryRunDone
        } else {
            Phase::DirEnsured
        },
        Phase::DirEnsured => if !succeeded {
            Phase::Failed
        } else if dry_run {
            Phase::DryRunDone
        } else {
            Phase::Written
        },
    }
}

/// The phase reached from `Pending` after the given outcomes, oldest first.
pub open spec fn spec_phase_after(dry_run: bool, outcomes: Seq<bool>) -> Phase
    decreases outcomes.len(),
{
    if outcomes.len() == 0 {
        Phase::Pending
    } else {
        spec_advance(spec_phase_after(dry_run, outcomes.drop_last()), dry_run, outcomes.last())
    }
}

/// Says what to do next for the record at `index`.
pub fn next_action(phase: Phase, dry_run: bool, index: usize, record: &NamedPayload) -> (a: Action)
    ensures
        a@ == spec_action(phase, dry_run, index as nat, record@),
{
    match phase {
        Phase::Pending => Action::Report(status_line(index, record)),
        Phase::Reported => if dry_run {
            Action::Skip
        } else {
            Action::EnsureParent(String::from_str(normalize_path(record.file_name.as_str())))
        },
        Phase::DirEnsured => if dry_run {
            Action::Skip
        } else {
            Action::Write(String::from_str(normalize_path(record.file_name.as_str())))
        },
        Phase::DryRunDone => Action::NextRecord,
        Phase::Written => Action::NextRecord,
        Phase::Failed => Action::Abort,
    }
}

/// Moves a record on after its action was performed.
pub fn advance(phase: Phase, dry_run: bool, succeeded: bool) -> (next: Phase)
    ensures
        next == spec_advance(phase, dry_run, succeeded),
{
    match phase {
        Phase::DryRunDone => Phase::DryRunDone,
        Phase::Written => Phase::Written,
        Phase::Failed => Phase::Failed,
        Phase::Pending => if succeeded {
            Phase::Reported
        } else {
            Phase::Failed
        },
        Phase::Reported => if !succeeded {
            Phase::Failed
        } else if dry_run {
            Phase::DryRunDone
        } else {
            Phase::DirEnsured
        },
        Phase::DirEnsured => if !succeeded {
            Phase::Failed
        } else if dry_run {
            Phase::DryRunDone
        } else {
            Phase::Written
        },
    }
}

/// Dry run: whatever the outcomes so far, a record in a dry run is never in a
/// phase that belongs to writing, and no action it is asked for touches the
/// disk; its status line is the one that a normal run prints.
pub proof fn lemma_dry_run_leaves_disk_alone(outcomes: Seq<bool>, index: nat, record: NamedPayloadView)
    ensures
        spec_phase_after(true, outcomes) != Phase::DirEnsured,
        spec_phase_after(true, outcomes) != Phase::Written,
        !spec_touches_disk(spec_action(spec_phase_after(true, outcomes), true, index, record)),
        spec_action(Phase::Pending, true, index, record) == spec_action(
            Phase::Pending,
            false,
            index,
            record,
        ),
    decreases outcomes.len(),
{
    if outcomes.len() > 0 {
        lemma_dry_run_leaves_disk_alone(outcomes.drop_last(), index, record);
    }
}

/// Every record that is reported is reported alike: the first action of a
/// record is its status line, in both modes.
pub proof fn lemma_first_action_reports(dry_run: bool, index: nat, record: NamedPayloadView)
    ensures
        spec_action(spec_phase_after(dry_run, Seq::empty()), dry_run, index, record)
            == ActionView::Report(spec_status_line(index, record)),
{
}

/// A normal run in which every action succeeds goes through report, directory
/// and write in that order, and writes to the normalized path.
pub proof fn lemma_normal_run_order(index: nat, record: NamedPayloadView)
    ensures
        spec_phase_after(false, seq![true]) == Phase::Reported,
        spec_phase_after(false, seq![true, true]) == Phase::DirEnsured,
        spec_phase_after(false, seq![true, true, true]) == Phase::Written,
        spec_action(Phase::Reported, false, index, record) == ActionView::EnsureParent(
            spec_normalize(record.file_name),
        ),
        spec_action(Phase::DirEnsured, false, index, record) == ActionView::Write(
            spec_normalize(record.file_name),
        ),
{
    reveal_with_fuel(spec_phase_after, 4);
    assert(seq![true].drop_last() =~= Seq::<bool>::empty());
    assert(seq![true, true].drop_last() =~= seq![true]);
    assert(seq![true, true, true].drop_last() =~= seq![true, true]);
}

/// Fail fast: once an action has failed, the record stays failed and the only
/// thing asked for is to stop.
pub proof fn lemma_failure_is_final(
    dry_run: bool,
    outcomes: Seq<bool>,
    later: Seq<bool>,
    index: nat,
    record: NamedPayloadView,
)
    requires
        spec_phase_after(dry_run, outcomes) == Phase::Failed,
    ensures
        spec_phase_after(dry_run, outcomes + later) == Phase::Failed,
        spec_action(spec_phase_after(dry_run, outcomes + later), dry_run, index, record)
            == ActionView::Abort,
    decreases later.len(),
{
    if later.len() == 0 {
        assert(outcomes + later =~= outcomes);
    } else {
        lemma_failure_is_final(dry_run, outcomes, later.drop_last(), index, record);
        assert((outcomes + later).drop_last() =~= outcomes + later.drop_last());
    }
}

/// Normalization drops exactly one leading separator and nothing else: a path
/// with one is its normalized form behind a `/`, a path without one is kept.
pub proof fn lemma_normalize_strips_one(path: Seq<char>)
    ensures
        path.len() > 0 && path[0] == '/' ==> seq!['/'] + spec_normalize(path) == path,
        !(path.len() > 0 && path[0] == '/') ==> spec_normalize(path) == path,
{
    if path.len() > 0 && path[0] == '/' {
        assert(seq!['/'] + spec_normalize(path) =~= path);
    }
}

} // verus!
