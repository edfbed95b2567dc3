use vstd::prelude::*;

use crate::labels::{decimal, decimal_string};
use crate::model::{SortDirection, SortField, SortSpec};
use crate::model::opt_text;
use crate::sheets::plural;

verus! {

/// The sort after a click on a column header: the sorted column flips its
/// order, another column becomes the sorted one, ascending.
pub open spec fn spec_header_sort(sort: SortSpec, field: SortField) -> SortSpec {
    if sort.field == field {
        SortSpec {
            direction: match sort.direction {
                SortDirection::Ascending => SortDirection::Descending,
                SortDirection::Descending => SortDirection::Ascending,
            },
            ..sort
        }
    } else {
        SortSpec { field: field, direction: SortDirection::Ascending, ..sort }
    }
}

/// The sort after a click on a column header.
pub fn header_sort(sort: SortSpec, field: SortField) -> (next: SortSpec)
    ensures
        next == spec_header_sort(sort, field),
{
    if sort.field == field {
        let direction = match sort.direction {
            SortDirection::Ascending => SortDirection::Descending,
            SortDirection::Descending => SortDirection::Ascending,
        };
        SortSpec { direction, ..sort }
    } else {
        SortSpec { field, direction: SortDirection::Ascending, ..sort }
    }
}

/// Two clicks on the same header leave the sort as it was.
pub proof fn lemma_same_header_twice_restores(sort: SortSpec, field: SortField)
    requires
        sort.field == field,
    ensures
        spec_header_sort(spec_header_sort(sort, field), field) == sort,
{
}

/// A click on another header sorts by it, ascending, and a second click on it
/// turns the order to descending.
pub proof fn lemma_new_header_sorts_ascending_then_descending(sort: SortSpec, field: SortField)
    requires
        sort.field != field,
    ensures
        spec_header_sort(sort, field).field == field,
        spec_header_sort(sort, field).direction == SortDirection::Ascending,
        spec_header_sort(spec_header_sort(sort, field), field).direction == SortDirection::Descending,
{
}

/// An operation that can be undone, with the label that names it.
pub struct UndoEntry<U> {
    pub label: String,
    pub record: U,
}

/// What a finished operation reports.
pub struct OperationOutcome<U> {
    /// The paths the operation made or changed, the first one to be revealed.
    pub affected_paths: Vec<String>,
    /// How to undo the operation, when it can be undone.
    pub undo: Option<UndoEntry<U>>,
}

/// Runs one filesystem operation at a time, reports how it went, and keeps
/// what can be undone.
pub struct OperationRunner<U> {
    pub running: bool,
    /// Whether the running operation can be asked to stop (an undo cannot).
    pub cancellable: bool,
    pub status_message: Option<String>,
    pub error: Option<String>,
    pub undo_stack: Vec<UndoEntry<U>>,
}

/// The runner as plain values.
pub struct RunnerView<U> {
    pub running: bool,
    pub cancellable: bool,
    pub status: Option<Seq<char>>,
    pub error: Option<Seq<char>>,
    pub undo: Seq<(Seq<char>, U)>,
}

/// An undo entry as its label and record.
pub open spec fn entry_view<U>(e: UndoEntry<U>) -> (Seq<char>, U) {
    (e.label@, e.record)
}

/// The undo entries, oldest first, as labels and records.
pub open spec fn stack_view<U>(v: Seq<UndoEntry<U>>) -> Seq<(Seq<char>, U)> {
    v.map_values(|e: UndoEntry<U>| entry_view(e))
}

impl<U> View for OperationRunner<U> {
    type V = RunnerView<U>;

    open spec fn view(&self) -> RunnerView<U> {
        RunnerView {
            running: self.running,
            cancellable: self.cancellable,
            status: opt_text(self.status_message),
            error: opt_text(self.error),
            undo: stack_view(self.undo_stack@),
        }
    }
}

/// An outcome as plain values: the affected paths and the undo entry, or the
/// error.
pub open spec fn outcome_view<U>(r: Result<OperationOutcome<U>, String>) -> Result<
    (Seq<Seq<char>>, Option<(Seq<char>, U)>),
    Seq<char>,
> {
    match r {
        Ok(o) => Ok(
            (
                o.affected_paths@.map_values(|p: String| p@),
                match o.undo {
                    Some(e) => Some(entry_view(e)),
                    None => None,
                },
            ),
        ),
        Err(e) => Err(e@),
    }
}

/// The status after an operation succeeds: an extraction too large to undo
/// says so, anything else counts the items it changed.
pub open spec fn completion_message(count: nat, extraction: bool, undo_available: bool) -> Seq<char> {
    if extraction && !undo_available {
        "Extracted "@ + decimal(count) + " archive"@ + plural(count) + " · too many entries to undo"@
    } else {
        "Updated "@ + decimal(count) + " item"@ + plural(count)
    }
}

impl<U> RunnerView<U> {
    /// An operation started with its progress message, unless one runs.
    pub open spec fn started(self, progress: Seq<char>) -> RunnerView<U> {
        if self.running {
            self
        } else {
            RunnerView { running: true, cancellable: true, error: None, status: Some(progress), ..self }
        }
    }

    /// The running operation finished: on success the status counts what
    /// changed and the undo entry, if any, is kept; on failure the error shows.
    pub open spec fn finished(
        self,
        outcome: Result<(Seq<Seq<char>>, Option<(Seq<char>, U)>), Seq<char>>,
        extraction: bool,
    ) -> RunnerView<U> {
        match outcome {
            Ok((affected, undo)) => RunnerView {
                running: false,
                cancellable: false,
                status: Some(completion_message(affected.len(), extraction, undo is Some)),
                undo: match undo {
                    Some(e) => self.undo.push(e),
                    None => self.undo,
                },
                ..self
            },
            Err(message) => RunnerView {
                running: false,
                cancellable: false,
                status: None,
                error: Some(message),
                ..self
            },
        }
    }

    /// A request to stop the running operation: only an operation that can
    /// be stopped says it is stopping.
    pub open spec fn cancel_requested(self) -> RunnerView<U> {
        if self.cancellable {
            RunnerView { status: Some("Cancelling…"@), ..self }
        } else {
            self
        }
    }

    /// An undo begun: nothing while an operation runs; with nothing to undo
    /// the status says so; otherwise the latest entry is being undone.
    pub open spec fn undo_begun(self) -> RunnerView<U> {
        if self.running {
            self
        } else if self.undo.len() == 0 {
            RunnerView { status: Some("Nothing to undo"@), ..self }
        } else {
            RunnerView {
                running: true,
                error: None,
                status: Some("Undoing "@ + self.undo.last().0 + "…"@),
                ..self
            }
        }
    }

    /// The undo of the entry labelled `label` finished: on success the entry
    /// leaves the stack.
    pub open spec fn undo_finished(self, label: Seq<char>, result: Result<(), Seq<char>>) -> RunnerView<U> {
        match result {
            Ok(()) => RunnerView {
                running: false,
                undo: if self.undo.len() > 0 {
                    self.undo.drop_last()
                } else {
                    self.undo
                },
                status: Some("Undid "@ + label),
                ..self
            },
            Err(message) => RunnerView {
                running: false,
                status: None,
                error: Some("Could not undo: "@ + message),
                ..self
            },
        }
    }
}

/// What the caller does once an operation finished.
pub enum FinishStep {
    /// Reload the folder, revealing a path when one is given, and drop the
    /// file clipboard when asked.
    Reload { reveal: Option<String>, clear_clipboard: bool },
    /// Show the error; nothing else changes.
    Failed,
}

/// What a request to undo leads to.
pub enum UndoStart {
    /// An operation runs; nothing happens.
    Busy,
    /// There is nothing to undo; the status says so.
    NothingToUndo,
    /// Undo the entry at this place of the stack, under this label.
    Run { index: usize, label: String },
}

fn copy_text(text: &String) -> (copy: String)
    ensures
        copy == *text,
{
    text.clone()
}

/// `prefix`, the count, `noun` with an "s" unless the count is one, then `suffix`.
pub fn counted_text(prefix: &str, count: usize, noun: &str, suffix: &str) -> (text: String)
    ensures
        text@ == prefix@ + decimal(count as nat) + noun@ + plural(count as nat) + suffix@,
{
    let mut text = String::from_str(prefix);
    text.append(decimal_string(count as u64).as_str());
    text.append(noun);
    if count != 1 {
        text.append("s");
    }
    text.append(suffix);
    proof {
        reveal_strlit("s");
    }
    assert(text@ =~= prefix@ + decimal(count as nat) + noun@ + plural(count as nat) + suffix@);
    text
}

impl<U> OperationRunner<U> {
    /// An idle runner with nothing to undo.
    pub fn new() -> (runner: Self)
        ensures
            !runner@.running,
            !runner@.cancellable,
            runner@.status is None,
            runner@.error is None,
            runner@.undo.len() == 0,
    {
        let runner = OperationRunner {
            running: false,
            cancellable: false,
            status_message: None,
            error: None,
            undo_stack: Vec::new(),
        };
        assert(runner@.undo =~= Seq::<(Seq<char>, U)>::empty());
        runner
    }

    /// Starts an operation with its progress message, unless one runs. Says
    /// whether it started.
    pub fn start(&mut self, progress: String) -> (started: bool)
        ensures
            started == !old(self)@.running,
            final(self)@ == old(self)@.started(progress@),
    {
        if self.running {
            return false;
        }
        self.running = true;
        self.cancellable = true;
        self.error = None;
        self.status_message = Some(progress);
        true
    }

    /// Asks the running operation to stop; says whether it can be. The
    /// caller raises the operation's cancel flag.
    pub fn request_cancel(&mut self) -> (cancelling: bool)
        ensures
            cancelling == old(self)@.cancellable,
            final(self)@ == old(self)@.cancel_requested(),
    {
        if !self.cancellable {
            return false;
        }
        self.status_message = Some(String::from_str("Cancelling…"));
        proof {
            reveal_strlit("Cancelling…");
        }
        true
    }

    /// Takes in how the running operation went.
    pub fn finish(&mut self, outcome: Result<OperationOutcome<U>, String>, extraction: bool, clear_clipboard_on_success: bool) -> (step: FinishStep)
        ensures
            final(self)@ == old(self)@.finished(outcome_view(outcome), extraction),
            match outcome_view(outcome) {
                Ok((affected, _)) => (step matches FinishStep::Reload { reveal, clear_clipboard } && clear_clipboard
                    == clear_clipboard_on_success && opt_text(reveal) == if affected.len() > 0 {
                    Some(affected[0])
                } else {
                    None
                }),
                Err(_) => step is Failed,
            },
    {
        self.running = false;
        self.cancellable = false;
        match outcome {
            Ok(outcome) => {
                let count = outcome.affected_paths.len();
                let undo_available = outcome.undo.is_some();
                let reveal = if count > 0 {
                    Some(copy_text(&outcome.affected_paths[0]))
                } else {
                    None
                };
                let ghost old_stack = stack_view(self.undo_stack@);
                match outcome.undo {
                    Some(entry) => {
                        self.undo_stack.push(entry);
                        assert(stack_view(self.undo_stack@) =~= old_stack.push(entry_view(entry)));
                    },
                    None => {},
                }
                let status = if extraction && !undo_available {
                    counted_text("Extracted ", count, " archive", " · too many entries to undo")
                } else {
                    counted_text("Updated ", count, " item", "")
                };
                proof {
                    reveal_strlit("");
                    assert(status@ == completion_message(count as nat, extraction, undo_available));
                }
                self.status_message = Some(status);
                FinishStep::Reload { reveal, clear_clipboard: clear_clipboard_on_success }
            },
            Err(error) => {
                self.status_message = None;
                self.error = Some(error);
                FinishStep::Failed
            },
        }
    }

    /// Begins undoing the latest operation.
    pub fn begin_undo(&mut self) -> (start: UndoStart)
        ensures
            final(self)@ == old(self)@.undo_begun(),
            old(self)@.running ==> start is Busy,
            !old(self)@.running && old(self)@.undo.len() == 0 ==> start is NothingToUndo,
            !old(self)@.running && old(self)@.undo.len() > 0 ==> (start matches UndoStart::Run { index, label }
                && index == old(self)@.undo.len() - 1 && label@ == old(self)@.undo.last().0),
    {
        if self.running {
            return UndoStart::Busy;
        }
        let n = self.undo_stack.len();
        if n == 0 {
            self.status_message = Some(String::from_str("Nothing to undo"));
            proof {
                reveal_strlit("Nothing to undo");
            }
            return UndoStart::NothingToUndo;
        }
        let label = copy_text(&self.undo_stack[n - 1].label);
        assert(stack_view(self.undo_stack@)[n - 1] == entry_view(self.undo_stack@[n - 1]));
        let mut status = String::from_str("Undoing ");
        status.append(label.as_str());
        status.append("…");
        self.running = true;
        self.error = None;
        self.status_message = Some(status);
        UndoStart::Run { index: n - 1, label }
    }

    /// Takes in how the undo of the entry labelled `label` went.
    pub fn finish_undo(&mut self, label: &str, result: Result<(), String>)
        ensures
            final(self)@ == old(self)@.undo_finished(
                label@,
                match result {
                    Ok(()) => Ok(()),
                    Err(e) => Err(e@),
                },
            ),
    {
        self.running = false;
        match result {
            Ok(()) => {
                let ghost old_stack = stack_view(self.undo_stack@);
                let _ = self.undo_stack.pop();
                assert(stack_view(self.undo_stack@) =~= if old_stack.len() > 0 {
                    old_stack.drop_last()
                } else {
                    old_stack
                });
                let mut status = String::from_str("Undid ");
                status.append(label);
                self.status_message = Some(status);
            },
            Err(error) => {
                let mut message = String::from_str("Could not undo: ");
                message.append(error.as_str());
                self.status_message = None;
                self.error = Some(message);
            },
        }
    }
}

/// An operation that succeeded and recorded how to undo it is undone by the
/// next undo: the undo offers its entry, and once the undo succeeds the stack
/// is as it was before the operation.
pub proof fn lemma_undo_reverts_recorded_operation<U>(
    s: RunnerView<U>,
    progress: Seq<char>,
    affected: Seq<Seq<char>>,
    entry: (Seq<char>, U),
    extraction: bool,
)
    requires
        !s.running,
    ensures
        ({
            let done = s.started(progress).finished(Ok((affected, Some(entry))), extraction);
            &&& !done.running
            &&& done.undo.last() == entry
            &&& done.undo_begun().running
            &&& done.undo_begun().undo_finished(entry.0, Ok(())).undo == s.undo
            &&& !done.undo_begun().undo_finished(entry.0, Ok(())).running
        }),
{
    let done = s.started(progress).finished(Ok((affected, Some(entry))), extraction);
    assert(done.undo == s.undo.push(entry));
    assert(done.undo.drop_last() =~= s.undo);
}

/// While an operation runs, neither another operation nor an undo starts.
pub proof fn lemma_one_operation_at_a_time<U>(s: RunnerView<U>, progress: Seq<char>)
    requires
        s.running,
    ensures
        s.started(progress) == s,
        s.undo_begun() == s,
{
}

/// An undo cannot be asked to stop.
pub proof fn lemma_undo_cannot_be_cancelled<U>(s: RunnerView<U>)
    requires
        !s.cancellable,
    ensures
        s.undo_begun().cancel_requested() == s.undo_begun(),
{
}

/// A failed undo keeps the entry, so it can be tried again.
pub proof fn lemma_failed_undo_keeps_entry<U>(s: RunnerView<U>, label: Seq<char>, message: Seq<char>)
    ensures
        s.undo_finished(label, Err(message)).undo == s.undo,
        s.undo_finished(label, Err(message)).error == Some("Could not undo: "@ + message),
{
}

} // verus!
