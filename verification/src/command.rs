//! One invocation: what the user asked for is checked before any file is
//! touched, and the checked command is then carried out on the text of the
//! store file.

use vstd::prelude::*;
use crate::display::{are_rows_of, list};
use crate::engine::{apply_spec, Operation, OperationView};
use crate::record::{is_valid_text, valid_text, RecordView, StoreError};
use crate::store::{lemma_rewrite_reads_back, load_spec, rewrite, rewrite_spec};

verus! {

/// What the user asked for, as it comes from the command line: each argument
/// may be missing.
#[derive(Clone, Debug, PartialEq, Eq)]
pub enum Action {
    Add { entry: Option<String> },
    Remove { id: Option<u32> },
    Clear,
    Done { id: Option<u32> },
    Urgent { id: Option<u32> },
}

/// A request that has all it needs.
#[derive(Clone, Debug, PartialEq, Eq)]
pub enum Command {
    /// Show the list.
    List,
    /// Edit the list.
    Edit(Operation),
}

/// A `Command` as a mathematical value.
pub ghost enum CommandView {
    List,
    Edit(OperationView),
}

impl View for Command {
    type V = CommandView;

    open spec fn view(&self) -> CommandView {
        match self {
            Command::List => CommandView::List,
            Command::Edit(op) => CommandView::Edit(op@),
        }
    }
}

/// What is left to do once a command has been carried out on the text of the
/// file.
#[derive(Clone, Debug, PartialEq, Eq)]
pub enum Effect {
    /// Print these rows, one per entry. The file stays as it is.
    Show(Vec<String>),
    /// Replace the whole text of the file by this one.
    Replace(String),
}

/// The command that a request stands for. No request at all asks for the
/// list. A request without its argument is a usage error, and so is a text
/// that holds a line terminator.
pub open spec fn plan_spec(action: Option<Action>) -> Result<CommandView, StoreError> {
    match action {
        None => Ok(CommandView::List),
        Some(Action::Add { entry: Some(text) }) => if valid_text(text@) {
            Ok(CommandView::Edit(OperationView::Add(text@)))
        } else {
            Err(StoreError::UsageError)
        },
        Some(Action::Remove { id: Some(id) }) => Ok(
            CommandView::Edit(OperationView::Remove(id as nat)),
        ),
        Some(Action::Clear) => Ok(CommandView::Edit(OperationView::Clear)),
        Some(Action::Done { id: Some(id) }) => Ok(
            CommandView::Edit(OperationView::ToggleDone(id as nat)),
        ),
        Some(Action::Urgent { id: Some(id) }) => Ok(
            CommandView::Edit(OperationView::ToggleUrgent(id as nat)),
        ),
        _ => Err(StoreError::UsageError),
    }
}

/// Checks a request. This needs no file: a usage error is found before any
/// file is touched.
pub fn plan(action: Option<Action>) -> (result: Result<Command, StoreError>)
    ensures
        match result {
            Ok(command) => plan_spec(action) == Ok::<CommandView, StoreError>(command@),
            Err(e) => plan_spec(action) == Err::<CommandView, StoreError>(e),
        },
        result matches Ok(Command::Edit(op)) ==> op@.valid(),
{
    match action {
        None => Ok(Command::List),
        Some(Action::Add { entry: Some(text) }) => {
            if is_valid_text(text.as_str()) {
                Ok(Command::Edit(Operation::Add(text)))
            } else {
                Err(StoreError::UsageError)
            }
        },
        Some(Action::Remove { id: Some(id) }) => Ok(Command::Edit(Operation::Remove(id))),
        Some(Action::Clear) => Ok(Command::Edit(Operation::Clear)),
        Some(Action::Done { id: Some(id) }) => Ok(Command::Edit(Operation::ToggleDone(id))),
        Some(Action::Urgent { id: Some(id) }) => Ok(Command::Edit(Operation::ToggleUrgent(id))),
        _ => Err(StoreError::UsageError),
    }
}

/// Carries out a command on the text of the file. Listing gives the rows to
/// print and never a text to write; an edit gives the text that replaces the
/// old one. A refusal gives neither, so that the file stays as it is.
pub fn execute(command: Command, content: &str) -> (result: Result<Effect, StoreError>)
    ensures
        match command@ {
            CommandView::List => match result {
                Ok(Effect::Show(rows)) => load_spec(content@) matches Ok(records) && are_rows_of(
                    rows@,
                    records,
                ),
                Ok(Effect::Replace(_)) => false,
                Err(e) => load_spec(content@) == Err::<Seq<RecordView>, StoreError>(e),
            },
            CommandView::Edit(op) => match result {
                Ok(Effect::Replace(next)) => rewrite_spec(content@, op) == Ok::<
                    Seq<char>,
                    StoreError,
                >(next@),
                Ok(Effect::Show(_)) => false,
                Err(e) => rewrite_spec(content@, op) == Err::<Seq<char>, StoreError>(e),
            },
        },
{
    match command {
        Command::List => match list(content) {
            Ok(rows) => Ok(Effect::Show(rows)),
            Err(e) => Err(e),
        },
        Command::Edit(op) => match rewrite(content, op) {
            Ok(next) => Ok(Effect::Replace(next)),
            Err(e) => Err(e),
        },
    }
}

/// An edit that `plan` lets through leaves a readable file behind: the text
/// that it writes stands for the list that the engine made of the old one.
pub proof fn lemma_planned_edit_reads_back(action: Option<Action>, content: Seq<char>)
    ensures
        plan_spec(action) matches Ok(CommandView::Edit(op)) ==> op.valid() && (rewrite_spec(
            content,
            op,
        ) matches Ok(next) ==> load_spec(next) is Ok && load_spec(next) == if op is Clear {
            Ok::<Seq<RecordView>, StoreError>(Seq::empty())
        } else {
            apply_spec(load_spec(content)->Ok_0, op)
        }),
{
    if let Ok(CommandView::Edit(op)) = plan_spec(action) {
        lemma_rewrite_reads_back(content, op);
    }
}

} // verus!
