//! The main menu: what each choice asks for, and the session that carries
//! the current ledger from one choice to the next.

use vstd::prelude::*;
use crate::ledger::{Expense, ExpenseView, record_line, record_line_text};
use crate::text::{optional_text, to_chars, trim_chars, trimmed};

verus! {

/// Whether the menu still takes choices.
#[derive(Clone, Copy, Debug, PartialEq, Eq, Structural)]
pub enum MenuState {
    /// The menu is shown and a choice is awaited.
    AwaitingChoice,
    /// The user has left; nothing more is taken.
    Terminated,
}

/// What a choice asks for.
#[derive(Clone, Copy, Debug, PartialEq, Eq, Structural)]
pub enum MenuAction {
    /// Run the dialogue that adds a record.
    AddRecord,
    /// Close the current month.
    CloseMonth,
    /// Ask for months and show their statistics.
    ShowStats,
    /// Delete a category: not offered yet, so nothing is done.
    DeleteCategory,
    /// Say goodbye and stop.
    Exit,
    /// Tell the user that the choice is not on the menu.
    Invalid,
    /// Nothing: the menu was left before.
    Nothing,
}

/// The step that the menu takes from `state` when the user types `choice`.
/// The choice is read without the white space around it; `5` leaves the
/// menu, and every other choice comes back to it.
pub open spec fn menu_step(state: MenuState, choice: Seq<char>) -> (MenuState, MenuAction) {
    let token = trimmed(choice);
    match state {
        MenuState::Terminated => (MenuState::Terminated, MenuAction::Nothing),
        MenuState::AwaitingChoice => if token == seq!['1'] {
            (MenuState::AwaitingChoice, MenuAction::AddRecord)
        } else if token == seq!['2'] {
            (MenuState::AwaitingChoice, MenuAction::CloseMonth)
        } else if token == seq!['3'] {
            (MenuState::AwaitingChoice, MenuAction::ShowStats)
        } else if token == seq!['4'] {
            (MenuState::AwaitingChoice, MenuAction::DeleteCategory)
        } else if token == seq!['5'] {
            (MenuState::Terminated, MenuAction::Exit)
        } else {
            (MenuState::AwaitingChoice, MenuAction::Invalid)
        },
    }
}

/// Takes the menu one step on: reads the choice typed and says what it asks
/// for, and whether the menu goes on.
pub fn ask_multiple_choice_question(state: MenuState, choice: &str) -> (next: (
    MenuState,
    MenuAction,
))
    ensures
        next == menu_step(state, choice@),
{
    match state {
        MenuState::Terminated => (MenuState::Terminated, MenuAction::Nothing),
        MenuState::AwaitingChoice => {
            let chars = to_chars(choice);
            let token = trim_chars(chars.as_slice());
            if token.len() != 1 {
                return (MenuState::AwaitingChoice, MenuAction::Invalid);
            }
            let c = token[0];
            assert(token@ =~= seq![c]);
            if c == '1' {
                (MenuState::AwaitingChoice, MenuAction::AddRecord)
            } else if c == '2' {
                (MenuState::AwaitingChoice, MenuAction::CloseMonth)
            } else if c == '3' {
                (MenuState::AwaitingChoice, MenuAction::ShowStats)
            } else if c == '4' {
                (MenuState::AwaitingChoice, MenuAction::DeleteCategory)
            } else if c == '5' {
                (MenuState::Terminated, MenuAction::Exit)
            } else {
                (MenuState::AwaitingChoice, MenuAction::Invalid)
            }
        },
    }
}

/// What becomes of the outcome of the add-record dialogue.
#[derive(Debug, PartialEq, Eq)]
pub enum SaveDecision {
    /// Append `line` to the ledger at `path`.
    Append { path: String, line: String },
    /// There is a record, but no ledger to put it in.
    MissingPath,
    /// The dialogue gave no record: nothing is written.
    NoRecord,
}

/// A [`SaveDecision`] as contracts see it.
pub enum SaveDecisionView {
    Append { path: Seq<char>, line: Seq<char> },
    MissingPath,
    NoRecord,
}

impl View for SaveDecision {
    type V = SaveDecisionView;

    open spec fn view(&self) -> SaveDecisionView {
        match self {
            SaveDecision::Append { path, line } => SaveDecisionView::Append {
                path: path@,
                line: line@,
            },
            SaveDecision::MissingPath => SaveDecisionView::MissingPath,
            SaveDecision::NoRecord => SaveDecisionView::NoRecord,
        }
    }
}

/// What to do with the outcome `record` of the dialogue while the ledger at
/// `path` is the current one: a record goes to the ledger as one line; no
/// record, and nothing is written.
pub open spec fn save_decision(path: Option<Seq<char>>, record: Option<ExpenseView>)
    -> SaveDecisionView {
    match record {
        None => SaveDecisionView::NoRecord,
        Some(expense) => match path {
            Some(path) => SaveDecisionView::Append { path, line: record_line_text(expense) },
            None => SaveDecisionView::MissingPath,
        },
    }
}

/// The view of an optional record.
pub open spec fn optional_record(record: Option<Expense>) -> Option<ExpenseView> {
    match record {
        Some(expense) => Some(expense@),
        None => None,
    }
}

/// The state that the menu loop carries along: whether it goes on, and the
/// path of the current ledger.
#[derive(Debug, PartialEq, Eq)]
pub struct Session {
    pub state: MenuState,
    pub expense_file_path: Option<String>,
}

impl Session {
    /// A session that awaits its first choice.
    pub fn new(expense_file_path: Option<String>) -> (session: Session)
        ensures
            session.state == MenuState::AwaitingChoice,
            session.expense_file_path == expense_file_path,
    {
        Session { state: MenuState::AwaitingChoice, expense_file_path }
    }

    /// Takes the choice typed by the user. The current ledger stays as it
    /// is.
    pub fn take_choice(&mut self, choice: &str) -> (action: MenuAction)
        ensures
            (final(self).state, action) == menu_step(old(self).state, choice@),
            final(self).expense_file_path == old(self).expense_file_path,
    {
        let (state, action) = ask_multiple_choice_question(self.state, choice);
        self.state = state;
        action
    }

    /// Says what to do with the outcome of the add-record dialogue.
    pub fn save_record(&self, record: &Option<Expense>) -> (decision: SaveDecision)
        ensures
            decision@ == save_decision(
                optional_text(self.expense_file_path),
                optional_record(*record),
            ),
    {
        match record {
            None => SaveDecision::NoRecord,
            Some(expense) => match &self.expense_file_path {
                Some(path) => SaveDecision::Append { path: path.clone(), line: record_line(expense) },
                None => SaveDecision::MissingPath,
            },
        }
    }

    /// Makes `path` the current ledger, after a month was closed. A month
    /// that could not be closed leaves the session as it was.
    pub fn month_closed(&mut self, path: String)
        ensures
            final(self).state == old(self).state,
            final(self).expense_file_path == Some(path),
    {
        self.expense_file_path = Some(path);
    }
}

/// A dialogue that ends without a record leaves the ledger as it is:
/// nothing is appended, whichever ledger is the current one.
pub proof fn lemma_no_record_nothing_written(path: Option<Seq<char>>)
    ensures
        save_decision(path, None) == SaveDecisionView::NoRecord,
{
}

} // verus!
