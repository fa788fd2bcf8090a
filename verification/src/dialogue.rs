//! The dialogue that adds a record: name, amount, category, confirmation.
//!
//! Reading what the user types and loading the category list are for the
//! caller; what to ask next, and what the answers amount to, is decided here.

use vstd::prelude::*;
use crate::amount::{Amount, amount_of, decimal_digits, parse_amount_chars, push_decimal};
use crate::category::{
    CategoryResultType, CategoryResultView, Selection, SelectionView, category_answer,
    category_line_text, fits_on_a_line, is_category_list, lemma_append_adds_one_category, lines,
    select_category, selection,
};
use crate::ledger::{Expense, ExpenseView};
use crate::text::{from_chars, to_chars, trim_chars, trimmed};

verus! {

/// Whether `answer` confirms: without the white space around it, it is
/// `y` or `yes`, in capitals or small letters.
pub open spec fn is_affirmative(answer: Seq<char>) -> bool {
    let word = trimmed(answer);
    ||| word.len() == 1 && (word[0] == 'y' || word[0] == 'Y')
    ||| word.len() == 3 && (word[0] == 'y' || word[0] == 'Y') && (word[1] == 'e' || word[1]
        == 'E') && (word[2] == 's' || word[2] == 'S')
}

/// Executable form of [`is_affirmative`].
pub fn affirmative(answer: &str) -> (yes: bool)
    ensures
        yes == is_affirmative(answer@),
{
    let chars = to_chars(answer);
    let word = trim_chars(chars.as_slice());
    if word.len() == 1 {
        word[0] == 'y' || word[0] == 'Y'
    } else if word.len() == 3 {
        (word[0] == 'y' || word[0] == 'Y') && (word[1] == 'e' || word[1] == 'E') && (word[2]
            == 's' || word[2] == 'S')
    } else {
        false
    }
}

/// A question for the user: fixed text, or text made for the occasion.
#[derive(Debug, PartialEq, Eq)]
pub enum Prompt {
    Str(&'static str),
    String(String),
}

impl Prompt {
    /// The text of the question.
    pub open spec fn text(self) -> Seq<char> {
        match self {
            Prompt::Str(text) => text@,
            Prompt::String(text) => text@,
        }
    }

    /// The question as it is put to the user: its text, a colon and a
    /// space, after which the answer is typed.
    pub fn shown(&self) -> (line: String)
        ensures
            line@ == self.text() + ": "@,
    {
        let mut line = match self {
            Prompt::Str(text) => (*text).to_owned(),
            Prompt::String(text) => text.clone(),
        };
        line.append(": ");
        line
    }
}

/// The question that asks for a category while `count` categories are on
/// show: for one of their numbers or a new name, or, with none to show, for
/// a new name only.
pub open spec fn category_prompt_text(count: nat) -> Seq<char> {
    if count > 0 {
        "\nEnter a Category [1 - "@ + decimal_digits(count) + "] or type a new category "@
    } else {
        "Type A New Category "@
    }
}

/// Writes the question that asks for a category.
pub fn category_prompt(count: usize) -> (prompt: String)
    ensures
        prompt@ == category_prompt_text(count as nat),
{
    if count > 0 {
        let mut digits: Vec<char> = Vec::new();
        push_decimal(&mut digits, count as u128);
        let number = from_chars(digits.as_slice());
        let mut prompt = "\nEnter a Category [1 - ".to_owned();
        prompt.append(number.as_str());
        prompt.append("] or type a new category ");
        prompt
    } else {
        "Type A New Category ".to_owned()
    }
}

/// The line that shows the category `name` under the number `number`.
pub open spec fn numbered_line(number: nat, name: Seq<char>) -> Seq<char> {
    "  "@ + decimal_digits(number) + ": "@ + name
}

/// The lines that show `categories`, numbered from one.
pub open spec fn numbered_lines(categories: Seq<Seq<char>>) -> Seq<Seq<char>> {
    Seq::new(categories.len(), |i: int| numbered_line((i + 1) as nat, categories[i]))
}

/// Lays the categories out for the user to pick from, numbered from one.
pub fn numbered_categories(categories: &Vec<String>) -> (shown: Vec<String>)
    ensures
        shown.deep_view() == numbered_lines(categories.deep_view()),
{
    let mut shown: Vec<String> = Vec::new();
    let mut i: usize = 0;
    while i < categories.len()
        invariant
            i <= categories.len(),
            shown.deep_view() == numbered_lines(categories.deep_view()).take(i as int),
        decreases categories.len() - i,
    {
        let mut digits: Vec<char> = Vec::new();
        push_decimal(&mut digits, i as u128 + 1);
        let number = from_chars(digits.as_slice());
        let mut line = "  ".to_owned();
        line.append(number.as_str());
        line.append(": ");
        line.append(categories[i].as_str());
        let ghost before = shown.deep_view();
        shown.push(line);
        assert(shown.deep_view() =~= before.push(line@));
        i += 1;
    }
    shown
}

/// Where the dialogue stands.
#[derive(Debug, PartialEq, Eq)]
pub enum AddRecordState {
    /// The name has been asked for.
    AskingName,
    /// The amount has been asked for.
    AskingAmount { name: String },
    /// The category list has been asked for.
    LoadingCategories { name: String, amount: Amount },
    /// The category has been asked for, with `categories` on show.
    AskingCategory { name: String, amount: Amount, categories: Vec<String> },
    /// The record is drafted and awaits the user's confirmation.
    Confirming { draft: Expense },
    /// The dialogue is over: with a record, or without one.
    Finished { record: Option<Expense> },
}

/// An [`AddRecordState`] as contracts see it.
pub enum AddRecordStateView {
    AskingName,
    AskingAmount { name: Seq<char> },
    LoadingCategories { name: Seq<char>, amount: Amount },
    AskingCategory { name: Seq<char>, amount: Amount, categories: Seq<Seq<char>> },
    Confirming { draft: ExpenseView },
    Finished { record: Option<ExpenseView> },
}

impl View for AddRecordState {
    type V = AddRecordStateView;

    open spec fn view(&self) -> AddRecordStateView {
        match self {
            AddRecordState::AskingName => AddRecordStateView::AskingName,
            AddRecordState::AskingAmount { name } => AddRecordStateView::AskingAmount {
                name: name@,
            },
            AddRecordState::LoadingCategories {
                name,
                amount,
            } => AddRecordStateView::LoadingCategories { name: name@, amount: *amount },
            AddRecordState::AskingCategory {
                name,
                amount,
                categories,
            } => AddRecordStateView::AskingCategory {
                name: name@,
                amount: *amount,
                categories: categories.deep_view(),
            },
            AddRecordState::Confirming { draft } => AddRecordStateView::Confirming {
                draft: draft@,
            },
            AddRecordState::Finished { record } => AddRecordStateView::Finished {
                record: match record {
                    Some(expense) => Some(expense@),
                    None => None,
                },
            },
        }
    }
}

/// What the caller hands back.
#[derive(Debug, PartialEq, Eq)]
pub enum AddRecordEvent {
    /// A line that the user typed.
    Line(String),
    /// The category list as it stands; empty where it could not be read.
    Categories(Vec<String>),
}

/// An [`AddRecordEvent`] as contracts see it.
pub enum AddRecordEventView {
    Line(Seq<char>),
    Categories(Seq<Seq<char>>),
}

impl View for AddRecordEvent {
    type V = AddRecordEventView;

    open spec fn view(&self) -> AddRecordEventView {
        match self {
            AddRecordEvent::Line(line) => AddRecordEventView::Line(line@),
            AddRecordEvent::Categories(categories) => AddRecordEventView::Categories(
                categories.deep_view(),
            ),
        }
    }
}

/// What the caller is asked to do next. `again` says that the last answer
/// was not taken and the question is put once more.
#[derive(Debug, PartialEq, Eq)]
pub enum AddRecordAction {
    /// Ask for the name and hand back the line typed.
    AskName { again: bool },
    /// Ask for the amount and hand back the line typed.
    AskAmount { again: bool },
    /// Read the category list and hand it back.
    LoadCategories,
    /// Show the categories of the state, ask for one and hand back the line.
    AskCategory { again: bool },
    /// Add `new_category`, if there is one, to the category list; show the
    /// draft of the state, ask for confirmation and hand back the line.
    Confirm { new_category: Option<String> },
    /// Stop: the state holds the record, or none.
    Finish,
    /// Nothing: the event was not one that the state awaits.
    Nothing,
}

/// An [`AddRecordAction`] as contracts see it.
pub enum AddRecordActionView {
    AskName { again: bool },
    AskAmount { again: bool },
    LoadCategories,
    AskCategory { again: bool },
    Confirm { new_category: Option<Seq<char>> },
    Finish,
    Nothing,
}

impl View for AddRecordAction {
    type V = AddRecordActionView;

    open spec fn view(&self) -> AddRecordActionView {
        match self {
            AddRecordAction::AskName { again } => AddRecordActionView::AskName { again: *again },
            AddRecordAction::AskAmount { again } => AddRecordActionView::AskAmount {
                again: *again,
            },
            AddRecordAction::LoadCategories => AddRecordActionView::LoadCategories,
            AddRecordAction::AskCategory { again } => AddRecordActionView::AskCategory {
                again: *again,
            },
            AddRecordAction::Confirm { new_category } => AddRecordActionView::Confirm {
                new_category: match new_category {
                    Some(name) => Some(name@),
                    None => None,
                },
            },
            AddRecordAction::Finish => AddRecordActionView::Finish,
            AddRecordAction::Nothing => AddRecordActionView::Nothing,
        }
    }
}

/// The step that the dialogue takes from `state` on `event`.
///
/// Answers are read without the white space around them. A name must not be
/// empty and an amount must read as one, else the question is put again. A
/// category is one of those shown, by its number, or a new one, by its name;
/// a number that is not on the list puts the question again. Only `y` or
/// `yes` confirms the draft: any other answer ends the dialogue without a
/// record.
pub open spec fn add_record_step(state: AddRecordStateView, event: AddRecordEventView) -> (
    AddRecordStateView,
    AddRecordActionView,
) {
    match (state, event) {
        (AddRecordStateView::AskingName, AddRecordEventView::Line(line)) => {
            if trimmed(line).len() > 0 {
                (
                    AddRecordStateView::AskingAmount { name: trimmed(line) },
                    AddRecordActionView::AskAmount { again: false },
                )
            } else {
                (AddRecordStateView::AskingName, AddRecordActionView::AskName { again: true })
            }
        },
        (AddRecordStateView::AskingAmount { name }, AddRecordEventView::Line(line)) => {
            match amount_of(trimmed(line)) {
                Some(amount) => (
                    AddRecordStateView::LoadingCategories { name, amount },
                    AddRecordActionView::LoadCategories,
                ),
                None => (
                    AddRecordStateView::AskingAmount { name },
                    AddRecordActionView::AskAmount { again: true },
                ),
            }
        },
        (
            AddRecordStateView::LoadingCategories { name, amount },
            AddRecordEventView::Categories(categories),
        ) => (
            AddRecordStateView::AskingCategory { name, amount, categories },
            AddRecordActionView::AskCategory { again: false },
        ),
        (
            AddRecordStateView::AskingCategory { name, amount, categories },
            AddRecordEventView::Line(line),
        ) => {
            match selection(category_answer(trimmed(line)), categories) {
                SelectionView::Existing(category) => (
                    AddRecordStateView::Confirming {
                        draft: ExpenseView { name, category, amount },
                    },
                    AddRecordActionView::Confirm { new_category: None },
                ),
                SelectionView::New(category) => (
                    AddRecordStateView::Confirming {
                        draft: ExpenseView { name, category, amount },
                    },
                    AddRecordActionView::Confirm { new_category: Some(category) },
                ),
                SelectionView::Rejected => (
                    AddRecordStateView::AskingCategory { name, amount, categories },
                    AddRecordActionView::AskCategory { again: true },
                ),
            }
        },
        (AddRecordStateView::Confirming { draft }, AddRecordEventView::Line(line)) => {
            if is_affirmative(line) {
                (AddRecordStateView::Finished { record: Some(draft) }, AddRecordActionView::Finish)
            } else {
                (AddRecordStateView::Finished { record: None }, AddRecordActionView::Finish)
            }
        },
        _ => (state, AddRecordActionView::Nothing),
    }
}

/// Starts the dialogue: the state to begin from. The caller asks for the
/// name first.
pub fn begin_record() -> (start: (AddRecordState, AddRecordAction))
    ensures
        start.0@ == AddRecordStateView::AskingName,
        start.1@ == (AddRecordActionView::AskName { again: false }),
{
    (AddRecordState::AskingName, AddRecordAction::AskName { again: false })
}

/// Takes the dialogue one step on: given where it stands and what the
/// caller hands back, says where it stands next and what to do.
pub fn add_record(state: AddRecordState, event: AddRecordEvent) -> (next: (
    AddRecordState,
    AddRecordAction,
))
    ensures
        (next.0@, next.1@) == add_record_step(state@, event@),
{
    match (state, event) {
        (AddRecordState::AskingName, AddRecordEvent::Line(line)) => {
            let chars = to_chars(line.as_str());
            let kept = trim_chars(chars.as_slice());
            if kept.len() > 0 {
                (
                    AddRecordState::AskingAmount { name: from_chars(kept.as_slice()) },
                    AddRecordAction::AskAmount { again: false },
                )
            } else {
                (AddRecordState::AskingName, AddRecordAction::AskName { again: true })
            }
        },
        (AddRecordState::AskingAmount { name }, AddRecordEvent::Line(line)) => {
            let chars = to_chars(line.as_str());
            let kept = trim_chars(chars.as_slice());
            match parse_amount_chars(kept.as_slice()) {
                Some(amount) => (
                    AddRecordState::LoadingCategories { name, amount },
                    AddRecordAction::LoadCategories,
                ),
                None => (
                    AddRecordState::AskingAmount { name },
                    AddRecordAction::AskAmount { again: true },
                ),
            }
        },
        (
            AddRecordState::LoadingCategories { name, amount },
            AddRecordEvent::Categories(categories),
        ) => (
            AddRecordState::AskingCategory { name, amount, categories },
            AddRecordAction::AskCategory { again: false },
        ),
        (AddRecordState::AskingCategory { name, amount, categories }, AddRecordEvent::Line(line)) => {
            let chars = to_chars(line.as_str());
            let kept = trim_chars(chars.as_slice());
            let answer = from_chars(kept.as_slice());
            let choice = CategoryResultType::from_str(answer.as_str());
            match select_category(&choice, &categories) {
                Selection::Existing(category) => (
                    AddRecordState::Confirming { draft: Expense { name, category, amount } },
                    AddRecordAction::Confirm { new_category: None },
                ),
                Selection::New(category) => {
                    let added = category.clone();
                    (
                        AddRecordState::Confirming { draft: Expense { name, category, amount } },
                        AddRecordAction::Confirm { new_category: Some(added) },
                    )
                },
                Selection::Rejected => (
                    AddRecordState::AskingCategory { name, amount, categories },
                    AddRecordAction::AskCategory { again: true },
                ),
            }
        },
        (AddRecordState::Confirming { draft }, AddRecordEvent::Line(line)) => {
            if affirmative(line.as_str()) {
                (AddRecordState::Finished { record: Some(draft) }, AddRecordAction::Finish)
            } else {
                (AddRecordState::Finished { record: None }, AddRecordAction::Finish)
            }
        },
        (state, _) => (state, AddRecordAction::Nothing),
    }
}

/// Answering the category question with the number of a category on show
/// drafts a record with exactly that category, and adds nothing to the list.
pub proof fn lemma_number_picks_listed_category(
    name: Seq<char>,
    amount: Amount,
    categories: Seq<Seq<char>>,
    answer: Seq<char>,
    index: usize,
)
    requires
        category_answer(trimmed(answer)) == CategoryResultView::ByIndex(index),
        1 <= index <= categories.len(),
    ensures
        add_record_step(
            AddRecordStateView::AskingCategory { name, amount, categories },
            AddRecordEventView::Line(answer),
        ) == (
            AddRecordStateView::Confirming {
                draft: ExpenseView { name, category: categories[index - 1], amount },
            },
            AddRecordActionView::Confirm { new_category: None },
        ),
{
}

/// Answering the category question with a name drafts a record with that
/// name as its category and asks for it to be added to the list; adding its
/// line to a list makes the list one category longer, by that name.
pub proof fn lemma_name_adds_one_category(
    name: Seq<char>,
    amount: Amount,
    categories: Seq<Seq<char>>,
    answer: Seq<char>,
    list: Seq<char>,
)
    requires
        category_answer(trimmed(answer)) is ByName,
        is_category_list(list),
        fits_on_a_line(trimmed(answer)),
    ensures
        add_record_step(
            AddRecordStateView::AskingCategory { name, amount, categories },
            AddRecordEventView::Line(answer),
        ) == (
            AddRecordStateView::Confirming {
                draft: ExpenseView { name, category: trimmed(answer), amount },
            },
            AddRecordActionView::Confirm { new_category: Some(trimmed(answer)) },
        ),
        lines(list + category_line_text(trimmed(answer))) == lines(list).push(trimmed(answer)),
{
    lemma_append_adds_one_category(list, trimmed(answer));
}

/// Any answer to the confirmation but `y` or `yes` ends the dialogue
/// without a record.
pub proof fn lemma_unconfirmed_draft_is_dropped(draft: ExpenseView, answer: Seq<char>)
    requires
        !is_affirmative(answer),
    ensures
        add_record_step(AddRecordStateView::Confirming { draft }, AddRecordEventView::Line(answer))
            == (AddRecordStateView::Finished { record: None }, AddRecordActionView::Finish),
{
}

} // verus!
