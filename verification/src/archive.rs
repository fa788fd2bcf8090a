//! Closing a month: its ledger moves from the in-progress folder to the
//! folder of closed months. The moves on disk are for the caller to make; the
//! steps and their order are decided here.

use vstd::prelude::*;
use crate::text::{from_chars, optional_text, split, split_chars, texts, to_chars};

verus! {

/// Whether `piece`, one of the pieces of a path between `/`, names something:
/// it is neither empty nor the single dot that stands for "here".
pub open spec fn names_something(piece: Seq<char>) -> bool {
    piece.len() > 0 && piece != seq!['.']
}

/// The last of `pieces` that names something, if any does.
pub open spec fn last_named(pieces: Seq<Seq<char>>) -> Option<Seq<char>>
    decreases pieces.len(),
{
    if pieces.len() == 0 {
        None
    } else if names_something(pieces.last()) {
        Some(pieces.last())
    } else {
        last_named(pieces.drop_last())
    }
}

/// The file name of `path`: its final component, with `/` as the separator.
/// Trailing separators and single dots are passed over; a path that ends in
/// `..`, or that has no component at all, has no file name.
pub open spec fn file_name(path: Seq<char>) -> Option<Seq<char>> {
    match last_named(split(path, '/')) {
        Some(piece) if piece != seq!['.', '.'] => Some(piece),
        _ => None,
    }
}

/// Where the ledger at `path` goes when its month is closed: the folder of
/// closed months, under the file name it had.
pub open spec fn destination_text(path: Seq<char>) -> Option<Seq<char>> {
    match file_name(path) {
        Some(name) => Some("done/"@ + name),
        None => None,
    }
}

/// Executable form of [`destination_text`].
pub fn destination(path: &str) -> (to: Option<String>)
    ensures
        match to {
            Some(t) => destination_text(path@) == Some(t@),
            None => destination_text(path@) is None,
        },
{
    let chars = to_chars(path);
    let pieces = split_chars(chars.as_slice(), '/');
    let ghost all = texts(pieces@);
    let mut i: usize = pieces.len();
    assert(all.take(i as int) =~= all);
    while i > 0
        invariant
            i <= pieces.len(),
            all == texts(pieces@),
            all == split(path@, '/'),
            last_named(all) == last_named(all.take(i as int)),
        decreases i,
    {
        let piece = &pieces[i - 1];
        assert(all.take(i as int).drop_last() =~= all.take(i - 1));
        let is_dot = piece.len() == 1 && piece[0] == '.';
        assert(is_dot == (piece@ == seq!['.'])) by {
            if is_dot {
                assert(piece@ =~= seq!['.']);
            }
        }
        if piece.len() > 0 && !is_dot {
            let is_parent = piece.len() == 2 && piece[0] == '.' && piece[1] == '.';
            assert(is_parent == (piece@ == seq!['.', '.'])) by {
                if is_parent {
                    assert(piece@ =~= seq!['.', '.']);
                }
            }
            if is_parent {
                return None;
            }
            let mut to = "done/".to_owned();
            let name = from_chars(piece.as_slice());
            to.append(name.as_str());
            return Some(to);
        }
        i -= 1;
    }
    None
}

/// Where the closing of a month stands.
#[derive(Clone, Copy, Debug, PartialEq, Eq, Structural)]
pub enum CloseState {
    /// Nothing has been asked for yet.
    Idle,
    /// Asked whether the folder of closed months exists.
    CheckingFolder,
    /// Asked for that folder to be created.
    CreatingFolder,
    /// Asked once more whether the folder exists, before the move.
    ConfirmingFolder,
    /// Asked for the ledger to be moved.
    Moving,
    /// The month is closed.
    Closed,
    /// The closing was given up.
    Failed,
}

/// What the caller reports back after doing what it was asked.
#[derive(Clone, Copy, Debug, PartialEq, Eq, Structural)]
pub enum CloseEvent {
    /// The user asked to close the month.
    Start,
    /// The folder of closed months exists.
    FolderFound,
    /// There is no folder of closed months.
    FolderAbsent,
    /// The folder was created, or the ledger was moved.
    Completed,
    /// Creating the folder, or moving the ledger, failed.
    IoError,
}

/// Why a month could not be closed.
#[derive(Clone, Copy, Debug, PartialEq, Eq, Structural)]
pub enum CloseError {
    /// There is no current ledger to close.
    MissingPath,
    /// The folder of closed months is still not there after it was created.
    FolderNotFound,
    /// The path of the ledger has no file name.
    InvalidPath,
    /// The caller could not create the folder or move the ledger.
    Io,
}

impl CloseError {
    /// What to tell the user. For [`CloseError::Io`] the caller has the
    /// error of the step that failed, which says more.
    pub open spec fn text(self) -> Seq<char> {
        match self {
            CloseError::MissingPath => "Expense file path is missing or invalid."@,
            CloseError::FolderNotFound => "The 'done' folder does not exist"@,
            CloseError::InvalidPath => "The expense file path has no file name."@,
            CloseError::Io => "The folder could not be created or the file could not be moved."@,
        }
    }

    /// What to tell the user.
    pub fn message(self) -> (text: &'static str)
        ensures
            text@ == self.text(),
    {
        match self {
            CloseError::MissingPath => "Expense file path is missing or invalid.",
            CloseError::FolderNotFound => "The 'done' folder does not exist",
            CloseError::InvalidPath => "The expense file path has no file name.",
            CloseError::Io => "The folder could not be created or the file could not be moved.",
        }
    }
}

/// What the caller is asked to do next.
#[derive(Debug, PartialEq, Eq)]
pub enum CloseAction {
    /// Report whether the folder of closed months exists.
    CheckFolder,
    /// Create the folder of closed months.
    CreateFolder,
    /// Move the current ledger to this path.
    Move(String),
    /// Tell the user that the month is closed.
    Succeed,
    /// Tell the user why it is not.
    Fail(CloseError),
    /// Nothing: the event was not one that the state awaits.
    Nothing,
}

/// A [`CloseAction`] as contracts see it.
pub enum CloseActionView {
    CheckFolder,
    CreateFolder,
    Move(Seq<char>),
    Succeed,
    Fail(CloseError),
    Nothing,
}

impl View for CloseAction {
    type V = CloseActionView;

    open spec fn view(&self) -> CloseActionView {
        match self {
            CloseAction::CheckFolder => CloseActionView::CheckFolder,
            CloseAction::CreateFolder => CloseActionView::CreateFolder,
            CloseAction::Move(to) => CloseActionView::Move(to@),
            CloseAction::Succeed => CloseActionView::Succeed,
            CloseAction::Fail(error) => CloseActionView::Fail(*error),
            CloseAction::Nothing => CloseActionView::Nothing,
        }
    }
}

/// The step that closing the ledger at `path` takes from `state` on `event`:
/// the next state and what the caller is asked to do.
///
/// The folder of closed months is created where it is missing and looked for
/// once more before the move; the ledger keeps its file name. Without a
/// current ledger nothing is touched.
pub open spec fn close_step(path: Option<Seq<char>>, state: CloseState, event: CloseEvent) -> (
    CloseState,
    CloseActionView,
) {
    match (state, event) {
        (CloseState::Idle, CloseEvent::Start) => match path {
            Some(_) => (CloseState::CheckingFolder, CloseActionView::CheckFolder),
            None => (CloseState::Failed, CloseActionView::Fail(CloseError::MissingPath)),
        },
        (CloseState::CheckingFolder, CloseEvent::FolderFound) => (
            CloseState::ConfirmingFolder,
            CloseActionView::CheckFolder,
        ),
        (CloseState::CheckingFolder, CloseEvent::FolderAbsent) => (
            CloseState::CreatingFolder,
            CloseActionView::CreateFolder,
        ),
        (CloseState::CreatingFolder, CloseEvent::Completed) => (
            CloseState::ConfirmingFolder,
            CloseActionView::CheckFolder,
        ),
        (CloseState::CreatingFolder, CloseEvent::IoError) => (
            CloseState::Failed,
            CloseActionView::Fail(CloseError::Io),
        ),
        (CloseState::ConfirmingFolder, CloseEvent::FolderAbsent) => (
            CloseState::Failed,
            CloseActionView::Fail(CloseError::FolderNotFound),
        ),
        (CloseState::ConfirmingFolder, CloseEvent::FolderFound) => match path {
            Some(p) => match destination_text(p) {
                Some(to) => (CloseState::Moving, CloseActionView::Move(to)),
                None => (CloseState::Failed, CloseActionView::Fail(CloseError::InvalidPath)),
            },
            None => (CloseState::Failed, CloseActionView::Fail(CloseError::MissingPath)),
        },
        (CloseState::Moving, CloseEvent::Completed) => (
            CloseState::Closed,
            CloseActionView::Succeed,
        ),
        (CloseState::Moving, CloseEvent::IoError) => (
            CloseState::Failed,
            CloseActionView::Fail(CloseError::Io),
        ),
        _ => (state, CloseActionView::Nothing),
    }
}

/// Closes the current month, one step at a time: given where the closing
/// stands and what the caller reports, says where it stands next and what
/// the caller is to do. The caller starts from [`CloseState::Idle`] with
/// [`CloseEvent::Start`] and goes on until the state is `Closed` or `Failed`.
pub fn create_and_move_file(
    expense_file_path: &Option<String>,
    state: CloseState,
    event: CloseEvent,
) -> (next: (CloseState, CloseAction))
    ensures
        (next.0, next.1@) == close_step(optional_text(*expense_file_path), state, event),
{
    match (state, event) {
        (CloseState::Idle, CloseEvent::Start) => match expense_file_path {
            Some(_) => (CloseState::CheckingFolder, CloseAction::CheckFolder),
            None => (CloseState::Failed, CloseAction::Fail(CloseError::MissingPath)),
        },
        (CloseState::CheckingFolder, CloseEvent::FolderFound) => (
            CloseState::ConfirmingFolder,
            CloseAction::CheckFolder,
        ),
        (CloseState::CheckingFolder, CloseEvent::FolderAbsent) => (
            CloseState::CreatingFolder,
            CloseAction::CreateFolder,
        ),
        (CloseState::CreatingFolder, CloseEvent::Completed) => (
            CloseState::ConfirmingFolder,
            CloseAction::CheckFolder,
        ),
        (CloseState::CreatingFolder, CloseEvent::IoError) => (
            CloseState::Failed,
            CloseAction::Fail(CloseError::Io),
        ),
        (CloseState::ConfirmingFolder, CloseEvent::FolderAbsent) => (
            CloseState::Failed,
            CloseAction::Fail(CloseError::FolderNotFound),
        ),
        (CloseState::ConfirmingFolder, CloseEvent::FolderFound) => match expense_file_path {
            Some(path) => match destination(path.as_str()) {
                Some(to) => (CloseState::Moving, CloseAction::Move(to)),
                None => (CloseState::Failed, CloseAction::Fail(CloseError::InvalidPath)),
            },
            None => (CloseState::Failed, CloseAction::Fail(CloseError::MissingPath)),
        },
        (CloseState::Moving, CloseEvent::Completed) => (CloseState::Closed, CloseAction::Succeed),
        (CloseState::Moving, CloseEvent::IoError) => (
            CloseState::Failed,
            CloseAction::Fail(CloseError::Io),
        ),
        _ => (state, CloseAction::Nothing),
    }
}

/// Closing a month while the folder of closed months is missing succeeds:
/// the folder is asked to be created, then the ledger is asked to be moved
/// into it under its own file name, and with both done the month is closed.
pub proof fn lemma_close_creates_missing_folder(path: Seq<char>)
    requires
        destination_text(path) is Some,
    ensures
        ({
            let current = Some(path);
            let first = close_step(current, CloseState::Idle, CloseEvent::Start);
            let second = close_step(current, first.0, CloseEvent::FolderAbsent);
            let third = close_step(current, second.0, CloseEvent::Completed);
            let fourth = close_step(current, third.0, CloseEvent::FolderFound);
            let fifth = close_step(current, fourth.0, CloseEvent::Completed);
            &&& first.1 == CloseActionView::CheckFolder
            &&& second.1 == CloseActionView::CreateFolder
            &&& third.1 == CloseActionView::CheckFolder
            &&& fourth.1 == CloseActionView::Move(destination_text(path)->0)
            &&& fifth == (CloseState::Closed, CloseActionView::Succeed)
        }),
{
}

} // verus!
