//! Month files: where the ledger of a month lives while it is in progress
//! and once it is closed, and which month is the active one.

use vstd::prelude::*;
use crate::text::{ends_with, from_chars, has_suffix, slice_chars, to_chars, trim, trimmed};

verus! {

/// Path of the ledger of `month` while it is in progress.
pub open spec fn in_progress_path_text(month: Seq<char>) -> Seq<char> {
    "./in_progress/"@ + month + ".csv"@
}

/// Path of the ledger of `month` once it is closed.
pub open spec fn done_path_text(month: Seq<char>) -> Seq<char> {
    "./done/"@ + month + ".csv"@
}

/// Path of the ledger of `month` while it is in progress.
pub fn in_progress_path(month: &str) -> (path: String)
    ensures
        path@ == in_progress_path_text(month@),
{
    let mut path = "./in_progress/".to_owned();
    path.append(month);
    path.append(".csv");
    path
}

/// Path of the ledger of `month` once it is closed.
pub fn done_path(month: &str) -> (path: String)
    ensures
        path@ == done_path_text(month@),
{
    let mut path = "./done/".to_owned();
    path.append(month);
    path.append(".csv");
    path
}

/// Whether `name` is the name of a ledger file.
pub open spec fn is_ledger_name(name: Seq<char>) -> bool {
    has_suffix(name, ".csv"@)
}

/// The month that the ledger file `name` belongs to: the name without its
/// extension. A name that is nothing but the extension has none to drop.
pub open spec fn month_of_ledger(name: Seq<char>) -> Seq<char> {
    if name.len() > 4 {
        name.take(name.len() - 4)
    } else {
        name
    }
}

/// The month of the first ledger file among `names`, if there is one.
pub open spec fn active_month(names: Seq<Seq<char>>) -> Option<Seq<char>>
    decreases names.len(),
{
    if names.len() == 0 {
        None
    } else if is_ledger_name(names[0]) {
        Some(month_of_ledger(names[0]))
    } else {
        active_month(names.skip(1))
    }
}

/// Finds the active month among the file names of the in-progress folder,
/// taken in the order in which the folder lists them: the first name that
/// ends in `.csv` decides, and the month is that name without the extension.
pub fn get_month_file_name(names: &Vec<String>) -> (month: Option<String>)
    ensures
        match month {
            Some(m) => active_month(names.deep_view()) == Some(m@),
            None => active_month(names.deep_view()) is None,
        },
{
    let suffix = to_chars(".csv");
    let ghost all = names.deep_view();
    let mut i: usize = 0;
    assert(all.skip(0) =~= all);
    while i < names.len()
        invariant
            i <= names.len(),
            all == names.deep_view(),
            suffix@ == ".csv"@,
            active_month(all) == active_month(all.skip(i as int)),
        decreases names.len() - i,
    {
        let chars = to_chars(names[i].as_str());
        assert(all.skip(i as int).skip(1) =~= all.skip(i + 1));
        if ends_with(chars.as_slice(), suffix.as_slice()) {
            proof {
                reveal_strlit(".csv");
            }
            let keep: usize = if chars.len() > 4 {
                chars.len() - 4
            } else {
                chars.len()
            };
            let stem = slice_chars(chars.as_slice(), 0, keep);
            return Some(from_chars(stem.as_slice()));
        }
        i += 1;
    }
    None
}

/// The ledger that the program works on when it starts, or after a month
/// was closed.
#[derive(Debug, PartialEq, Eq)]
pub enum CurrentMonth {
    /// A ledger is in progress: its month and its path.
    Detected { month: String, path: String },
    /// None is: the user is to be asked for the name of the month.
    Unknown,
}

/// A [`CurrentMonth`] as contracts see it.
pub enum CurrentMonthView {
    Detected { month: Seq<char>, path: Seq<char> },
    Unknown,
}

impl View for CurrentMonth {
    type V = CurrentMonthView;

    open spec fn view(&self) -> CurrentMonthView {
        match self {
            CurrentMonth::Detected { month, path } => CurrentMonthView::Detected {
                month: month@,
                path: path@,
            },
            CurrentMonth::Unknown => CurrentMonthView::Unknown,
        }
    }
}

/// The current month that the file names of the in-progress folder give.
pub open spec fn current_month(names: Seq<Seq<char>>) -> CurrentMonthView {
    match active_month(names) {
        Some(month) => CurrentMonthView::Detected { month, path: in_progress_path_text(month) },
        None => CurrentMonthView::Unknown,
    }
}

/// Settles which ledger to work on, from the file names of the in-progress
/// folder: the ledger of the active month, if there is one; else the user
/// has to name the month (see [`named_month_path`]).
pub fn ask_or_get_current_month(names: &Vec<String>) -> (current: CurrentMonth)
    ensures
        current@ == current_month(names.deep_view()),
{
    match get_month_file_name(names) {
        Some(month) => {
            let path = in_progress_path(month.as_str());
            CurrentMonth::Detected { month, path }
        },
        None => CurrentMonth::Unknown,
    }
}

/// The path of the ledger to create for the month that the user names in
/// `answer`: the name is the answer without the white space around it.
pub fn named_month_path(answer: &str) -> (path: String)
    ensures
        path@ == in_progress_path_text(trimmed(answer@)),
{
    let month = trim(answer);
    in_progress_path(month.as_str())
}

} // verus!
