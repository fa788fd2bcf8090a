//! Categories: the list that is kept as lines of text, and how the user
//! picks one of them or names a new one.

use vstd::prelude::*;
use crate::amount::{all_digits, digits_value, read_digits};
use crate::text::{
    find_from, first_index_of, from_chars, lemma_first_index_of, lemma_first_index_of_bounds,
    slice_chars, to_chars, trim_chars, trimmed,
};

verus! {

/// `line` without the carriage return that it may end with.
pub open spec fn without_carriage_return(line: Seq<char>) -> Seq<char> {
    if line.len() > 0 && line.last() == '\r' {
        line.drop_last()
    } else {
        line
    }
}

/// The lines of `content`. A line ends at a line feed, and the carriage
/// return before the line feed, if there is one, goes with it; what follows
/// the last line feed is a line too, unless nothing follows it.
pub open spec fn lines(content: Seq<char>) -> Seq<Seq<char>>
    decreases content.len(),
{
    let at = first_index_of(content, '\n');
    if content.len() == 0 {
        Seq::empty()
    } else if 0 <= at < content.len() {
        seq![without_carriage_return(content.take(at))] + lines(content.skip(at + 1))
    } else {
        seq![content]
    }
}

/// Reads the category list: one category per line, in the order of the
/// lines.
pub fn parse_categories(content: &str) -> (categories: Vec<String>)
    ensures
        categories.deep_view() == lines(content@),
{
    let chars = to_chars(content);
    let mut categories: Vec<String> = Vec::new();
    let mut start: usize = 0;
    assert(chars@.skip(0) =~= chars@);
    while start < chars.len()
        invariant
            start <= chars.len(),
            chars@ == content@,
            lines(chars@) == categories.deep_view() + lines(chars@.skip(start as int)),
        decreases chars.len() - start,
    {
        let at = find_from(chars.as_slice(), '\n', start);
        let ghost rest = chars@.skip(start as int);
        if at == chars.len() {
            let line = slice_chars(chars.as_slice(), start, at);
            categories.push(from_chars(line.as_slice()));
            start = at;
        } else {
            let end: usize = if at > start && chars[at - 1] == '\r' {
                at - 1
            } else {
                at
            };
            let line = slice_chars(chars.as_slice(), start, end);
            categories.push(from_chars(line.as_slice()));
            proof {
                let whole = rest.take(at - start);
                assert(line@ =~= without_carriage_return(whole));
                assert(rest.skip(at - start + 1) =~= chars@.skip(at + 1));
            }
            start = at + 1;
        }
    }
    categories
}

/// The line that adds `name` to the category list.
pub open spec fn category_line_text(name: Seq<char>) -> Seq<char> {
    name.push('\n')
}

/// The line to append to the category list for a new category. Nothing
/// keeps a name from being added twice.
pub fn category_line(name: &str) -> (line: String)
    ensures
        line@ == category_line_text(name@),
{
    let mut line = name.to_owned();
    line.push('\n');
    line
}

/// Whether `content` is a category list as this crate writes it: every line
/// in it is ended by a line feed.
pub open spec fn is_category_list(content: Seq<char>) -> bool {
    content.len() == 0 || content.last() == '\n'
}

/// Whether `name` can stand on a line of its own: it holds no line feed and
/// does not end in a carriage return.
pub open spec fn fits_on_a_line(name: Seq<char>) -> bool {
    &&& forall|i: int| 0 <= i < name.len() ==> #[trigger] name[i] != '\n'
    &&& !(name.len() > 0 && name.last() == '\r')
}

/// Appending the line of a new category to a category list adds exactly one
/// category, the new one, after those that were there.
pub proof fn lemma_append_adds_one_category(content: Seq<char>, name: Seq<char>)
    requires
        is_category_list(content),
        fits_on_a_line(name),
    ensures
        lines(content + category_line_text(name)) == lines(content).push(name),
        is_category_list(content + category_line_text(name)),
    decreases content.len(),
{
    let line = category_line_text(name);
    let longer = content + line;
    if content.len() == 0 {
        lemma_first_index_of(line, '\n', name.len() as int);
        assert(line.take(name.len() as int) =~= name);
        assert(line.skip(name.len() as int + 1) =~= Seq::<char>::empty());
        assert(lines(Seq::<char>::empty()) =~= Seq::<Seq<char>>::empty());
    } else {
        lemma_first_index_of_bounds(content, '\n');
        let at = first_index_of(content, '\n');
        lemma_first_index_of(longer, '\n', at);
        let rest = content.skip(at + 1);
        assert(longer.take(at) =~= content.take(at));
        assert(longer.skip(at + 1) =~= rest + line);
        lemma_append_adds_one_category(rest, name);
    }
}

/// The number that `text` writes as a place in a list: digits, with or
/// without a `+` before them, whose value fits in `usize`.
pub open spec fn index_of_text(text: Seq<char>) -> Option<usize> {
    let digits = if text.len() > 0 && text[0] == '+' {
        text.skip(1)
    } else {
        text
    };
    if digits.len() > 0 && all_digits(digits) && digits_value(digits) <= usize::MAX {
        Some(digits_value(digits) as usize)
    } else {
        None
    }
}

/// What the user answers when asked for a category: the number of one of
/// the categories shown, or the name of a new one.
#[derive(Debug, PartialEq, Eq)]
pub enum CategoryResultType {
    ByIndex(usize),
    ByName(String),
}

/// A [`CategoryResultType`] as contracts see it.
pub enum CategoryResultView {
    ByIndex(usize),
    ByName(Seq<char>),
}

impl View for CategoryResultType {
    type V = CategoryResultView;

    open spec fn view(&self) -> CategoryResultView {
        match self {
            CategoryResultType::ByIndex(index) => CategoryResultView::ByIndex(*index),
            CategoryResultType::ByName(name) => CategoryResultView::ByName(name@),
        }
    }
}

/// How an answer is read: as a number where, without the white space around
/// it, it writes one, and else as a name, which is the answer as it stands.
pub open spec fn category_answer(answer: Seq<char>) -> CategoryResultView {
    match index_of_text(trimmed(answer)) {
        Some(index) => CategoryResultView::ByIndex(index),
        None => CategoryResultView::ByName(answer),
    }
}

impl CategoryResultType {
    /// Reads an answer to the category question. Every answer reads as one or
    /// the other.
    pub fn from_str(s: &str) -> (choice: CategoryResultType)
        ensures
            choice@ == category_answer(s@),
    {
        let chars = to_chars(s);
        let kept = trim_chars(chars.as_slice());
        let start: usize = if kept.len() > 0 && kept[0] == '+' {
            1
        } else {
            0
        };
        let cap: u128 = usize::MAX as u128;
        assert(kept@.skip(0) =~= kept@);
        if kept.len() > start {
            match read_digits(kept.as_slice(), start, kept.len(), cap) {
                Some(value) => {
                    return CategoryResultType::ByIndex(value as usize);
                },
                None => {},
            }
        }
        CategoryResultType::ByName(from_chars(chars.as_slice()))
    }
}

/// The category that an answer leads to.
#[derive(Debug, PartialEq, Eq)]
pub enum Selection {
    /// One of the categories of the list.
    Existing(String),
    /// A category that is to be added to the list.
    New(String),
    /// None: the number is not the number of a category.
    Rejected,
}

/// A [`Selection`] as contracts see it.
pub enum SelectionView {
    Existing(Seq<char>),
    New(Seq<char>),
    Rejected,
}

impl View for Selection {
    type V = SelectionView;

    open spec fn view(&self) -> SelectionView {
        match self {
            Selection::Existing(name) => SelectionView::Existing(name@),
            Selection::New(name) => SelectionView::New(name@),
            Selection::Rejected => SelectionView::Rejected,
        }
    }
}

/// The category that `choice` leads to among `categories`, which are shown
/// numbered from one: the category of that number, a new category of the
/// name given, or none where the number is not on the list.
pub open spec fn selection(choice: CategoryResultView, categories: Seq<Seq<char>>) -> SelectionView {
    match choice {
        CategoryResultView::ByName(name) => SelectionView::New(name),
        CategoryResultView::ByIndex(index) => if 1 <= index <= categories.len() {
            SelectionView::Existing(categories[index - 1])
        } else {
            SelectionView::Rejected
        },
    }
}

/// Resolves an answer against the categories that were shown.
pub fn select_category(choice: &CategoryResultType, categories: &Vec<String>) -> (picked: Selection)
    ensures
        picked@ == selection(choice@, categories.deep_view()),
{
    match choice {
        CategoryResultType::ByName(name) => Selection::New(name.clone()),
        CategoryResultType::ByIndex(index) => {
            if *index > 0 && *index <= categories.len() {
                Selection::Existing(categories[*index - 1].clone())
            } else {
                Selection::Rejected
            }
        },
    }
}

} // verus!
