//! The ledger of a month: one line of text per record.

use vstd::prelude::*;
use crate::amount::{Amount, amount_text, format_amount, lemma_amount_text_round_trip};
use crate::stats::{expense_total, income_total};

verus! {

/// A record of the ledger: what the money was for, its category, and the
/// amount, positive for income and negative for an expense.
#[derive(Debug, PartialEq, Eq)]
pub struct Expense {
    pub name: String,
    pub category: String,
    pub amount: Amount,
}

/// An [`Expense`] as contracts see it.
pub struct ExpenseView {
    pub name: Seq<char>,
    pub category: Seq<char>,
    pub amount: Amount,
}

impl View for Expense {
    type V = ExpenseView;

    open spec fn view(&self) -> ExpenseView {
        ExpenseView { name: self.name@, category: self.category@, amount: self.amount }
    }
}

/// The line that `expense` takes in the ledger: name, category and amount
/// with commas between them, and a line feed at the end.
pub open spec fn record_line_text(expense: ExpenseView) -> Seq<char> {
    expense.name + seq![','] + expense.category + seq![','] + amount_text(
        expense.amount.hundredths as int,
    ) + seq!['\n']
}

/// Writes the line to append to the ledger for `expense`. Commas inside the
/// name or the category are written as they are.
pub fn record_line(expense: &Expense) -> (line: String)
    ensures
        line@ == record_line_text(expense@),
{
    let mut line = expense.name.clone();
    line.push(',');
    line.append(expense.category.as_str());
    line.push(',');
    let amount = format_amount(expense.amount);
    line.append(amount.as_str());
    line.push('\n');
    line
}

/// The fields that the line of `expense` holds.
pub open spec fn row_of(expense: ExpenseView) -> Seq<Seq<char>> {
    seq![expense.name, expense.category, amount_text(expense.amount.hundredths as int)]
}

/// The rows of a ledger that holds `records`, one row each.
pub open spec fn rows_of(records: Seq<ExpenseView>) -> Seq<Seq<Seq<char>>> {
    records.map_values(|expense: ExpenseView| row_of(expense))
}

/// Sum of the positive amounts of `records`, in hundredths.
pub open spec fn sum_of_income(records: Seq<ExpenseView>) -> int
    decreases records.len(),
{
    if records.len() == 0 {
        0
    } else {
        let amount = records.last().amount.hundredths;
        sum_of_income(records.drop_last()) + if amount > 0 {
            amount as int
        } else {
            0
        }
    }
}

/// Sum of the negative amounts of `records`, in hundredths.
pub open spec fn sum_of_expense(records: Seq<ExpenseView>) -> int
    decreases records.len(),
{
    if records.len() == 0 {
        0
    } else {
        let amount = records.last().amount.hundredths;
        sum_of_expense(records.drop_last()) + if amount < 0 {
            amount as int
        } else {
            0
        }
    }
}

/// The statistics read back what the ledger was given: over the rows that a
/// list of records writes, the income is the sum of the positive amounts and
/// the expense the sum of the negative ones, to the hundredth.
pub proof fn lemma_totals_of_records(records: Seq<ExpenseView>)
    ensures
        income_total(rows_of(records)) == sum_of_income(records),
        expense_total(rows_of(records)) == sum_of_expense(records),
    decreases records.len(),
{
    if records.len() > 0 {
        let last = records.last();
        lemma_totals_of_records(records.drop_last());
        assert(rows_of(records).drop_last() =~= rows_of(records.drop_last()));
        lemma_amount_text_round_trip(last.amount);
    }
}

} // verus!
