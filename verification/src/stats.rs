//! Statistics of archived months: income, expense, their sum and the share
//! of income that is left, one block of entries per month.

use vstd::prelude::*;
use crate::amount::{
    Amount, amount_of, amount_text, format_amount, integer_text, parse_amount, push_integer,
};
use crate::month::{done_path, done_path_text};
use crate::rounding::{round_half_away, rounded_quotient};
use crate::text::{
    capitalize_chars, capitalized, from_chars, split, split_chars, texts, to_chars, trim_chars,
    trimmed,
};

verus! {

/// The error type of the `csv` crate.
#[verifier::external_type_specification]
#[verifier::external_body]
pub struct ExCsvError(csv::Error);

/// What the `csv` reader, set to comma-separated rows without a header row,
/// makes of the bytes `data`: the rows with their fields, or `None` where the
/// reader reports an error in some row, as it does for a row that has not as
/// many fields as the row before it.
pub uninterp spec fn csv_rows(data: Seq<u8>) -> Option<Seq<Seq<Seq<char>>>>;

/// Runs a `csv::Reader` built by `csv::ReaderBuilder` with delimiter `,` and
/// no header row over `data`, and collects what its `records` iterator
/// yields up to the first error. The result is the one that [`csv_rows`]
/// names: the rows in order, each with its fields in order, or the first
/// error.
#[verifier::external_body]
fn read_rows(data: &[u8]) -> (r: Result<Vec<Vec<String>>, csv::Error>)
    ensures
        match r {
            Ok(rows) => csv_rows(data@) == Some(rows.deep_view()),
            Err(_) => csv_rows(data@) is None,
        },
{
    let mut reader = csv::ReaderBuilder::new().delimiter(b',').has_headers(false).from_reader(data);
    reader.records().map(|row| row.map(|fields| fields.iter().map(String::from).collect())).collect()
}

/// The amount that a row records: its third field read as an amount, where
/// there is one and it reads as one.
pub open spec fn row_amount(row: Seq<Seq<char>>) -> Option<Amount> {
    if row.len() > 2 {
        amount_of(row[2])
    } else {
        None
    }
}

/// What `row` adds to the income: its amount where that is positive.
pub open spec fn income_part(row: Seq<Seq<char>>) -> int {
    match row_amount(row) {
        Some(amount) if amount.hundredths > 0 => amount.hundredths as int,
        _ => 0,
    }
}

/// What `row` adds to the expense: its amount where that is negative.
pub open spec fn expense_part(row: Seq<Seq<char>>) -> int {
    match row_amount(row) {
        Some(amount) if amount.hundredths < 0 => amount.hundredths as int,
        _ => 0,
    }
}

/// Sum of the positive amounts of `rows`, in hundredths.
pub open spec fn income_total(rows: Seq<Seq<Seq<char>>>) -> int
    decreases rows.len(),
{
    if rows.len() == 0 {
        0
    } else {
        income_total(rows.drop_last()) + income_part(rows.last())
    }
}

/// Sum of the negative amounts of `rows`, in hundredths: zero or negative.
pub open spec fn expense_total(rows: Seq<Seq<Seq<char>>>) -> int
    decreases rows.len(),
{
    if rows.len() == 0 {
        0
    } else {
        expense_total(rows.drop_last()) + expense_part(rows.last())
    }
}

/// The income is never negative and the expense never positive.
pub proof fn lemma_signs_of_totals(rows: Seq<Seq<Seq<char>>>)
    ensures
        income_total(rows) >= 0,
        expense_total(rows) <= 0,
    decreases rows.len(),
{
    if rows.len() > 0 {
        lemma_signs_of_totals(rows.drop_last());
    }
}

/// Whether both totals of `rows` can be held as amounts.
pub open spec fn totals_fit(rows: Seq<Seq<Seq<char>>>) -> bool {
    income_total(rows) <= i64::MAX && expense_total(rows) >= i64::MIN
}

/// The amount in the third field of `row`, if it has one that reads as an
/// amount.
pub fn amount_in_row(row: &Vec<String>) -> (r: Option<Amount>)
    ensures
        r == row_amount(row.deep_view()),
{
    if row.len() > 2 {
        parse_amount(row[2].as_str())
    } else {
        None
    }
}

/// Adds up the positive and the negative amounts of `rows`: `Some` of
/// income and expense exactly when both fit.
pub fn totals(rows: &Vec<Vec<String>>) -> (r: Option<(Amount, Amount)>)
    ensures
        r is Some <==> totals_fit(rows.deep_view()),
        r matches Some((income, expense)) ==> income.hundredths == income_total(
            rows.deep_view(),
        ) && expense.hundredths == expense_total(rows.deep_view()),
{
    let ghost all = rows.deep_view();
    let mut income: i128 = 0;
    let mut expense: i128 = 0;
    let mut i: usize = 0;
    while i < rows.len()
        invariant
            i <= rows.len(),
            all == rows.deep_view(),
            income == income_total(all.take(i as int)),
            expense == expense_total(all.take(i as int)),
            0 <= income <= i * 0x7fff_ffff_ffff_ffff,
            0 >= expense >= i * -0x8000_0000_0000_0000,
        decreases rows.len() - i,
    {
        assert(all.take(i + 1).drop_last() =~= all.take(i as int));
        match amount_in_row(&rows[i]) {
            Some(amount) => {
                if amount.hundredths > 0 {
                    income = income + amount.hundredths as i128;
                } else if amount.hundredths < 0 {
                    expense = expense + amount.hundredths as i128;
                }
            },
            None => {},
        }
        i += 1;
    }
    assert(all.take(rows.len() as int) =~= all);
    if income > i64::MAX as i128 || expense < i64::MIN as i128 {
        None
    } else {
        Some((Amount { hundredths: income as i64 }, Amount { hundredths: expense as i64 }))
    }
}

/// The share of the income that is left, as text: `sum` in hundredths of
/// `income`, rounded to a whole number and followed by `%`. Without income
/// there is no such number, and the text says which way the quotient goes.
pub open spec fn percentage_text(income: int, sum: int) -> Seq<char> {
    if income != 0 {
        integer_text(round_half_away(100 * sum, income)) + seq!['%']
    } else if sum == 0 {
        "NaN%"@
    } else if sum < 0 {
        "-inf%"@
    } else {
        "inf%"@
    }
}

/// Writes the share `sum / income` as a percentage.
pub fn percentage(income: Amount, sum: Amount) -> (out: String)
    ensures
        out@ == percentage_text(income.hundredths as int, sum.hundredths as int),
{
    if income.hundredths != 0 {
        let mut out: Vec<char> = Vec::new();
        let q = rounded_quotient(100 * (sum.hundredths as i128), income.hundredths as i128);
        push_integer(&mut out, q);
        out.push('%');
        from_chars(out.as_slice())
    } else if sum.hundredths == 0 {
        "NaN%".to_owned()
    } else if sum.hundredths < 0 {
        "-inf%".to_owned()
    } else {
        "inf%".to_owned()
    }
}

/// The five entries of a month's block, in the order in which they are
/// given.
#[derive(Clone, Copy, Debug, PartialEq, Eq, Structural)]
pub enum StatLabel {
    Month,
    Income,
    Expense,
    Sum,
    Percentage,
}

impl StatLabel {
    /// The label as it is shown.
    pub open spec fn text(self) -> Seq<char> {
        match self {
            StatLabel::Month => "Month"@,
            StatLabel::Income => "Income"@,
            StatLabel::Expense => "Expense"@,
            StatLabel::Sum => "Sum"@,
            StatLabel::Percentage => "Percentage"@,
        }
    }

    /// The label as it is shown.
    pub fn name(self) -> (name: &'static str)
        ensures
            name@ == self.text(),
    {
        match self {
            StatLabel::Month => "Month",
            StatLabel::Income => "Income",
            StatLabel::Expense => "Expense",
            StatLabel::Sum => "Sum",
            StatLabel::Percentage => "Percentage",
        }
    }
}

/// The value of an entry: an amount, or text.
#[derive(Debug, PartialEq, Eq)]
pub enum ResultType {
    Number(Amount),
    Text(String),
}

/// A [`ResultType`] as contracts see it: the hundredths of the amount, or
/// the text.
pub enum ResultView {
    Number(int),
    Text(Seq<char>),
}

impl View for ResultType {
    type V = ResultView;

    open spec fn view(&self) -> ResultView {
        match self {
            ResultType::Number(amount) => ResultView::Number(amount.hundredths as int),
            ResultType::Text(text) => ResultView::Text(text@),
        }
    }
}

/// A value as it is shown: an amount in decimal notation, text as it is.
pub open spec fn shown(value: ResultView) -> Seq<char> {
    match value {
        ResultView::Number(hundredths) => amount_text(hundredths),
        ResultView::Text(text) => text,
    }
}

impl ResultType {
    /// The value as it is shown.
    pub fn render(&self) -> (out: String)
        ensures
            out@ == shown(self@),
    {
        match self {
            ResultType::Number(amount) => format_amount(*amount),
            ResultType::Text(text) => text.clone(),
        }
    }
}

/// One entry of the statistics: a label and its value.
#[derive(Debug, PartialEq, Eq)]
pub struct StatEntry {
    pub label: StatLabel,
    pub value: ResultType,
}

/// A [`StatEntry`] as contracts see it.
pub struct EntryView {
    pub label: StatLabel,
    pub value: ResultView,
}

impl View for StatEntry {
    type V = EntryView;

    open spec fn view(&self) -> EntryView {
        EntryView { label: self.label, value: self.value@ }
    }
}

/// The views of a vector of entries.
pub open spec fn entry_views(entries: Seq<StatEntry>) -> Seq<EntryView> {
    Seq::new(entries.len(), |i: int| entries[i]@)
}

/// The block of `month`, whose ledger holds `rows`: the month, the income,
/// the expense, which is zero or negative, their sum, and the sum as a
/// percentage of the income. Amounts are whole hundredths, so the sum is
/// exact to two decimal places.
pub open spec fn month_entries(month: Seq<char>, rows: Seq<Seq<Seq<char>>>) -> Seq<EntryView> {
    let income = income_total(rows);
    let expense = expense_total(rows);
    seq![
        EntryView { label: StatLabel::Month, value: ResultView::Text(month) },
        EntryView { label: StatLabel::Income, value: ResultView::Number(income) },
        EntryView { label: StatLabel::Expense, value: ResultView::Number(expense) },
        EntryView { label: StatLabel::Sum, value: ResultView::Number(income + expense) },
        EntryView {
            label: StatLabel::Percentage,
            value: ResultView::Text(percentage_text(income, income + expense)),
        },
    ]
}

/// Why the statistics of a batch of months could not be given.
#[derive(Debug, PartialEq, Eq)]
pub enum StatsError {
    /// The `csv` reader reported an error in a ledger; the text is its
    /// message.
    Malformed(String),
    /// The income or the expense of a month is too large to be held.
    TotalOutOfRange,
}

impl StatsError {
    /// What to tell the user.
    pub fn message(&self) -> (text: String)
        ensures
            text@ == match self {
                StatsError::Malformed(detail) => detail@,
                StatsError::TotalOutOfRange =>
                    "the amounts of a month add up to more than can be held"@,
            },
    {
        match self {
            StatsError::Malformed(detail) => detail.clone(),
            StatsError::TotalOutOfRange =>
                "the amounts of a month add up to more than can be held".to_owned(),
        }
    }
}

/// A [`StatsError`] without its message.
pub enum StatsFault {
    Malformed,
    TotalOutOfRange,
}

impl View for StatsError {
    type V = StatsFault;

    open spec fn view(&self) -> StatsFault {
        match self {
            StatsError::Malformed(_) => StatsFault::Malformed,
            StatsError::TotalOutOfRange => StatsFault::TotalOutOfRange,
        }
    }
}

/// What a month contributes to the statistics.
#[derive(Debug, PartialEq, Eq)]
pub enum MonthReport {
    /// The month has no ledger to read; the text is the notice for the user.
    Skipped(String),
    /// The block of the month.
    Entries(Vec<StatEntry>),
    /// The ledger could not be read to its end, or its totals are too large.
    Failed(StatsError),
}

/// A [`MonthReport`] as contracts see it.
pub enum MonthOutcome {
    Skipped(Seq<char>),
    Entries(Seq<EntryView>),
    Failed(StatsFault),
}

impl View for MonthReport {
    type V = MonthOutcome;

    open spec fn view(&self) -> MonthOutcome {
        match self {
            MonthReport::Skipped(notice) => MonthOutcome::Skipped(notice@),
            MonthReport::Entries(entries) => MonthOutcome::Entries(entry_views(entries@)),
            MonthReport::Failed(error) => MonthOutcome::Failed(error@),
        }
    }
}

/// What the rows of a ledger give for `month`: its block, unless a total is
/// too large.
pub open spec fn rows_outcome(month: Seq<char>, rows: Seq<Seq<Seq<char>>>) -> MonthOutcome {
    if totals_fit(rows) {
        MonthOutcome::Entries(month_entries(month, rows))
    } else {
        MonthOutcome::Failed(StatsFault::TotalOutOfRange)
    }
}

/// Computes the block of `month` from the rows of its ledger. Rows without
/// a third field, or whose third field does not read as an amount, count for
/// nothing.
pub fn stats_of_rows(month: &str, rows: &Vec<Vec<String>>) -> (report: MonthReport)
    ensures
        report@ == rows_outcome(month@, rows.deep_view()),
{
    match totals(rows) {
        None => MonthReport::Failed(StatsError::TotalOutOfRange),
        Some((income, expense)) => {
            proof {
                lemma_signs_of_totals(rows.deep_view());
            }
            let sum = Amount { hundredths: income.hundredths + expense.hundredths };
            let mut entries: Vec<StatEntry> = Vec::new();
            entries.push(
                StatEntry { label: StatLabel::Month, value: ResultType::Text(month.to_owned()) },
            );
            entries.push(StatEntry { label: StatLabel::Income, value: ResultType::Number(income) });
            entries.push(
                StatEntry { label: StatLabel::Expense, value: ResultType::Number(expense) },
            );
            entries.push(StatEntry { label: StatLabel::Sum, value: ResultType::Number(sum) });
            entries.push(
                StatEntry {
                    label: StatLabel::Percentage,
                    value: ResultType::Text(percentage(income, sum)),
                },
            );
            assert(entry_views(entries@) =~= month_entries(month@, rows.deep_view()));
            MonthReport::Entries(entries)
        },
    }
}

/// What is known of the ledger of a closed month.
#[derive(Debug, PartialEq, Eq)]
pub enum MonthFile {
    /// Nothing is to be found at its path.
    Missing,
    /// Its path leads to something that is not a file.
    NotAFile,
    /// The bytes of the file.
    Contents(Vec<u8>),
}

/// A [`MonthFile`] as contracts see it.
pub enum MonthFileView {
    Missing,
    NotAFile,
    Contents(Seq<u8>),
}

impl View for MonthFile {
    type V = MonthFileView;

    open spec fn view(&self) -> MonthFileView {
        match self {
            MonthFile::Missing => MonthFileView::Missing,
            MonthFile::NotAFile => MonthFileView::NotAFile,
            MonthFile::Contents(data) => MonthFileView::Contents(data@),
        }
    }
}

/// A month that the user asks about, with what was found at the path of its
/// ledger.
#[derive(Debug, PartialEq, Eq)]
pub struct MonthQuery {
    pub month: String,
    pub file: MonthFile,
}

/// A [`MonthQuery`] as contracts see it.
pub struct MonthQueryView {
    pub month: Seq<char>,
    pub file: MonthFileView,
}

impl View for MonthQuery {
    type V = MonthQueryView;

    open spec fn view(&self) -> MonthQueryView {
        MonthQueryView { month: self.month@, file: self.file@ }
    }
}

/// The views of a vector of queries.
pub open spec fn query_views(queries: Seq<MonthQuery>) -> Seq<MonthQueryView> {
    Seq::new(queries.len(), |i: int| queries[i]@)
}

/// The notice for a month whose ledger is not there.
pub open spec fn missing_notice(month: Seq<char>) -> Seq<char> {
    "The file "@ + month + " does not exist or an error occurred during the check"@
}

/// The notice for a path that leads to something other than a file.
pub open spec fn not_a_file_notice(path: Seq<char>) -> Seq<char> {
    "The path "@ + path + " corresponds to something else, not to a file"@
}

/// What a queried month contributes: a notice where there is no ledger to
/// read, a failure where the `csv` reader gives up on it, and else what its
/// rows give.
pub open spec fn month_outcome(query: MonthQueryView) -> MonthOutcome {
    match query.file {
        MonthFileView::Missing => MonthOutcome::Skipped(missing_notice(query.month)),
        MonthFileView::NotAFile => MonthOutcome::Skipped(
            not_a_file_notice(done_path_text(query.month)),
        ),
        MonthFileView::Contents(data) => match csv_rows(data) {
            Some(rows) => rows_outcome(query.month, rows),
            None => MonthOutcome::Failed(StatsFault::Malformed),
        },
    }
}

/// Computes what one queried month contributes to the statistics. A month
/// without a ledger is no failure: it gives a notice and no entries.
pub fn month_report(query: &MonthQuery) -> (report: MonthReport)
    ensures
        report@ == month_outcome(query@),
        query.file is Missing ==> report@ == MonthOutcome::Skipped(missing_notice(query.month@)),
{
    match &query.file {
        MonthFile::Missing => {
            let mut notice = "The file ".to_owned();
            notice.append(query.month.as_str());
            notice.append(" does not exist or an error occurred during the check");
            MonthReport::Skipped(notice)
        },
        MonthFile::NotAFile => {
            let path = done_path(query.month.as_str());
            let mut notice = "The path ".to_owned();
            notice.append(path.as_str());
            notice.append(" corresponds to something else, not to a file");
            MonthReport::Skipped(notice)
        },
        MonthFile::Contents(data) => match read_rows(data.as_slice()) {
            Ok(rows) => stats_of_rows(query.month.as_str(), &rows),
            Err(error) => MonthReport::Failed(StatsError::Malformed(error.to_string())),
        },
    }
}

/// The statistics of a batch of months: the notices for the months that
/// were passed over, and the entries of the others, or why there are none.
#[derive(Debug, PartialEq, Eq)]
pub struct StatsReport {
    pub notices: Vec<String>,
    pub entries: Result<Vec<StatEntry>, StatsError>,
}

/// A [`StatsReport`] as contracts see it.
pub struct ReportView {
    pub notices: Seq<Seq<char>>,
    pub entries: Result<Seq<EntryView>, StatsFault>,
}

impl View for StatsReport {
    type V = ReportView;

    open spec fn view(&self) -> ReportView {
        ReportView {
            notices: self.notices.deep_view(),
            entries: match self.entries {
                Ok(entries) => Ok(entry_views(entries@)),
                Err(error) => Err(error@),
            },
        }
    }
}

/// The statistics of `queries`, taken in order: the blocks of the months
/// one after the other, and a notice for each month without a ledger. The
/// first month that fails ends the batch: its failure stands in the place of
/// the entries, and no later month is looked at.
pub open spec fn report_of(queries: Seq<MonthQueryView>) -> ReportView
    decreases queries.len(),
{
    if queries.len() == 0 {
        ReportView { notices: Seq::empty(), entries: Ok(Seq::empty()) }
    } else {
        let before = report_of(queries.drop_last());
        match before.entries {
            Err(_) => before,
            Ok(entries) => match month_outcome(queries.last()) {
                MonthOutcome::Skipped(notice) => ReportView {
                    notices: before.notices.push(notice),
                    entries: Ok(entries),
                },
                MonthOutcome::Entries(block) => ReportView {
                    notices: before.notices,
                    entries: Ok(entries + block),
                },
                MonthOutcome::Failed(fault) => ReportView {
                    notices: before.notices,
                    entries: Err(fault),
                },
            },
        }
    }
}

/// Once the first `k` queries have failed, the rest of the batch changes
/// nothing.
pub proof fn lemma_failure_ends_batch(queries: Seq<MonthQueryView>, k: int)
    requires
        0 <= k <= queries.len(),
        report_of(queries.take(k)).entries is Err,
    ensures
        report_of(queries) == report_of(queries.take(k)),
    decreases queries.len() - k,
{
    if k == queries.len() {
        assert(queries.take(k) =~= queries);
    } else {
        assert(queries.take(k + 1).drop_last() =~= queries.take(k));
        lemma_failure_ends_batch(queries, k + 1);
    }
}

/// Computes the statistics of the queried months, in the order of the
/// queries.
pub fn calculate_sum(queries: &Vec<MonthQuery>) -> (report: StatsReport)
    ensures
        report@ == report_of(query_views(queries@)),
{
    let ghost all = query_views(queries@);
    let mut notices: Vec<String> = Vec::new();
    let mut entries: Vec<StatEntry> = Vec::new();
    let mut i: usize = 0;
    assert(notices.deep_view() =~= Seq::empty());
    assert(entry_views(entries@) =~= Seq::empty());
    while i < queries.len()
        invariant
            i <= queries.len(),
            all == query_views(queries@),
            report_of(all.take(i as int)) == (ReportView {
                notices: notices.deep_view(),
                entries: Ok(entry_views(entries@)),
            }),
        decreases queries.len() - i,
    {
        assert(all.take(i + 1).drop_last() =~= all.take(i as int));
        let ghost notices_before = notices.deep_view();
        let ghost entries_before = entry_views(entries@);
        match month_report(&queries[i]) {
            MonthReport::Skipped(notice) => {
                notices.push(notice);
                assert(notices.deep_view() =~= notices_before.push(notice@));
            },
            MonthReport::Entries(block) => {
                let mut block = block;
                let ghost added = entry_views(block@);
                entries.append(&mut block);
                assert(entry_views(entries@) =~= entries_before + added);
            },
            MonthReport::Failed(error) => {
                proof {
                    lemma_failure_ends_batch(all, i + 1);
                }
                return StatsReport { notices, entries: Err(error) };
            },
        }
        i += 1;
    }
    assert(all.take(queries.len() as int) =~= all);
    StatsReport { notices, entries: Ok(entries) }
}

/// The months that `input` asks about: its pieces between commas, each
/// without the white space around it and with its first letter in uppercase.
pub open spec fn month_names(input: Seq<char>) -> Seq<Seq<char>> {
    split(input, ',').map_values(|piece: Seq<char>| capitalized(trimmed(piece)))
}

/// Reads a comma-separated list of months as the user types it.
pub fn requested_months(input: &str) -> (months: Vec<String>)
    ensures
        months.deep_view() == month_names(input@),
{
    let chars = to_chars(input);
    let pieces = split_chars(chars.as_slice(), ',');
    let mut months: Vec<String> = Vec::new();
    let mut i: usize = 0;
    while i < pieces.len()
        invariant
            i <= pieces.len(),
            texts(pieces@) == split(input@, ','),
            months.deep_view() == month_names(input@).take(i as int),
        decreases pieces.len() - i,
    {
        let kept = trim_chars(pieces[i].as_slice());
        let named = capitalize_chars(kept.as_slice());
        let ghost before = months.deep_view();
        months.push(from_chars(named.as_slice()));
        assert(months.deep_view() =~= before.push(named@));
        i += 1;
    }
    months
}

/// The line that shows `entry`: its label, a colon and its value.
pub open spec fn entry_line(entry: EntryView) -> Seq<char> {
    entry.label.text() + ": "@ + shown(entry.value)
}

/// The lines that show `entries`: one line each, and an empty line before
/// every entry that names a month.
pub open spec fn report_lines(entries: Seq<EntryView>) -> Seq<Seq<char>>
    decreases entries.len(),
{
    if entries.len() == 0 {
        Seq::empty()
    } else {
        let before = report_lines(entries.drop_last());
        let entry = entries.last();
        if entry.label == StatLabel::Month {
            before.push(Seq::empty()).push(entry_line(entry))
        } else {
            before.push(entry_line(entry))
        }
    }
}

/// Lays the entries out as lines of text.
pub fn render_entries(entries: &Vec<StatEntry>) -> (lines: Vec<String>)
    ensures
        lines.deep_view() == report_lines(entry_views(entries@)),
{
    let ghost all = entry_views(entries@);
    let mut lines: Vec<String> = Vec::new();
    let mut i: usize = 0;
    while i < entries.len()
        invariant
            i <= entries.len(),
            all == entry_views(entries@),
            lines.deep_view() == report_lines(all.take(i as int)),
        decreases entries.len() - i,
    {
        assert(all.take(i + 1).drop_last() =~= all.take(i as int));
        let entry = &entries[i];
        let mut line = entry.label.name().to_owned();
        line.append(": ");
        let value = entry.value.render();
        line.append(value.as_str());
        match entry.label {
            StatLabel::Month => {
                let blank = String::new();
                lines.push(blank);
                lines.push(line);
            },
            _ => {
                lines.push(line);
            },
        }
        i += 1;
    }
    assert(all.take(entries.len() as int) =~= all);
    lines
}

/// A month with expenses and no income still has its block: the percentage
/// cannot be a number, and the entry says `-inf%`.
pub proof fn lemma_expenses_without_income(month: Seq<char>, rows: Seq<Seq<Seq<char>>>)
    requires
        income_total(rows) == 0,
        i64::MIN <= expense_total(rows) < 0,
    ensures
        rows_outcome(month, rows) == MonthOutcome::Entries(month_entries(month, rows)),
        month_entries(month, rows)[4] == (EntryView {
            label: StatLabel::Percentage,
            value: ResultView::Text("-inf%"@),
        }),
{
}

/// A month without a ledger adds a notice that names it and no entry, and
/// is no failure: the batch goes on as it stood.
pub proof fn lemma_missing_month_is_passed_over(queries: Seq<MonthQueryView>, month: Seq<char>)
    requires
        report_of(queries).entries is Ok,
    ensures
        report_of(queries.push(MonthQueryView { month, file: MonthFileView::Missing }))
            == (ReportView {
            notices: report_of(queries).notices.push(missing_notice(month)),
            entries: report_of(queries).entries,
        }),
{
    let query = MonthQueryView { month, file: MonthFileView::Missing };
    assert(queries.push(query).drop_last() =~= queries);
}

} // verus!
