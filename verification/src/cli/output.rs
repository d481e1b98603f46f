//! Terminal output.
//!
//! Data goes to stdout so it can be piped; status and progress messages belong
//! on stderr.
use vstd::prelude::*;
use crate::text;

verus! {

broadcast use vstd::seq::group_seq_axioms;

/// A line to be printed.
#[derive(Debug)]
pub enum Line {
    /// On stdout.
    Out(String),
    /// On stderr.
    Note(String),
}

/// What a line is.
pub enum LineModel {
    Out(Seq<char>),
    Note(Seq<char>),
}

impl View for Line {
    type V = LineModel;

    open spec fn view(&self) -> LineModel {
        match self {
            Line::Out(text) => LineModel::Out(text@),
            Line::Note(text) => LineModel::Note(text@),
        }
    }
}

/// What a command prints.
#[derive(Debug)]
pub struct Report {
    pub lines: Vec<Line>,
}

impl View for Report {
    type V = Seq<LineModel>;

    open spec fn view(&self) -> Seq<LineModel> {
        self.lines@.map_values(|line: Line| line@)
    }
}

/// A labelled line, where there is something to label.
pub open spec fn opt_line(label: Seq<char>, value: Option<Seq<char>>) -> Seq<LineModel> {
    match value {
        Some(value) => seq![LineModel::Out(label + value)],
        None => Seq::empty(),
    }
}

/// Texts as lines on stdout.
pub open spec fn out_lines(texts: Seq<Seq<char>>) -> Seq<LineModel> {
    texts.map_values(|text: Seq<char>| LineModel::Out(text))
}

impl Report {
    /// A report without lines.
    pub fn new() -> (report: Self)
        ensures
            report@ == Seq::<LineModel>::empty(),
    {
        let report = Report { lines: Vec::new() };
        assert(report@ =~= Seq::<LineModel>::empty());
        report
    }

    fn push(&mut self, line: Line)
        ensures
            final(self)@ == old(self)@.push(line@),
    {
        let ghost before = self.lines@;
        self.lines.push(line);
        assert(self@ =~= before.map_values(|line: Line| line@).push(line@));
    }

    /// Prints a line on stdout.
    pub fn out(&mut self, text: &str)
        ensures
            final(self)@ == old(self)@.push(LineModel::Out(text@)),
    {
        self.push(Line::Out(text.to_owned()));
    }

    /// Prints a line on stderr.
    pub fn err(&mut self, text: &str)
        ensures
            final(self)@ == old(self)@.push(LineModel::Note(text@)),
    {
        self.push(Line::Note(text.to_owned()));
    }

    /// Prints a line on stderr with a text in it.
    pub fn err_about(&mut self, before: &str, subject: &str, after: &str)
        ensures
            final(self)@ == old(self)@.push(LineModel::Note(before@ + subject@ + after@)),
    {
        let mut line = before.to_owned();
        line.push_str(subject);
        line.push_str(after);
        self.push(Line::Note(line));
    }

    /// Prints a labelled line on stdout.
    pub fn field(&mut self, label: &str, value: &str)
        ensures
            final(self)@ == old(self)@.push(LineModel::Out(label@ + value@)),
    {
        let mut line = label.to_owned();
        line.push_str(value);
        self.push(Line::Out(line));
    }

    /// Prints a labelled line on stdout, where there is something to label.
    pub fn opt_field(&mut self, label: &str, value: &Option<String>)
        ensures
            final(self)@ == old(self)@ + opt_line(label@, text::opt_text(*value)),
    {
        if let Some(value) = value {
            self.field(label, value.as_str());
        }
        assert(self@ =~= old(self)@ + opt_line(label@, text::opt_text(*value)));
    }

    /// Prints lines on stdout.
    pub fn out_all(&mut self, texts: &Vec<String>)
        ensures
            final(self)@ == old(self)@ + out_lines(text::texts(texts@)),
    {
        let ghost all = text::texts(texts@);
        let ghost before = self@;
        let mut k: usize = 0;
        assert(self@ =~= before + out_lines(all.take(0)));
        while k < texts.len()
            invariant
                all == text::texts(texts@),
                k <= texts@.len(),
                self@ == before + out_lines(all.take(k as int)),
            decreases texts@.len() - k,
        {
            self.out(texts[k].as_str());
            assert(all[k as int] == texts@[k as int]@);
            assert(self@ =~= before + out_lines(all.take(k + 1)));
            k = k + 1;
        }
        assert(all.take(k as int) =~= all);
    }
}

/// A message on stderr, and nothing else.
pub fn message(text: &str) -> (report: Report)
    ensures
        report@ == seq![LineModel::Note(text@)],
{
    let mut report = Report::new();
    report.err(text);
    assert(report@ =~= seq![LineModel::Note(text@)]);
    report
}

/// A message on stderr with a text in it, and nothing else.
pub fn message_about(before: &str, subject: &str, after: &str) -> (report: Report)
    ensures
        report@ == seq![LineModel::Note(before@ + subject@ + after@)],
{
    let mut report = Report::new();
    report.err_about(before, subject, after);
    assert(report@ =~= seq![LineModel::Note(before@ + subject@ + after@)]);
    report
}

/// A line on stdout, and nothing else.
pub fn line(text: &str) -> (report: Report)
    ensures
        report@ == seq![LineModel::Out(text@)],
{
    let mut report = Report::new();
    report.out(text);
    assert(report@ =~= seq![LineModel::Out(text@)]);
    report
}

/// What a command prints, or why it fails.
pub open spec fn reported(report: Result<Report, String>) -> Result<Seq<LineModel>, Seq<char>> {
    match report {
        Ok(report) => Ok(report@),
        Err(reason) => Err(reason@),
    }
}

/// What is printed of an action's outcome: its message, unless it failed.
pub open spec fn outcome_lines(success: bool, message: Seq<char>) -> Result<Seq<LineModel>, Seq<char>> {
    if success {
        Ok(seq![LineModel::Note(message)])
    } else {
        Err(message)
    }
}

/// Prints an action's outcome.
pub fn print_outcome(success: bool, text: &str) -> (report: Result<Report, String>)
    ensures
        reported(report) == outcome_lines(success, text@),
{
    if success {
        Ok(message(text))
    } else {
        Err(text.to_owned())
    }
}

/// A text without the line break at its end.
pub open spec fn without_break(s: Seq<char>) -> Seq<char> {
    if s.len() > 0 && s.last() == '\n' {
        s.drop_last()
    } else {
        s
    }
}

impl Report {
    /// Prints a text on stdout, with a line break at its end where it has
    /// none.
    pub fn content(&mut self, content: &str)
        ensures
            final(self)@ == old(self)@.push(LineModel::Out(without_break(content@))),
    {
        let len: usize = content.unicode_len();
        if len > 0 && content.get_char(len - 1) == '\n' {
            let shown = content.substring_char(0, len - 1);
            assert(shown@ =~= content@.drop_last());
            self.out(shown);
        } else {
            self.out(content);
        }
    }
}

/// Prints a text on stdout, and nothing else.
pub fn print_content(content: &str) -> (report: Report)
    ensures
        report@ == seq![LineModel::Out(without_break(content@))],
{
    let mut report = Report::new();
    report.content(content);
    assert(report@ =~= seq![LineModel::Out(without_break(content@))]);
    report
}

/// A text, or a dash.
pub open spec fn or_dash(value: Option<Seq<char>>) -> Seq<char> {
    match value {
        Some(value) => value,
        None => "-"@,
    }
}

/// A text, or a dash.
pub fn dash(value: &Option<String>) -> (s: String)
    ensures
        s@ == or_dash(text::opt_text(*value)),
{
    match value {
        Some(value) => value.clone(),
        None => "-".to_owned(),
    }
}

/// A flag as a word.
pub open spec fn yes_or_no(value: bool) -> Seq<char> {
    if value {
        "yes"@
    } else {
        "no"@
    }
}

/// A flag as a word.
pub fn yes_no(value: bool) -> (s: String)
    ensures
        s@ == yes_or_no(value),
{
    if value {
        "yes".to_owned()
    } else {
        "no".to_owned()
    }
}

/// A flag as it is written.
pub open spec fn true_or_false(value: bool) -> Seq<char> {
    if value {
        "true"@
    } else {
        "false"@
    }
}

/// A flag as it is written.
pub fn true_false(value: bool) -> (s: &'static str)
    ensures
        s@ == true_or_false(value),
{
    if value {
        "true"
    } else {
        "false"
    }
}

/// A text of at most so many characters, with an ellipsis where it was cut.
pub open spec fn truncated(s: Seq<char>, max: int) -> Seq<char> {
    if s.len() <= max {
        s
    } else {
        s.take(max - 3) + "..."@
    }
}

/// Cuts a text to at most so many characters.
pub fn truncate(s: &str, max: usize) -> (cut: String)
    requires
        max >= 3,
    ensures
        cut@ == truncated(s@, max as int),
{
    if s.unicode_len() <= max {
        return s.to_owned();
    }
    let mut cut = s.substring_char(0, max - 3).to_owned();
    assert(cut@ =~= s@.take(max - 3));
    cut.push_str("...");
    cut
}

/// A timestamp to the minute, with a blank between date and time.
pub open spec fn minute_of(stamp: Seq<char>) -> Seq<char> {
    let short = if stamp.len() <= 16 {
        stamp
    } else {
        stamp.take(16)
    };
    text::replaced(short, "T"@, " "@)
}

/// A timestamp to the minute.
pub fn short_timestamp(stamp: &str) -> (short: String)
    ensures
        short@ == minute_of(stamp@),
{
    proof {
        reveal_strlit("T");
    }
    if stamp.unicode_len() <= 16 {
        return text::replace(stamp, "T", " ");
    }
    let head = stamp.substring_char(0, 16);
    assert(head@ =~= stamp@.take(16));
    text::replace(head, "T", " ")
}

// ---------------------------------------------------------------------------
// Tables
// ---------------------------------------------------------------------------

/// What a table shows of an item.
pub trait Row: Sized {
    /// The cells of the item's row.
    spec fn cells(&self) -> Seq<Seq<char>>;

    /// The cells of the item's row.
    fn row(&self) -> (row: Vec<String>)
        ensures
            text::texts(row@) == self.cells(),
    ;
}

/// The rows of items.
pub open spec fn rows_of<T: Row>(items: Seq<T>) -> Seq<Seq<Seq<char>>> {
    items.map_values(|item: T| item.cells())
}

/// The greatest number of bytes in a column of the first rows.
pub open spec fn widest(rows: Seq<Seq<Seq<char>>>, column: int) -> nat
    decreases rows.len(),
{
    if rows.len() == 0 {
        0
    } else {
        let before = widest(rows.drop_last(), column);
        let row = rows.last();
        if column < row.len() && text::byte_len(row[column]) > before {
            text::byte_len(row[column])
        } else {
            before
        }
    }
}

/// How wide a column is: fitted to its heading and its cells.
pub open spec fn width_of(headers: Seq<Seq<char>>, rows: Seq<Seq<Seq<char>>>, column: int) -> nat {
    let head = text::byte_len(headers[column]);
    if widest(rows, column) > head {
        widest(rows, column)
    } else {
        head
    }
}

/// How wide the columns are.
pub open spec fn widths_of(headers: Seq<Seq<char>>, rows: Seq<Seq<Seq<char>>>) -> Seq<nat> {
    Seq::new(headers.len(), |column: int| width_of(headers, rows, column))
}

/// So many blanks.
pub open spec fn blanks(n: int) -> Seq<char>
    decreases n,
{
    if n <= 0 {
        Seq::empty()
    } else {
        blanks(n - 1).push(' ')
    }
}

/// The first cells of a row, each filled up to the width of its column, but
/// for the last column.
pub open spec fn laid_out(cells: Seq<Seq<char>>, widths: Seq<nat>, n: int) -> Seq<char>
    decreases n,
{
    if n <= 0 {
        Seq::empty()
    } else if n == widths.len() {
        laid_out(cells, widths, n - 1) + cells[n - 1]
    } else {
        laid_out(cells, widths, n - 1) + cells[n - 1] + blanks(widths[n - 1] - cells[n - 1].len()) + "  "@
    }
}

/// A row of a table, as it is printed.
pub open spec fn row_line(cells: Seq<Seq<char>>, widths: Seq<nat>) -> Seq<char> {
    let n = if cells.len() < widths.len() {
        cells.len() as int
    } else {
        widths.len() as int
    };
    text::trimmed_end(laid_out(cells, widths, n))
}

/// A table: the headings, then the rows.
pub open spec fn table_lines(headers: Seq<Seq<char>>, rows: Seq<Seq<Seq<char>>>) -> Seq<Seq<char>> {
    let widths = widths_of(headers, rows);
    seq![row_line(headers, widths)] + rows.map_values(|row: Seq<Seq<char>>| row_line(row, widths))
}

/// Adds so many blanks.
pub fn push_blanks(s: &mut String, n: usize)
    ensures
        final(s)@ == old(s)@ + blanks(n as int),
{
    let ghost before = s@;
    let mut k: usize = 0;
    assert(s@ =~= before + blanks(0));
    while k < n
        invariant
            k <= n,
            s@ == before + blanks(k as int),
        decreases n - k,
    {
        s.push(' ');
        assert(s@ =~= before + blanks(k + 1));
        k = k + 1;
    }
}

fn render_row(cells: &Vec<String>, widths: &Vec<usize>) -> (line: String)
    ensures
        line@ == row_line(text::texts(cells@), widths@.map_values(|w: usize| w as nat)),
{
    let ghost texts = text::texts(cells@);
    let ghost all = widths@.map_values(|w: usize| w as nat);
    let columns: usize = widths.len();
    let n: usize = if cells.len() < columns {
        cells.len()
    } else {
        columns
    };
    let mut line = String::new();
    let mut k: usize = 0;
    assert(line@ =~= laid_out(texts, all, 0));
    while k < n
        invariant
            texts == text::texts(cells@),
            all == widths@.map_values(|w: usize| w as nat),
            columns == widths@.len(),
            n <= columns,
            n <= cells@.len(),
            k <= n,
            line@ == laid_out(texts, all, k as int),
        decreases n - k,
    {
        assert(texts[k as int] == cells@[k as int]@);
        line.push_str(cells[k].as_str());
        if k + 1 < columns {
            let len: usize = cells[k].as_str().unicode_len();
            if widths[k] > len {
                push_blanks(&mut line, widths[k] - len);
            } else {
                assert(line@ + blanks(all[k as int] - texts[k as int].len()) =~= line@);
            }
            line.push_str("  ");
        }
        k = k + 1;
    }
    text::trim_end(line.as_str())
}

fn fit_widths(headers: &Vec<String>, rows: &Vec<Vec<String>>) -> (widths: Vec<usize>)
    ensures
        widths@.map_values(|w: usize| w as nat) == widths_of(text::texts(headers@), row_texts(rows@)),
{
    let ghost heads = text::texts(headers@);
    let ghost all = row_texts(rows@);
    let mut widths: Vec<usize> = Vec::new();
    let mut column: usize = 0;
    while column < headers.len()
        invariant
            heads == text::texts(headers@),
            all == row_texts(rows@),
            column <= headers@.len(),
            widths@.len() == column,
            forall|i: int| 0 <= i < column ==> #[trigger] widths@[i] == width_of(heads, all, i),
        decreases headers@.len() - column,
    {
        let mut widest_cell: usize = 0;
        let mut k: usize = 0;
        while k < rows.len()
            invariant
                all == row_texts(rows@),
                k <= rows@.len(),
                widest_cell == widest(all.take(k as int), column as int),
            decreases rows@.len() - k,
        {
            assert(all.take(k + 1).drop_last() =~= all.take(k as int));
            assert(all[k as int] == text::texts(rows@[k as int]@));
            if column < rows[k].len() {
                let bytes: usize = text::bytes_in(rows[k][column].as_str());
                assert(all[k as int][column as int] == rows@[k as int]@[column as int]@);
                if bytes > widest_cell {
                    widest_cell = bytes;
                }
            }
            k = k + 1;
        }
        assert(all.take(k as int) =~= all);
        let head: usize = text::bytes_in(headers[column].as_str());
        assert(heads[column as int] == headers@[column as int]@);
        widths.push(
            if widest_cell > head {
                widest_cell
            } else {
                head
            },
        );
        column = column + 1;
    }
    assert(widths@.map_values(|w: usize| w as nat) =~= widths_of(heads, all));
    widths
}

/// What the cells of rows are.
pub open spec fn row_texts(rows: Seq<Vec<String>>) -> Seq<Seq<Seq<char>>> {
    rows.map_values(|row: Vec<String>| text::texts(row@))
}

/// Renders a left-aligned table with column widths fitted to content.
pub fn table(headers: &Vec<String>, rows: &Vec<Vec<String>>) -> (lines: Vec<String>)
    ensures
        text::texts(lines@) == table_lines(text::texts(headers@), row_texts(rows@)),
{
    let ghost all = row_texts(rows@);
    let widths = fit_widths(headers, rows);
    let ghost fitted = widths_of(text::texts(headers@), all);
    let ghost whole = table_lines(text::texts(headers@), all);
    let mut lines: Vec<String> = Vec::new();
    assert(text::texts(lines@) =~= whole.take(0));
    let head = render_row(headers, &widths);
    proof {
        text::texts_push(lines@, head);
        assert(whole.take(1) =~= whole.take(0).push(head@));
    }
    lines.push(head);
    let mut k: usize = 0;
    while k < rows.len()
        invariant
            all == row_texts(rows@),
            whole == table_lines(text::texts(headers@), all),
            fitted == widths_of(text::texts(headers@), all),
            fitted == widths@.map_values(|w: usize| w as nat),
            k <= rows@.len(),
            text::texts(lines@) == whole.take(k + 1),
        decreases rows@.len() - k,
    {
        let line = render_row(&rows[k], &widths);
        proof {
            assert(all[k as int] == text::texts(rows@[k as int]@));
            text::texts_push(lines@, line);
            assert(whole[k + 1] == row_line(all[k as int], fitted));
            assert(whole.take(k + 2) =~= whole.take(k + 1).push(line@));
        }
        lines.push(line);
        k = k + 1;
    }
    assert(whole.take(k + 1) =~= whole);
    lines
}

/// A table of items on stdout.
pub open spec fn item_table<T: Row>(headers: Seq<Seq<char>>, items: Seq<T>) -> Seq<LineModel> {
    out_lines(table_lines(headers, rows_of(items)))
}

/// The headings of a table.
pub fn headings(names: &Vec<&'static str>) -> (headers: Vec<String>)
    ensures
        text::texts(headers@) == text::slices(names@),
{
    let ghost all = text::slices(names@);
    let mut headers: Vec<String> = Vec::new();
    let mut k: usize = 0;
    assert(text::texts(headers@) =~= all.take(0));
    while k < names.len()
        invariant
            all == text::slices(names@),
            k <= names@.len(),
            text::texts(headers@) == all.take(k as int),
        decreases names@.len() - k,
    {
        let name = names[k].to_owned();
        proof {
            assert(all[k as int] == names@[k as int]@);
            text::texts_push(headers@, name);
            assert(all.take(k + 1) =~= all.take(k as int).push(name@));
        }
        headers.push(name);
        k = k + 1;
    }
    assert(all.take(k as int) =~= all);
    headers
}

impl Report {
    /// Prints a table of rows on stdout.
    pub fn grid(&mut self, names: &Vec<&'static str>, rows: &Vec<Vec<String>>)
        ensures
            final(self)@ == old(self)@ + out_lines(table_lines(text::slices(names@), row_texts(rows@))),
    {
        let headers = headings(names);
        let lines = table(&headers, rows);
        self.out_all(&lines);
    }

    /// Prints a table of items on stdout.
    pub fn table<T: Row>(&mut self, names: &Vec<&'static str>, items: &Vec<T>)
        ensures
            final(self)@ == old(self)@ + item_table(text::slices(names@), items@),
    {
        let ghost all = rows_of(items@);
        let mut rows: Vec<Vec<String>> = Vec::new();
        let mut k: usize = 0;
        assert(row_texts(rows@) =~= all.take(0));
        while k < items.len()
            invariant
                all == rows_of(items@),
                k <= items@.len(),
                row_texts(rows@) == all.take(k as int),
                self@ == old(self)@,
            decreases items@.len() - k,
        {
            let ghost before = rows@;
            let row = items[k].row();
            rows.push(row);
            assert(row_texts(rows@) =~= row_texts(before).push(text::texts(row@)));
            assert(all.take(k + 1) =~= all.take(k as int).push(items@[k as int].cells()));
            k = k + 1;
        }
        assert(all.take(k as int) =~= all);
        self.grid(names, &rows);
    }
}

/// A table of items, or a message where there are none.
pub open spec fn listing<T: Row>(none: Seq<char>, headers: Seq<Seq<char>>, items: Seq<T>) -> Seq<LineModel> {
    if items.len() == 0 {
        seq![LineModel::Note(none)]
    } else {
        item_table(headers, items)
    }
}

/// Prints a table of items, or a message where there are none.
pub fn print_listing<T: Row>(none: &str, names: &Vec<&'static str>, items: &Vec<T>) -> (report: Report)
    ensures
        report@ == listing(none@, text::slices(names@), items@),
{
    if items.len() == 0 {
        return message(none);
    }
    let mut report = Report::new();
    report.table(names, items);
    assert(report@ =~= item_table(text::slices(names@), items@));
    report
}

// ---------------------------------------------------------------------------
// Laws
// ---------------------------------------------------------------------------

/// A text that fits is shown as it is; a longer one keeps its beginning and is
/// as long as it may be, with dots at its end.
pub proof fn law_a_truncated_text_keeps_its_beginning(s: Seq<char>, max: int)
    requires
        max >= 3,
    ensures
        s.len() <= max ==> truncated(s, max) == s,
        s.len() > max ==> truncated(s, max).len() == max && text::ends(truncated(s, max), "..."@) && truncated(
            s,
            max,
        ).take(max - 3).is_prefix_of(s),
{
    reveal_strlit("...");
    if s.len() > max {
        text::law_parts_occur(s.take(max - 3), "..."@, Seq::empty());
        assert(truncated(s, max).take(max - 3) =~= s.take(max - 3));
    }
}

/// A line break at the end is taken off, and only one.
pub proof fn law_one_break_is_taken_off(s: Seq<char>)
    ensures
        without_break(s.push('\n')) == s,
        s.len() > 0 && s.last() != '\n' ==> without_break(s) == s,
{
    assert(s.push('\n').drop_last() =~= s);
}

/// What is missing is a dash, and yes is told from no.
pub proof fn law_words_stand_for_values(value: Option<Seq<char>>, flag: bool)
    ensures
        value is Some ==> or_dash(value) == value->0,
        value is None ==> or_dash(value) == "-"@,
        flag ==> yes_or_no(flag) == "yes"@ && true_or_false(flag) == "true"@,
        !flag ==> yes_or_no(flag) == "no"@ && true_or_false(flag) == "false"@,
{
}

/// A column is as wide as its widest cell, its header among them, and no wider.
pub proof fn law_a_column_is_as_wide_as_its_widest_cell(
    headers: Seq<Seq<char>>,
    rows: Seq<Seq<Seq<char>>>,
    column: int,
)
    requires
        0 <= column < headers.len(),
    ensures
        widths_of(headers, rows).len() == headers.len(),
        widths_of(headers, rows)[column] >= text::byte_len(headers[column]),
        forall|k: int|
            0 <= k < rows.len() && column < (#[trigger] rows[k]).len() ==> widths_of(headers, rows)[column]
                >= text::byte_len(rows[k][column]),
        widths_of(headers, rows)[column] == text::byte_len(headers[column]) || exists|k: int|
            0 <= k < rows.len() && column < (#[trigger] rows[k]).len() && widths_of(headers, rows)[column]
                == text::byte_len(rows[k][column]),
{
    widest_is_widest(rows, column);
}

proof fn widest_is_widest(rows: Seq<Seq<Seq<char>>>, column: int)
    ensures
        forall|k: int|
            0 <= k < rows.len() && column < (#[trigger] rows[k]).len() ==> widest(rows, column) >= text::byte_len(
                rows[k][column],
            ),
        widest(rows, column) == 0 || exists|k: int|
            0 <= k < rows.len() && column < (#[trigger] rows[k]).len() && widest(rows, column) == text::byte_len(
                rows[k][column],
            ),
    decreases rows.len(),
{
    if rows.len() > 0 {
        let front = rows.drop_last();
        widest_is_widest(front, column);
        assert forall|k: int| 0 <= k < front.len() implies #[trigger] rows[k] == front[k] by {}
        let last = rows[rows.len() - 1];
        assert(last == rows.last());
        if widest(rows, column) == widest(front, column) && widest(front, column) > 0 {
            let k = choose|k: int|
                0 <= k < front.len() && column < (#[trigger] front[k]).len() && widest(front, column)
                    == text::byte_len(front[k][column]);
            assert(rows[k] == front[k]);
        }
    }
}

/// Blanks are blank, and as many as are asked for.
pub proof fn law_blanks_are_blank(n: int)
    ensures
        n >= 0 ==> blanks(n).len() == n,
        n < 0 ==> blanks(n).len() == 0,
        forall|k: int| 0 <= k < blanks(n).len() ==> #[trigger] blanks(n)[k] == ' ',
    decreases n,
{
    if n > 0 {
        law_blanks_are_blank(n - 1);
        assert forall|k: int| 0 <= k < blanks(n).len() implies #[trigger] blanks(n)[k] == ' ' by {
            if k < n - 1 {
                assert(blanks(n)[k] == blanks(n - 1)[k]);
            }
        }
    }
}

/// A row shows its cells from left to right: with one more cell it goes on from
/// where it was, the cell first and at least two blanks before the next.
pub proof fn law_a_row_goes_on_cell_by_cell(cells: Seq<Seq<char>>, widths: Seq<nat>, n: int)
    requires
        0 <= n < widths.len(),
        widths.len() <= cells.len(),
    ensures
        laid_out(cells, widths, 0).len() == 0,
        text::begins(laid_out(cells, widths, n + 1), laid_out(cells, widths, n) + cells[n]),
        n + 1 == widths.len() ==> laid_out(cells, widths, n + 1) == laid_out(cells, widths, n) + cells[n],
        n + 1 < widths.len() ==> {
            let all = laid_out(cells, widths, n + 1);
            let shown = laid_out(cells, widths, n).len() + cells[n].len();
            &&& all.len() == laid_out(cells, widths, n).len() + (if widths[n] > cells[n].len() {
                widths[n] as int
            } else {
                cells[n].len() as int
            }) + 2
            &&& forall|k: int| shown <= k < all.len() ==> #[trigger] all[k] == ' '
        },
{
    reveal_strlit("  ");
    let before = laid_out(cells, widths, n);
    let all = laid_out(cells, widths, n + 1);
    let shown = before + cells[n];
    let gap = blanks(widths[n] - cells[n].len());
    law_blanks_are_blank(widths[n] - cells[n].len());
    assert(all.subrange(0, shown.len() as int) =~= shown);
    if n + 1 < widths.len() {
        assert(all == shown + gap + "  "@);
        assert forall|k: int| shown.len() <= k < all.len() implies #[trigger] all[k] == ' ' by {
            if k < shown.len() + gap.len() {
                assert(all[k] == gap[k - shown.len()]);
            } else {
                assert(all[k] == "  "@[k - shown.len() - gap.len()]);
            }
        }
    }
}

/// A table has a line for its headers and one for each row, in order, laid out
/// alike.
pub proof fn law_a_table_has_a_line_for_each_row(headers: Seq<Seq<char>>, rows: Seq<Seq<Seq<char>>>, k: int)
    requires
        0 <= k < rows.len(),
    ensures
        table_lines(headers, rows).len() == rows.len() + 1,
        table_lines(headers, rows)[0] == row_line(headers, widths_of(headers, rows)),
        table_lines(headers, rows)[k + 1] == row_line(rows[k], widths_of(headers, rows)),
{
}

/// A listing is a note where there is nothing to list, and else a table.
pub proof fn law_an_empty_listing_is_a_note<T: Row>(none: Seq<char>, headers: Seq<Seq<char>>, items: Seq<T>)
    ensures
        items.len() == 0 ==> listing(none, headers, items) == seq![LineModel::Note(none)],
        items.len() > 0 ==> listing(none, headers, items).len() == items.len() + 1,
        items.len() > 0 ==> forall|k: int|
            0 <= k < listing(none, headers, items).len() ==> (#[trigger] listing(none, headers, items)[k]) is Out,
{
}

/// A success is noted and a failure is an error, with the same words.
pub proof fn law_a_failure_is_an_error(message: Seq<char>)
    ensures
        outcome_lines(true, message) == Ok::<Seq<LineModel>, Seq<char>>(seq![LineModel::Note(message)]),
        outcome_lines(false, message) == Err::<Seq<LineModel>, Seq<char>>(message),
{
}

/// A line is written where there is a value, behind its label.
pub proof fn law_a_label_stands_before_its_value(label: Seq<char>, value: Seq<char>, texts: Seq<Seq<char>>, k: int)
    ensures
        opt_line(label, None).len() == 0,
        opt_line(label, Some(value)) == seq![LineModel::Out(label + value)],
        0 <= k < texts.len() ==> out_lines(texts)[k] == LineModel::Out(texts[k]),
        out_lines(texts).len() == texts.len(),
{
}

/// A stamp is shown up to its minute, with a blank between the day and the
/// clock.
pub proof fn law_a_stamp_is_shown_to_the_minute(day: Seq<char>, clock: Seq<char>, rest: Seq<char>)
    requires
        day.len() + 1 + clock.len() == 16,
        !day.contains('T'),
        !clock.contains('T'),
    ensures
        minute_of(day + "T"@ + clock + rest) == day + " "@ + clock,
{
    reveal_strlit("T");
    let stamp = day + "T"@ + clock + rest;
    let short = day + "T"@ + clock;
    assert(stamp.take(16) =~= short);
    if stamp.len() <= 16 {
        assert(stamp =~= short);
    }
    mark_is_replaced(day, clock);
}

proof fn mark_is_replaced(day: Seq<char>, clock: Seq<char>)
    requires
        !day.contains('T'),
        !clock.contains('T'),
    ensures
        text::replaced(day + "T"@ + clock, "T"@, " "@) == day + " "@ + clock,
    decreases day.len(),
{
    reveal_strlit("T");
    let whole = day + "T"@ + clock;
    if day.len() == 0 {
        assert(whole.subrange(0, 1) =~= "T"@);
        assert(whole.subrange(1, whole.len() as int) =~= clock);
        if text::occurs_in(clock, "T"@) {
            let i = choose|i: int| text::occurs_at(clock, "T"@, i);
            assert(clock.subrange(i, i + 1)[0] == 'T');
            assert(clock[i] == 'T');
        }
        text::law_replacing_swaps_the_pattern("T"@, " "@, clock);
        assert(day + " "@ + clock =~= " "@ + clock);
    } else {
        let left = day.subrange(1, day.len() as int);
        assert(day.contains(day[0]));
        assert(whole.subrange(0, 1)[0] == day[0]);
        assert(!text::begins(whole, "T"@));
        assert forall|i: int| 0 <= i < left.len() implies #[trigger] left[i] != 'T' by {
            assert(day.contains(day[i + 1]));
        }
        mark_is_replaced(left, clock);
        assert(whole.subrange(1, whole.len() as int) =~= left + "T"@ + clock);
        assert(seq![whole[0]] + (left + " "@ + clock) =~= day + " "@ + clock);
    }
}

} // verus!
