//! `spacebot activity`: instance-wide activity over the control API.
use vstd::prelude::*;
use crate::cli::output;
use crate::cli::output::{LineModel, Report, Row};
use crate::cli::request;
use crate::cli::request::{Query, Request, RequestModel};
use crate::order;
use crate::order::Ranked;
use crate::text;

verus! {

broadcast use vstd::seq::group_seq_axioms;

/// What activity is asked for.
#[derive(Debug)]
pub struct ActivityArgs {
    /// ISO 8601 lower bound (default: 30 days ago)
    pub since: Option<String>,
    /// ISO 8601 upper bound
    pub until: Option<String>,
}

/// The request for activity.
pub open spec fn request_of(args: ActivityArgs) -> RequestModel {
    request::reads(
        request::with_any_query(
            "activity"@,
            request::with_opt_text(
                request::with_opt_text(request::no_params(), "since"@, text::opt_text(args.since)),
                "until"@,
                text::opt_text(args.until),
            ),
        ),
    )
}

/// Plans the request for activity.
pub fn plan(args: &ActivityArgs) -> (request: Request)
    ensures
        request@ == request_of(*args),
{
    let mut query = Query::new();
    query.opt_text("since", &args.since);
    query.opt_text("until", &args.until);
    Request::get(query.after_if_any("activity"))
}

/// The activity of a day, with the cost written out.
#[derive(Debug)]
pub struct DayActivity {
    pub date: String,
    pub messages: i64,
    pub branches: i64,
    pub workers: i64,
    pub cortex: i64,
    pub cron: i64,
    pub active_channels: i64,
    pub input_tokens: i64,
    pub output_tokens: i64,
    pub cost: String,
}

impl Row for DayActivity {
    open spec fn cells(&self) -> Seq<Seq<char>> {
        seq![
            self.date@,
            text::signed_decimal(self.messages as int),
            text::signed_decimal(self.branches as int),
            text::signed_decimal(self.workers as int),
            text::signed_decimal(self.cortex as int),
            text::signed_decimal(self.cron as int),
            text::signed_decimal(self.active_channels as int),
            text::signed_decimal(self.input_tokens as int),
            text::signed_decimal(self.output_tokens as int),
            self.cost@,
        ]
    }

    fn row(&self) -> (row: Vec<String>) {
        let row = vec![
            self.date.clone(),
            text::show_signed(self.messages),
            text::show_signed(self.branches),
            text::show_signed(self.workers),
            text::show_signed(self.cortex),
            text::show_signed(self.cron),
            text::show_signed(self.active_channels),
            text::show_signed(self.input_tokens),
            text::show_signed(self.output_tokens),
            self.cost.clone(),
        ];
        assert(text::texts(row@) =~= self.cells());
        row
    }
}

/// The tokens of a process, with the cost written out.
#[derive(Debug)]
pub struct ProcessTokens {
    pub process: String,
    pub input: i64,
    pub output: i64,
    pub cost: String,
}

impl Ranked for ProcessTokens {
    /// Processes are listed by name.
    open spec fn outranks(&self, other: &Self) -> bool {
        text::precedes(self.process@, other.process@)
    }

    fn comes_first(&self, other: &Self) -> (yes: bool) {
        text::comes_before(self.process.as_str(), other.process.as_str())
    }
}

/// The activity of the whole range, with the cost written out.
#[derive(Debug)]
pub struct ActivityTotals {
    pub messages: i64,
    pub branches: i64,
    pub workers: i64,
    pub cortex: i64,
    pub cron: i64,
    pub active_channels: i64,
    pub input_tokens: i64,
    pub output_tokens: i64,
    pub cache_read_tokens: i64,
    pub reasoning_tokens: i64,
    pub cost: String,
}

/// The headings of the days.
pub open spec fn day_headers() -> Seq<Seq<char>> {
    seq![
        "DATE"@,
        "MESSAGES"@,
        "BRANCHES"@,
        "WORKERS"@,
        "CORTEX"@,
        "CRON"@,
        "CHANNELS"@,
        "INPUT"@,
        "OUTPUT"@,
        "COST"@,
    ]
}

/// What is printed of the whole range.
pub open spec fn totals_lines(totals: ActivityTotals) -> Seq<LineModel> {
    seq![
        LineModel::Out(""@),
        LineModel::Out("Messages:        "@ + text::signed_decimal(totals.messages as int)),
        LineModel::Out("Branches:        "@ + text::signed_decimal(totals.branches as int)),
        LineModel::Out("Workers:         "@ + text::signed_decimal(totals.workers as int)),
        LineModel::Out("Cortex events:   "@ + text::signed_decimal(totals.cortex as int)),
        LineModel::Out("Cron runs:       "@ + text::signed_decimal(totals.cron as int)),
        LineModel::Out("Active channels: "@ + text::signed_decimal(totals.active_channels as int)),
        LineModel::Out("Input tokens:    "@ + text::signed_decimal(totals.input_tokens as int)),
        LineModel::Out("Output tokens:   "@ + text::signed_decimal(totals.output_tokens as int)),
        LineModel::Out("Cache read:      "@ + text::signed_decimal(totals.cache_read_tokens as int)),
        LineModel::Out("Reasoning:       "@ + text::signed_decimal(totals.reasoning_tokens as int)),
        LineModel::Out("Token cost:      "@ + totals.cost@),
    ]
}

/// The line of a process.
pub open spec fn process_line(tokens: ProcessTokens) -> LineModel {
    LineModel::Out(
        "  "@ + tokens.process@ + ": in "@ + text::signed_decimal(tokens.input as int) + " / out "@
            + text::signed_decimal(tokens.output as int) + " ("@ + tokens.cost@ + ")"@,
    )
}

/// What is printed of the processes, by name.
pub open spec fn process_lines(processes: Seq<ProcessTokens>) -> Seq<LineModel> {
    if processes.len() == 0 {
        Seq::empty()
    } else {
        seq![LineModel::Out("By process:"@)] + order::ranked(processes).map_values(
            |tokens: ProcessTokens| process_line(tokens),
        )
    }
}

/// What is printed of activity.
pub open spec fn activity_lines(
    daily: Seq<DayActivity>,
    totals: ActivityTotals,
    by_process: Seq<ProcessTokens>,
) -> Seq<LineModel> {
    if daily.len() == 0 {
        seq![LineModel::Note("No activity in the selected range."@)]
    } else {
        output::item_table(day_headers(), daily) + totals_lines(totals) + process_lines(by_process)
    }
}

fn print_processes(report: &mut Report, by_process: Vec<ProcessTokens>)
    ensures
        final(report)@ == old(report)@ + process_lines(by_process@),
{
    let ghost before = report@;
    if by_process.len() == 0 {
        assert(before + process_lines(by_process@) =~= before);
        return;
    }
    report.out("By process:");
    let ghost start = report@;
    let sorted = order::rank(by_process);
    let ghost all = sorted@.map_values(|tokens: ProcessTokens| process_line(tokens));
    let mut k: usize = 0;
    assert(report@ =~= start + all.take(0));
    while k < sorted.len()
        invariant
            all == sorted@.map_values(|tokens: ProcessTokens| process_line(tokens)),
            k <= sorted@.len(),
            report@ == start + all.take(k as int),
        decreases sorted@.len() - k,
    {
        let tokens = &sorted[k];
        let mut line = "  ".to_owned();
        line.push_str(tokens.process.as_str());
        line.push_str(": in ");
        line.push_str(text::show_signed(tokens.input).as_str());
        line.push_str(" / out ");
        line.push_str(text::show_signed(tokens.output).as_str());
        line.push_str(" (");
        line.push_str(tokens.cost.as_str());
        line.push_str(")");
        report.out(line.as_str());
        assert(report@ =~= start + all.take(k + 1));
        k = k + 1;
    }
    assert(all.take(k as int) =~= all);
    proof {
        order::law_ranking_is_a_rearrangement(by_process@);
    }
    assert(report@ =~= before + process_lines(by_process@));
}

fn print_sums(report: &mut Report, totals: &ActivityTotals)
    ensures
        final(report)@ == old(report)@ + totals_lines(*totals),
{
    let ghost before = report@;
    report.out("");
    report.field("Messages:        ", text::show_signed(totals.messages).as_str());
    report.field("Branches:        ", text::show_signed(totals.branches).as_str());
    report.field("Workers:         ", text::show_signed(totals.workers).as_str());
    report.field("Cortex events:   ", text::show_signed(totals.cortex).as_str());
    report.field("Cron runs:       ", text::show_signed(totals.cron).as_str());
    report.field("Active channels: ", text::show_signed(totals.active_channels).as_str());
    report.field("Input tokens:    ", text::show_signed(totals.input_tokens).as_str());
    report.field("Output tokens:   ", text::show_signed(totals.output_tokens).as_str());
    report.field("Cache read:      ", text::show_signed(totals.cache_read_tokens).as_str());
    report.field("Reasoning:       ", text::show_signed(totals.reasoning_tokens).as_str());
    report.field("Token cost:      ", totals.cost.as_str());
    assert(report@ =~= before + totals_lines(*totals));
}

/// Prints activity: the days, the whole range, and the processes by name.
pub fn print_activity(
    daily: &Vec<DayActivity>,
    totals: &ActivityTotals,
    by_process: Vec<ProcessTokens>,
) -> (report: Report)
    ensures
        report@ == activity_lines(daily@, *totals, by_process@),
{
    if daily.len() == 0 {
        return output::message("No activity in the selected range.");
    }
    let names = vec![
        "DATE",
        "MESSAGES",
        "BRANCHES",
        "WORKERS",
        "CORTEX",
        "CRON",
        "CHANNELS",
        "INPUT",
        "OUTPUT",
        "COST",
    ];
    assert(text::slices(names@) =~= day_headers());
    let mut report = Report::new();
    report.table(&names, daily);
    print_sums(&mut report, totals);
    print_processes(&mut report, by_process);
    assert(report@ =~= activity_lines(daily@, *totals, by_process@));
    report
}

// ---------------------------------------------------------------------------
// Laws
// ---------------------------------------------------------------------------

/// Activity is asked for from where it is to begin to where it is to end.
pub proof fn law_activity_is_asked_for_in_its_range(args: ActivityArgs)
    ensures
        request_of(args).method == request::Method::Get && request_of(args).body is None,
        args.since is None && args.until is None ==> request_of(args).path == "activity"@,
        args.since is Some && args.until is None ==> text::ends(
            request_of(args).path,
            "since"@ + "="@ + request::in_query(args.since->0@),
        ),
        args.until is Some ==> text::ends(
            request_of(args).path,
            "until"@ + "="@ + request::in_query(args.until->0@),
        ),
{
    let parts = request::with_opt_text(request::no_params(), "since"@, text::opt_text(args.since));
    if let Some(until) = args.until {
        let part = "until"@ + "="@ + request::in_query(until@);
        let all = parts.push(part);
        assert(all.drop_last() =~= parts);
        let joined = text::joined(all, "&"@);
        assert(text::ends(joined, part)) by {
            if parts.len() == 0 {
                assert(joined =~= part);
                assert(part.subrange(0, part.len() as int) =~= part);
            } else {
                text::law_parts_occur(text::joined(parts, "&"@) + "&"@, part, Seq::empty());
            }
        }
        let whole = "activity"@ + "?"@ + joined;
        assert(whole.subrange(whole.len() - part.len(), whole.len() as int) =~= joined.subrange(
            joined.len() - part.len(),
            joined.len() as int,
        ));
    } else if let Some(since) = args.since {
        let part = "since"@ + "="@ + request::in_query(since@);
        assert(parts =~= seq![part]);
        assert(text::joined(parts, "&"@) =~= part);
        text::law_parts_occur("activity"@ + "?"@, part, Seq::empty());
    }
}

/// A day is shown with its counts, each in its own column.
pub proof fn law_a_day_is_shown_in_columns(day: DayActivity)
    ensures
        day.cells().len() == day_headers().len(),
        day.cells()[0] == day.date@,
        day.cells()[1] == text::signed_decimal(day.messages as int),
        day.cells()[2] == text::signed_decimal(day.branches as int),
        day.cells()[3] == text::signed_decimal(day.workers as int),
        day.cells()[4] == text::signed_decimal(day.cortex as int),
        day.cells()[5] == text::signed_decimal(day.cron as int),
        day.cells()[6] == text::signed_decimal(day.active_channels as int),
        day.cells()[7] == text::signed_decimal(day.input_tokens as int),
        day.cells()[8] == text::signed_decimal(day.output_tokens as int),
        day.cells()[9] == day.cost@,
{
}

/// Days without activity are told in a note; else the days are shown, the totals
/// below them and the processes last, one line each.
pub proof fn law_activity_is_shown_by_day_in_all_and_by_process(
    daily: Seq<DayActivity>,
    totals: ActivityTotals,
    by_process: Seq<ProcessTokens>,
)
    ensures
        daily.len() == 0 ==> activity_lines(daily, totals, by_process).len() == 1 && activity_lines(
            daily,
            totals,
            by_process,
        )[0] is Note,
        daily.len() > 0 ==> activity_lines(daily, totals, by_process).len() == daily.len() + 1 + 12 + (
        if by_process.len() > 0 {
            by_process.len() + 1
        } else {
            0
        }),
        daily.len() > 0 ==> activity_lines(daily, totals, by_process)[daily.len() as int + 2] == LineModel::Out(
            "Messages:        "@ + text::signed_decimal(totals.messages as int),
        ),
        daily.len() > 0 ==> activity_lines(daily, totals, by_process)[daily.len() as int + 8] == LineModel::Out(
            "Input tokens:    "@ + text::signed_decimal(totals.input_tokens as int),
        ),
        daily.len() > 0 ==> activity_lines(daily, totals, by_process)[daily.len() as int + 9] == LineModel::Out(
            "Output tokens:   "@ + text::signed_decimal(totals.output_tokens as int),
        ),
{
    order::law_ranking_is_a_rearrangement(by_process);
}

} // verus!
