//! `spacebot usage`: aggregated token usage over the control API.
use vstd::prelude::*;
use crate::cli::output;
use crate::cli::output::{LineModel, Report, Row};
use crate::cli::request;
use crate::cli::request::{Query, Request, RequestModel};
use crate::text;

verus! {

broadcast use vstd::seq::group_seq_axioms;

/// What usage is asked for.
#[derive(Debug)]
pub struct UsageArgs {
    /// Aggregate usage for one conversation instead of the instance
    pub conversation: Option<String>,
    /// Filter to one agent
    pub agent: Option<String>,
    /// ISO 8601 lower bound (default: 30 days ago)
    pub since: Option<String>,
    /// ISO 8601 upper bound
    pub until: Option<String>,
    /// Group totals by day, agent, or model (comma-separated)
    pub group_by: Option<String>,
}

/// The request for usage.
pub open spec fn request_of(args: UsageArgs) -> RequestModel {
    let agent = request::with_opt_text(request::no_params(), "agent_id"@, text::opt_text(args.agent));
    match args.conversation {
        Some(conversation) => request::reads(
            request::with_any_query("usage/conversation/"@ + conversation@ + ""@, agent),
        ),
        None => {
            let parts = request::with_opt_text(agent, "since"@, text::opt_text(args.since));
            let parts = request::with_opt_text(parts, "until"@, text::opt_text(args.until));
            let parts = request::with_opt_text(parts, "group_by"@, text::opt_text(args.group_by));
            request::reads(request::with_any_query("usage"@, parts))
        },
    }
}

/// Plans the request for usage.
pub fn plan(args: &UsageArgs) -> (request: Request)
    ensures
        request@ == request_of(*args),
{
    let mut query = Query::new();
    query.opt_text("agent_id", &args.agent);
    if let Some(conversation) = &args.conversation {
        let path = request::path_around("usage/conversation/", conversation.as_str(), "");
        return Request::get(query.after_if_any(path.as_str()));
    }
    query.opt_text("since", &args.since);
    query.opt_text("until", &args.until);
    query.opt_text("group_by", &args.group_by);
    Request::get(query.after_if_any("usage"))
}

/// Totals, with the cost written out where it is known.
#[derive(Debug)]
pub struct UsageTotals {
    pub input_tokens: i64,
    pub output_tokens: i64,
    pub cache_read_tokens: i64,
    pub cache_write_tokens: i64,
    pub reasoning_tokens: i64,
    pub request_count: i64,
    pub cost: Option<String>,
    pub cost_status: String,
}

/// What is printed of totals.
pub open spec fn totals_lines(totals: UsageTotals) -> Seq<LineModel> {
    seq![
        LineModel::Out("Input tokens:       "@ + text::signed_decimal(totals.input_tokens as int)),
        LineModel::Out("Output tokens:      "@ + text::signed_decimal(totals.output_tokens as int)),
        LineModel::Out("Cache read tokens:  "@ + text::signed_decimal(totals.cache_read_tokens as int)),
        LineModel::Out("Cache write tokens: "@ + text::signed_decimal(totals.cache_write_tokens as int)),
        LineModel::Out("Reasoning tokens:   "@ + text::signed_decimal(totals.reasoning_tokens as int)),
        LineModel::Out("Requests:           "@ + text::signed_decimal(totals.request_count as int)),
        LineModel::Out(
            match totals.cost {
                Some(cost) => "Estimated cost:     "@ + cost@ + " ("@ + totals.cost_status@ + ")"@,
                None => "Estimated cost:     unknown"@,
            },
        ),
    ]
}

/// Prints totals.
pub fn print_totals(totals: &UsageTotals) -> (report: Report)
    ensures
        report@ == totals_lines(*totals),
{
    let mut report = Report::new();
    report.field("Input tokens:       ", text::show_signed(totals.input_tokens).as_str());
    report.field("Output tokens:      ", text::show_signed(totals.output_tokens).as_str());
    report.field("Cache read tokens:  ", text::show_signed(totals.cache_read_tokens).as_str());
    report.field("Cache write tokens: ", text::show_signed(totals.cache_write_tokens).as_str());
    report.field("Reasoning tokens:   ", text::show_signed(totals.reasoning_tokens).as_str());
    report.field("Requests:           ", text::show_signed(totals.request_count).as_str());
    match &totals.cost {
        Some(cost) => {
            let mut line = "Estimated cost:     ".to_owned();
            line.push_str(cost.as_str());
            line.push_str(" (");
            line.push_str(totals.cost_status.as_str());
            line.push_str(")");
            report.out(line.as_str());
        },
        None => report.out("Estimated cost:     unknown"),
    }
    assert(report@ =~= totals_lines(*totals));
    report
}

/// The totals of a group, with the cost written out where it is known.
#[derive(Debug)]
pub struct UsageGroup {
    pub label: String,
    pub input_tokens: i64,
    pub output_tokens: i64,
    pub request_count: i64,
    pub cost: Option<String>,
}

impl Row for UsageGroup {
    open spec fn cells(&self) -> Seq<Seq<char>> {
        seq![
            self.label@,
            text::signed_decimal(self.input_tokens as int),
            text::signed_decimal(self.output_tokens as int),
            text::signed_decimal(self.request_count as int),
            output::or_dash(text::opt_text(self.cost)),
        ]
    }

    fn row(&self) -> (row: Vec<String>) {
        let row = vec![
            self.label.clone(),
            text::show_signed(self.input_tokens),
            text::show_signed(self.output_tokens),
            text::show_signed(self.request_count),
            output::dash(&self.cost),
        ];
        assert(text::texts(row@) =~= self.cells());
        row
    }
}

/// The headings of a grouping.
pub open spec fn group_headers(label: Seq<char>) -> Seq<Seq<char>> {
    seq![label, "INPUT"@, "OUTPUT"@, "REQUESTS"@, "COST"@]
}

/// What is printed of a grouping.
pub open spec fn group_lines(label: Seq<char>, groups: Seq<UsageGroup>) -> Seq<LineModel> {
    if groups.len() == 0 {
        Seq::empty()
    } else {
        seq![LineModel::Out(""@)] + output::item_table(group_headers(label), groups)
    }
}

fn print_groups(report: &mut Report, label: &'static str, groups: &Vec<UsageGroup>)
    ensures
        final(report)@ == old(report)@ + group_lines(label@, groups@),
{
    let ghost before = report@;
    if groups.len() > 0 {
        report.out("");
        let names = vec![label, "INPUT", "OUTPUT", "REQUESTS", "COST"];
        assert(text::slices(names@) =~= group_headers(label@));
        report.table(&names, groups);
    }
    assert(report@ =~= before + group_lines(label@, groups@));
}

/// Prints usage: the totals, and the groupings that were asked for.
pub fn print_usage(
    totals: &UsageTotals,
    by_day: &Vec<UsageGroup>,
    by_agent: &Vec<UsageGroup>,
    by_model: &Vec<UsageGroup>,
) -> (report: Report)
    ensures
        report@ == totals_lines(*totals) + group_lines("DATE"@, by_day@) + group_lines("AGENT"@, by_agent@)
            + group_lines("MODEL"@, by_model@),
{
    let mut report = print_totals(totals);
    print_groups(&mut report, "DATE", by_day);
    print_groups(&mut report, "AGENT", by_agent);
    print_groups(&mut report, "MODEL", by_model);
    report
}

// ---------------------------------------------------------------------------
// Laws
// ---------------------------------------------------------------------------

/// Usage is asked for over a range, or of one conversation alone.
pub proof fn law_usage_is_asked_for_in_its_range(args: UsageArgs)
    ensures
        request_of(args).method == request::Method::Get && request_of(args).body is None,
        args.agent is Some ==> text::occurs_in(
            request_of(args).path,
            "agent_id"@ + "="@ + request::in_query(args.agent->0@),
        ),
        args.conversation is Some && args.agent is None ==> request_of(args).path == "usage/conversation/"@
            + args.conversation->0@,
        args.conversation is None && args.since is Some ==> text::occurs_in(
            request_of(args).path,
            "since"@ + "="@ + request::in_query(args.since->0@),
        ),
        args.conversation is None && args.until is Some ==> text::occurs_in(
            request_of(args).path,
            "until"@ + "="@ + request::in_query(args.until->0@),
        ),
        args.conversation is None && args.group_by is Some ==> text::occurs_in(
            request_of(args).path,
            "group_by"@ + "="@ + request::in_query(args.group_by->0@),
        ),
{
    broadcast use request::params_after_param;

    reveal_strlit("");
    let one = request::with_opt_text(request::no_params(), "agent_id"@, text::opt_text(args.agent));
    let two = request::with_opt_text(one, "since"@, text::opt_text(args.since));
    let three = request::with_opt_text(two, "until"@, text::opt_text(args.until));
    let four = request::with_opt_text(three, "group_by"@, text::opt_text(args.group_by));
    if let Some(conversation) = args.conversation {
        let path = "usage/conversation/"@ + conversation@;
        assert(path + ""@ =~= path);
        if let Some(agent) = args.agent {
            let part = "agent_id"@ + "="@ + request::in_query(agent@);
            assert(one.contains(part));
            request::law_parameters_stand_in_the_address(path, one, part);
        }
    } else {
        if let Some(agent) = args.agent {
            let part = "agent_id"@ + "="@ + request::in_query(agent@);
            assert(one.contains(part));
            assert(two.contains(part));
            assert(three.contains(part));
            assert(four.contains(part));
            request::law_parameters_stand_in_the_address("usage"@, four, part);
        }
        if let Some(since) = args.since {
            let part = "since"@ + "="@ + request::in_query(since@);
            assert(two.contains(part));
            assert(three.contains(part));
            assert(four.contains(part));
            request::law_parameters_stand_in_the_address("usage"@, four, part);
        }
        if let Some(until) = args.until {
            let part = "until"@ + "="@ + request::in_query(until@);
            assert(three.contains(part));
            assert(four.contains(part));
            request::law_parameters_stand_in_the_address("usage"@, four, part);
        }
        if let Some(group) = args.group_by {
            let part = "group_by"@ + "="@ + request::in_query(group@);
            assert(four.contains(part));
            request::law_parameters_stand_in_the_address("usage"@, four, part);
        }
    }
}

/// Totals are told in one order, and a cost that is not known is said to be
/// unknown.
pub proof fn law_totals_tell_every_count(totals: UsageTotals, group: UsageGroup, label: Seq<char>)
    ensures
        totals_lines(totals).len() == 7,
        totals_lines(totals)[0] == LineModel::Out(
            "Input tokens:       "@ + text::signed_decimal(totals.input_tokens as int),
        ),
        totals_lines(totals)[1] == LineModel::Out(
            "Output tokens:      "@ + text::signed_decimal(totals.output_tokens as int),
        ),
        totals_lines(totals)[2] == LineModel::Out(
            "Cache read tokens:  "@ + text::signed_decimal(totals.cache_read_tokens as int),
        ),
        totals_lines(totals)[3] == LineModel::Out(
            "Cache write tokens: "@ + text::signed_decimal(totals.cache_write_tokens as int),
        ),
        totals_lines(totals)[5] == LineModel::Out(
            "Requests:           "@ + text::signed_decimal(totals.request_count as int),
        ),
        totals.cost is None ==> totals_lines(totals)[6] == LineModel::Out("Estimated cost:     unknown"@),
        group.cells().len() == group_headers(label).len() && group_headers(label)[0] == label,
        group.cells()[0] == group.label@ && group.cells()[1] == text::signed_decimal(group.input_tokens as int),
        group.cells()[2] == text::signed_decimal(group.output_tokens as int),
        group.cells()[3] == text::signed_decimal(group.request_count as int),
{
}

} // verus!
