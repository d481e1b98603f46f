//! `spacebot cron`: cron jobs over the control API.
use vstd::prelude::*;
use crate::cli::output;
use crate::cli::output::{LineModel, Report, Row};
use crate::cli::request;
use crate::cli::request::{Method, Query, Request, RequestModel};
use crate::json;
use crate::json::{Body, Json, JsonModel};
use crate::text;

verus! {

broadcast use vstd::seq::group_seq_axioms;

/// The cron commands.
#[derive(Debug)]
#[allow(inconsistent_fields)]
pub enum CronCommand {
    /// List cron jobs for an agent
    List { agent: String },
    /// Create or update a cron job
    Put {
        agent: String,
        id: String,
        prompt: String,
        target: String,
        cron: Option<String>,
        interval: Option<u64>,
        start_hour: Option<u8>,
        end_hour: Option<u8>,
        disabled: bool,
        run_once: bool,
        timeout: Option<u64>,
    },
    /// Delete a cron job
    Delete { agent: String, id: String },
    /// Enable or disable a cron job
    Toggle { agent: String, id: String, on: bool, off: bool },
    /// Trigger a cron job immediately
    Trigger { agent: String, id: String },
    /// Show cron execution history
    Executions { agent: String, cron_id: Option<String>, limit: i64 },
}

/// An hour of the day, as a count.
pub open spec fn hour_of(hour: Option<u8>) -> Option<int> {
    match hour {
        Some(hour) => Some(hour as int),
        None => None,
    }
}

/// An object that names an agent's job.
pub open spec fn job_body(agent: Seq<char>, id: Seq<char>) -> Seq<(Seq<char>, JsonModel)> {
    json::with_text(json::with_text(json::no_members(), "agent_id"@, agent), "cron_id"@, id)
}

/// The request that a command makes, or why it makes none.
pub open spec fn request_of(command: CronCommand) -> Result<RequestModel, Seq<char>> {
    match command {
        CronCommand::List { agent } => Ok(
            request::reads(
                request::with_query(
                    "agents/cron"@,
                    request::with_text(request::no_params(), "agent_id"@, agent@),
                ),
            ),
        ),
        CronCommand::Put {
            agent,
            id,
            prompt,
            target,
            cron,
            interval,
            start_hour,
            end_hour,
            disabled,
            run_once,
            timeout,
        } => {
            let body = json::with_text(json::no_members(), "agent_id"@, agent@);
            let body = json::with_text(body, "id"@, id@);
            let body = json::with_text(body, "prompt"@, prompt@);
            let body = json::with_text(body, "delivery_target"@, target@);
            let body = json::with_flag(body, "enabled"@, !disabled);
            let body = json::with_flag(body, "run_once"@, run_once);
            let body = json::with_opt_text(body, "cron_expr"@, text::opt_text(cron));
            let body = json::with_opt_number(body, "interval_secs"@, json::opt_nat(interval));
            let body = json::with_opt_number(body, "active_start_hour"@, hour_of(start_hour));
            let body = json::with_opt_number(body, "active_end_hour"@, hour_of(end_hour));
            let body = json::with_opt_number(body, "timeout_secs"@, json::opt_nat(timeout));
            Ok(request::sends(Method::Post, "agents/cron"@, body))
        },
        CronCommand::Delete { agent, id } => Ok(
            request::deletes(
                request::with_query(
                    "agents/cron"@,
                    request::with_text(
                        request::with_text(request::no_params(), "agent_id"@, agent@),
                        "cron_id"@,
                        id@,
                    ),
                ),
            ),
        ),
        CronCommand::Toggle { agent, id, on, off } => if on == off {
            Err("pass exactly one of --on or --off"@)
        } else {
            Ok(
                request::sends(
                    Method::Put,
                    "agents/cron/toggle"@,
                    json::with_flag(job_body(agent@, id@), "enabled"@, on),
                ),
            )
        },
        CronCommand::Trigger { agent, id } => Ok(
            request::sends(Method::Post, "agents/cron/trigger"@, job_body(agent@, id@)),
        ),
        CronCommand::Executions { agent, cron_id, limit } => Ok(
            request::reads(
                request::with_query(
                    "agents/cron/executions"@,
                    request::with_opt_text(
                        request::with_number(
                            request::with_text(request::no_params(), "agent_id"@, agent@),
                            "limit"@,
                            limit as int,
                        ),
                        "cron_id"@,
                        text::opt_text(cron_id),
                    ),
                ),
            ),
        ),
    }
}

fn set_hour(body: &mut Body, name: &str, hour: Option<u8>)
    ensures
        final(body)@ == json::with_opt_number(old(body)@, name@, hour_of(hour)),
{
    if let Some(hour) = hour {
        body.number(name, hour as i64);
    }
}

fn name_job(agent: &str, id: &str) -> (body: Body)
    ensures
        body@ == job_body(agent@, id@),
{
    let mut body = Body::new();
    body.text("agent_id", agent);
    body.text("cron_id", id);
    body
}

/// Plans the request of a command.
pub fn plan(command: &CronCommand) -> (plan: Result<Request, String>)
    ensures
        request::planned(plan) == request_of(*command),
{
    match command {
        CronCommand::List { agent } => {
            let mut query = Query::new();
            query.text("agent_id", agent.as_str());
            Ok(Request::get(query.after("agents/cron")))
        },
        CronCommand::Put {
            agent,
            id,
            prompt,
            target,
            cron,
            interval,
            start_hour,
            end_hour,
            disabled,
            run_once,
            timeout,
        } => {
            let mut body = Body::new();
            body.text("agent_id", agent.as_str());
            body.text("id", id.as_str());
            body.text("prompt", prompt.as_str());
            body.text("delivery_target", target.as_str());
            body.flag("enabled", !*disabled);
            body.flag("run_once", *run_once);
            body.opt_text("cron_expr", cron);
            body.opt_count("interval_secs", *interval);
            set_hour(&mut body, "active_start_hour", *start_hour);
            set_hour(&mut body, "active_end_hour", *end_hour);
            body.opt_count("timeout_secs", *timeout);
            Ok(Request::with(Method::Post, "agents/cron".to_owned(), body))
        },
        CronCommand::Delete { agent, id } => {
            let mut query = Query::new();
            query.text("agent_id", agent.as_str());
            query.text("cron_id", id.as_str());
            Ok(Request::delete(query.after("agents/cron")))
        },
        CronCommand::Toggle { agent, id, on, off } => {
            if *on == *off {
                return Err("pass exactly one of --on or --off".to_owned());
            }
            let mut body = name_job(agent.as_str(), id.as_str());
            body.flag("enabled", *on);
            Ok(Request::with(Method::Put, "agents/cron/toggle".to_owned(), body))
        },
        CronCommand::Trigger { agent, id } => {
            let body = name_job(agent.as_str(), id.as_str());
            Ok(Request::with(Method::Post, "agents/cron/trigger".to_owned(), body))
        },
        CronCommand::Executions { agent, cron_id, limit } => {
            let mut query = Query::new();
            query.text("agent_id", agent.as_str());
            query.number("limit", *limit);
            query.opt_text("cron_id", cron_id);
            Ok(Request::get(query.after("agents/cron/executions")))
        },
    }
}

// ---------------------------------------------------------------------------
// What is printed
// ---------------------------------------------------------------------------

/// A cron job as the control API lists it.
#[derive(Debug)]
pub struct CronJob {
    pub id: String,
    pub cron_expr: Option<String>,
    pub interval_secs: u64,
    pub enabled: bool,
    pub delivery_target: String,
    pub execution_success_count: u64,
    pub execution_failure_count: u64,
    pub last_executed_at: Option<String>,
}

/// When a job runs: its expression, or its interval.
pub open spec fn schedule_label(cron_expr: Option<Seq<char>>, interval_secs: u64) -> Seq<char> {
    match cron_expr {
        Some(expr) => expr,
        None => "every "@ + text::decimal(interval_secs as nat) + "s"@,
    }
}

/// When a job last ran.
pub open spec fn last_run(at: Option<Seq<char>>) -> Seq<char> {
    match at {
        Some(at) => output::minute_of(at),
        None => "-"@,
    }
}

impl Row for CronJob {
    open spec fn cells(&self) -> Seq<Seq<char>> {
        seq![
            self.id@,
            schedule_label(text::opt_text(self.cron_expr), self.interval_secs),
            output::yes_or_no(self.enabled),
            self.delivery_target@,
            text::decimal(self.execution_success_count as nat),
            text::decimal(self.execution_failure_count as nat),
            last_run(text::opt_text(self.last_executed_at)),
        ]
    }

    fn row(&self) -> (row: Vec<String>) {
        let schedule = match &self.cron_expr {
            Some(expr) => expr.clone(),
            None => {
                let interval = text::show(self.interval_secs);
                request::path_around("every ", interval.as_str(), "s")
            },
        };
        let last = match &self.last_executed_at {
            Some(at) => output::short_timestamp(at.as_str()),
            None => "-".to_owned(),
        };
        let row = vec![
            self.id.clone(),
            schedule,
            output::yes_no(self.enabled),
            self.delivery_target.clone(),
            text::show(self.execution_success_count),
            text::show(self.execution_failure_count),
            last,
        ];
        assert(text::texts(row@) =~= self.cells());
        row
    }
}

/// The headings of a listing.
pub open spec fn list_headers() -> Seq<Seq<char>> {
    seq!["ID"@, "SCHEDULE"@, "ENABLED"@, "TARGET"@, "OK"@, "FAIL"@, "LAST RUN"@]
}

/// What is printed of an agent's jobs.
pub open spec fn list_lines(agent: Seq<char>, timezone: Seq<char>, jobs: Seq<CronJob>) -> Seq<LineModel> {
    if jobs.len() == 0 {
        seq![LineModel::Note("No cron jobs for "@ + agent + "."@)]
    } else {
        seq![LineModel::Note("Timezone: "@ + timezone)] + output::item_table(list_headers(), jobs)
    }
}

/// Prints an agent's jobs.
pub fn print_list(agent: &str, timezone: &str, jobs: &Vec<CronJob>) -> (report: Report)
    ensures
        report@ == list_lines(agent@, timezone@, jobs@),
{
    if jobs.len() == 0 {
        return output::message_about("No cron jobs for ", agent, ".");
    }
    let mut head = "Timezone: ".to_owned();
    head.push_str(timezone);
    let mut report = output::message(head.as_str());
    let names = vec!["ID", "SCHEDULE", "ENABLED", "TARGET", "OK", "FAIL", "LAST RUN"];
    assert(text::slices(names@) =~= list_headers());
    report.table(&names, jobs);
    report
}

/// How a delivery went.
pub open spec fn delivery_label(entry: JsonModel) -> Seq<char> {
    if !entry.is_set("delivery_attempted"@) {
        "skipped"@
    } else {
        match entry.at("delivery_succeeded"@).as_flag() {
            Some(true) => "ok"@,
            Some(false) => "failed"@,
            None => "-"@,
        }
    }
}

/// What there is to say of an execution: the first of its error, the error of
/// its delivery and its summary.
pub open spec fn detail_of(entry: JsonModel) -> Seq<char> {
    match entry.at("execution_error"@).as_text() {
        Some(error) => error,
        None => match entry.at("delivery_error"@).as_text() {
            Some(error) => error,
            None => entry.text_or("result_summary"@, ""@),
        },
    }
}

/// The row of an execution.
pub open spec fn execution_cells(entry: JsonModel) -> Seq<Seq<char>> {
    seq![
        output::minute_of(entry.text_or("executed_at"@, ""@)),
        entry.text_or("cron_id"@, "-"@),
        if entry.is_set("execution_succeeded"@) {
            "ok"@
        } else {
            "failed"@
        },
        delivery_label(entry),
        output::truncated(detail_of(entry), 60),
    ]
}

/// The headings of an execution history.
pub open spec fn execution_headers() -> Seq<Seq<char>> {
    seq!["EXECUTED"@, "CRON"@, "EXECUTION"@, "DELIVERY"@, "DETAIL"@]
}

/// What is printed of an execution history.
pub open spec fn execution_lines(response: JsonModel) -> Seq<LineModel> {
    let entries = response.at("executions"@).items();
    if entries.len() == 0 {
        seq![LineModel::Note("No executions recorded."@)]
    } else {
        output::out_lines(
            output::table_lines(execution_headers(), entries.map_values(|entry: JsonModel| execution_cells(entry))),
        )
    }
}

fn execution_row(entry: &Json) -> (row: Vec<String>)
    ensures
        text::texts(row@) == execution_cells(entry@),
{
    let execution = if entry.is_set("execution_succeeded") {
        "ok".to_owned()
    } else {
        "failed".to_owned()
    };
    let delivery = if !entry.is_set("delivery_attempted") {
        "skipped".to_owned()
    } else {
        match entry.flag("delivery_succeeded") {
            Some(true) => "ok".to_owned(),
            Some(false) => "failed".to_owned(),
            None => "-".to_owned(),
        }
    };
    let detail = match entry.text("execution_error") {
        Some(error) => error,
        None => match entry.text("delivery_error") {
            Some(error) => error,
            None => entry.text_or("result_summary", ""),
        },
    };
    let row = vec![
        output::short_timestamp(entry.text_or("executed_at", "").as_str()),
        entry.text_or("cron_id", "-"),
        execution,
        delivery,
        output::truncate(detail.as_str(), 60),
    ];
    assert(text::texts(row@) =~= execution_cells(entry@));
    row
}

/// Prints an execution history.
pub fn print_executions(response: &Json) -> (report: Report)
    ensures
        report@ == execution_lines(response@),
{
    match response.items("executions") {
        None => output::message("No executions recorded."),
        Some(entries) => {
            let ghost models = json::json_models(entries@);
            let ghost all = models.map_values(|entry: JsonModel| execution_cells(entry));
            if entries.len() == 0 {
                return output::message("No executions recorded.");
            }
            let mut rows: Vec<Vec<String>> = Vec::new();
            let mut k: usize = 0;
            assert(output::row_texts(rows@) =~= all.take(0));
            while k < entries.len()
                invariant
                    models == json::json_models(entries@),
                    all == models.map_values(|entry: JsonModel| execution_cells(entry)),
                    k <= entries@.len(),
                    output::row_texts(rows@) == all.take(k as int),
                decreases entries@.len() - k,
            {
                let ghost before = rows@;
                let row = execution_row(&entries[k]);
                rows.push(row);
                assert(models[k as int] == entries@[k as int]@);
                assert(output::row_texts(rows@) =~= output::row_texts(before).push(text::texts(row@)));
                assert(all.take(k + 1) =~= all.take(k as int).push(execution_cells(models[k as int])));
                k = k + 1;
            }
            assert(all.take(k as int) =~= all);
            let names = vec!["EXECUTED", "CRON", "EXECUTION", "DELIVERY", "DETAIL"];
            assert(text::slices(names@) =~= execution_headers());
            let mut report = Report::new();
            report.grid(&names, &rows);
            assert(report@ =~= execution_lines(response@));
            report
        },
    }
}

// ---------------------------------------------------------------------------
// Laws
// ---------------------------------------------------------------------------

proof fn field_names_differ()
    ensures
        "id"@.len() == 2,
        "prompt"@.len() == 6,
        "enabled"@.len() == 7,
        "cron_id"@.len() == 7,
        "agent_id"@.len() == 8,
        "run_once"@.len() == 8,
        "cron_expr"@.len() == 9,
        "timeout_secs"@.len() == 12,
        "interval_secs"@.len() == 13,
        "delivery_target"@.len() == 15,
        "active_end_hour"@.len() == 15,
        "active_start_hour"@.len() == 17,
        "enabled"@ != "cron_id"@ && "agent_id"@ != "run_once"@ && "delivery_target"@ != "active_end_hour"@,
{
    reveal_strlit("id");
    reveal_strlit("prompt");
    reveal_strlit("enabled");
    reveal_strlit("cron_id");
    reveal_strlit("agent_id");
    reveal_strlit("run_once");
    reveal_strlit("cron_expr");
    reveal_strlit("timeout_secs");
    reveal_strlit("interval_secs");
    reveal_strlit("delivery_target");
    reveal_strlit("active_end_hour");
    reveal_strlit("active_start_hour");
    assert("enabled"@[0] != "cron_id"@[0] && "agent_id"@[0] != "run_once"@[0]);
    assert("delivery_target"@[0] != "active_end_hour"@[0]);
}

/// A job is put with all that was said of it, on unless it is disabled.
#[verifier::rlimit(60)]
pub proof fn law_a_job_is_put_with_all_that_was_said(command: CronCommand)
    ensures
        command matches CronCommand::Put {
            agent,
            id,
            prompt,
            target,
            cron,
            interval,
            start_hour,
            end_hour,
            disabled,
            run_once,
            timeout,
        } ==> {
            let asked = request_of(command)->Ok_0;
            let sent = asked.body->0;
            &&& request_of(command) is Ok && asked.method == Method::Post && asked.path == "agents/cron"@
            &&& sent.at("agent_id"@).as_text() == Some(agent@)
            &&& sent.at("id"@).as_text() == Some(id@)
            &&& sent.at("prompt"@).as_text() == Some(prompt@)
            &&& sent.at("delivery_target"@).as_text() == Some(target@)
            &&& sent.at("enabled"@).as_flag() == Some(!disabled)
            &&& sent.at("run_once"@).as_flag() == Some(run_once)
            &&& sent.at("cron_expr"@).as_text() == text::opt_text(cron)
            &&& interval is Some ==> sent.count("interval_secs"@) == interval->0
            &&& timeout is Some ==> sent.count("timeout_secs"@) == timeout->0
            &&& start_hour is Some ==> sent.count("active_start_hour"@) == start_hour->0
            &&& end_hour is Some ==> sent.count("active_end_hour"@) == end_hour->0
        },
{
    broadcast use json::member_after_set;

    field_names_differ();
}

/// A job is switched one way or the other, and refused both and neither; it is
/// triggered as it is.
pub proof fn law_a_job_is_switched_one_way(command: CronCommand)
    ensures
        command matches CronCommand::Toggle { agent, id, on, off } ==> {
            &&& on == off ==> request_of(command) is Err
            &&& on != off ==> {
                let asked = request_of(command)->Ok_0;
                &&& request_of(command) is Ok && asked.method == Method::Put && asked.path == "agents/cron/toggle"@
                &&& asked.body->0.at("agent_id"@).as_text() == Some(agent@)
                &&& asked.body->0.at("cron_id"@).as_text() == Some(id@)
                &&& asked.body->0.at("enabled"@).as_flag() == Some(on)
            }
        },
        command matches CronCommand::Trigger { agent, id } ==> {
            let asked = request_of(command)->Ok_0;
            &&& request_of(command) is Ok && asked.method == Method::Post && asked.path == "agents/cron/trigger"@
            &&& asked.body->0.at("agent_id"@).as_text() == Some(agent@)
            &&& asked.body->0.at("cron_id"@).as_text() == Some(id@)
        },
        command is List || command is Executions ==> request_of(command) is Ok && request_of(command)->Ok_0.method
            == Method::Get && request_of(command)->Ok_0.body is None,
        command is Delete ==> request_of(command) is Ok && request_of(command)->Ok_0.method == Method::Delete,
{
    broadcast use json::member_after_set;

    field_names_differ();
}

/// A deletion names the job and its agent.
pub proof fn law_a_deleted_job_is_named(agent: String, id: String)
    ensures
        text::occurs_in(
            request_of(CronCommand::Delete { agent, id })->Ok_0.path,
            "cron_id"@ + "="@ + request::in_query(id@),
        ),
        text::occurs_in(
            request_of(CronCommand::Delete { agent, id })->Ok_0.path,
            "agent_id"@ + "="@ + request::in_query(agent@),
        ),
{
    broadcast use request::params_after_param;

    let one = request::with_text(request::no_params(), "agent_id"@, agent@);
    let parts = request::with_text(one, "cron_id"@, id@);
    let whose = "agent_id"@ + "="@ + request::in_query(agent@);
    let which = "cron_id"@ + "="@ + request::in_query(id@);
    assert(one.contains(whose));
    assert(parts.contains(whose) && parts.contains(which));
    request::law_parameters_stand_in_the_address("agents/cron"@, parts, whose);
    request::law_parameters_stand_in_the_address("agents/cron"@, parts, which);
}

/// A job is shown by its schedule, its counts and its last run.
pub proof fn law_a_listed_job_shows_its_schedule(job: CronJob)
    ensures
        job.cells().len() == list_headers().len(),
        job.cells()[0] == job.id@,
        job.cron_expr is Some ==> job.cells()[1] == job.cron_expr->0@,
        job.cron_expr is None ==> job.cells()[1] == "every "@ + text::decimal(job.interval_secs as nat) + "s"@,
        job.enabled ==> job.cells()[2] == "yes"@,
        !job.enabled ==> job.cells()[2] == "no"@,
        job.cells()[3] == job.delivery_target@,
        job.cells()[4] == text::decimal(job.execution_success_count as nat),
        job.cells()[5] == text::decimal(job.execution_failure_count as nat),
        job.last_executed_at is None ==> job.cells()[6] == "-"@,
{
}

/// An execution is shown by what failed first: itself, its delivery, or else its
/// result.
pub proof fn law_an_execution_tells_what_failed_first(entry: JsonModel)
    ensures
        !entry.is_set("delivery_attempted"@) ==> delivery_label(entry) == "skipped"@,
        entry.is_set("delivery_attempted"@) && entry.at("delivery_succeeded"@) == JsonModel::Bool(true)
            ==> delivery_label(entry) == "ok"@,
        entry.is_set("delivery_attempted"@) && entry.at("delivery_succeeded"@) == JsonModel::Bool(false)
            ==> delivery_label(entry) == "failed"@,
        entry.at("execution_error"@) matches JsonModel::Text(error) ==> detail_of(entry) == error,
        !(entry.at("execution_error"@) is Text) && entry.at("delivery_error"@) is Text ==> detail_of(entry)
            == entry.at("delivery_error"@)->Text_0,
        !(entry.at("execution_error"@) is Text) && !(entry.at("delivery_error"@) is Text) ==> detail_of(entry)
            == entry.text_or("result_summary"@, ""@),
        execution_cells(entry).len() == execution_headers().len(),
        entry.is_set("execution_succeeded"@) ==> execution_cells(entry)[2] == "ok"@,
        !entry.is_set("execution_succeeded"@) ==> execution_cells(entry)[2] == "failed"@,
        execution_cells(entry)[3] == delivery_label(entry),
{
}

} // verus!
