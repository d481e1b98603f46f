//! `spacebot update`: update status and self-update over the control API.
use vstd::prelude::*;
use crate::cli::output;
use crate::cli::output::{LineModel, Report};
use crate::cli::request;
use crate::cli::request::{Method, Request, RequestModel};
use crate::json;
use crate::json::{Json, JsonModel};
use crate::text;

verus! {

broadcast use vstd::seq::group_seq_axioms;

/// The update commands.
#[derive(Debug)]
pub enum UpdateCommand {
    /// Show update status from the last background check
    Check { now: bool },
    /// Pull the new image and recreate the container
    Apply,
    /// Print the changelog
    Changelog,
}

/// The request that a command makes.
pub open spec fn request_of(command: UpdateCommand) -> RequestModel {
    match command {
        UpdateCommand::Check { now } => if now {
            request::sends(Method::Post, "update-check"@, json::no_members())
        } else {
            request::reads("update-check"@)
        },
        UpdateCommand::Apply => request::sends(Method::Post, "update-apply"@, json::no_members()),
        UpdateCommand::Changelog => request::reads("changelog"@),
    }
}

/// Plans the request of a command.
pub fn plan(command: &UpdateCommand) -> (request: Request)
    ensures
        request@ == request_of(*command),
{
    match command {
        UpdateCommand::Check { now } => if *now {
            Request::bare(Method::Post, "update-check")
        } else {
            Request::get("update-check".to_owned())
        },
        UpdateCommand::Apply => Request::bare(Method::Post, "update-apply"),
        UpdateCommand::Changelog => Request::get("changelog".to_owned()),
    }
}

/// When the last check was, where there was one.
pub open spec fn checked_line(at: Option<Seq<char>>) -> Seq<LineModel> {
    match at {
        Some(at) => seq![LineModel::Out("Checked at:       "@ + output::minute_of(at))],
        None => Seq::empty(),
    }
}

/// What is printed of the update status.
pub open spec fn check_lines(response: JsonModel) -> Seq<LineModel> {
    seq![
        LineModel::Out("Current version:  "@ + response.text_or("current_version"@, "unknown"@)),
        LineModel::Out("Latest version:   "@ + response.text_or("latest_version"@, "unknown"@)),
        LineModel::Out("Update available: "@ + output::true_or_false(response.is_set("update_available"@))),
        LineModel::Out("Deployment:       "@ + response.text_or("deployment"@, "unknown"@)),
        LineModel::Out("Can apply:        "@ + output::true_or_false(response.is_set("can_apply"@))),
    ] + output::opt_line("  Reason:         "@, response.at("cannot_apply_reason"@).as_text()) + output::opt_line(
        "Docker image:     "@,
        response.at("docker_image"@).as_text(),
    ) + output::opt_line("Release URL:      "@, response.at("release_url"@).as_text()) + checked_line(
        response.at("checked_at"@).as_text(),
    ) + output::opt_line("Last check error: "@, response.at("error"@).as_text())
}

/// Prints the update status.
pub fn print_check(response: &Json) -> (report: Report)
    ensures
        report@ == check_lines(response@),
{
    let mut report = Report::new();
    report.field("Current version:  ", response.text_or("current_version", "unknown").as_str());
    report.field("Latest version:   ", response.text_or("latest_version", "unknown").as_str());
    report.field("Update available: ", output::true_false(response.is_set("update_available")));
    report.field("Deployment:       ", response.text_or("deployment", "unknown").as_str());
    report.field("Can apply:        ", output::true_false(response.is_set("can_apply")));
    report.opt_field("  Reason:         ", &response.text("cannot_apply_reason"));
    report.opt_field("Docker image:     ", &response.text("docker_image"));
    report.opt_field("Release URL:      ", &response.text("release_url"));
    let ghost before = report@;
    if let Some(at) = response.text("checked_at") {
        report.field("Checked at:       ", output::short_timestamp(at.as_str()).as_str());
    }
    assert(report@ =~= before + checked_line(response@.at("checked_at"@).as_text()));
    report.opt_field("Last check error: ", &response.text("error"));
    assert(report@ =~= check_lines(response@));
    report
}

/// What is printed of an update that was asked for.
pub open spec fn apply_lines(response: JsonModel) -> Result<Seq<LineModel>, Seq<char>> {
    if response.at("status"@).as_text() == Some("error"@) {
        Err(response.text_or("error"@, "update failed"@))
    } else {
        Ok(seq![LineModel::Note("Update started — the daemon will restart with the new image."@)])
    }
}

/// Prints the outcome of an update that was asked for.
pub fn print_apply(response: &Json) -> (report: Result<Report, String>)
    ensures
        output::reported(report) == apply_lines(response@),
{
    if let Some(status) = response.text("status") {
        if text::same(status.as_str(), "error") {
            return Err(response.text_or("error", "update failed"));
        }
    }
    Ok(output::message("Update started — the daemon will restart with the new image."))
}

/// Prints the changelog.
pub fn print_changelog(response: &Json) -> (report: Report)
    ensures
        report@ == seq![LineModel::Out(output::without_break(response@.text_or("content"@, ""@)))],
{
    output::print_content(response.text_or("content", "").as_str())
}

// ---------------------------------------------------------------------------
// Laws
// ---------------------------------------------------------------------------

/// A check reads what is known, and asks anew only where it is to; applying is
/// a change of its own.
pub proof fn law_only_a_check_now_asks_anew(command: UpdateCommand)
    ensures
        command matches UpdateCommand::Check { now } ==> request_of(command).path == "update-check"@ && (now
            ==> request_of(command).method == Method::Post) && (!now ==> request_of(command).method == Method::Get
            && request_of(command).body is None),
        command is Apply ==> request_of(command).method == Method::Post && request_of(command).path == "update-apply"@,
        command is Changelog ==> request_of(command).method == Method::Get && request_of(command).path == "changelog"@,
{
}

/// An update that fails is an error, told in its own words where it has any.
pub proof fn law_a_failed_update_is_an_error(response: JsonModel)
    ensures
        apply_lines(response) is Err <==> response.at("status"@) == JsonModel::Text("error"@),
        apply_lines(response) is Err && response.at("error"@) is Text ==> apply_lines(response)->Err_0
            == response.at("error"@)->Text_0,
{
}

/// A check shows both versions and whether there is an update, and what else is
/// known.
pub proof fn law_a_check_shows_both_versions(response: JsonModel)
    ensures
        check_lines(response).len() >= 5,
        check_lines(response)[0] == LineModel::Out(
            "Current version:  "@ + response.text_or("current_version"@, "unknown"@),
        ),
        check_lines(response)[1] == LineModel::Out(
            "Latest version:   "@ + response.text_or("latest_version"@, "unknown"@),
        ),
        response.is_set("update_available"@) ==> check_lines(response)[2] == LineModel::Out(
            "Update available: "@ + "true"@,
        ),
        !response.is_set("update_available"@) ==> check_lines(response)[2] == LineModel::Out(
            "Update available: "@ + "false"@,
        ),
        response.is_set("can_apply"@) ==> check_lines(response)[4] == LineModel::Out("Can apply:        "@ + "true"@),
        !response.is_set("can_apply"@) ==> check_lines(response)[4] == LineModel::Out("Can apply:        "@ + "false"@),
        response.at("error"@) matches JsonModel::Text(error) ==> check_lines(response).last() == LineModel::Out(
            "Last check error: "@ + error,
        ),
{
}

} // verus!
