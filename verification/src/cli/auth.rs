//! `spacebot auth`: Anthropic OAuth credentials.
use vstd::prelude::*;
use crate::cli::output;
use crate::cli::output::{LineModel, Report};
use crate::text;

verus! {

broadcast use vstd::seq::group_seq_axioms;

/// The auth commands.
#[derive(Debug, Clone, Copy, PartialEq, Eq, Structural)]
pub enum AuthCommand {
    /// Log in to Anthropic via OAuth (opens browser)
    Login { console: bool },
    /// Show current auth status
    Status,
    /// Log out (remove stored credentials)
    Logout,
    /// Refresh the access token
    Refresh,
}

/// Which account a login is for.
#[derive(Debug, Clone, Copy, PartialEq, Eq, Structural)]
pub enum AuthMode {
    Console,
    Max,
}

/// Which account a login is for.
pub fn login_mode(console: bool) -> (mode: AuthMode)
    ensures
        mode == (if console {
            AuthMode::Console
        } else {
            AuthMode::Max
        }),
{
    if console {
        AuthMode::Console
    } else {
        AuthMode::Max
    }
}

/// What is known of stored credentials.
#[derive(Debug, Clone, Copy, PartialEq, Eq, Structural)]
pub struct CredentialFacts {
    /// When the access token expires, in milliseconds since the epoch.
    pub expires_at: i64,
    pub expired: bool,
    pub access_token_bytes: usize,
    pub refresh_token_bytes: usize,
}

/// Whole minutes in a number of milliseconds, rounded towards zero.
pub open spec fn minutes_in(millis: int) -> int {
    if millis >= 0 {
        millis / 60_000
    } else {
        -((-millis) / 60_000)
    }
}

/// Whole minutes until an instant.
pub fn minutes_until(expires_at: i64, now: i64) -> (minutes: i64)
    requires
        i64::MIN <= expires_at - now <= i64::MAX,
    ensures
        minutes == minutes_in(expires_at - now),
{
    let millis: i64 = expires_at - now;
    if millis >= 0 {
        millis / 60_000
    } else {
        let ago: u64 = (0 - millis as i128) as u64;
        0 - (ago / 60_000) as i64
    }
}

/// What is printed of the auth status.
pub open spec fn status_lines(credentials: Option<CredentialFacts>, now: i64, path: Seq<char>) -> Seq<LineModel> {
    match credentials {
        Some(facts) => {
            let minutes = minutes_in(facts.expires_at - now);
            seq![
                LineModel::Note(
                    if facts.expired {
                        "Anthropic OAuth: expired ("@ + text::signed_decimal(-minutes) + "m ago)"@
                    } else {
                        "Anthropic OAuth: valid (expires in "@ + text::signed_decimal(minutes) + "m)"@
                    },
                ),
                LineModel::Note(
                    "  access token: <redacted> ("@ + text::decimal(facts.access_token_bytes as nat) + " bytes)"@,
                ),
                LineModel::Note(
                    "  refresh token: <redacted> ("@ + text::decimal(facts.refresh_token_bytes as nat) + " bytes)"@,
                ),
                LineModel::Note("  credentials file: "@ + path + ""@),
            ]
        },
        None => seq![
            LineModel::Note("No OAuth credentials found."@),
            LineModel::Note("Run `spacebot auth login` to authenticate."@),
        ],
    }
}

/// Prints the auth status. `path` is where the credentials are stored.
pub fn print_status(credentials: &Option<CredentialFacts>, now: i64, path: &str) -> (report: Report)
    requires
        *credentials matches Some(facts) ==> i64::MIN <= facts.expires_at - now <= i64::MAX,
    ensures
        report@ == status_lines(*credentials, now, path@),
{
    let mut report = Report::new();
    match credentials {
        Some(facts) => {
            let minutes: i64 = minutes_until(facts.expires_at, now);
            if facts.expired {
                report.err_about("Anthropic OAuth: expired (", text::show_signed(0 - minutes).as_str(), "m ago)");
            } else {
                report.err_about("Anthropic OAuth: valid (expires in ", text::show_signed(minutes).as_str(), "m)");
            }
            report.err_about(
                "  access token: <redacted> (",
                text::show_usize(facts.access_token_bytes).as_str(),
                " bytes)",
            );
            report.err_about(
                "  refresh token: <redacted> (",
                text::show_usize(facts.refresh_token_bytes).as_str(),
                " bytes)",
            );
            report.err_about("  credentials file: ", path, "");
        },
        None => {
            report.err("No OAuth credentials found.");
            report.err("Run `spacebot auth login` to authenticate.");
        },
    }
    assert(report@ =~= status_lines(*credentials, now, path@));
    report
}

/// Prints that the credentials were removed, where there were any.
pub fn print_logout(removed: bool) -> (report: Report)
    ensures
        report@ == seq![
            LineModel::Note(
                if removed {
                    "Credentials removed."@
                } else {
                    "No credentials found."@
                },
            ),
        ],
{
    output::message(
        if removed {
            "Credentials removed."
        } else {
            "No credentials found."
        },
    )
}

/// Prints that the access token was refreshed.
pub fn print_refreshed(expires_at: i64, now: i64) -> (report: Report)
    requires
        i64::MIN <= expires_at - now <= i64::MAX,
    ensures
        report@ == seq![
            LineModel::Note(
                "Token refreshed (expires in "@ + text::signed_decimal(minutes_in(expires_at - now)) + "m)"@,
            ),
        ],
{
    let minutes: i64 = minutes_until(expires_at, now);
    output::message_about("Token refreshed (expires in ", text::show_signed(minutes).as_str(), "m)")
}

// ---------------------------------------------------------------------------
// Laws
// ---------------------------------------------------------------------------

/// Minutes are whole ones, counted towards zero.
pub proof fn law_minutes_are_whole(millis: int)
    ensures
        millis >= 0 ==> minutes_in(millis) * 60_000 <= millis < (minutes_in(millis) + 1) * 60_000,
        minutes_in(-millis) == -minutes_in(millis),
{
}

/// A status tells how long ago credentials expired or how long they last, and
/// how long the tokens are but never what they are.
pub proof fn law_a_status_tells_how_long_credentials_last(facts: CredentialFacts, now: i64, path: Seq<char>)
    ensures
        status_lines(None, now, path).len() == 2,
        status_lines(Some(facts), now, path).len() == 4,
        facts.expired ==> status_lines(Some(facts), now, path)[0] == LineModel::Note(
            "Anthropic OAuth: expired ("@ + text::signed_decimal(minutes_in(now - facts.expires_at)) + "m ago)"@,
        ),
        !facts.expired ==> status_lines(Some(facts), now, path)[0] == LineModel::Note(
            "Anthropic OAuth: valid (expires in "@ + text::signed_decimal(minutes_in(facts.expires_at - now)) + "m)"@,
        ),
        status_lines(Some(facts), now, path)[1] == LineModel::Note(
            "  access token: <redacted> ("@ + text::decimal(facts.access_token_bytes as nat) + " bytes)"@,
        ),
        status_lines(Some(facts), now, path)[2] == LineModel::Note(
            "  refresh token: <redacted> ("@ + text::decimal(facts.refresh_token_bytes as nat) + " bytes)"@,
        ),
{
    law_minutes_are_whole(facts.expires_at - now);
}

} // verus!
