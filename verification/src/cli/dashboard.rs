//! `spacebot dashboard`: the web UI.
use vstd::prelude::*;
use crate::text;

verus! {

/// How the dashboard is opened.
#[derive(Debug, Clone, Copy, PartialEq, Eq, Structural)]
pub struct DashboardArgs {
    /// Print the dashboard URL without opening a browser
    pub no_open: bool,
}

/// How long the API has to come up, in milliseconds.
pub const API_DEADLINE_MS: u64 = 15_000;

/// How long to wait between two attempts to connect, in milliseconds.
pub const API_POLL_MS: u64 = 300;

/// The host that a browser reaches a bind address at. Wildcard binds are no
/// connectable addresses.
pub open spec fn host_of(bind: Seq<char>) -> Seq<char> {
    if bind == "0.0.0.0"@ || bind == "::"@ || bind == "[::]"@ {
        "localhost"@
    } else {
        bind
    }
}

/// The host that a browser reaches a bind address at.
pub fn display_host(bind: &str) -> (host: String)
    ensures
        host@ == host_of(bind@),
{
    if text::same(bind, "0.0.0.0") || text::same(bind, "::") || text::same(bind, "[::]") {
        "localhost".to_owned()
    } else {
        bind.to_owned()
    }
}

/// The URL of the dashboard.
pub open spec fn url_of(bind: Seq<char>, port: u16) -> Seq<char> {
    "http://"@ + host_of(bind) + ":"@ + text::decimal(port as nat)
}

/// The URL of the dashboard.
pub fn dashboard_url(bind: &str, port: u16) -> (url: String)
    ensures
        url@ == url_of(bind@, port),
{
    let mut url = "http://".to_owned();
    url.push_str(display_host(bind).as_str());
    url.push_str(":");
    url.push_str(text::show(port as u64).as_str());
    url
}

/// What to do after an attempt to connect.
#[derive(Debug, Clone, Copy, PartialEq, Eq, Structural)]
pub enum ApiWait {
    Up,
    GiveUp,
    TryAgain,
}

/// Decides what to do after an attempt to connect, so many milliseconds after
/// the first.
pub fn after_attempt(connected: bool, elapsed_ms: u64) -> (wait: ApiWait)
    ensures
        wait == (if connected {
            ApiWait::Up
        } else if elapsed_ms >= API_DEADLINE_MS {
            ApiWait::GiveUp
        } else {
            ApiWait::TryAgain
        }),
{
    if connected {
        ApiWait::Up
    } else if elapsed_ms >= API_DEADLINE_MS {
        ApiWait::GiveUp
    } else {
        ApiWait::TryAgain
    }
}

/// Says that the API did not come up.
pub fn unreachable_api(url: &str) -> (reason: String)
    ensures
        reason@ == "the daemon started but the API at "@ + url@ + " did not come up within 15s"@,
{
    let mut reason = "the daemon started but the API at ".to_owned();
    reason.push_str(url);
    reason.push_str(" did not come up within 15s");
    reason
}

// ---------------------------------------------------------------------------
// Laws
// ---------------------------------------------------------------------------

/// An address that means every interface is opened on this machine, and any
/// other as it is.
pub proof fn law_every_interface_is_opened_locally(bind: Seq<char>, port: u16)
    ensures
        bind == "0.0.0.0"@ || bind == "::"@ || bind == "[::]"@ ==> host_of(bind) == "localhost"@,
        bind != "0.0.0.0"@ && bind != "::"@ && bind != "[::]"@ ==> host_of(bind) == bind,
        text::begins(url_of(bind, port), "http://"@ + host_of(bind)),
        text::ends(url_of(bind, port), ":"@ + text::decimal(port as nat)),
{
    let host = "http://"@ + host_of(bind);
    let number = text::decimal(port as nat);
    text::law_grouping_does_not_matter(host, ":"@, number);
    text::law_parts_occur(Seq::empty(), host, ":"@ + number);
    text::law_parts_occur(host, ":"@ + number, Seq::empty());
}

} // verus!
