//! The control API that commands talk to.
use vstd::prelude::*;
use crate::cli::Context;
use crate::json;
use crate::json::{Json, JsonModel};
use crate::llm::history::copy_opt;
use crate::paths;
use crate::text;

verus! {

broadcast use vstd::seq::group_seq_axioms;

/// Where the local daemon serves its API.
#[derive(Debug)]
pub struct ApiConfig {
    pub bind: String,
    pub port: u16,
    pub auth_token: Option<String>,
    pub instance_dir: String,
}

/// The control API of an instance.
///
/// A URL selects a remote instance; otherwise the base URL and token come from
/// the local config. A token that was passed goes before the configured one.
#[derive(Debug)]
pub struct ApiClient {
    pub base: String,
    pub token: Option<String>,
    /// Instance dir of the local daemon, when targeting it via config.
    /// Enables the daemon-down hint on connection failures.
    pub local_instance_dir: Option<String>,
}

/// What a client talks to.
pub struct ClientModel {
    pub base: Seq<char>,
    pub token: Option<Seq<char>>,
    pub local_instance_dir: Option<Seq<char>>,
}

impl View for ApiClient {
    type V = ClientModel;

    open spec fn view(&self) -> ClientModel {
        ClientModel {
            base: self.base@,
            token: text::opt_text(self.token),
            local_instance_dir: text::opt_text(self.local_instance_dir),
        }
    }
}

/// What a client talks to, from the options of the command line and the local
/// config.
pub open spec fn client_of(url: Option<Seq<char>>, token: Option<Seq<char>>, local: Option<ApiConfig>) -> ClientModel {
    match url {
        Some(url) => ClientModel { base: paths::without_slashes(url), token, local_instance_dir: None },
        None => ClientModel {
            base: "http://"@ + local->0.bind@ + ":"@ + text::decimal(local->0.port as nat),
            token: match token {
                Some(token) => Some(token),
                None => text::opt_text(local->0.auth_token),
            },
            local_instance_dir: Some(local->0.instance_dir@),
        },
    }
}

/// A path without the slashes it begins with.
pub open spec fn without_leading_slashes(path: Seq<char>) -> Seq<char>
    decreases path.len(),
{
    if path.len() > 0 && path[0] == '/' {
        without_leading_slashes(path.subrange(1, path.len() as int))
    } else {
        path
    }
}

fn drop_trailing_slashes(url: &str) -> (base: String)
    ensures
        base@ == paths::without_slashes(url@),
{
    let chars = text::chars_of(url);
    let mut end: usize = chars.len();
    assert(chars@.take(end as int) =~= url@);
    while end > 0 && chars[end - 1] == '/'
        invariant
            chars@ == url@,
            end <= chars@.len(),
            paths::without_slashes(chars@.take(end as int)) == paths::without_slashes(url@),
        decreases end,
    {
        assert(chars@.take(end as int).drop_last() =~= chars@.take(end - 1));
        end = end - 1;
    }
    let base = text::string_between(&chars, 0, end);
    assert(base@ =~= chars@.take(end as int));
    base
}

fn drop_leading_slashes(path: &str) -> (rest: String)
    ensures
        rest@ == without_leading_slashes(path@),
{
    let chars = text::chars_of(path);
    let len: usize = chars.len();
    let mut from: usize = 0;
    assert(chars@.subrange(0, len as int) =~= path@);
    while from < len && chars[from] == '/'
        invariant
            chars@ == path@,
            len == chars@.len(),
            from <= len,
            without_leading_slashes(chars@.subrange(from as int, len as int)) == without_leading_slashes(path@),
        decreases len - from,
    {
        let ghost rest = chars@.subrange(from as int, len as int);
        assert(rest.subrange(1, rest.len() as int) =~= chars@.subrange(from + 1, len as int));
        from = from + 1;
    }
    text::string_between(&chars, from, len)
}

impl ApiClient {
    /// The client that the options of the command line ask for. The local
    /// config is needed where they name no instance.
    pub fn from_context(ctx: &Context, local: &Option<ApiConfig>) -> (client: ApiClient)
        requires
            ctx.url is Some || local is Some,
        ensures
            client@ == client_of(text::opt_text(ctx.url), text::opt_text(ctx.token), *local),
    {
        if let Some(url) = &ctx.url {
            return ApiClient {
                base: drop_trailing_slashes(url.as_str()),
                token: copy_opt(&ctx.token),
                local_instance_dir: None,
            };
        }
        let config = local.as_ref().unwrap();
        let mut base = "http://".to_owned();
        base.push_str(config.bind.as_str());
        base.push_str(":");
        base.push_str(text::show(config.port as u64).as_str());
        let token = match &ctx.token {
            Some(token) => Some(token.clone()),
            None => copy_opt(&config.auth_token),
        };
        ApiClient { base, token, local_instance_dir: Some(config.instance_dir.clone()) }
    }

    /// The URL of a path of the API.
    pub fn url_for(&self, path: &str) -> (url: String)
        ensures
            url@ == self@.base + "/api/"@ + without_leading_slashes(path@),
    {
        let mut url = self.base.clone();
        url.push_str("/api/");
        url.push_str(drop_leading_slashes(path).as_str());
        url
    }
}

/// What the bytes of an answer hold; null where there are none, nothing where
/// they are no JSON.
pub open spec fn body_of(bytes: Seq<u8>) -> Option<JsonModel> {
    if bytes.len() == 0 {
        Some(JsonModel::Null)
    } else {
        json::json_body(bytes)
    }
}

/// What a command gets of an answer: its value where it succeeded, and the
/// reason that the answer gives where it did not.
pub open spec fn answer_of(status: Seq<char>, success: bool, body: Option<JsonModel>) -> Result<JsonModel, Seq<char>> {
    match body {
        None => Err("API returned a non-JSON response ("@ + status + ")"@),
        Some(value) => if success {
            Ok(value)
        } else {
            Err(value.text_or("error"@, "API request failed ("@ + status + ")"@))
        },
    }
}

fn with_status(before: &str, status: &str) -> (reason: String)
    ensures
        reason@ == before@ + status@ + ")"@,
{
    let mut reason = before.to_owned();
    reason.push_str(status);
    reason.push_str(")");
    reason
}

/// Maps an answer to its value, or to the reason for its failure. `status` is
/// its status line, `body` what its bytes hold.
pub fn settle_body(status: &str, success: bool, body: Option<Json>) -> (answer: Result<Json, String>)
    ensures
        (match answer {
            Ok(value) => Ok(value@),
            Err(reason) => Err(reason@),
        }) == answer_of(
            status@,
            success,
            match body {
                Some(value) => Some(value@),
                None => None,
            },
        ),
{
    match body {
        None => Err(with_status("API returned a non-JSON response (", status)),
        Some(value) => {
            if success {
                return Ok(value);
            }
            let fallback = with_status("API request failed (", status);
            Err(value.text_or("error", fallback.as_str()))
        },
    }
}

/// Maps the bytes of an answer to their value, or to the reason for its
/// failure. `status` is its status line.
pub fn settle(status: &str, success: bool, bytes: &Vec<u8>) -> (answer: Result<Json, String>)
    ensures
        (match answer {
            Ok(value) => Ok(value@),
            Err(reason) => Err(reason@),
        }) == answer_of(status@, success, body_of(bytes@)),
{
    if bytes.len() == 0 {
        return settle_body(status, success, Some(Json::Null));
    }
    settle_body(status, success, json::read_json(bytes))
}

/// Says that a stream was refused.
pub fn stream_refusal(status: &str) -> (reason: String)
    ensures
        reason@ == "API request failed ("@ + status@ + ")"@,
{
    with_status("API request failed (", status)
}

/// What to say of a connection that failed.
pub open spec fn hint_for(client: ClientModel, running: bool) -> Seq<char> {
    match client.local_instance_dir {
        Some(_) => if running {
            "the daemon is running but the API at "@ + client.base
                + " is unreachable — check [api] bind/port in config.toml"@
        } else {
            "spacebot is not running — start it with `spacebot start`"@
        },
        None => "cannot reach the spacebot API at "@ + client.base + ""@,
    }
}

impl ApiClient {
    /// Turns a connection failure into an actionable message. `running` is
    /// whether the local daemon answers on its socket.
    pub fn connect_hint(&self, running: bool) -> (hint: String)
        ensures
            hint@ == hint_for(self@, running),
    {
        match &self.local_instance_dir {
            Some(_) => if running {
                let mut hint = "the daemon is running but the API at ".to_owned();
                hint.push_str(self.base.as_str());
                hint.push_str(" is unreachable — check [api] bind/port in config.toml");
                hint
            } else {
                "spacebot is not running — start it with `spacebot start`".to_owned()
            },
            None => {
                let mut hint = "cannot reach the spacebot API at ".to_owned();
                hint.push_str(self.base.as_str());
                hint.push_str("");
                hint
            },
        }
    }
}

// ---------------------------------------------------------------------------
// Laws
// ---------------------------------------------------------------------------

proof fn no_slash_is_left(path: Seq<char>)
    ensures
        paths::without_slashes(path).len() == 0 || paths::without_slashes(path).last() != '/',
    decreases path.len(),
{
    if path.len() > 0 && path.last() == '/' {
        no_slash_is_left(path.drop_last());
    }
}

/// However a remote instance is written, its URL ends in no slash and no
/// config is read for it.
pub proof fn law_remote_targets_ignore_the_config(
    url: Seq<char>,
    token: Option<Seq<char>>,
    local: Option<ApiConfig>,
    other: Option<ApiConfig>,
)
    ensures
        client_of(Some(url), token, local) == client_of(Some(url), token, other),
        client_of(Some(url), token, local).base.len() == 0 || client_of(Some(url), token, local).base.last() != '/',
        client_of(Some(url), token, local).token == token,
{
    no_slash_is_left(url);
}

/// A token that was passed goes before the configured one.
pub proof fn law_a_passed_token_wins(url: Option<Seq<char>>, token: Seq<char>, local: Option<ApiConfig>)
    ensures
        client_of(url, Some(token), local).token == Some(token),
{
}

/// A local client speaks to the address that is configured, with the configured
/// token unless one is passed.
pub proof fn law_a_local_client_goes_by_the_config(token: Option<Seq<char>>, local: ApiConfig)
    ensures
        ({
            let client = client_of(None, token, Some(local));
            &&& text::begins(client.base, "http://"@)
            &&& text::ends(client.base, local.bind@ + ":"@ + text::decimal(local.port as nat))
            &&& token is None ==> client.token == text::opt_text(local.auth_token)
            &&& token is Some ==> client.token == token
            &&& client.local_instance_dir == Some(local.instance_dir@)
        }),
{
    let at = local.bind@ + ":"@ + text::decimal(local.port as nat);
    text::law_grouping_does_not_matter("http://"@, local.bind@, ":"@);
    text::law_grouping_does_not_matter("http://"@, local.bind@ + ":"@, text::decimal(local.port as nat));
    text::law_parts_occur(Seq::empty(), "http://"@, at);
    text::law_parts_occur("http://"@, at, Seq::empty());
}

/// Leading slashes are taken off a path, and nothing else.
pub proof fn law_only_leading_slashes_are_taken_off(path: Seq<char>)
    ensures
        text::ends(path, without_leading_slashes(path)),
        without_leading_slashes(path).len() > 0 ==> without_leading_slashes(path)[0] != '/',
        forall|k: int| 0 <= k < path.len() - without_leading_slashes(path).len() ==> #[trigger] path[k] == '/',
    decreases path.len(),
{
    if path.len() > 0 && path[0] == '/' {
        let rest = path.subrange(1, path.len() as int);
        law_only_leading_slashes_are_taken_off(rest);
        let left = without_leading_slashes(rest);
        assert(path.subrange(path.len() - left.len(), path.len() as int) =~= rest.subrange(
            rest.len() - left.len(),
            rest.len() as int,
        ));
        assert forall|k: int| 0 <= k < path.len() - left.len() implies #[trigger] path[k] == '/' by {
            if k > 0 {
                assert(path[k] == rest[k - 1]);
            }
        }
    } else {
        assert(path.subrange(0, path.len() as int) =~= path);
    }
}

/// An answer is its value where the request succeeded; a failure says what the
/// value says of it, or else its status, and what is no JSON is a failure.
pub proof fn law_a_failed_request_says_why(status: Seq<char>, success: bool, body: Option<JsonModel>)
    ensures
        answer_of(status, success, body) is Ok <==> success && body is Some,
        success && body is Some ==> answer_of(status, success, body)->Ok_0 == body->0,
        body is None ==> text::occurs_in(answer_of(status, success, body)->Err_0, status),
        !success && body is Some && body->0.at("error"@) is Text ==> answer_of(status, success, body)->Err_0
            == body->0.at("error"@)->Text_0,
        !success && body is Some && !(body->0.at("error"@) is Text) ==> text::occurs_in(
            answer_of(status, success, body)->Err_0,
            status,
        ),
{
    text::law_parts_occur("API returned a non-JSON response ("@, status, ")"@);
    text::law_parts_occur("API request failed ("@, status, ")"@);
}

/// An empty body is null, and any other is read.
pub proof fn law_an_empty_body_is_null(bytes: Seq<u8>)
    ensures
        bytes.len() == 0 ==> body_of(bytes) == Some(JsonModel::Null),
        bytes.len() > 0 ==> body_of(bytes) == json::json_body(bytes),
{
}

/// A hint names the address that could not be reached, unless the daemon is not
/// running.
pub proof fn law_a_hint_names_the_address(client: ClientModel, running: bool)
    ensures
        client.local_instance_dir is None || running ==> text::occurs_in(hint_for(client, running), client.base),
        client.local_instance_dir is Some && !running ==> text::occurs_in(hint_for(client, running), "not running"@),
{
    reveal_strlit("spacebot is not running — start it with `spacebot start`");
    reveal_strlit("not running");
    text::law_parts_occur(
        "the daemon is running but the API at "@,
        client.base,
        " is unreachable — check [api] bind/port in config.toml"@,
    );
    text::law_parts_occur("cannot reach the spacebot API at "@, client.base, ""@);
    let stopped = "spacebot is not running — start it with `spacebot start`"@;
    assert(stopped.subrange(12, 23) =~= "not running"@);
    assert(text::occurs_at(stopped, "not running"@, 12));
}

} // verus!
