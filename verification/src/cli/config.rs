//! `spacebot config`: global settings and the raw config file over the control
//! API.
use vstd::prelude::*;
use crate::cli::output;
use crate::cli::output::{LineModel, Report};
use crate::cli::request;
use crate::cli::request::{Method, Request, RequestModel};
use crate::json;
use crate::json::{Body, Json, JsonModel, Member};
use crate::text;

verus! {

broadcast use vstd::seq::group_seq_axioms;

/// The config commands.
#[derive(Debug)]
pub enum ConfigCommand {
    /// Show global settings
    Get,
    /// Update global settings from key=value pairs or a JSON file
    Put { pairs: Vec<String>, file: Option<String> },
    /// Raw config.toml access
    Raw(RawConfigCommand),
}

/// The commands on the raw config file.
#[derive(Debug)]
pub enum RawConfigCommand {
    /// Print the raw config.toml content
    Get,
    /// Replace config.toml (validated by the daemon before writing)
    Put { file: Option<String> },
}

// ---------------------------------------------------------------------------
// Values
// ---------------------------------------------------------------------------

/// The value that a text stands for, given what it is as JSON: the scalar that
/// it is, or the text.
pub open spec fn value_of(raw: Seq<char>, read: Result<JsonModel, Seq<char>>) -> JsonModel {
    match read {
        Ok(JsonModel::Null) => JsonModel::Null,
        Ok(JsonModel::Bool(flag)) => JsonModel::Bool(flag),
        Ok(JsonModel::Number(number)) => JsonModel::Number(number),
        Ok(JsonModel::Literal(written)) => JsonModel::Literal(written),
        _ => JsonModel::Text(raw),
    }
}

/// The value that a text stands for, given what it is as JSON.
pub fn value_from(raw: &str, read: Result<Json, String>) -> (value: Json)
    ensures
        value@ == value_of(
            raw@,
            match read {
                Ok(read) => Ok(read@),
                Err(cause) => Err(cause@),
            },
        ),
{
    match read {
        Ok(Json::Null) => Json::Null,
        Ok(Json::Bool(flag)) => Json::Bool(flag),
        Ok(Json::Number(number)) => Json::Number(number),
        Ok(Json::Literal(written)) => Json::Literal(written),
        _ => Json::Text(raw.to_owned()),
    }
}

/// Interprets a value of the command line: JSON booleans, numbers, and null
/// pass through typed; everything else is a text.
pub fn parse_scalar(raw: &str) -> (value: Json)
    ensures
        value@ == value_of(raw@, json::json_text(raw@)),
{
    value_from(raw, json::parse_json(raw))
}

// ---------------------------------------------------------------------------
// Paths
// ---------------------------------------------------------------------------

/// The members of a value that is an object; none of any other.
pub open spec fn members_in(value: JsonModel) -> Seq<(Seq<char>, JsonModel)> {
    match value {
        JsonModel::Object(members) => members,
        _ => Seq::empty(),
    }
}

/// The object under a name; an empty one where there is none.
pub open spec fn child_of(members: Seq<(Seq<char>, JsonModel)>, name: Seq<char>) -> Seq<(Seq<char>, JsonModel)> {
    members_in(JsonModel::Object(members).at(name))
}

/// Members with a value set at a path, which creates the objects on the way.
pub open spec fn with_path(members: Seq<(Seq<char>, JsonModel)>, path: Seq<Seq<char>>, value: JsonModel) -> Seq<
    (Seq<char>, JsonModel),
>
    decreases path.len(),
{
    if path.len() == 0 {
        members
    } else if path.len() == 1 {
        json::with_member(members, path[0], value)
    } else {
        json::with_member(
            members,
            path[0],
            JsonModel::Object(with_path(child_of(members, path[0]), path.subrange(1, path.len() as int), value)),
        )
    }
}

/// What stands at a path.
pub open spec fn at_path(value: JsonModel, path: Seq<Seq<char>>) -> JsonModel
    decreases path.len(),
{
    if path.len() == 0 {
        value
    } else {
        at_path(value.at(path[0]), path.subrange(1, path.len() as int))
    }
}

/// Whether a path has a part without a name.
pub open spec fn is_broken(path: Seq<Seq<char>>) -> bool {
    exists|i: int| 0 <= i < path.len() && (#[trigger] path[i]).len() == 0
}

fn take_child(members: &mut Vec<Member>, name: &str) -> (child: Vec<Member>)
    ensures
        json::member_models(child@) == child_of(json::member_models(old(members)@), name@),
        match json::member_at(json::member_models(old(members)@), name@) {
            Some(k) => json::member_models(final(members)@) == json::member_models(old(members)@).update(
                k,
                (name@, JsonModel::Null),
            ),
            None => final(members)@ == old(members)@,
        },
{
    let ghost before = members@;
    let ghost models = json::member_models(before);
    match json::find_member(members, name) {
        Some(at) => {
            let member = members.remove(at);
            members.insert(at, Member { name: name.to_owned(), value: Json::Null });
            assert(models[at as int] == (before[at as int].name@, before[at as int].value@));
            assert(json::member_models(members@) =~= models.update(at as int, (name@, JsonModel::Null)));
            match member.value {
                Json::Object(child) => {
                    proof {
                        json::object_model(child);
                    }
                    child
                },
                _ => {
                    let child: Vec<Member> = Vec::new();
                    assert(json::member_models(child@) =~= Seq::<(Seq<char>, JsonModel)>::empty());
                    child
                },
            }
        },
        None => {
            let child: Vec<Member> = Vec::new();
            assert(json::member_models(child@) =~= Seq::<(Seq<char>, JsonModel)>::empty());
            child
        },
    }
}

fn set_at(members: &mut Vec<Member>, parts: &Vec<String>, from: usize, value: Json)
    requires
        from < parts@.len(),
    ensures
        json::member_models(final(members)@) == with_path(
            json::member_models(old(members)@),
            text::texts(parts@).subrange(from as int, parts@.len() as int),
            value@,
        ),
    decreases parts@.len() - from,
{
    let ghost models = json::member_models(members@);
    let ghost path = text::texts(parts@).subrange(from as int, parts@.len() as int);
    assert(path[0] == parts@[from as int]@);
    let last: usize = parts.len() - 1;
    if from == last {
        json::set_member(members, parts[from].as_str(), value);
        return;
    }
    let name = parts[from].as_str();
    let mut child = take_child(members, name);
    let ghost emptied = json::member_models(members@);
    assert(path.subrange(1, path.len() as int) =~= text::texts(parts@).subrange(from + 1, parts@.len() as int));
    set_at(&mut child, parts, from + 1, value);
    proof {
        json::object_model(child);
        json::member_at_first(models, name@);
        json::member_at_first(emptied, name@);
        if let Some(k) = json::member_at(models, name@) {
            assert(emptied[k] == (name@, JsonModel::Null));
            assert forall|i: int| 0 <= i < k implies (#[trigger] emptied[i]).0 != name@ by {
                assert(emptied[i] == models[i]);
            }
            let j = json::member_at(emptied, name@)->0;
            if j < k {
                assert(emptied[j].0 != name@);
            }
            assert(json::member_at(emptied, name@) == Some(k));
            assert(emptied.update(k, (name@, Json::Object(child)@)) =~= models.update(
                k,
                (name@, Json::Object(child)@),
            ));
        }
    }
    json::set_member(members, name, Json::Object(child));
}

/// Assigns a value at a dotted key, creating intermediate objects.
pub fn set_path(body: &mut Body, key: &str, value: Json) -> (done: Result<(), String>)
    ensures
        match done {
            Ok(_) => !is_broken(text::split_on(key@, '.')) && final(body)@ == with_path(
                old(body)@,
                text::split_on(key@, '.'),
                value@,
            ),
            Err(reason) => is_broken(text::split_on(key@, '.')) && final(body)@ == old(body)@ && reason@
                == "invalid settings key '"@ + key@ + "'"@,
        },
{
    let parts = text::split(key, '.');
    let ghost path = text::split_on(key@, '.');
    let mut k: usize = 0;
    while k < parts.len()
        invariant
            path == text::texts(parts@),
            path == text::split_on(key@, '.'),
            k <= parts@.len(),
            body@ == old(body)@,
            forall|i: int| 0 <= i < k ==> (#[trigger] path[i]).len() > 0,
        decreases parts@.len() - k,
    {
        assert(path[k as int] == parts@[k as int]@);
        if parts[k].as_str().is_empty() {
            return Err(request::path_around("invalid settings key '", key, "'"));
        }
        k = k + 1;
    }
    assert(path.subrange(0, path.len() as int) =~= path);
    set_at(&mut body.members, &parts, 0, value);
    Ok(())
}

// ---------------------------------------------------------------------------
// Updates
// ---------------------------------------------------------------------------

/// The key and the value of a pair, where it has both.
pub open spec fn halves(pair: Seq<char>) -> Option<(Seq<char>, Seq<char>)> {
    match text::find_char(pair, '=') {
        Some(at) => Some((pair.take(at), pair.subrange(at + 1, pair.len() as int))),
        None => None,
    }
}

/// The update that pairs ask for, or what is wrong with the first bad one.
pub open spec fn update_of(pairs: Seq<Seq<char>>) -> Result<Seq<(Seq<char>, JsonModel)>, Seq<char>>
    decreases pairs.len(),
{
    if pairs.len() == 0 {
        Ok(json::no_members())
    } else {
        match update_of(pairs.drop_last()) {
            Err(reason) => Err(reason),
            Ok(body) => match halves(pairs.last()) {
                None => Err("expected key=value, got '"@ + pairs.last() + "'"@),
                Some((key, raw)) => if is_broken(text::split_on(key, '.')) {
                    Err("invalid settings key '"@ + key + "'"@)
                } else {
                    Ok(with_path(body, text::split_on(key, '.'), value_of(raw, json::json_text(raw))))
                },
            },
        }
    }
}

proof fn a_bad_pair_stays(pairs: Seq<Seq<char>>, k: int)
    requires
        0 <= k <= pairs.len(),
        update_of(pairs.take(k)) is Err,
    ensures
        update_of(pairs) == update_of(pairs.take(k)),
    decreases pairs.len(),
{
    if k == pairs.len() {
        assert(pairs.take(k) =~= pairs);
    } else {
        assert(pairs.drop_last().take(k) =~= pairs.take(k));
        a_bad_pair_stays(pairs.drop_last(), k);
    }
}

/// Builds the update that pairs ask for.
pub fn build_update(pairs: &Vec<String>) -> (update: Result<Body, String>)
    ensures
        (match update {
            Ok(body) => Ok(body@),
            Err(reason) => Err(reason@),
        }) == update_of(text::texts(pairs@)),
{
    let ghost all = text::texts(pairs@);
    let mut body = Body::new();
    let mut k: usize = 0;
    while k < pairs.len()
        invariant
            all == text::texts(pairs@),
            k <= pairs@.len(),
            update_of(all.take(k as int)) == Ok::<Seq<(Seq<char>, JsonModel)>, Seq<char>>(body@),
        decreases pairs@.len() - k,
    {
        let pair = pairs[k].as_str();
        proof {
            assert(all.take(k + 1).drop_last() =~= all.take(k as int));
            assert(all[k as int] == pairs@[k as int]@);
            assert(all.take(k + 1).last() == pair@);
            text::find_char_first(pair@, '=');
            if update_of(all.take(k + 1)) is Err {
                a_bad_pair_stays(all, k + 1);
            }
        }
        let chars = text::chars_of(pair);
        let len: usize = chars.len();
        assert(chars@.subrange(0, len as int) =~= pair@);
        match text::find_char_from(&chars, '=', 0) {
            None => {
                return Err(request::path_around("expected key=value, got '", pair, "'"));
            },
            Some(at) => {
                let key = text::string_between(&chars, 0, at);
                let raw = text::string_between(&chars, at + 1, len);
                assert(key@ =~= pair@.take(at as int));
                let value = parse_scalar(raw.as_str());
                if let Err(reason) = set_path(&mut body, key.as_str(), value) {
                    return Err(reason);
                }
            },
        }
        k = k + 1;
    }
    assert(all.take(k as int) =~= all);
    Ok(body)
}

// ---------------------------------------------------------------------------
// Requests
// ---------------------------------------------------------------------------

/// What a command brings besides its arguments: nothing, the text of an update
/// file, or the content of the raw config file.
#[derive(Debug)]
pub enum Brought {
    Nothing,
    Update(String),
    Content(String),
}

/// The content that was brought.
pub open spec fn brought_content(brought: Brought) -> Seq<char> {
    match brought {
        Brought::Content(content) => content@,
        _ => Seq::empty(),
    }
}

/// The request that sends an update, whatever it is.
pub open spec fn update_request(update: JsonModel) -> RequestModel {
    RequestModel { method: Method::Put, path: "settings"@, body: Some(update) }
}

/// The request that a command makes, or why it makes none.
pub open spec fn request_of(command: ConfigCommand, brought: Brought) -> Result<RequestModel, Seq<char>> {
    match command {
        ConfigCommand::Get => Ok(request::reads("settings"@)),
        ConfigCommand::Put { pairs, .. } => match brought {
            Brought::Update(update) => match json::parsed(update@, "failed to parse update file as JSON"@) {
                Ok(update) => Ok(update_request(update)),
                Err(reason) => Err(reason),
            },
            _ => match update_of(text::texts(pairs@)) {
                Ok(body) => Ok(request::sends(Method::Put, "settings"@, body)),
                Err(reason) => Err(reason),
            },
        },
        ConfigCommand::Raw(RawConfigCommand::Get) => Ok(request::reads("settings/raw"@)),
        ConfigCommand::Raw(RawConfigCommand::Put { .. }) => Ok(
            request::sends(
                Method::Put,
                "settings/raw"@,
                json::with_text(json::no_members(), "content"@, brought_content(brought)),
            ),
        ),
    }
}

/// Plans the request of an update.
pub fn plan_update(update: Json) -> (request: Request)
    ensures
        request@ == update_request(update@),
{
    Request { method: Method::Put, path: "settings".to_owned(), body: Some(update) }
}

/// Plans the request of a command.
pub fn plan(command: &ConfigCommand, brought: Brought) -> (plan: Result<Request, String>)
    ensures
        request::planned(plan) == request_of(*command, brought),
{
    match command {
        ConfigCommand::Get => Ok(Request::get("settings".to_owned())),
        ConfigCommand::Put { pairs, .. } => {
            if let Brought::Update(update) = brought {
                return match json::parse_or(update.as_str(), "failed to parse update file as JSON") {
                    Ok(update) => Ok(plan_update(update)),
                    Err(reason) => Err(reason),
                };
            }
            match build_update(pairs) {
                Ok(body) => Ok(Request::with(Method::Put, "settings".to_owned(), body)),
                Err(reason) => Err(reason),
            }
        },
        ConfigCommand::Raw(RawConfigCommand::Get) => Ok(Request::get("settings/raw".to_owned())),
        ConfigCommand::Raw(RawConfigCommand::Put { .. }) => {
            let content = match brought {
                Brought::Content(content) => content,
                _ => String::new(),
            };
            assert(content@ =~= brought_content(brought));
            let mut body = Body::new();
            body.text("content", content.as_str());
            Ok(Request::with(Method::Put, "settings/raw".to_owned(), body))
        },
    }
}

// ---------------------------------------------------------------------------
// What is printed
// ---------------------------------------------------------------------------

/// The settings of OpenCode workers.
#[derive(Debug)]
pub struct OpenCodeSettings {
    pub enabled: bool,
    pub path: String,
    pub max_servers: u64,
    pub server_startup_timeout_secs: u64,
    pub max_restart_retries: u64,
    pub edit: String,
    pub bash: String,
    pub webfetch: String,
}

/// The global settings.
#[derive(Debug)]
pub struct GlobalSettings {
    pub company_name: String,
    pub brave_search_key_set: bool,
    pub api_enabled: bool,
    pub api_bind: String,
    pub api_port: u16,
    pub worker_log_mode: String,
    pub ssh_enabled: bool,
    pub opencode: OpenCodeSettings,
}

/// What is printed of the settings of OpenCode workers.
pub open spec fn opencode_lines(opencode: OpenCodeSettings) -> Seq<LineModel> {
    seq![
        LineModel::Out("OpenCode:"@),
        LineModel::Out("  Enabled:             "@ + output::true_or_false(opencode.enabled)),
        LineModel::Out("  Path:                "@ + opencode.path@),
        LineModel::Out("  Max servers:         "@ + text::decimal(opencode.max_servers as nat)),
        LineModel::Out("  Startup timeout (s): "@ + text::decimal(opencode.server_startup_timeout_secs as nat)),
        LineModel::Out("  Max restart retries: "@ + text::decimal(opencode.max_restart_retries as nat)),
        LineModel::Out(
            "  Permissions:         edit="@ + opencode.edit@ + " bash="@ + opencode.bash@ + " webfetch="@
                + opencode.webfetch@,
        ),
    ]
}

/// What is printed of the global settings.
pub open spec fn settings_lines(settings: GlobalSettings) -> Seq<LineModel> {
    seq![
        LineModel::Out("Company name:     "@ + settings.company_name@),
        LineModel::Out(
            "Brave search key: "@ + (if settings.brave_search_key_set {
                "(set)"@
            } else {
                "(not set)"@
            }),
        ),
        LineModel::Out("API enabled:      "@ + output::true_or_false(settings.api_enabled)),
        LineModel::Out("API bind:         "@ + settings.api_bind@),
        LineModel::Out("API port:         "@ + text::decimal(settings.api_port as nat)),
        LineModel::Out("Worker log mode:  "@ + settings.worker_log_mode@),
        LineModel::Out("SSH enabled:      "@ + output::true_or_false(settings.ssh_enabled)),
    ] + opencode_lines(settings.opencode)
}

/// Prints the global settings.
pub fn print_settings(settings: &GlobalSettings) -> (report: Report)
    ensures
        report@ == settings_lines(*settings),
{
    let mut report = Report::new();
    report.field("Company name:     ", settings.company_name.as_str());
    report.field(
        "Brave search key: ",
        if settings.brave_search_key_set {
            "(set)"
        } else {
            "(not set)"
        },
    );
    report.field("API enabled:      ", output::true_false(settings.api_enabled));
    report.field("API bind:         ", settings.api_bind.as_str());
    report.field("API port:         ", text::show(settings.api_port as u64).as_str());
    report.field("Worker log mode:  ", settings.worker_log_mode.as_str());
    report.field("SSH enabled:      ", output::true_false(settings.ssh_enabled));
    let opencode = &settings.opencode;
    report.out("OpenCode:");
    report.field("  Enabled:             ", output::true_false(opencode.enabled));
    report.field("  Path:                ", opencode.path.as_str());
    report.field("  Max servers:         ", text::show(opencode.max_servers).as_str());
    report.field("  Startup timeout (s): ", text::show(opencode.server_startup_timeout_secs).as_str());
    report.field("  Max restart retries: ", text::show(opencode.max_restart_retries).as_str());
    let mut permissions = "  Permissions:         edit=".to_owned();
    permissions.push_str(opencode.edit.as_str());
    permissions.push_str(" bash=");
    permissions.push_str(opencode.bash.as_str());
    permissions.push_str(" webfetch=");
    permissions.push_str(opencode.webfetch.as_str());
    report.out(permissions.as_str());
    assert(report@ =~= settings_lines(*settings));
    report
}

// ---------------------------------------------------------------------------
// Laws
// ---------------------------------------------------------------------------

/// What was set at a path is what stands there.
pub proof fn law_a_set_path_is_read_back(
    members: Seq<(Seq<char>, JsonModel)>,
    path: Seq<Seq<char>>,
    value: JsonModel,
)
    requires
        path.len() > 0,
    ensures
        at_path(JsonModel::Object(with_path(members, path, value)), path) == value,
    decreases path.len(),
{
    let after = with_path(members, path, value);
    let rest = path.subrange(1, path.len() as int);
    if path.len() == 1 {
        json::law_a_set_member_is_found(members, path[0], value, path[0]);
        assert(at_path(value, rest) == value);
    } else {
        let child = with_path(child_of(members, path[0]), rest, value);
        json::law_a_set_member_is_found(members, path[0], JsonModel::Object(child), path[0]);
        law_a_set_path_is_read_back(child_of(members, path[0]), rest, value);
    }
}

/// Setting a path leaves alone what lies under another name.
pub proof fn law_a_set_path_leaves_the_rest(
    members: Seq<(Seq<char>, JsonModel)>,
    path: Seq<Seq<char>>,
    value: JsonModel,
    other: Seq<char>,
)
    requires
        path.len() > 0,
        other != path[0],
    ensures
        JsonModel::Object(with_path(members, path, value)).at(other) == JsonModel::Object(members).at(other),
{
    let rest = path.subrange(1, path.len() as int);
    if path.len() == 1 {
        json::law_a_set_member_is_found(members, path[0], value, other);
    } else {
        let child = with_path(child_of(members, path[0]), rest, value);
        json::law_a_set_member_is_found(members, path[0], JsonModel::Object(child), other);
    }
}

/// A value is read as a number, a flag or null where it is one, and as its own
/// text where it is anything else.
pub proof fn law_a_value_is_its_text_unless_it_is_simpler(raw: Seq<char>, read: Result<JsonModel, Seq<char>>)
    ensures
        read is Err ==> value_of(raw, read) == JsonModel::Text(raw),
        read is Ok && (read->Ok_0 is Null || read->Ok_0 is Bool || read->Ok_0 is Number || read->Ok_0 is Literal)
            ==> value_of(raw, read) == read->Ok_0,
        read is Ok && (read->Ok_0 is Text || read->Ok_0 is List || read->Ok_0 is Object) ==> value_of(raw, read)
            == JsonModel::Text(raw),
{
}

/// A pair is cut at its first equals sign: the key holds none, and the two
/// halves with the sign between them are the pair.
pub proof fn law_a_pair_is_cut_at_its_first_sign(pair: Seq<char>)
    ensures
        halves(pair) is Some <==> pair.contains('='),
        halves(pair) matches Some((key, raw)) ==> !key.contains('=') && pair == key.push('=') + raw,
{
    text::law_the_first_place_is_found(pair, '=');
    if let Some((key, raw)) = halves(pair) {
        let at = text::find_char(pair, '=')->0;
        assert(key.push('=') + raw =~= pair);
        if key.contains('=') {
            let k = choose|k: int| 0 <= k < key.len() && key[k] == '=';
            assert(pair[k] == '=');
        }
    }
}

/// A change of several settings is refused at the first pair that is none, and
/// else holds the last value of each key.
pub proof fn law_one_pair_refuses_them_all(pairs: Seq<Seq<char>>, pair: Seq<char>)
    ensures
        update_of(Seq::empty()) == Ok::<Seq<(Seq<char>, JsonModel)>, Seq<char>>(json::no_members()),
        update_of(pairs) is Err ==> update_of(pairs.push(pair)) == update_of(pairs),
        update_of(pairs) is Ok && !pair.contains('=') ==> update_of(pairs.push(pair)) is Err,
        update_of(pairs) is Ok && halves(pair) is Some ==> {
            let (key, raw) = halves(pair)->0;
            let path = text::split_on(key, '.');
            &&& is_broken(path) <==> update_of(pairs.push(pair)) is Err
            &&& !is_broken(path) ==> at_path(JsonModel::Object(update_of(pairs.push(pair))->Ok_0), path) == value_of(
                raw,
                json::json_text(raw),
            )
        },
{
    law_a_pair_is_cut_at_its_first_sign(pair);
    assert(pairs.push(pair).drop_last() =~= pairs);
    if update_of(pairs) is Ok && halves(pair) is Some {
        let (key, raw) = halves(pair)->0;
        let path = text::split_on(key, '.');
        text::split_on_nonempty(key, '.');
        if !is_broken(path) {
            law_a_set_path_is_read_back(update_of(pairs)->Ok_0, path, value_of(raw, json::json_text(raw)));
        }
    }
}

/// Reading the settings changes nothing, and what is put is put whole.
pub proof fn law_settings_are_read_and_put(command: ConfigCommand, brought: Brought)
    ensures
        command is Get ==> request_of(command, brought) == Ok::<RequestModel, Seq<char>>(request::reads("settings"@)),
        command is Put && request_of(command, brought) is Ok ==> request_of(command, brought)->Ok_0.method == Method::Put
            && request_of(command, brought)->Ok_0.path == "settings"@ && request_of(command, brought)->Ok_0.body is Some,
        command == ConfigCommand::Raw(RawConfigCommand::Get) ==> request_of(command, brought) == Ok::<
            RequestModel,
            Seq<char>,
        >(request::reads("settings/raw"@)),
        command matches ConfigCommand::Raw(RawConfigCommand::Put { .. }) ==> {
            &&& request_of(command, brought) is Ok
            &&& request_of(command, brought)->Ok_0.method == Method::Put
            &&& request_of(command, brought)->Ok_0.path == "settings/raw"@
            &&& request_of(command, brought)->Ok_0.body->0.at("content"@).as_text() == Some(brought_content(brought))
        },
{
    broadcast use json::member_after_set;

}

/// The settings are shown without the key that is set.
pub proof fn law_a_key_is_shown_only_as_set(settings: GlobalSettings)
    ensures
        settings_lines(settings).len() == 14,
        settings_lines(settings)[0] == LineModel::Out("Company name:     "@ + settings.company_name@),
        settings.brave_search_key_set ==> settings_lines(settings)[1] == LineModel::Out(
            "Brave search key: "@ + "(set)"@,
        ),
        !settings.brave_search_key_set ==> settings_lines(settings)[1] == LineModel::Out(
            "Brave search key: "@ + "(not set)"@,
        ),
        settings_lines(settings)[3] == LineModel::Out("API bind:         "@ + settings.api_bind@),
        settings_lines(settings)[4] == LineModel::Out("API port:         "@ + text::decimal(settings.api_port as nat)),
        settings_lines(settings)[5] == LineModel::Out("Worker log mode:  "@ + settings.worker_log_mode@),
        settings_lines(settings).subrange(7, 14) == opencode_lines(settings.opencode),
{
    assert(settings_lines(settings).subrange(7, 14) =~= opencode_lines(settings.opencode));
}

} // verus!
