//! `spacebot secrets`: the secret store over the control API.
use vstd::prelude::*;
use crate::cli::output;
use crate::cli::output::{LineModel, Report};
use crate::cli::request;
use crate::cli::request::{Method, Request, RequestModel};
use crate::json;
use crate::json::{Body, Json, JsonModel};
use crate::text;
use crate::time;
use crate::time::Pattern;

verus! {

broadcast use vstd::seq::group_seq_axioms;

/// The secrets commands.
#[derive(Debug)]
pub enum SecretsCommand {
    /// Show store state and secret counts
    Status,
    /// List all secrets (name + category)
    List,
    /// Add or update a secret
    Put { name: String, category: Option<String>, stdin: bool },
    /// Delete a secret
    Delete { name: String },
    /// Show secret metadata and config references
    Info { name: String },
    /// Auto-migrate plaintext keys from config.toml
    Migrate,
    /// Enable encryption (generate master key, encrypt all secrets)
    Encrypt,
    /// Unlock encrypted store
    Unlock { stdin: bool },
    /// Lock encrypted store (clear key from memory)
    Lock,
    /// Rotate master key (encrypted mode only)
    Rotate,
    /// Export all secrets to a backup file
    Export { output: String },
    /// Import secrets from a backup file
    Import { input: String, overwrite: bool },
}

/// What a command brings besides its arguments: nothing, a text that was
/// entered, or the text of a backup file.
#[derive(Debug)]
pub enum Entered {
    Nothing,
    Text(String),
    Backup(String),
}

/// What was entered.
pub open spec fn entered_text(entered: Entered) -> Seq<char> {
    match entered {
        Entered::Text(text) => text@,
        _ => Seq::empty(),
    }
}

/// The value that is saved: what was piped in, without the whitespace at its
/// end, or what was typed.
pub open spec fn value_of(stdin: bool, entered: Entered) -> Seq<char> {
    if stdin {
        text::trimmed_end(entered_text(entered))
    } else {
        entered_text(entered)
    }
}

/// The key that unlocks: what was piped in, without the whitespace around it,
/// or what was typed.
pub open spec fn key_of(stdin: bool, entered: Entered) -> Seq<char> {
    if stdin {
        text::trimmed(entered_text(entered))
    } else {
        entered_text(entered)
    }
}

/// Whether a backup can be imported: only an object, or nothing at all, takes
/// in the word on overwriting.
pub open spec fn importable(backup: JsonModel) -> bool {
    backup is Object || backup is Null
}

/// The members of a backup; none where it is no object.
pub open spec fn backup_members(backup: JsonModel) -> Seq<(Seq<char>, JsonModel)> {
    match backup {
        JsonModel::Object(members) => members,
        _ => Seq::empty(),
    }
}

/// The request that imports a backup.
pub open spec fn import_request(backup: JsonModel, overwrite: bool) -> RequestModel {
    request::sends(
        Method::Post,
        "secrets/import"@,
        json::with_flag(backup_members(backup), "overwrite"@, overwrite),
    )
}

/// The backup that was brought, or why it cannot be read.
pub open spec fn backup_of(entered: Entered) -> Result<JsonModel, Seq<char>> {
    match entered {
        Entered::Backup(backup) => json::parsed(backup@, "failed to parse backup file as JSON"@),
        _ => Ok(JsonModel::Null),
    }
}

/// The request that a command makes, or why it makes none; nothing at all for
/// a backup that cannot be imported.
pub open spec fn request_of(command: SecretsCommand, entered: Entered) -> Result<Option<RequestModel>, Seq<char>> {
    match command {
        SecretsCommand::Status => Ok(Some(request::reads("secrets/status"@))),
        SecretsCommand::List => Ok(Some(request::reads("secrets"@))),
        SecretsCommand::Put { name, category, stdin } => if value_of(stdin, entered).len() == 0 {
            Err("secret value cannot be empty"@)
        } else {
            Ok(
                Some(
                    request::sends(
                        Method::Put,
                        "secrets/"@ + request::in_query(name@) + ""@,
                        json::with_opt_text(
                            json::with_text(json::no_members(), "value"@, value_of(stdin, entered)),
                            "category"@,
                            text::opt_text(category),
                        ),
                    ),
                ),
            )
        },
        SecretsCommand::Delete { name } => Ok(Some(request::deletes("secrets/"@ + request::in_query(name@) + ""@))),
        SecretsCommand::Info { name } => Ok(Some(request::reads("secrets/"@ + request::in_query(name@) + "/info"@))),
        SecretsCommand::Migrate => Ok(Some(request::sends(Method::Post, "secrets/migrate"@, json::no_members()))),
        SecretsCommand::Encrypt => Ok(Some(request::sends(Method::Post, "secrets/encrypt"@, json::no_members()))),
        SecretsCommand::Unlock { stdin } => Ok(
            Some(
                request::sends(
                    Method::Post,
                    "secrets/unlock"@,
                    json::with_text(json::no_members(), "master_key"@, key_of(stdin, entered)),
                ),
            ),
        ),
        SecretsCommand::Lock => Ok(Some(request::sends(Method::Post, "secrets/lock"@, json::no_members()))),
        SecretsCommand::Rotate => Ok(Some(request::sends(Method::Post, "secrets/rotate"@, json::no_members()))),
        SecretsCommand::Export { .. } => Ok(Some(request::sends(Method::Post, "secrets/export"@, json::no_members()))),
        SecretsCommand::Import { overwrite, .. } => match backup_of(entered) {
            Err(reason) => Err(reason),
            Ok(backup) => if importable(backup) {
                Ok(Some(import_request(backup, overwrite)))
            } else {
                Ok(None)
            },
        },
    }
}

fn text_entered(entered: Entered) -> (text: String)
    ensures
        text@ == entered_text(entered),
{
    match entered {
        Entered::Text(text) => text,
        _ => String::new(),
    }
}

/// Plans the request that imports a backup.
pub fn plan_import(backup: Json, overwrite: bool) -> (request: Request)
    requires
        importable(backup@),
    ensures
        request@ == import_request(backup@, overwrite),
{
    let mut body = match backup {
        Json::Object(members) => {
            proof {
                json::object_model(members);
            }
            Body { members }
        },
        _ => Body::new(),
    };
    assert(body@ =~= backup_members(backup@));
    body.flag("overwrite", overwrite);
    Request::with(Method::Post, "secrets/import".to_owned(), body)
}

/// Plans the request of a command. There is none for a backup that is JSON but
/// cannot be imported.
pub fn plan(command: &SecretsCommand, entered: Entered) -> (plan: Result<Option<Request>, String>)
    ensures
        (match plan {
            Ok(Some(request)) => Ok(Some(request@)),
            Ok(None) => Ok(None),
            Err(reason) => Err(reason@),
        }) == request_of(*command, entered),
{
    match command {
        SecretsCommand::Status => Ok(Some(Request::get("secrets/status".to_owned()))),
        SecretsCommand::List => Ok(Some(Request::get("secrets".to_owned()))),
        SecretsCommand::Put { name, category, stdin } => {
            let mut value = text_entered(entered);
            if *stdin {
                value = text::trim_end(value.as_str());
            }
            if value.as_str().is_empty() {
                return Err("secret value cannot be empty".to_owned());
            }
            let mut body = Body::new();
            body.text("value", value.as_str());
            body.opt_text("category", category);
            Ok(Some(Request::with(Method::Put, request::path_with_text("secrets/", name.as_str(), ""), body)))
        },
        SecretsCommand::Delete { name } => Ok(
            Some(Request::delete(request::path_with_text("secrets/", name.as_str(), ""))),
        ),
        SecretsCommand::Info { name } => Ok(
            Some(Request::get(request::path_with_text("secrets/", name.as_str(), "/info"))),
        ),
        SecretsCommand::Migrate => Ok(Some(Request::bare(Method::Post, "secrets/migrate"))),
        SecretsCommand::Encrypt => Ok(Some(Request::bare(Method::Post, "secrets/encrypt"))),
        SecretsCommand::Unlock { stdin } => {
            let mut key = text_entered(entered);
            if *stdin {
                key = text::trim(key.as_str());
            }
            let mut body = Body::new();
            body.text("master_key", key.as_str());
            Ok(Some(Request::with(Method::Post, "secrets/unlock".to_owned(), body)))
        },
        SecretsCommand::Lock => Ok(Some(Request::bare(Method::Post, "secrets/lock"))),
        SecretsCommand::Rotate => Ok(Some(Request::bare(Method::Post, "secrets/rotate"))),
        SecretsCommand::Export { .. } => Ok(Some(Request::bare(Method::Post, "secrets/export"))),
        SecretsCommand::Import { overwrite, .. } => {
            let backup = match entered {
                Entered::Backup(backup) => match json::parse_or(
                    backup.as_str(),
                    "failed to parse backup file as JSON",
                ) {
                    Ok(backup) => backup,
                    Err(reason) => return Err(reason),
                },
                _ => Json::Null,
            };
            match backup {
                Json::Object(members) => Ok(Some(plan_import(Json::Object(members), *overwrite))),
                Json::Null => Ok(Some(plan_import(Json::Null, *overwrite))),
                _ => Ok(None),
            }
        },
    }
}

/// Whether a rotation was confirmed.
pub fn confirmed(answer: &str) -> (yes: bool)
    ensures
        yes == text::same_ignoring_case(text::trimmed(answer@), "y"@),
{
    text::eq_ignore_ascii_case(text::trim(answer).as_str(), "y")
}

// ---------------------------------------------------------------------------
// What is printed
// ---------------------------------------------------------------------------

/// What is printed of the store's state.
pub open spec fn status_lines(response: JsonModel) -> Seq<LineModel> {
    seq![
        LineModel::Out("State:          "@ + response.text_or("state"@, "unknown"@)),
        LineModel::Out("Encrypted:      "@ + output::true_or_false(response.is_set("encrypted"@))),
        LineModel::Out("Total secrets:  "@ + text::decimal(response.count("secret_count"@))),
        LineModel::Out("  System:       "@ + text::decimal(response.count("system_count"@))),
        LineModel::Out("  Tool:         "@ + text::decimal(response.count("tool_count"@))),
    ] + (if response.is_set("platform_managed"@) {
        seq![LineModel::Out("  Managed by:   platform"@)]
    } else {
        Seq::empty()
    })
}

/// Prints the store's state.
pub fn print_status(response: &Json) -> (report: Report)
    ensures
        report@ == status_lines(response@),
{
    let mut report = Report::new();
    report.field("State:          ", response.text_or("state", "unknown").as_str());
    report.field("Encrypted:      ", output::true_false(response.is_set("encrypted")));
    report.field("Total secrets:  ", text::show(response.count("secret_count")).as_str());
    report.field("  System:       ", text::show(response.count("system_count")).as_str());
    report.field("  Tool:         ", text::show(response.count("tool_count")).as_str());
    if response.is_set("platform_managed") {
        report.out("  Managed by:   platform");
    }
    assert(report@ =~= status_lines(response@));
    report
}

/// A secret as the control API lists it.
#[derive(Debug)]
pub struct SecretEntry {
    pub name: String,
    pub category: String,
    pub updated_at: i64,
}

/// The row of a secret.
pub open spec fn secret_cells(secret: SecretEntry) -> Seq<Seq<char>> {
    seq![secret.name@, secret.category@, time::written(secret.updated_at as int, Pattern::Minute)]
}

/// The headings of a listing.
pub open spec fn list_headers() -> Seq<Seq<char>> {
    seq!["NAME"@, "CATEGORY"@, "UPDATED"@]
}

/// What is printed of a listing.
pub open spec fn list_lines(secrets: Seq<SecretEntry>) -> Seq<LineModel> {
    if secrets.len() == 0 {
        seq![LineModel::Note("No secrets stored."@)]
    } else {
        output::out_lines(
            output::table_lines(list_headers(), secrets.map_values(|secret: SecretEntry| secret_cells(secret))),
        )
    }
}

/// Prints a listing.
pub fn print_list(secrets: &Vec<SecretEntry>) -> (report: Report)
    requires
        forall|i: int| 0 <= i < secrets@.len() ==> time::in_calendar((#[trigger] secrets@[i]).updated_at as int),
    ensures
        report@ == list_lines(secrets@),
{
    if secrets.len() == 0 {
        return output::message("No secrets stored.");
    }
    let ghost all = secrets@.map_values(|secret: SecretEntry| secret_cells(secret));
    let mut rows: Vec<Vec<String>> = Vec::new();
    let mut k: usize = 0;
    assert(output::row_texts(rows@) =~= all.take(0));
    while k < secrets.len()
        invariant
            all == secrets@.map_values(|secret: SecretEntry| secret_cells(secret)),
            k <= secrets@.len(),
            output::row_texts(rows@) == all.take(k as int),
            forall|i: int| 0 <= i < secrets@.len() ==> time::in_calendar((#[trigger] secrets@[i]).updated_at as int),
        decreases secrets@.len() - k,
    {
        let ghost before = rows@;
        let secret = &secrets[k];
        let row = vec![
            secret.name.clone(),
            secret.category.clone(),
            time::write_utc(secret.updated_at, Pattern::Minute),
        ];
        assert(text::texts(row@) =~= secret_cells(secrets@[k as int]));
        rows.push(row);
        assert(output::row_texts(rows@) =~= output::row_texts(before).push(text::texts(row@)));
        assert(all.take(k + 1) =~= all.take(k as int).push(all[k as int]));
        k = k + 1;
    }
    assert(all.take(k as int) =~= all);
    let names = vec!["NAME", "CATEGORY", "UPDATED"];
    assert(text::slices(names@) =~= list_headers());
    let mut report = Report::new();
    report.grid(&names, &rows);
    assert(report@ =~= list_lines(secrets@));
    report
}

/// What is printed of a secret that was saved.
pub open spec fn saved_lines(name: Seq<char>, category: Seq<char>, reload_required: bool) -> Seq<LineModel> {
    let saved = LineModel::Note("Secret "@ + name + " saved ("@ + category + ")."@);
    if reload_required {
        seq![
            saved,
            LineModel::Note("Note: Reload config or restart for the new value to take effect."@),
        ]
    } else {
        seq![saved]
    }
}

/// Prints that a secret was saved.
pub fn print_saved(name: &str, category: &str, reload_required: bool) -> (report: Report)
    ensures
        report@ == saved_lines(name@, category@, reload_required),
{
    let mut line = "Secret ".to_owned();
    line.push_str(name);
    line.push_str(" saved (");
    line.push_str(category);
    line.push_str(").");
    let mut report = output::message(line.as_str());
    if reload_required {
        report.err("Note: Reload config or restart for the new value to take effect.");
    }
    assert(report@ =~= saved_lines(name@, category@, reload_required));
    report
}

/// What is printed of a secret that was deleted.
pub open spec fn deleted_lines(name: Seq<char>, warning: Option<Seq<char>>) -> Seq<LineModel> {
    let deleted = LineModel::Note("Deleted "@ + name + "."@);
    match warning {
        Some(warning) => seq![deleted, LineModel::Note("Warning: "@ + warning + ""@)],
        None => seq![deleted],
    }
}

/// Prints that a secret was deleted.
pub fn print_deleted(name: &str, warning: &Option<String>) -> (report: Report)
    ensures
        report@ == deleted_lines(name@, text::opt_text(*warning)),
{
    let mut report = output::message_about("Deleted ", name, ".");
    if let Some(warning) = warning {
        report.err_about("Warning: ", warning.as_str(), "");
    }
    assert(report@ =~= deleted_lines(name@, text::opt_text(*warning)));
    report
}

/// Prints what is known of a secret.
pub fn print_info(name: &str, category: &str, created_at: i64, updated_at: i64) -> (report: Report)
    requires
        time::in_calendar(created_at as int),
        time::in_calendar(updated_at as int),
    ensures
        report@ == seq![
            LineModel::Out("Name:     "@ + name@),
            LineModel::Out("Category: "@ + category@),
            LineModel::Out("Created:  "@ + time::written(created_at as int, Pattern::Second)),
            LineModel::Out("Updated:  "@ + time::written(updated_at as int, Pattern::Second)),
        ],
{
    let mut report = Report::new();
    report.field("Name:     ", name);
    report.field("Category: ", category);
    report.field("Created:  ", time::write_utc(created_at, Pattern::Second).as_str());
    report.field("Updated:  ", time::write_utc(updated_at, Pattern::Second).as_str());
    assert(report@ =~= seq![
        LineModel::Out("Name:     "@ + name@),
        LineModel::Out("Category: "@ + category@),
        LineModel::Out("Created:  "@ + time::written(created_at as int, Pattern::Second)),
        LineModel::Out("Updated:  "@ + time::written(updated_at as int, Pattern::Second)),
    ]);
    report
}

/// A key that was moved from the configuration into the store.
#[derive(Debug)]
pub struct MigratedKey {
    pub config_key: String,
    pub secret_name: String,
    pub category: String,
}

/// The line of a key that was moved.
pub open spec fn migrated_line(item: MigratedKey) -> LineModel {
    LineModel::Note("  "@ + item.config_key@ + " -> "@ + item.secret_name@ + " ("@ + item.category@ + ")"@)
}

/// Prints which keys were moved into the store.
pub fn print_migrated(message: &str, migrated: &Vec<MigratedKey>) -> (report: Report)
    ensures
        report@ == seq![LineModel::Note(message@)] + migrated@.map_values(|item: MigratedKey| migrated_line(item)),
{
    let mut report = output::message(message);
    let ghost start = report@;
    let ghost all = migrated@.map_values(|item: MigratedKey| migrated_line(item));
    let mut k: usize = 0;
    assert(report@ =~= start + all.take(0));
    while k < migrated.len()
        invariant
            all == migrated@.map_values(|item: MigratedKey| migrated_line(item)),
            k <= migrated@.len(),
            report@ == start + all.take(k as int),
        decreases migrated@.len() - k,
    {
        let item = &migrated[k];
        let mut line = "  ".to_owned();
        line.push_str(item.config_key.as_str());
        line.push_str(" -> ");
        line.push_str(item.secret_name.as_str());
        line.push_str(" (");
        line.push_str(item.category.as_str());
        line.push_str(")");
        report.err(line.as_str());
        assert(report@ =~= start + all.take(k + 1));
        k = k + 1;
    }
    assert(all.take(k as int) =~= all);
    report
}

/// What is printed of an encryption that was enabled.
pub open spec fn encrypted_lines(master_key: Seq<char>) -> Seq<LineModel> {
    seq![
        LineModel::Note(""@),
        LineModel::Note("Encryption enabled."@),
        LineModel::Note(""@),
        LineModel::Note("Master key: "@ + master_key + ""@),
        LineModel::Note(""@),
        LineModel::Note("IMPORTANT: Save this master key. You will need it to unlock"@),
        LineModel::Note("the secret store after a reboot (Linux) or if the Keychain"@),
        LineModel::Note("is reset (macOS). This is the only time the key will be shown."@),
    ]
}

/// Prints that encryption was enabled.
pub fn print_encrypted(master_key: &str) -> (report: Report)
    ensures
        report@ == encrypted_lines(master_key@),
{
    let mut report = Report::new();
    report.err("");
    report.err("Encryption enabled.");
    report.err("");
    report.err_about("Master key: ", master_key, "");
    report.err("");
    report.err("IMPORTANT: Save this master key. You will need it to unlock");
    report.err("the secret store after a reboot (Linux) or if the Keychain");
    report.err("is reset (macOS). This is the only time the key will be shown.");
    assert(report@ =~= encrypted_lines(master_key@));
    report
}

/// Prints the message that an answer has, or a sentence in its place.
pub fn print_message(response: &Json, fallback: &str) -> (report: Report)
    ensures
        report@ == seq![LineModel::Note(response@.text_or("message"@, fallback@))],
{
    output::message(response.text_or("message", fallback).as_str())
}

/// Warns before a rotation.
pub fn warn_rotation() -> (report: Report)
    ensures
        report@ == seq![
            LineModel::Note("WARNING: This will invalidate your current master key."@),
            LineModel::Note("You will need to save the new key for future unlocks."@),
        ],
{
    let mut report = output::message("WARNING: This will invalidate your current master key.");
    report.err("You will need to save the new key for future unlocks.");
    assert(report@ =~= seq![
        LineModel::Note("WARNING: This will invalidate your current master key."@),
        LineModel::Note("You will need to save the new key for future unlocks."@),
    ]);
    report
}

/// What is printed of a rotation.
pub open spec fn rotated_lines(response: JsonModel) -> Seq<LineModel> {
    seq![
        LineModel::Note(""@),
        LineModel::Note("New master key: "@ + response.text_or("master_key"@, ""@) + ""@),
        LineModel::Note(""@),
        LineModel::Note("IMPORTANT: Save this new key. Your old key no longer works."@),
    ]
}

/// Prints a rotation's new key.
pub fn print_rotated(response: &Json) -> (report: Report)
    ensures
        report@ == rotated_lines(response@),
{
    let mut report = Report::new();
    report.err("");
    report.err_about("New master key: ", response.text_or("master_key", "").as_str(), "");
    report.err("");
    report.err("IMPORTANT: Save this new key. Your old key no longer works.");
    assert(report@ =~= rotated_lines(response@));
    report
}

/// What is printed of an export to a path.
pub open spec fn exported_lines(response: JsonModel, path: Seq<char>) -> Seq<LineModel> {
    seq![LineModel::Note("Exported "@ + text::decimal(response.count("count"@)) + " secrets to "@ + path)] + (
    match response.at("warning"@).as_text() {
        Some(warning) => seq![LineModel::Note(""@), LineModel::Note("WARNING: "@ + warning + ""@)],
        None => Seq::empty(),
    })
}

/// Prints that secrets were exported.
pub fn print_exported(response: &Json, path: &str) -> (report: Report)
    ensures
        report@ == exported_lines(response@, path@),
{
    let mut line = "Exported ".to_owned();
    line.push_str(text::show(response.count("count")).as_str());
    line.push_str(" secrets to ");
    line.push_str(path);
    let mut report = output::message(line.as_str());
    if let Some(warning) = response.text("warning") {
        report.err("");
        report.err_about("WARNING: ", warning.as_str(), "");
    }
    assert(report@ =~= exported_lines(response@, path@));
    report
}

/// The lines of secrets that an import left as they were.
pub open spec fn skipped_lines(skipped: Seq<JsonModel>) -> Seq<LineModel> {
    skipped.map_values(
        |name: JsonModel|
            LineModel::Note(
                "  "@ + text::or_text(name.as_text(), ""@) + " -- kept existing (use --overwrite to replace)"@,
            ),
    )
}

/// Prints what an import did.
pub fn print_imported(response: &Json) -> (report: Report)
    ensures
        report@ == seq![LineModel::Note(response@.text_or("message"@, "Import complete."@))] + skipped_lines(
            response@.at("skipped"@).items(),
        ),
{
    let mut report = print_message(response, "Import complete.");
    let ghost start = report@;
    let ghost models = response@.at("skipped"@).items();
    match response.items("skipped") {
        None => {
            assert(start + skipped_lines(models) =~= start);
        },
        Some(skipped) => {
            let mut k: usize = 0;
            assert(report@ =~= start + skipped_lines(models).take(0));
            while k < skipped.len()
                invariant
                    models == json::json_models(skipped@),
                    k <= skipped@.len(),
                    report@ == start + skipped_lines(models).take(k as int),
                decreases skipped@.len() - k,
            {
                let name = match &skipped[k] {
                    Json::Text(name) => name.clone(),
                    _ => "".to_owned(),
                };
                assert(models[k as int] == skipped@[k as int]@);
                report.err_about("  ", name.as_str(), " -- kept existing (use --overwrite to replace)");
                assert(report@ =~= start + skipped_lines(models).take(k + 1));
                k = k + 1;
            }
            assert(skipped_lines(models).take(k as int) =~= skipped_lines(models));
        },
    }
    report
}

// ---------------------------------------------------------------------------
// Laws
// ---------------------------------------------------------------------------

/// An import says whether to overwrite, whatever the backup says, and brings
/// everything else of the backup.
pub proof fn law_imports_bring_the_backup(entered: Entered, input: String, overwrite: bool, name: Seq<char>)
    ensures
        backup_of(entered) is Ok && importable(backup_of(entered)->Ok_0) ==> (request_of(
            SecretsCommand::Import { input, overwrite },
            entered,
        ) matches Ok(Some(request)) && request.body is Some && request.body->0.at("overwrite"@) == JsonModel::Bool(
            overwrite,
        ) && (name != "overwrite"@ ==> request.body->0.at(name) == backup_of(entered)->Ok_0.at(name))),
{
    json::law_a_set_member_is_found(
        backup_members(backup_of(entered)->Ok_0),
        "overwrite"@,
        JsonModel::Bool(overwrite),
        name,
    );
}

/// A secret that is piped in loses the whitespace that a pipe adds behind it,
/// a typed one nothing; a master key that is piped in loses it on both sides.
pub proof fn law_a_piped_secret_loses_its_line_end(entered: Entered)
    ensures
        value_of(false, entered) == entered_text(entered) && key_of(false, entered) == entered_text(entered),
        text::begins(entered_text(entered), value_of(true, entered)),
        value_of(true, entered).len() > 0 ==> !text::is_space(value_of(true, entered).last()),
        key_of(true, entered).len() > 0 ==> !text::is_space(key_of(true, entered).last()) && !text::is_space(
            key_of(true, entered)[0],
        ),
        entered matches Entered::Text(text) ==> entered_text(entered) == text@,
        !(entered is Text) ==> entered_text(entered).len() == 0,
{
    let text = entered_text(entered);
    text::law_trimming_takes_whitespace_alone(text);
    end_is_taken(text);
}

proof fn end_is_taken(s: Seq<char>)
    ensures
        text::begins(s, text::trimmed_end(s)),
        text::trimmed_end(s).len() > 0 ==> !text::is_space(text::trimmed_end(s).last()),
    decreases s.len(),
{
    if s.len() > 0 && text::is_space(s.last()) {
        let front = s.drop_last();
        end_is_taken(front);
        let kept = text::trimmed_end(front);
        assert(s.subrange(0, kept.len() as int) =~= front.subrange(0, kept.len() as int));
    } else {
        assert(s.subrange(0, s.len() as int) =~= s);
    }
}

/// An empty secret is refused, and any other is stored under its name, in its
/// category.
pub proof fn law_a_secret_is_stored_under_its_name(
    name: String,
    category: Option<String>,
    stdin: bool,
    entered: Entered,
)
    ensures
        ({
            let planned = request_of(SecretsCommand::Put { name, category, stdin }, entered);
            &&& value_of(stdin, entered).len() == 0 <==> planned is Err
            &&& planned matches Ok(asked) ==> {
                &&& asked is Some
                &&& asked->0.method == Method::Put
                &&& asked->0.path == "secrets/"@ + request::in_query(name@)
                &&& asked->0.body->0.at("value"@).as_text() == Some(value_of(stdin, entered))
                &&& asked->0.body->0.at("category"@).as_text() == text::opt_text(category)
            }
        }),
{
    broadcast use json::member_after_set;

    reveal_strlit("value");
    reveal_strlit("category");
    reveal_strlit("");
    assert("value"@.len() != "category"@.len());
    assert("secrets/"@ + request::in_query(name@) + ""@ =~= "secrets/"@ + request::in_query(name@));
}

/// Looking changes nothing and every change has an address of its own.
pub proof fn law_secret_commands_keep_to_their_method(command: SecretsCommand, entered: Entered)
    requires
        request_of(command, entered) matches Ok(Some(_)),
    ensures
        ({
            let asked = request_of(command, entered)->Ok_0->0;
            &&& command is Status || command is List || command is Info ==> asked.method == Method::Get && asked.body is None
            &&& command is Delete ==> asked.method == Method::Delete && asked.body is None
            &&& command is Put ==> asked.method == Method::Put
            &&& command is Migrate ==> asked.method == Method::Post && asked.path == "secrets/migrate"@
            &&& command is Encrypt ==> asked.method == Method::Post && asked.path == "secrets/encrypt"@
            &&& command is Lock ==> asked.method == Method::Post && asked.path == "secrets/lock"@
            &&& command is Unlock ==> asked.method == Method::Post && asked.path == "secrets/unlock"@
            &&& command is Rotate ==> asked.method == Method::Post && asked.path == "secrets/rotate"@
            &&& command is Export ==> asked.method == Method::Post && asked.path == "secrets/export"@
            &&& command is Import ==> asked.method == Method::Post && asked.path == "secrets/import"@
            &&& command matches SecretsCommand::Unlock { stdin } ==> asked.body->0.at("master_key"@).as_text() == Some(
                key_of(stdin, entered),
            )
        }),
{
    broadcast use json::member_after_set;

}

/// A backup that is no object is not sent, and one that cannot be read is
/// refused.
pub proof fn law_only_an_object_is_imported(input: String, overwrite: bool, entered: Entered)
    ensures
        ({
            let planned = request_of(SecretsCommand::Import { input, overwrite }, entered);
            &&& planned is Err <==> backup_of(entered) is Err
            &&& planned is Ok ==> (planned->Ok_0 is Some <==> backup_of(entered)->Ok_0 is Object || backup_of(
                entered,
            )->Ok_0 is Null)
        }),
{
}

/// A status tells every count, and who manages the secrets where that is not the
/// user.
pub proof fn law_a_status_tells_every_count(response: JsonModel)
    ensures
        status_lines(response).len() == (if response.is_set("platform_managed"@) {
            6int
        } else {
            5
        }),
        status_lines(response)[0] == LineModel::Out("State:          "@ + response.text_or("state"@, "unknown"@)),
        response.is_set("encrypted"@) ==> status_lines(response)[1] == LineModel::Out("Encrypted:      "@ + "true"@),
        !response.is_set("encrypted"@) ==> status_lines(response)[1] == LineModel::Out("Encrypted:      "@ + "false"@),
        status_lines(response)[2] == LineModel::Out(
            "Total secrets:  "@ + text::decimal(response.count("secret_count"@)),
        ),
        status_lines(response)[3] == LineModel::Out(
            "  System:       "@ + text::decimal(response.count("system_count"@)),
        ),
        status_lines(response)[4] == LineModel::Out(
            "  Tool:         "@ + text::decimal(response.count("tool_count"@)),
        ),
{
}

/// A listing shows each secret by its name, category and time, and never its
/// value.
pub proof fn law_a_listed_secret_keeps_its_value(secret: SecretEntry, secrets: Seq<SecretEntry>)
    ensures
        secret_cells(secret).len() == list_headers().len(),
        secret_cells(secret)[0] == secret.name@ && secret_cells(secret)[1] == secret.category@,
        secret_cells(secret)[2] == time::utc_text(secret.updated_at as int, Pattern::Minute.notation()),
        secrets.len() == 0 ==> list_lines(secrets).len() == 1 && list_lines(secrets)[0] is Note,
        secrets.len() > 0 ==> list_lines(secrets).len() == secrets.len() + 1,
{
}

/// What was done is noted by name, with a warning exactly where there is one.
pub proof fn law_a_warning_is_passed_on(name: Seq<char>, category: Seq<char>, reload: bool, warning: Option<Seq<char>>)
    ensures
        saved_lines(name, category, reload).len() == (if reload {
            2int
        } else {
            1
        }),
        saved_lines(name, category, reload)[0] == LineModel::Note("Secret "@ + name + " saved ("@ + category + ")."@),
        deleted_lines(name, warning).len() == (if warning is Some {
            2int
        } else {
            1
        }),
        deleted_lines(name, warning)[0] == LineModel::Note("Deleted "@ + name + "."@),
        warning is Some ==> deleted_lines(name, warning)[1] == LineModel::Note("Warning: "@ + warning->0),
{
    if let Some(warning) = warning {
        reveal_strlit("");
        assert("Warning: "@ + warning + ""@ =~= "Warning: "@ + warning);
    }
}

/// A key is shown once it is made, by itself, and what an export or an import
/// left out is told.
pub proof fn law_a_new_key_is_shown(master_key: Seq<char>, response: JsonModel, path: Seq<char>, item: MigratedKey)
    ensures
        encrypted_lines(master_key).contains(LineModel::Note("Master key: "@ + master_key + ""@)),
        rotated_lines(response).contains(
            LineModel::Note("New master key: "@ + response.text_or("master_key"@, ""@) + ""@),
        ),
        exported_lines(response, path)[0] == LineModel::Note(
            "Exported "@ + text::decimal(response.count("count"@)) + " secrets to "@ + path,
        ),
        exported_lines(response, path).len() == (if response.at("warning"@) is Text {
            3int
        } else {
            1
        }),
        migrated_line(item) == LineModel::Note(
            "  "@ + item.config_key@ + " -> "@ + item.secret_name@ + " ("@ + item.category@ + ")"@,
        ),
{
    assert(encrypted_lines(master_key)[3] == LineModel::Note("Master key: "@ + master_key + ""@));
    assert(rotated_lines(response)[1] == LineModel::Note(
        "New master key: "@ + response.text_or("master_key"@, ""@) + ""@,
    ));
}

} // verus!
