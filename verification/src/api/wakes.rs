//! Wake definition endpoints and public webhook ingress.
//!
//! The authenticated surface lists, tunes, test-fires, and deletes wake
//! definitions. Webhook ingress is public: the per-wake bearer token in the
//! path is the authority boundary.
use vstd::prelude::*;
use crate::api;
use crate::api::autonomy::{AutonomyConfig, AutonomyLevel};
use crate::api::{ApiError, Status, StoreError};
use crate::json;
use crate::json::{Body, Json, JsonModel};
use crate::llm::history::copy_opt;
use crate::text;

verus! {

broadcast use vstd::seq::group_seq_axioms;

/// Id of the read-only virtual entry derived from the agent's live autonomy
/// config. The autonomy dial governs it, so it has no stored row and rejects
/// writes.
pub const INTERVAL_SURVEY_WAKE_ID: &'static str = "interval-survey";

/// Upper bound on webhook ingress bodies. The payload is persisted per event
/// row, so this caps row size.
pub const MAX_WEBHOOK_BODY_BYTES: usize = 65536;

/// What fires a wake.
#[derive(Debug)]
pub enum WakeTrigger {
    Schedule { cron_expr: Option<String>, interval_secs: Option<u64> },
    Webhook,
    Event { event: String },
}

/// A wake definition.
#[derive(Debug)]
pub struct WakeDef {
    pub id: String,
    pub name: String,
    pub trigger: WakeTrigger,
    pub instructions: String,
    pub min_level: AutonomyLevel,
    pub enabled: bool,
    pub builtin: bool,
    /// Whether a config entry owns it.
    pub config_owned: bool,
    pub last_fired_at: Option<String>,
    pub webhook_token: Option<String>,
}

/// A wake as it is listed.
#[derive(Debug)]
pub struct WakeItem {
    pub id: String,
    pub name: String,
    /// "schedule", "webhook", or "event".
    pub trigger_kind: String,
    /// Human-readable trigger summary: the cron expression, "every 15m", the
    /// event name, or "webhook".
    pub trigger_label: String,
    pub instructions: String,
    pub min_level: AutonomyLevel,
    pub enabled: bool,
    pub builtin: bool,
    /// Derived from live config rather than a stored row; read-only.
    pub is_virtual: bool,
    pub last_fired_at: Option<String>,
    /// Public ingress path, webhook wakes only.
    pub webhook_url: Option<String>,
}

/// The wakes of an agent.
#[derive(Debug)]
pub struct WakesResponse {
    pub wakes: Vec<WakeItem>,
}

/// Changes to a wake.
#[derive(Debug)]
pub struct WakeUpdateRequest {
    pub enabled: Option<bool>,
    pub name: Option<String>,
    pub instructions: Option<String>,
    pub min_level: Option<AutonomyLevel>,
}

/// An interval in the largest unit that measures it whole.
pub open spec fn every(secs: u64) -> Seq<char> {
    if secs >= 3600 && secs % 3600 == 0 {
        "every "@ + text::decimal((secs / 3600) as nat) + "h"@
    } else if secs >= 60 && secs % 60 == 0 {
        "every "@ + text::decimal((secs / 60) as nat) + "m"@
    } else {
        "every "@ + text::decimal(secs as nat) + "s"@
    }
}

/// Writes an interval in the largest unit that measures it whole.
pub fn interval_label(secs: u64) -> (label: String)
    ensures
        label@ == every(secs),
{
    let mut label = "every ".to_owned();
    if secs >= 3600 && secs % 3600 == 0 {
        label.push_str(text::show(secs / 3600).as_str());
        label.push_str("h");
    } else if secs >= 60 && secs % 60 == 0 {
        label.push_str(text::show(secs / 60).as_str());
        label.push_str("m");
    } else {
        label.push_str(text::show(secs).as_str());
        label.push_str("s");
    }
    label
}

impl WakeTrigger {
    /// The kind of a trigger.
    pub open spec fn kind_name(self) -> Seq<char> {
        match self {
            WakeTrigger::Schedule { .. } => "schedule"@,
            WakeTrigger::Webhook => "webhook"@,
            WakeTrigger::Event { .. } => "event"@,
        }
    }

    /// The kind of a trigger.
    pub fn kind(&self) -> (kind: &'static str)
        ensures
            kind@ == self.kind_name(),
    {
        match self {
            WakeTrigger::Schedule { .. } => "schedule",
            WakeTrigger::Webhook => "webhook",
            WakeTrigger::Event { .. } => "event",
        }
    }

    /// A trigger in words.
    pub open spec fn in_words(self) -> Seq<char> {
        match self {
            WakeTrigger::Schedule { cron_expr, interval_secs } => match cron_expr {
                Some(expr) => expr@,
                None => match interval_secs {
                    Some(secs) => every(secs),
                    None => "schedule"@,
                },
            },
            WakeTrigger::Webhook => "webhook"@,
            WakeTrigger::Event { event } => event@,
        }
    }
}

/// A trigger in words.
pub fn trigger_label(trigger: &WakeTrigger) -> (label: String)
    ensures
        label@ == trigger.in_words(),
{
    match trigger {
        WakeTrigger::Schedule { cron_expr, interval_secs } => match cron_expr {
            Some(expr) => expr.clone(),
            None => match interval_secs {
                Some(secs) => interval_label(*secs),
                None => "schedule".to_owned(),
            },
        },
        WakeTrigger::Webhook => "webhook".to_owned(),
        WakeTrigger::Event { event } => event.clone(),
    }
}

/// Whether an item lists a definition.
pub open spec fn lists_def(item: WakeItem, def: WakeDef) -> bool {
    &&& item.id == def.id
    &&& item.name == def.name
    &&& item.trigger_kind@ == def.trigger.kind_name()
    &&& item.trigger_label@ == def.trigger.in_words()
    &&& item.instructions == def.instructions
    &&& item.min_level == def.min_level
    &&& item.enabled == def.enabled
    &&& item.builtin == def.builtin
    &&& !item.is_virtual
    &&& item.last_fired_at == def.last_fired_at
    &&& text::opt_text(item.webhook_url) == (match def.webhook_token {
        Some(token) => Some("/hooks/wakes/"@ + token@),
        None => None,
    })
}

/// The item that lists a definition.
pub fn item_from_def(def: &WakeDef) -> (item: WakeItem)
    ensures
        lists_def(item, *def),
{
    let webhook_url = match &def.webhook_token {
        Some(token) => {
            let mut url = "/hooks/wakes/".to_owned();
            url.push_str(token.as_str());
            Some(url)
        },
        None => None,
    };
    WakeItem {
        id: def.id.clone(),
        name: def.name.clone(),
        trigger_kind: def.trigger.kind().to_owned(),
        trigger_label: trigger_label(&def.trigger),
        instructions: def.instructions.clone(),
        min_level: def.min_level,
        enabled: def.enabled,
        builtin: def.builtin,
        is_virtual: false,
        last_fired_at: copy_opt(&def.last_fired_at),
        webhook_url,
    }
}

/// Whether an item lists the interval survey.
pub open spec fn lists_survey(item: WakeItem, config: AutonomyConfig) -> bool {
    &&& item.id@ == "interval-survey"@
    &&& item.name@ == "Interval survey"@
    &&& item.trigger_kind@ == "schedule"@
    &&& item.trigger_label@ == every(config.interval_secs)
    &&& item.instructions@ == "Survey task and goal state on the configured interval."@
    &&& item.min_level == AutonomyLevel::Observe
    &&& item.enabled == (config.level != AutonomyLevel::Off)
    &&& item.builtin
    &&& item.is_virtual
    &&& item.last_fired_at is None
    &&& item.webhook_url is None
}

/// The virtual interval-survey entry derived from the agent's live autonomy
/// config. Enabled tracks the dial: any level above `off` runs the survey.
pub fn interval_survey_item(config: AutonomyConfig) -> (item: WakeItem)
    ensures
        lists_survey(item, config),
{
    WakeItem {
        id: INTERVAL_SURVEY_WAKE_ID.to_owned(),
        name: "Interval survey".to_owned(),
        trigger_kind: "schedule".to_owned(),
        trigger_label: interval_label(config.interval_secs),
        instructions: "Survey task and goal state on the configured interval.".to_owned(),
        min_level: AutonomyLevel::Observe,
        enabled: config.level != AutonomyLevel::Off,
        builtin: true,
        is_virtual: true,
        last_fired_at: None,
        webhook_url: None,
    }
}

/// Whether a webhook wake still lacks its token. Minting it lazily keeps
/// config-seeded webhook wakes usable without a separate provisioning step.
pub fn needs_token(def: &WakeDef) -> (needs: bool)
    ensures
        needs == (def.trigger is Webhook && def.webhook_token is None),
{
    def.webhook_token.is_none() && (match &def.trigger {
        WakeTrigger::Webhook => true,
        _ => false,
    })
}

/// The token that a webhook wake has after one was to be minted: the minted
/// one where it was stored, or that of a concurrent request which was first.
pub fn minted_token(minted: Result<bool, StoreError>, token: String, reloaded: Option<String>) -> (kept: Option<String>)
    ensures
        kept == (match minted {
            Ok(true) => Some(token),
            Ok(false) => reloaded,
            Err(_) => None,
        }),
{
    match minted {
        Ok(true) => Some(token),
        Ok(false) => reloaded,
        Err(_) => None,
    }
}

/// Lists the wakes of an agent, the virtual interval survey first. An agent
/// that is not registered is not found.
pub fn list_wakes(config: Option<AutonomyConfig>, defs: Result<Vec<WakeDef>, StoreError>) -> (answer: Result<
    WakesResponse,
    Status,
>)
    ensures
        match config {
            None => answer == Err::<WakesResponse, Status>(Status::NotFound),
            Some(config) => match defs {
                Err(_) => answer == Err::<WakesResponse, Status>(Status::Internal),
                Ok(defs) => answer matches Ok(response) && response.wakes@.len() == defs@.len() + 1 && lists_survey(
                    response.wakes@[0],
                    config,
                ) && forall|k: int|
                    0 <= k < defs@.len() ==> lists_def(#[trigger] response.wakes@[k + 1], defs@[k]),
            },
        },
{
    let config = match config {
        Some(config) => config,
        None => {
            return Err(Status::NotFound);
        },
    };
    let defs = match defs {
        Ok(defs) => defs,
        Err(_) => {
            return Err(Status::Internal);
        },
    };
    let mut wakes: Vec<WakeItem> = Vec::new();
    wakes.push(interval_survey_item(config));
    let mut k: usize = 0;
    while k < defs.len()
        invariant
            k <= defs@.len(),
            wakes@.len() == k + 1,
            lists_survey(wakes@[0], config),
            forall|i: int| 0 <= i < k ==> lists_def(#[trigger] wakes@[i + 1], defs@[i]),
        decreases defs@.len() - k,
    {
        let ghost before = wakes@;
        let item = item_from_def(&defs[k]);
        wakes.push(item);
        assert forall|i: int| 0 <= i < k + 1 implies lists_def(#[trigger] wakes@[i + 1], defs@[i]) by {
            if i < k {
                assert(wakes@[i + 1] == before[i + 1]);
            }
        }
        k = k + 1;
    }
    Ok(WakesResponse { wakes })
}

/// The definition of a wake that was asked for, if the agent is registered and
/// its store holds it.
pub open spec fn wake_found(agent_known: bool, loaded: Result<Option<WakeDef>, StoreError>) -> Result<
    WakeDef,
    (Status, Seq<char>),
> {
    if !agent_known {
        Err((Status::NotFound, "unknown agent"@))
    } else {
        match loaded {
            Err(_) => Err((Status::Internal, "failed to load wake"@)),
            Ok(None) => Err((Status::NotFound, "unknown wake"@)),
            Ok(Some(def)) => Ok(def),
        }
    }
}

fn find_wake(agent_known: bool, loaded: Result<Option<WakeDef>, StoreError>) -> (found: Result<WakeDef, ApiError>)
    ensures
        (match found {
            Ok(def) => Ok(def),
            Err(error) => Err(error@),
        }) == wake_found(agent_known, loaded),
{
    if !agent_known {
        return Err(api::refuse(Status::NotFound, "unknown agent"));
    }
    match loaded {
        Err(_) => Err(api::refuse(Status::Internal, "failed to load wake")),
        Ok(None) => Err(api::refuse(Status::NotFound, "unknown wake")),
        Ok(Some(def)) => Ok(def),
    }
}

/// Why a change of a wake is refused, if it is.
pub open spec fn update_refusal(
    wake_id: Seq<char>,
    agent_known: bool,
    loaded: Result<Option<WakeDef>, StoreError>,
    renames: bool,
) -> Option<(Status, Seq<char>)> {
    if wake_id == "interval-survey"@ {
        Some((Status::BadRequest, "the interval survey is governed by the autonomy dial"@))
    } else {
        match wake_found(agent_known, loaded) {
            Err(refusal) => Some(refusal),
            Ok(def) => if def.builtin && renames {
                Some((Status::BadRequest, "built-in wakes cannot be renamed"@))
            } else {
                None
            },
        }
    }
}

/// Decides whether a wake definition may be tuned. Built-in rows accept
/// enabled, instructions, and min_level but keep their name; the virtual
/// interval survey rejects all writes.
pub fn update_wake(wake_id: &str, agent_known: bool, loaded: Result<Option<WakeDef>, StoreError>, body: &WakeUpdateRequest) -> (allowed: Result<
    (),
    ApiError,
>)
    ensures
        (match allowed {
            Ok(_) => None,
            Err(error) => Some(error@),
        }) == update_refusal(wake_id@, agent_known, loaded, body.name is Some),
{
    if text::same(wake_id, INTERVAL_SURVEY_WAKE_ID) {
        return Err(api::refuse(Status::BadRequest, "the interval survey is governed by the autonomy dial"));
    }
    match find_wake(agent_known, loaded) {
        Err(error) => Err(error),
        Ok(def) => {
            if def.builtin && body.name.is_some() {
                return Err(api::refuse(Status::BadRequest, "built-in wakes cannot be renamed"));
            }
            Ok(())
        },
    }
}

/// Answers a change of a wake, once it was stored and read anew.
pub fn updated_wake(stored: Result<(), StoreError>, reloaded: Result<Option<WakeDef>, StoreError>) -> (answer: Result<
    WakeItem,
    ApiError,
>)
    ensures
        match stored {
            Err(_) => answer matches Err(error) && error@ == (Status::Internal, "failed to update wake"@),
            Ok(_) => match wake_found(true, reloaded) {
                Err(refusal) => answer matches Err(error) && error@ == refusal,
                Ok(def) => answer matches Ok(item) && lists_def(item, def),
            },
        },
{
    if stored.is_err() {
        return Err(api::refuse(Status::Internal, "failed to update wake"));
    }
    match find_wake(true, reloaded) {
        Err(error) => Err(error),
        Ok(def) => Ok(item_from_def(&def)),
    }
}

/// Why a manual fire is refused, if it is.
pub open spec fn fire_refusal(wake_id: Seq<char>, agent_known: bool, loaded: Result<Option<WakeDef>, StoreError>) -> Option<
    (Status, Seq<char>),
> {
    if wake_id == "interval-survey"@ {
        Some((Status::BadRequest, "the interval survey cannot be fired manually"@))
    } else {
        match wake_found(agent_known, loaded) {
            Err(refusal) => Some(refusal),
            Ok(_) => None,
        }
    }
}

/// Decides whether a wake may be test-fired.
pub fn fire_wake(wake_id: &str, agent_known: bool, loaded: Result<Option<WakeDef>, StoreError>) -> (allowed: Result<
    (),
    ApiError,
>)
    ensures
        (match allowed {
            Ok(_) => None,
            Err(error) => Some(error@),
        }) == fire_refusal(wake_id@, agent_known, loaded),
{
    if text::same(wake_id, INTERVAL_SURVEY_WAKE_ID) {
        return Err(api::refuse(Status::BadRequest, "the interval survey cannot be fired manually"));
    }
    match find_wake(agent_known, loaded) {
        Err(error) => Err(error),
        Ok(_) => Ok(()),
    }
}

/// The dedupe key of a manual fire. It is unique for each: manual test fires
/// must not coalesce into each other or into pending organic events.
pub fn manual_key(unique: &str) -> (key: String)
    ensures
        key@ == "manual:"@ + unique@,
{
    let mut key = "manual:".to_owned();
    key.push_str(unique);
    key
}

/// What the event of a manual fire carries.
pub open spec fn manual_members() -> Seq<(Seq<char>, JsonModel)> {
    json::with_text(json::no_members(), "fired_by"@, "api"@)
}

/// What the event of a manual fire carries.
pub fn manual_payload() -> (payload: Json)
    ensures
        payload@ == JsonModel::Object(manual_members()),
{
    let mut body = Body::new();
    body.text("fired_by", "api");
    body.object()
}

/// An event for the queue of an agent.
#[derive(Debug)]
pub struct WakeEvent {
    /// Pending events of a wake with the same key coalesce into one.
    pub dedupe_key: String,
    pub payload: Json,
}

/// The event of a manual fire, given what is unique to it.
pub fn manual_event(unique: &str) -> (event: WakeEvent)
    ensures
        event.dedupe_key@ == "manual:"@ + unique@,
        event.payload@ == JsonModel::Object(manual_members()),
{
    WakeEvent { dedupe_key: manual_key(unique), payload: manual_payload() }
}

/// What is answered to a fire that was enqueued.
pub open spec fn queued_members() -> Seq<(Seq<char>, JsonModel)> {
    json::with_text(json::no_members(), "status"@, "queued"@)
}

/// Answers a fire or a delivery, once the event was enqueued.
pub fn fired(enqueued: Result<(), StoreError>) -> (answer: Result<(Status, Json), ApiError>)
    ensures
        match enqueued {
            Ok(_) => answer matches Ok((status, body)) && status == Status::Accepted && body@ == JsonModel::Object(
                queued_members(),
            ),
            Err(_) => answer matches Err(error) && error@ == (Status::Internal, "failed to enqueue wake"@),
        },
{
    match enqueued {
        Ok(_) => {
            let mut body = Body::new();
            body.text("status", "queued");
            Ok((Status::Accepted, body.object()))
        },
        Err(_) => Err(api::refuse(Status::Internal, "failed to enqueue wake")),
    }
}

/// Why a deletion is refused, if it is.
pub open spec fn delete_refusal(wake_id: Seq<char>, agent_known: bool, loaded: Result<Option<WakeDef>, StoreError>) -> Option<
    (Status, Seq<char>),
> {
    if wake_id == "interval-survey"@ {
        Some((Status::BadRequest, "the interval survey is governed by the autonomy dial"@))
    } else {
        match wake_found(agent_known, loaded) {
            Err(refusal) => Some(refusal),
            Ok(def) => if def.builtin {
                Some((Status::BadRequest, "built-in wakes can be disabled but not deleted"@))
            } else if def.config_owned {
                Some(
                    (
                        Status::Conflict,
                        "this wake is owned by a [[wakes]] entry; remove it from config.toml instead"@,
                    ),
                )
            } else {
                None
            },
        }
    }
}

/// Decides whether a wake definition may be deleted: only a user-owned one.
pub fn delete_wake(wake_id: &str, agent_known: bool, loaded: Result<Option<WakeDef>, StoreError>) -> (allowed: Result<
    (),
    ApiError,
>)
    ensures
        (match allowed {
            Ok(_) => None,
            Err(error) => Some(error@),
        }) == delete_refusal(wake_id@, agent_known, loaded),
{
    if text::same(wake_id, INTERVAL_SURVEY_WAKE_ID) {
        return Err(api::refuse(Status::BadRequest, "the interval survey is governed by the autonomy dial"));
    }
    let def = match find_wake(agent_known, loaded) {
        Ok(def) => def,
        Err(error) => {
            return Err(error);
        },
    };
    if def.builtin {
        return Err(api::refuse(Status::BadRequest, "built-in wakes can be disabled but not deleted"));
    }
    if def.config_owned {
        return Err(
            api::refuse(
                Status::Conflict,
                "this wake is owned by a [[wakes]] entry; remove it from config.toml instead",
            ),
        );
    }
    Ok(())
}

/// What is answered to a deletion.
pub open spec fn success_members() -> Seq<(Seq<char>, JsonModel)> {
    json::with_flag(json::no_members(), "success"@, true)
}

/// Answers a deletion, once it was stored.
pub fn deleted_wake(deleted: Result<(), StoreError>) -> (answer: Result<Json, ApiError>)
    ensures
        match deleted {
            Ok(_) => answer matches Ok(body) && body@ == JsonModel::Object(success_members()),
            Err(_) => answer matches Err(error) && error@ == (Status::Internal, "failed to delete wake"@),
        },
{
    match deleted {
        Ok(_) => {
            let mut body = Body::new();
            body.flag("success", true);
            Ok(body.object())
        },
        Err(_) => Err(api::refuse(Status::Internal, "failed to delete wake")),
    }
}

/// What a lookup of a webhook token in one agent's store came to.
#[derive(Debug, Clone, Copy, PartialEq, Eq, Structural)]
pub enum TokenLookup {
    /// The token is not one of the agent's.
    Unknown,
    /// A wake has the token; whether it is enabled.
    Wake(bool),
    /// The store failed.
    Failed,
}

/// What becomes of a webhook delivery.
#[derive(Debug)]
pub enum Ingress {
    /// An event is enqueued for the wake of an agent.
    Enqueue(usize, WakeEvent),
    /// It is refused.
    Refuse(ApiError),
}

/// The first agent whose store knows a token.
pub open spec fn first_known(lookups: Seq<TokenLookup>) -> Option<int>
    decreases lookups.len(),
{
    if lookups.len() == 0 {
        None
    } else {
        match first_known(lookups.drop_last()) {
            Some(k) => Some(k),
            None => if lookups.last() is Wake {
                Some(lookups.len() - 1)
            } else {
                None
            },
        }
    }
}

/// What a delivery carries, from what its body is as JSON: any JSON is
/// accepted, and what is none degrades to an object without members.
pub open spec fn payload_of(read: Option<JsonModel>) -> JsonModel {
    match read {
        Some(payload) => payload,
        None => JsonModel::Object(json::no_members()),
    }
}

/// Why a delivery is refused, or the agent that its event goes to, with the
/// event's key and payload, from what its body is as JSON. The empty key
/// coalesces a delivery burst into one pending event.
pub open spec fn routed(read: Option<JsonModel>, lookups: Seq<TokenLookup>) -> Result<
    (int, Seq<char>, JsonModel),
    (Status, Seq<char>),
> {
    match first_known(lookups) {
        Some(k) => if lookups[k] == TokenLookup::Wake(true) {
            Ok((k, ""@, payload_of(read)))
        } else {
            Err((Status::Conflict, "wake is disabled"@))
        },
        None => if lookups.contains(TokenLookup::Failed) {
            Err((Status::Internal, "wake lookup failed"@))
        } else {
            Err((Status::NotFound, "unknown token"@))
        },
    }
}

/// Why a delivery is refused, or the agent that its event goes to, with the
/// event's key and payload.
pub open spec fn delivered(body: Seq<u8>, lookups: Seq<TokenLookup>) -> Result<
    (int, Seq<char>, JsonModel),
    (Status, Seq<char>),
> {
    if body.len() > MAX_WEBHOOK_BODY_BYTES {
        Err((Status::PayloadTooLarge, "webhook payload exceeds 64 KiB"@))
    } else {
        routed(json::json_body(body), lookups)
    }
}

/// What becomes of a delivery.
pub open spec fn ingress_model(ingress: Ingress) -> Result<(int, Seq<char>, JsonModel), (Status, Seq<char>)> {
    match ingress {
        Ingress::Enqueue(at, event) => Ok((at as int, event.dedupe_key@, event.payload@)),
        Ingress::Refuse(error) => Err(error@),
    }
}

proof fn first_known_first(lookups: Seq<TokenLookup>)
    ensures
        match first_known(lookups) {
            Some(k) => 0 <= k < lookups.len() && lookups[k] is Wake && forall|i: int|
                0 <= i < k ==> !(#[trigger] lookups[i] is Wake),
            None => forall|i: int| 0 <= i < lookups.len() ==> !(#[trigger] lookups[i] is Wake),
        },
    decreases lookups.len(),
{
    if lookups.len() > 0 {
        let front = lookups.drop_last();
        first_known_first(front);
        assert forall|i: int| 0 <= i < front.len() implies front[i] == lookups[i] by {}
    }
}

/// What a body read as JSON holds.
pub open spec fn read_model(read: Option<Json>) -> Option<JsonModel> {
    match read {
        Some(read) => Some(read@),
        None => None,
    }
}

/// Routes a webhook delivery that is not too large, given what its body is as
/// JSON.
///
/// A failing lookup on one agent must not mask a match on another, so every
/// agent is asked and the failure only reported when nothing matched.
pub fn route_delivery(read: Option<Json>, lookups: &Vec<TokenLookup>) -> (ingress: Ingress)
    ensures
        ingress_model(ingress) == routed(read_model(read), lookups@),
{
    let ghost carried = payload_of(read_model(read));
    let payload = match read {
        Some(payload) => payload,
        None => Body::new().object(),
    };
    proof {
        first_known_first(lookups@);
    }
    let mut lookup_failed = false;
    let mut k: usize = 0;
    while k < lookups.len()
        invariant
            payload@ == carried,
            carried == payload_of(read_model(read)),
            k <= lookups@.len(),
            forall|i: int| 0 <= i < k ==> !(#[trigger] lookups@[i] is Wake),
            lookup_failed ==> lookups@.contains(TokenLookup::Failed),
            !lookup_failed ==> forall|i: int| 0 <= i < k ==> #[trigger] lookups@[i] != TokenLookup::Failed,
            match first_known(lookups@) {
                Some(k) => 0 <= k < lookups@.len() && lookups@[k] is Wake && forall|i: int|
                    0 <= i < k ==> !(#[trigger] lookups@[i] is Wake),
                None => forall|i: int| 0 <= i < lookups@.len() ==> !(#[trigger] lookups@[i] is Wake),
            },
        decreases lookups@.len() - k,
    {
        assert(lookups@[k as int] == lookups[k as int]);
        match lookups[k] {
            TokenLookup::Unknown => {},
            TokenLookup::Failed => {
                assert(lookups@[k as int] == TokenLookup::Failed);
                lookup_failed = true;
            },
            TokenLookup::Wake(enabled) => {
                if enabled {
                    return Ingress::Enqueue(k, WakeEvent { dedupe_key: "".to_owned(), payload });
                }
                return Ingress::Refuse(api::refuse(Status::Conflict, "wake is disabled"));
            },
        }
        k = k + 1;
    }
    if lookup_failed {
        return Ingress::Refuse(api::refuse(Status::Internal, "wake lookup failed"));
    }
    Ingress::Refuse(api::refuse(Status::NotFound, "unknown token"))
}

/// Decides what becomes of a webhook delivery: the body becomes the payload of
/// an event, as data that is never interpreted.
pub fn webhook_ingress(body: &Vec<u8>, lookups: &Vec<TokenLookup>) -> (ingress: Ingress)
    ensures
        ingress_model(ingress) == delivered(body@, lookups@),
        body@.len() == 0 && ingress is Enqueue ==> ingress->Enqueue_1.payload@ == JsonModel::Object(
            json::no_members(),
        ),
{
    if body.len() > MAX_WEBHOOK_BODY_BYTES {
        return Ingress::Refuse(api::refuse(Status::PayloadTooLarge, "webhook payload exceeds 64 KiB"));
    }
    route_delivery(json::read_json(body), lookups)
}

// ---------------------------------------------------------------------------
// Laws
// ---------------------------------------------------------------------------

/// The interval survey rejects every write, whatever the stores hold.
pub proof fn law_the_survey_rejects_writes(
    agent_known: bool,
    loaded: Result<Option<WakeDef>, StoreError>,
    renames: bool,
)
    ensures
        update_refusal("interval-survey"@, agent_known, loaded, renames) is Some,
        fire_refusal("interval-survey"@, agent_known, loaded) is Some,
        delete_refusal("interval-survey"@, agent_known, loaded) is Some,
{
}

/// A built-in wake can be tuned, but never renamed or deleted.
pub proof fn law_builtin_wakes_stay(wake_id: Seq<char>, def: WakeDef)
    requires
        def.builtin,
        wake_id != "interval-survey"@,
    ensures
        update_refusal(wake_id, true, Ok(Some(def)), false) is None,
        update_refusal(wake_id, true, Ok(Some(def)), true) is Some,
        delete_refusal(wake_id, true, Ok(Some(def))) is Some,
{
}

/// A store that fails for one agent does not hide the wake of another.
pub proof fn law_failures_do_not_mask_a_match(body: Seq<u8>, lookups: Seq<TokenLookup>, k: int)
    requires
        body.len() <= MAX_WEBHOOK_BODY_BYTES,
        0 <= k < lookups.len(),
        lookups[k] == TokenLookup::Wake(true),
        forall|i: int| 0 <= i < k ==> !(#[trigger] lookups[i] is Wake),
    ensures
        delivered(body, lookups) == Ok::<(int, Seq<char>, JsonModel), (Status, Seq<char>)>(
            (k, ""@, payload_of(json::json_body(body))),
        ),
{
    first_known_first(lookups);
}

/// An interval is told in the largest unit that it is a whole number of, hours
/// before minutes before seconds.
pub proof fn law_an_interval_is_told_in_whole_units(secs: u64, count: nat)
    ensures
        count > 0 && secs == count * 3600 ==> every(secs) == "every "@ + text::decimal(count) + "h"@,
        count > 0 && count % 60 != 0 && secs == count * 60 ==> every(secs) == "every "@ + text::decimal(count) + "m"@,
        secs % 60 != 0 ==> every(secs) == "every "@ + text::decimal(secs as nat) + "s"@,
        secs == 0 ==> every(secs) == "every 0s"@,
{
    if secs == 0 {
        reveal_strlit("every ");
        reveal_strlit("s");
        reveal_strlit("every 0s");
        assert(text::decimal(0) =~= seq!['0']);
        assert(every(secs) =~= "every 0s"@);
    }
}

/// A trigger is told by its cron expression where it has one, by its interval
/// where it has only that, and by its event; its kind has a name of its own.
pub proof fn law_a_trigger_is_told_in_its_own_words(trigger: WakeTrigger, other: WakeTrigger)
    ensures
        trigger matches WakeTrigger::Schedule { cron_expr, interval_secs } ==> {
            &&& cron_expr is Some ==> trigger.in_words() == cron_expr->0@
            &&& cron_expr is None && interval_secs is Some ==> trigger.in_words() == every(interval_secs->0)
        },
        trigger matches WakeTrigger::Event { event } ==> trigger.in_words() == event@,
        trigger is Webhook ==> trigger.in_words() == trigger.kind_name(),
        trigger.kind_name() == other.kind_name() ==> (trigger is Schedule <==> other is Schedule) && (trigger is Webhook
            <==> other is Webhook) && (trigger is Event <==> other is Event),
{
    reveal_strlit("schedule");
    reveal_strlit("webhook");
    reveal_strlit("event");
    assert("schedule"@[0] != "webhook"@[0] && "schedule"@[0] != "event"@[0] && "webhook"@[0] != "event"@[0]);
}

/// A listed wake shows its definition, and a webhook's address holds its token.
pub proof fn law_a_listed_wake_shows_its_definition(item: WakeItem, def: WakeDef)
    requires
        lists_def(item, def),
    ensures
        item.id@ == def.id@ && item.name@ == def.name@ && item.instructions@ == def.instructions@,
        item.enabled == def.enabled && item.builtin == def.builtin && item.min_level == def.min_level,
        !item.is_virtual,
        item.webhook_url is Some <==> def.webhook_token is Some,
        def.webhook_token is Some ==> text::ends(item.webhook_url->0@, def.webhook_token->0@) && text::begins(
            item.webhook_url->0@,
            "/hooks/wakes/"@,
        ),
{
    if let Some(token) = def.webhook_token {
        text::law_parts_occur("/hooks/wakes/"@, token@, Seq::empty());
        text::law_parts_occur(Seq::empty(), "/hooks/wakes/"@, token@);
    }
}

/// The survey is listed as a built-in wake that no store holds, on while
/// autonomy is on, and told by the interval that is configured.
pub proof fn law_the_survey_follows_the_dial(item: WakeItem, config: AutonomyConfig)
    requires
        lists_survey(item, config),
    ensures
        item.enabled <==> config.level != AutonomyLevel::Off,
        item.is_virtual && item.builtin,
        item.trigger_label@ == every(config.interval_secs),
        item.id@ == INTERVAL_SURVEY_WAKE_ID@,
        item.webhook_url is None && item.last_fired_at is None,
{
}

/// What no wake answers to is refused alike by every write: an unknown agent
/// and an unknown wake are not found, and a store that fails is a failure.
pub proof fn law_a_missing_wake_refuses_every_write(
    wake_id: Seq<char>,
    agent_known: bool,
    loaded: Result<Option<WakeDef>, StoreError>,
    renames: bool,
)
    requires
        wake_id != INTERVAL_SURVEY_WAKE_ID@,
        !agent_known || !(loaded matches Ok(Some(_))),
    ensures
        update_refusal(wake_id, agent_known, loaded, renames) is Some,
        fire_refusal(wake_id, agent_known, loaded) == update_refusal(wake_id, agent_known, loaded, renames),
        delete_refusal(wake_id, agent_known, loaded) == update_refusal(wake_id, agent_known, loaded, renames),
        ({
            let (status, why) = update_refusal(wake_id, agent_known, loaded, renames)->0;
            &&& !agent_known ==> status == Status::NotFound && why == "unknown agent"@
            &&& agent_known && loaded is Err ==> status == Status::Internal
            &&& agent_known && loaded is Ok ==> status == Status::NotFound && why == "unknown wake"@
        }),
{
}

/// A wake that is there may be fired, changed unless a built-in one is renamed,
/// and deleted unless it is built in or owned by the configuration.
pub proof fn law_a_wake_is_refused_for_a_reason(wake_id: Seq<char>, def: WakeDef, renames: bool)
    requires
        wake_id != INTERVAL_SURVEY_WAKE_ID@,
    ensures
        fire_refusal(wake_id, true, Ok(Some(def))) is None,
        update_refusal(wake_id, true, Ok(Some(def)), renames) is Some <==> def.builtin && renames,
        delete_refusal(wake_id, true, Ok(Some(def))) is Some <==> def.builtin || def.config_owned,
        def.builtin ==> (delete_refusal(wake_id, true, Ok(Some(def)))->0).0 == Status::BadRequest,
        !def.builtin && def.config_owned ==> (delete_refusal(wake_id, true, Ok(Some(def)))->0).0 == Status::Conflict,
        def.builtin && renames ==> (update_refusal(wake_id, true, Ok(Some(def)), renames)->0).0 == Status::BadRequest,
{
}

/// The first agent that knows a token answers for it.
pub proof fn law_the_first_known_token_answers(lookups: Seq<TokenLookup>)
    ensures
        first_known(lookups) matches Some(k) ==> 0 <= k < lookups.len() && lookups[k] is Wake && forall|i: int|
            0 <= i < k ==> !((#[trigger] lookups[i]) is Wake),
        first_known(lookups) is None ==> forall|i: int| 0 <= i < lookups.len() ==> !((#[trigger] lookups[i]) is Wake),
    decreases lookups.len(),
{
    if lookups.len() > 0 {
        let front = lookups.drop_last();
        law_the_first_known_token_answers(front);
        assert forall|i: int| 0 <= i < front.len() implies #[trigger] lookups[i] == front[i] by {}
        if let Some(k) = first_known(front) {
            assert(lookups[k] == front[k]);
        }
    }
}

/// A delivery is enqueued only for an enabled wake and a body within the limit;
/// a body beyond it is refused unread, a disabled wake is a conflict, and an
/// unknown token is told from a failed lookup.
pub proof fn law_a_delivery_is_answered_by_its_token(body: Seq<u8>, lookups: Seq<TokenLookup>)
    ensures
        body.len() > MAX_WEBHOOK_BODY_BYTES ==> delivered(body, lookups) is Err && delivered(body, lookups)->Err_0.0
            == Status::PayloadTooLarge,
        delivered(body, lookups) matches Ok((k, key, payload)) ==> {
            &&& body.len() <= MAX_WEBHOOK_BODY_BYTES
            &&& 0 <= k < lookups.len()
            &&& lookups[k] == TokenLookup::Wake(true)
            &&& json::json_body(body) is Some ==> payload == json::json_body(body)->0
        },
        body.len() <= MAX_WEBHOOK_BODY_BYTES ==> {
            &&& (exists|k: int|
                0 <= k < lookups.len() && (#[trigger] lookups[k]) == TokenLookup::Wake(false) && forall|i: int|
                    0 <= i < k ==> !((#[trigger] lookups[i]) is Wake)) ==> delivered(body, lookups) is Err && delivered(
                body,
                lookups,
            )->Err_0.0 == Status::Conflict
            &&& (forall|i: int| 0 <= i < lookups.len() ==> !((#[trigger] lookups[i]) is Wake)) ==> {
                &&& delivered(body, lookups) is Err
                &&& lookups.contains(TokenLookup::Failed) ==> delivered(body, lookups)->Err_0.0 == Status::Internal
                &&& !lookups.contains(TokenLookup::Failed) ==> delivered(body, lookups)->Err_0.0 == Status::NotFound
            }
        },
{
    law_the_first_known_token_answers(lookups);
    if exists|k: int|
        0 <= k < lookups.len() && (#[trigger] lookups[k]) == TokenLookup::Wake(false) && forall|i: int|
            0 <= i < k ==> !((#[trigger] lookups[i]) is Wake) {
        let k = choose|k: int|
            0 <= k < lookups.len() && (#[trigger] lookups[k]) == TokenLookup::Wake(false) && forall|i: int|
                0 <= i < k ==> !((#[trigger] lookups[i]) is Wake);
        assert(lookups[k] is Wake);
        let found = first_known(lookups)->0;
        assert(found == k) by {
            assert(lookups[found] is Wake);
        }
    }
}

/// A wake that is fired by hand says so, and what was queued or done is
/// confirmed.
pub proof fn law_confirmations_say_what_happened()
    ensures
        JsonModel::Object(manual_members()).at("fired_by"@).as_text() == Some("api"@),
        JsonModel::Object(queued_members()).at("status"@).as_text() == Some("queued"@),
        JsonModel::Object(success_members()).is_set("success"@),
{
    broadcast use json::member_after_set;

}

} // verus!
