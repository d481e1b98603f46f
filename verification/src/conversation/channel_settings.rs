//! Per-channel settings persistence.
//!
//! Keeps conversation settings for platform channels (Discord, Slack, etc.) as
//! JSON objects.
use vstd::prelude::*;
use crate::conversation::settings::ResponseMode;
use crate::json;
use crate::json::{Json, JsonModel, Member};
use crate::text;

verus! {

broadcast use vstd::seq::group_seq_axioms;

/// The settings of a channel.
#[derive(Debug)]
pub struct ChannelSettingsRow {
    pub agent_id: String,
    pub conversation_id: String,
    pub settings: Vec<Member>,
}

/// What a row is: whose it is, and its settings.
pub type RowModel = ((Seq<char>, Seq<char>), Seq<(Seq<char>, JsonModel)>);

/// What a row is.
pub open spec fn row_model(row: ChannelSettingsRow) -> RowModel {
    ((row.agent_id@, row.conversation_id@), json::member_models(row.settings@))
}

/// What rows are.
pub open spec fn row_models(rows: Seq<ChannelSettingsRow>) -> Seq<RowModel> {
    rows.map_values(|row: ChannelSettingsRow| row_model(row))
}

/// Where the row of a channel stands.
pub open spec fn row_at(rows: Seq<RowModel>, whose: (Seq<char>, Seq<char>)) -> Option<int>
    decreases rows.len(),
{
    if rows.len() == 0 {
        None
    } else {
        match row_at(rows.drop_last(), whose) {
            Some(k) => Some(k),
            None => if rows.last().0 == whose {
                Some(rows.len() - 1)
            } else {
                None
            },
        }
    }
}

proof fn row_at_first(rows: Seq<RowModel>, whose: (Seq<char>, Seq<char>))
    ensures
        match row_at(rows, whose) {
            Some(k) => 0 <= k < rows.len() && rows[k].0 == whose && forall|i: int|
                0 <= i < k ==> (#[trigger] rows[i]).0 != whose,
            None => forall|i: int| 0 <= i < rows.len() ==> (#[trigger] rows[i]).0 != whose,
        },
    decreases rows.len(),
{
    if rows.len() > 0 {
        let front = rows.drop_last();
        row_at_first(front, whose);
        assert forall|i: int| 0 <= i < front.len() implies front[i] == rows[i] by {}
    }
}

/// The settings of a channel; none where nothing was kept.
pub open spec fn settings_of(rows: Seq<RowModel>, whose: (Seq<char>, Seq<char>)) -> Seq<(Seq<char>, JsonModel)> {
    match row_at(rows, whose) {
        Some(k) => rows[k].1,
        None => Seq::empty(),
    }
}

/// Rows with the settings of a channel put in place.
pub open spec fn with_settings(
    rows: Seq<RowModel>,
    whose: (Seq<char>, Seq<char>),
    settings: Seq<(Seq<char>, JsonModel)>,
) -> Seq<RowModel> {
    match row_at(rows, whose) {
        Some(k) => rows.update(k, (whose, settings)),
        None => rows.push((whose, settings)),
    }
}

/// The settings that a stored text holds, given what it is as JSON, or what is
/// wrong with it.
pub open spec fn settings_in(read: Result<JsonModel, Seq<char>>) -> Result<Seq<(Seq<char>, JsonModel)>, Seq<char>> {
    match read {
        Ok(JsonModel::Object(members)) => Ok(members),
        Ok(_) => Err("channel settings must be a JSON object"@),
        Err(reason) => Err(reason),
    }
}

/// The settings that a stored text holds; an empty one holds none.
pub open spec fn stored_settings(stored: Seq<char>) -> Result<Seq<(Seq<char>, JsonModel)>, Seq<char>> {
    if stored.len() == 0 {
        Ok(Seq::empty())
    } else {
        settings_in(json::parsed(stored, "failed to parse channel settings"@))
    }
}

/// The settings that a text holds, given what it is as JSON.
pub fn pick_settings(read: Result<Json, String>) -> (settings: Result<Vec<Member>, String>)
    ensures
        (match settings {
            Ok(settings) => Ok(json::member_models(settings@)),
            Err(reason) => Err(reason@),
        }) == settings_in(
            match read {
                Ok(read) => Ok(read@),
                Err(reason) => Err(reason@),
            },
        ),
{
    match read {
        Ok(Json::Object(members)) => {
            proof {
                json::object_model(members);
            }
            Ok(members)
        },
        Ok(_) => Err("channel settings must be a JSON object".to_owned()),
        Err(reason) => Err(reason),
    }
}

/// The settings of channels.
#[derive(Debug)]
pub struct ChannelSettingsStore {
    pub rows: Vec<ChannelSettingsRow>,
}

impl View for ChannelSettingsStore {
    type V = Seq<RowModel>;

    open spec fn view(&self) -> Seq<RowModel> {
        row_models(self.rows@)
    }
}

impl ChannelSettingsStore {
    /// A store without settings.
    pub fn new() -> (store: Self)
        ensures
            store@.len() == 0,
    {
        ChannelSettingsStore { rows: Vec::new() }
    }

    fn find(&self, agent_id: &str, conversation_id: &str) -> (at: Option<usize>)
        ensures
            match at {
                Some(at) => row_at(self@, (agent_id@, conversation_id@)) == Some(at as int) && at < self.rows@.len()
                    && row_model(self.rows@[at as int]).0 == (agent_id@, conversation_id@),
                None => row_at(self@, (agent_id@, conversation_id@)) is None,
            },
    {
        let ghost whose = (agent_id@, conversation_id@);
        let ghost models = self@;
        proof {
            row_at_first(models, whose);
        }
        let mut k: usize = 0;
        while k < self.rows.len()
            invariant
                models == self@,
                whose == (agent_id@, conversation_id@),
                k <= self.rows@.len(),
                forall|i: int| 0 <= i < k ==> (#[trigger] models[i]).0 != whose,
                match row_at(models, whose) {
                    Some(k) => 0 <= k < models.len() && models[k].0 == whose && forall|i: int|
                        0 <= i < k ==> (#[trigger] models[i]).0 != whose,
                    None => forall|i: int| 0 <= i < models.len() ==> (#[trigger] models[i]).0 != whose,
                },
            decreases self.rows@.len() - k,
        {
            let row = &self.rows[k];
            assert(models[k as int] == row_model(*row));
            if text::same(row.agent_id.as_str(), agent_id) && text::same(
                row.conversation_id.as_str(),
                conversation_id,
            ) {
                return Some(k);
            }
            k = k + 1;
        }
        None
    }

    /// The settings for a specific channel, if any have been kept. An empty
    /// object is as good as none.
    pub fn get(&self, agent_id: &str, conversation_id: &str) -> (settings: Option<&Vec<Member>>)
        ensures
            ({
                let kept = settings_of(self@, (agent_id@, conversation_id@));
                match settings {
                    Some(settings) => kept.len() > 0 && json::member_models(settings@) == kept,
                    None => kept.len() == 0,
                }
            }),
    {
        match self.find(agent_id, conversation_id) {
            Some(at) => {
                if self.rows[at].settings.len() == 0 {
                    None
                } else {
                    Some(&self.rows[at].settings)
                }
            },
            None => None,
        }
    }

    /// Takes in the stored settings of a channel.
    pub fn load(&mut self, agent_id: &str, conversation_id: &str, stored: &str) -> (loaded: Result<(), String>)
        ensures
            match loaded {
                Ok(_) => stored_settings(stored@) matches Ok(settings) && final(self)@ == with_settings(
                    old(self)@,
                    (agent_id@, conversation_id@),
                    settings,
                ),
                Err(reason) => stored_settings(stored@) == Err::<Seq<(Seq<char>, JsonModel)>, Seq<char>>(reason@)
                    && final(self)@ == old(self)@,
            },
    {
        let settings = if stored.is_empty() {
            let none: Vec<Member> = Vec::new();
            assert(json::member_models(none@) =~= Seq::empty());
            none
        } else {
            match pick_settings(json::parse_or(stored, "failed to parse channel settings")) {
                Ok(settings) => settings,
                Err(reason) => return Err(reason),
            }
        };
        self.upsert(agent_id, conversation_id, settings);
        Ok(())
    }

    /// Sets only the response mode, and keeps every other setting.
    pub fn set_response_mode(&mut self, agent_id: &str, conversation_id: &str, mode: ResponseMode)
        ensures
            final(self)@ == with_settings(
                old(self)@,
                (agent_id@, conversation_id@),
                json::with_text(
                    settings_of(old(self)@, (agent_id@, conversation_id@)),
                    "response_mode"@,
                    mode.setting(),
                ),
            ),
    {
        let ghost before = self@;
        match self.find(agent_id, conversation_id) {
            Some(at) => {
                let mut row = self.rows.remove(at);
                json::set_member(&mut row.settings, "response_mode", Json::Text(mode.as_setting_str().to_owned()));
                self.rows.insert(at, row);
                assert(self@ =~= before.update(at as int, row_model(row)));
            },
            None => {
                let mut settings: Vec<Member> = Vec::new();
                assert(json::member_models(settings@) =~= Seq::empty());
                json::set_member(&mut settings, "response_mode", Json::Text(mode.as_setting_str().to_owned()));
                let row = ChannelSettingsRow {
                    agent_id: agent_id.to_owned(),
                    conversation_id: conversation_id.to_owned(),
                    settings,
                };
                self.rows.push(row);
                assert(self@ =~= before.push(row_model(row)));
            },
        }
    }

    /// Inserts or updates settings for a channel.
    pub fn upsert(&mut self, agent_id: &str, conversation_id: &str, settings: Vec<Member>)
        ensures
            final(self)@ == with_settings(
                old(self)@,
                (agent_id@, conversation_id@),
                json::member_models(settings@),
            ),
    {
        let ghost before = self@;
        let row = ChannelSettingsRow {
            agent_id: agent_id.to_owned(),
            conversation_id: conversation_id.to_owned(),
            settings,
        };
        match self.find(agent_id, conversation_id) {
            Some(at) => {
                self.rows.set(at, row);
                assert(self@ =~= before.update(at as int, row_model(row)));
            },
            None => {
                self.rows.push(row);
                assert(self@ =~= before.push(row_model(row)));
            },
        }
    }
}

// ---------------------------------------------------------------------------
// Laws
// ---------------------------------------------------------------------------

/// What was put in place is read back, and no other channel is changed.
pub proof fn law_settings_read_back(
    rows: Seq<RowModel>,
    whose: (Seq<char>, Seq<char>),
    settings: Seq<(Seq<char>, JsonModel)>,
    other: (Seq<char>, Seq<char>),
)
    ensures
        settings_of(with_settings(rows, whose, settings), whose) == settings,
        other != whose ==> settings_of(with_settings(rows, whose, settings), other) == settings_of(rows, other),
{
    let after = with_settings(rows, whose, settings);
    row_at_first(rows, whose);
    row_at_first(after, whose);
    row_at_first(rows, other);
    row_at_first(after, other);
    match row_at(rows, whose) {
        Some(k) => {
            assert(after[k].0 == whose);
            assert forall|i: int| 0 <= i < rows.len() && i != k implies #[trigger] after[i] == rows[i] by {}
            if let Some(i) = row_at(after, whose) {
                assert(i <= k);
                if i < k {
                    assert(after[i] == rows[i]);
                }
            }
            if other != whose {
                if let Some(i) = row_at(rows, other) {
                    assert(after[i] == rows[i]);
                }
                if let Some(i) = row_at(after, other) {
                    assert(after[i] == rows[i]);
                }
            }
        },
        None => {
            assert(after.last().0 == whose);
            assert forall|i: int| 0 <= i < rows.len() implies #[trigger] after[i] == rows[i] by {}
            if let Some(i) = row_at(after, whose) {
                if i < rows.len() {
                    assert(after[i] == rows[i]);
                }
            }
            if let Some(i) = row_at(rows, other) {
                assert(after[i] == rows[i]);
            }
            if let Some(i) = row_at(after, other) {
                if i < rows.len() {
                    assert(after[i] == rows[i]);
                }
            }
        },
    }
}

/// Setting the response mode keeps every other setting of the channel.
pub proof fn law_setting_the_mode_keeps_other_settings(
    settings: Seq<(Seq<char>, JsonModel)>,
    mode: ResponseMode,
    name: Seq<char>,
)
    requires
        name != "response_mode"@,
    ensures
        json::member_of(json::with_text(settings, "response_mode"@, mode.setting()), name) == json::member_of(
            settings,
            name,
        ),
{
    json::law_a_set_member_is_found(settings, "response_mode"@, JsonModel::Text(mode.setting()), name);
}

/// Settings that are stored are an object; an empty text holds none, and what
/// cannot be read or is no object is refused.
pub proof fn law_stored_settings_are_an_object(stored: Seq<char>, read: Result<JsonModel, Seq<char>>)
    ensures
        stored.len() == 0 ==> stored_settings(stored) is Ok && stored_settings(stored)->Ok_0.len() == 0,
        stored.len() > 0 ==> stored_settings(stored) == settings_in(
            json::parsed(stored, "failed to parse channel settings"@),
        ),
        settings_in(read) is Ok <==> read is Ok && read->Ok_0 is Object,
        settings_in(read) is Ok ==> JsonModel::Object(settings_in(read)->Ok_0) == read->Ok_0,
        read is Err ==> settings_in(read) == Err::<Seq<(Seq<char>, JsonModel)>, Seq<char>>(read->Err_0),
{
}

/// A row is found by its agent and conversation together.
pub proof fn law_a_row_is_found_by_whose_it_is(rows: Seq<RowModel>, whose: (Seq<char>, Seq<char>))
    ensures
        row_at(rows, whose) matches Some(k) ==> 0 <= k < rows.len() && rows[k].0 == whose && forall|i: int|
            0 <= i < k ==> (#[trigger] rows[i]).0 != whose,
        row_at(rows, whose) is None ==> forall|i: int| 0 <= i < rows.len() ==> (#[trigger] rows[i]).0 != whose,
        row_at(rows, whose) is None ==> settings_of(rows, whose).len() == 0,
        row_at(rows, whose) matches Some(k) ==> settings_of(rows, whose) == rows[k].1,
    decreases rows.len(),
{
    if rows.len() > 0 {
        let front = rows.drop_last();
        law_a_row_is_found_by_whose_it_is(front, whose);
        assert forall|i: int| 0 <= i < front.len() implies #[trigger] rows[i] == front[i] by {}
        if let Some(k) = row_at(front, whose) {
            assert(rows[k] == front[k]);
        }
    }
}

} // verus!
