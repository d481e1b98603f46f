//! Key-value settings storage.
use vstd::prelude::*;
use crate::table::{Keyed, Table};
use crate::text;

verus! {

broadcast use vstd::seq::group_seq_axioms;

/// Default key for worker log mode setting.
pub const WORKER_LOG_MODE_KEY: &'static str = "worker_log_mode";

/// Canonical `adapter:target` string for the instance's home channel.
pub const HOME_CHANNEL_KEY: &'static str = "home_channel";

/// Whether the stored home channel was set deliberately.
pub const HOME_CHANNEL_EXPLICIT_KEY: &'static str = "home_channel_explicit";

/// Whether the agent is holding off on starting new work.
pub const PAUSED_KEY: &'static str = "paused";

/// Operator-supplied reason shown wherever the pause surfaces.
pub const PAUSE_REASON_KEY: &'static str = "pause_reason";

/// How many days captured prompts are kept where nothing says otherwise.
pub const DEFAULT_PROMPT_RETENTION_DAYS: i64 = 14;

/// How worker execution logs are stored.
#[derive(Debug, Clone, Copy, PartialEq, Eq, Structural)]
pub enum WorkerLogMode {
    /// Only log failed worker runs (default).
    ErrorsOnly,
    /// Log all runs with separate directories for success/failure.
    AllSeparate,
    /// Log all runs to the same directory.
    AllCombined,
}

impl Default for WorkerLogMode {
    fn default() -> (mode: Self)
        ensures
            mode == WorkerLogMode::ErrorsOnly,
    {
        WorkerLogMode::ErrorsOnly
    }
}

impl WorkerLogMode {
    /// The name of a mode.
    pub open spec fn name(self) -> Seq<char> {
        match self {
            WorkerLogMode::ErrorsOnly => "errors_only"@,
            WorkerLogMode::AllSeparate => "all_separate"@,
            WorkerLogMode::AllCombined => "all_combined"@,
        }
    }

    /// The name of a mode.
    pub fn as_str(self) -> (name: &'static str)
        ensures
            name@ == self.name(),
    {
        match self {
            WorkerLogMode::ErrorsOnly => "errors_only",
            WorkerLogMode::AllSeparate => "all_separate",
            WorkerLogMode::AllCombined => "all_combined",
        }
    }

    /// The mode that a name stands for.
    pub open spec fn named(s: Seq<char>) -> Option<WorkerLogMode> {
        if s == "errors_only"@ {
            Some(WorkerLogMode::ErrorsOnly)
        } else if s == "all_separate"@ {
            Some(WorkerLogMode::AllSeparate)
        } else if s == "all_combined"@ {
            Some(WorkerLogMode::AllCombined)
        } else {
            None
        }
    }

    /// Reads the name of a mode; where there is none of that name, says so.
    pub fn parse(s: &str) -> (mode: Result<WorkerLogMode, String>)
        ensures
            match mode {
                Ok(mode) => WorkerLogMode::named(s@) == Some(mode),
                Err(message) => WorkerLogMode::named(s@) is None && message@ == "unknown worker log mode: "@ + s@,
            },
    {
        if text::same(s, "errors_only") {
            Ok(WorkerLogMode::ErrorsOnly)
        } else if text::same(s, "all_separate") {
            Ok(WorkerLogMode::AllSeparate)
        } else if text::same(s, "all_combined") {
            Ok(WorkerLogMode::AllCombined)
        } else {
            let mut message = "unknown worker log mode: ".to_owned();
            message.push_str(s);
            Err(message)
        }
    }
}

/// The instance's default outbound destination.
#[derive(Debug)]
pub struct HomeChannel {
    /// Canonical `adapter:target` string.
    pub target: String,
    /// Set deliberately by a principal, rather than adopted on first run.
    pub explicit: bool,
}

/// Why a setting cannot be read or written.
#[derive(Debug)]
pub enum SettingsError {
    /// There is no such key.
    NotFound(String),
    /// The store cannot be read.
    ReadFailed(String),
    /// The store cannot be written.
    WriteFailed(String),
}

/// A setting.
#[derive(Debug)]
pub struct Setting {
    pub key: String,
    pub value: String,
}

impl Keyed for Setting {
    open spec fn keyed_by(&self) -> Seq<char> {
        self.key@
    }

    fn key(&self) -> (key: &str) {
        self.key.as_str()
    }
}

/// The settings of an instance.
#[derive(Debug)]
pub struct SettingsStore {
    pub table: Table<Setting>,
    /// Whether the database can be read at present.
    pub readable: bool,
    /// Whether the database can be written at present.
    pub writable: bool,
}

/// The values under keys.
pub open spec fn values(table: Map<Seq<char>, Setting>) -> Map<Seq<char>, Seq<char>> {
    table.map_values(|setting: Setting| setting.value@)
}

/// A home channel, from what stands under its two keys.
pub open spec fn home_of(values: Map<Seq<char>, Seq<char>>) -> Option<(Seq<char>, bool)> {
    if values.contains_key("home_channel"@) && values["home_channel"@].len() > 0 {
        Some(
            (
                values["home_channel"@],
                values.contains_key("home_channel_explicit"@) && values["home_channel_explicit"@] == "true"@,
            ),
        )
    } else {
        None
    }
}

/// Why an agent is paused, from what stands under the two keys.
pub open spec fn pause_of(values: Map<Seq<char>, Seq<char>>) -> Option<Seq<char>> {
    if values.contains_key("paused"@) && values["paused"@] == "true"@ {
        if values.contains_key("pause_reason"@) {
            Some(values["pause_reason"@])
        } else {
            Some(Seq::empty())
        }
    } else {
        None
    }
}

/// The key that says whether prompts of a channel are captured.
pub open spec fn capture_key(channel_id: Seq<char>) -> Seq<char> {
    "prompt_capture:"@ + channel_id
}

fn name_capture(channel_id: &str) -> (key: String)
    ensures
        key@ == capture_key(channel_id@),
{
    let mut key = "prompt_capture:".to_owned();
    key.push_str(channel_id);
    key
}

impl SettingsStore {
    /// Whether no key has two values.
    pub open spec fn well_formed(self) -> bool {
        self.table.well_formed()
    }

    /// The value under each key.
    pub open spec fn values(self) -> Map<Seq<char>, Seq<char>> {
        values(self.table@)
    }

    /// Whether a write of two values happened, or failed with nothing changed.
    pub open spec fn wrote_two(
        before: SettingsStore,
        after: SettingsStore,
        one: (Seq<char>, Seq<char>),
        two: (Seq<char>, Seq<char>),
        result: Result<(), SettingsError>,
    ) -> bool {
        &&& after.readable == before.readable && after.writable == before.writable
        &&& if before.writable {
            result is Ok && after.values() == before.values().insert(one.0, one.1).insert(two.0, two.1)
        } else {
            result is Err && after.values() == before.values()
        }
    }

    /// Opens the settings in a table. Sets the default values where there are
    /// none.
    pub fn new(table: Table<Setting>, readable: bool, writable: bool) -> (store: Result<Self, SettingsError>)
        requires
            table.well_formed(),
        ensures
            match store {
                Ok(store) => {
                    &&& store.well_formed() && store.readable == readable && store.writable == writable
                    &&& store.values() == (if readable && table@.contains_key("worker_log_mode"@) {
                        values(table@)
                    } else {
                        values(table@).insert("worker_log_mode"@, "errors_only"@)
                    })
                },
                Err(_) => !writable && !(readable && table@.contains_key("worker_log_mode"@)),
            },
    {
        let mut store = SettingsStore { table, readable, writable };
        let missing = match store.get_raw(WORKER_LOG_MODE_KEY) {
            Ok(_) => false,
            Err(_) => true,
        };
        if missing {
            match store.set_raw(WORKER_LOG_MODE_KEY, WorkerLogMode::default().as_str()) {
                Ok(_) => {},
                Err(error) => {
                    return Err(error);
                },
            }
        }
        Ok(store)
    }

    /// Gets a raw string value by key.
    fn get_raw(&self, key: &str) -> (value: Result<String, SettingsError>)
        requires
            self.well_formed(),
        ensures
            match value {
                Ok(value) => self.readable && self.values().contains_key(key@) && self.values()[key@] == value@,
                Err(SettingsError::NotFound(_)) => self.readable && !self.values().contains_key(key@),
                Err(_) => !self.readable,
            },
    {
        if !self.readable {
            return Err(SettingsError::ReadFailed(key.to_owned()));
        }
        match self.table.get(key) {
            Some(setting) => Ok(setting.value.clone()),
            None => Err(SettingsError::NotFound(key.to_owned())),
        }
    }

    /// Reads a key, distinguishing "no such key" from a failed read. Callers
    /// that fold both into a default lose the difference between an unset
    /// value and an unreadable store.
    fn get_optional(&self, key: &str) -> (value: Result<Option<String>, SettingsError>)
        requires
            self.well_formed(),
        ensures
            match value {
                Ok(Some(value)) => self.readable && self.values().contains_key(key@) && self.values()[key@] == value@,
                Ok(None) => self.readable && !self.values().contains_key(key@),
                Err(_) => !self.readable,
            },
    {
        match self.get_raw(key) {
            Ok(value) => Ok(Some(value)),
            Err(SettingsError::NotFound(_)) => Ok(None),
            Err(error) => Err(error),
        }
    }

    /// Sets a raw string value by key.
    fn set_raw(&mut self, key: &str, value: &str) -> (result: Result<(), SettingsError>)
        requires
            old(self).well_formed(),
        ensures
            final(self).well_formed(),
            final(self).readable == old(self).readable,
            final(self).writable == old(self).writable,
            old(self).writable ==> result is Ok && final(self).values() == old(self).values().insert(key@, value@),
            !old(self).writable ==> result is Err && final(self).values() == old(self).values(),
    {
        if !self.writable {
            return Err(SettingsError::WriteFailed(key.to_owned()));
        }
        let ghost before = self.table@;
        let setting = Setting { key: key.to_owned(), value: value.to_owned() };
        self.table.put(setting);
        assert(values(before.insert(key@, setting)) =~= values(before).insert(key@, value@));
        Ok(())
    }

    /// Writes two keys in one transaction, so fields that are only meaningful
    /// together cannot be left half-updated by a crash between two commits.
    fn set_many(&mut self, first: &str, first_value: &str, second: &str, second_value: &str) -> (result: Result<
        (),
        SettingsError,
    >)
        requires
            old(self).well_formed(),
        ensures
            final(self).well_formed(),
            SettingsStore::wrote_two(
                *old(self),
                *final(self),
                (first@, first_value@),
                (second@, second_value@),
                result,
            ),
    {
        if !self.writable {
            return Err(SettingsError::WriteFailed(first.to_owned()));
        }
        let _ = self.set_raw(first, first_value);
        self.set_raw(second, second_value)
    }

    /// The worker log mode setting; the default where it is not set, cannot be
    /// read, or is none.
    pub fn worker_log_mode(&self) -> (mode: WorkerLogMode)
        requires
            self.well_formed(),
        ensures
            mode == (if self.readable && self.values().contains_key("worker_log_mode"@) {
                match WorkerLogMode::named(self.values()["worker_log_mode"@]) {
                    Some(mode) => mode,
                    None => WorkerLogMode::ErrorsOnly,
                }
            } else {
                WorkerLogMode::ErrorsOnly
            }),
    {
        match self.get_raw(WORKER_LOG_MODE_KEY) {
            Ok(raw) => match WorkerLogMode::parse(raw.as_str()) {
                Ok(mode) => mode,
                Err(_) => WorkerLogMode::ErrorsOnly,
            },
            Err(_) => WorkerLogMode::ErrorsOnly,
        }
    }

    /// Sets the worker log mode setting.
    pub fn set_worker_log_mode(&mut self, mode: WorkerLogMode) -> (result: Result<(), SettingsError>)
        requires
            old(self).well_formed(),
        ensures
            final(self).well_formed(),
            final(self).readable == old(self).readable,
            final(self).writable == old(self).writable,
            old(self).writable ==> result is Ok && final(self).values() == old(self).values().insert(
                "worker_log_mode"@,
                mode.name(),
            ),
            !old(self).writable ==> result is Err && final(self).values() == old(self).values(),
    {
        self.set_raw(WORKER_LOG_MODE_KEY, mode.as_str())
    }

    /// Whether prompt capture is enabled for a specific channel.
    pub fn prompt_capture_enabled(&self, channel_id: &str) -> (enabled: bool)
        requires
            self.well_formed(),
        ensures
            enabled == (self.readable && self.values().contains_key(capture_key(channel_id@)) && self.values()[capture_key(
                channel_id@,
            )] == "true"@),
    {
        match self.get_raw(name_capture(channel_id).as_str()) {
            Ok(value) => text::same(value.as_str(), "true"),
            Err(_) => false,
        }
    }

    /// Enables or disables prompt capture for a specific channel.
    pub fn set_prompt_capture(&mut self, channel_id: &str, enabled: bool) -> (result: Result<(), SettingsError>)
        requires
            old(self).well_formed(),
        ensures
            final(self).well_formed(),
            final(self).readable == old(self).readable,
            final(self).writable == old(self).writable,
            old(self).writable ==> result is Ok && final(self).values() == old(self).values().insert(
                capture_key(channel_id@),
                if enabled {
                    "true"@
                } else {
                    "false"@
                },
            ),
            !old(self).writable ==> result is Err && final(self).values() == old(self).values(),
    {
        self.set_raw(
            name_capture(channel_id).as_str(),
            if enabled {
                "true"
            } else {
                "false"
            },
        )
    }

    /// The instance's home channel, or `None` when unset.
    ///
    /// An unreadable store reports "no home", which costs a proactive message
    /// its destination. Adoption does not build on this read, so a failure
    /// here cannot displace a stored home.
    pub fn home_channel(&self) -> (home: Option<HomeChannel>)
        requires
            self.well_formed(),
        ensures
            (match home {
                Some(home) => Some((home.target@, home.explicit)),
                None => None,
            }) == (if self.readable {
                home_of(self.values())
            } else {
                None
            }),
    {
        let target = match self.get_optional(HOME_CHANNEL_KEY) {
            Ok(Some(target)) => target,
            _ => {
                return None;
            },
        };
        if target.as_str().is_empty() {
            return None;
        }
        let explicit = match self.get_optional(HOME_CHANNEL_EXPLICIT_KEY) {
            Ok(Some(value)) => text::same(value.as_str(), "true"),
            _ => false,
        };
        Some(HomeChannel { target, explicit })
    }

    /// Sets the home channel deliberately, replacing whatever was there.
    pub fn set_home_channel(&mut self, target: &str) -> (result: Result<(), SettingsError>)
        requires
            old(self).well_formed(),
        ensures
            final(self).well_formed(),
            SettingsStore::wrote_two(
                *old(self),
                *final(self),
                ("home_channel"@, target@),
                ("home_channel_explicit"@, "true"@),
                result,
            ),
    {
        self.set_many(HOME_CHANNEL_KEY, target, HOME_CHANNEL_EXPLICIT_KEY, "true")
    }

    /// Why the agent is paused, or `None` when it is running normally. A pause
    /// with no stated reason yields an empty string.
    ///
    /// An unreadable store reports paused. A stop the operator asked for
    /// outranks the agent's availability: resuming is one command away, but
    /// silently running through an emergency stop is not recoverable.
    pub fn pause_reason(&self) -> (reason: Option<String>)
        requires
            self.well_formed(),
        ensures
            text::opt_text(reason) == (if self.readable {
                pause_of(self.values())
            } else {
                Some("pause state unreadable"@)
            }),
    {
        match self.get_optional(PAUSED_KEY) {
            Ok(Some(value)) => {
                if !text::same(value.as_str(), "true") {
                    return None;
                }
            },
            Ok(None) => {
                return None;
            },
            Err(_) => {
                return Some("pause state unreadable".to_owned());
            },
        }
        match self.get_optional(PAUSE_REASON_KEY) {
            Ok(Some(reason)) => Some(reason),
            _ => {
                let nothing = String::new();
                assert(nothing@ =~= Seq::<char>::empty());
                Some(nothing)
            },
        }
    }

    /// Holds off on starting new work, or resumes. Survives restart so an
    /// emergency stop is not undone by a bounce.
    pub fn set_paused(&mut self, reason: Option<&str>) -> (result: Result<(), SettingsError>)
        requires
            old(self).well_formed(),
        ensures
            final(self).well_formed(),
            match reason {
                Some(reason) => SettingsStore::wrote_two(
                    *old(self),
                    *final(self),
                    ("pause_reason"@, reason@),
                    ("paused"@, "true"@),
                    result,
                ),
                None => SettingsStore::wrote_two(
                    *old(self),
                    *final(self),
                    ("pause_reason"@, ""@),
                    ("paused"@, "false"@),
                    result,
                ),
            },
    {
        match reason {
            Some(reason) => self.set_many(PAUSE_REASON_KEY, reason, PAUSED_KEY, "true"),
            None => self.set_many(PAUSE_REASON_KEY, "", PAUSED_KEY, "false"),
        }
    }

    /// Drops the home channel, returning the instance to sending nothing on
    /// its own.
    pub fn clear_home_channel(&mut self) -> (result: Result<(), SettingsError>)
        requires
            old(self).well_formed(),
        ensures
            final(self).well_formed(),
            SettingsStore::wrote_two(
                *old(self),
                *final(self),
                ("home_channel"@, ""@),
                ("home_channel_explicit"@, "false"@),
                result,
            ),
    {
        self.set_many(HOME_CHANNEL_KEY, "", HOME_CHANNEL_EXPLICIT_KEY, "false")
    }

    /// Adopts `target` as the home channel only when nothing has claimed it.
    /// Returns whether the value was taken. An implicit home never overwrites
    /// an explicit one, and never overwrites another implicit one: first run
    /// wins until a principal sets it deliberately.
    ///
    /// The check and the writes share one transaction.
    pub fn adopt_home_channel(&mut self, target: &str) -> (claimed: Result<bool, SettingsError>)
        requires
            old(self).well_formed(),
        ensures
            final(self).well_formed(),
            final(self).readable == old(self).readable,
            final(self).writable == old(self).writable,
            match claimed {
                Ok(claimed) => old(self).writable && claimed == (home_of(old(self).values()) is None)
                    && final(self).values() == (if claimed {
                    old(self).values().insert("home_channel"@, target@).insert("home_channel_explicit"@, "false"@)
                } else {
                    old(self).values()
                }),
                Err(_) => !old(self).writable && final(self).values() == old(self).values(),
            },
    {
        if !self.writable {
            return Err(SettingsError::WriteFailed(HOME_CHANNEL_KEY.to_owned()));
        }
        let taken = match self.table.get(HOME_CHANNEL_KEY) {
            Some(setting) => !setting.value.as_str().is_empty(),
            None => false,
        };
        if taken {
            return Ok(false);
        }
        let _ = self.set_many(HOME_CHANNEL_KEY, target, HOME_CHANNEL_EXPLICIT_KEY, "false");
        Ok(true)
    }
}

// ---------------------------------------------------------------------------
// Laws
// ---------------------------------------------------------------------------

/// The name of a log mode reads back as that mode.
pub proof fn law_log_mode_names_read_back(mode: WorkerLogMode)
    ensures
        WorkerLogMode::named(mode.name()) == Some(mode),
{
    reveal_strlit("errors_only");
    reveal_strlit("all_separate");
    reveal_strlit("all_combined");
    assert("errors_only"@.len() == 11);
    assert("all_separate"@.len() == 12);
    assert("all_combined"@.len() == 12);
    assert("all_separate"@[4] == 's');
    assert("all_combined"@[4] == 'c');
}

proof fn home_keys_differ()
    ensures
        "home_channel"@ != "home_channel_explicit"@,
        "true"@ != "false"@,
{
    reveal_strlit("home_channel");
    reveal_strlit("home_channel_explicit");
    reveal_strlit("true");
    reveal_strlit("false");
    assert("home_channel"@.len() != "home_channel_explicit"@.len());
    assert("true"@.len() != "false"@.len());
}

/// A home channel that was set deliberately is the one read back, as explicit.
pub proof fn law_a_set_home_is_read_back(values: Map<Seq<char>, Seq<char>>, target: Seq<char>)
    requires
        target.len() > 0,
    ensures
        home_of(values.insert("home_channel"@, target).insert("home_channel_explicit"@, "true"@)) == Some(
            (target, true),
        ),
{
    home_keys_differ();
}

/// An adopted home channel is read back as one that was not set deliberately.
pub proof fn law_an_adopted_home_is_implicit(values: Map<Seq<char>, Seq<char>>, target: Seq<char>)
    requires
        target.len() > 0,
    ensures
        home_of(values.insert("home_channel"@, target).insert("home_channel_explicit"@, "false"@)) == Some(
            (target, false),
        ),
{
    home_keys_differ();
}

/// A cleared home channel is none, and can be adopted anew.
pub proof fn law_a_cleared_home_is_none(values: Map<Seq<char>, Seq<char>>)
    ensures
        home_of(values.insert("home_channel"@, ""@).insert("home_channel_explicit"@, "false"@)) is None,
{
    home_keys_differ();
    reveal_strlit("");
}

/// A pause is read back with its reason, and a resume as none.
pub proof fn law_a_pause_is_read_back(values: Map<Seq<char>, Seq<char>>, reason: Seq<char>)
    ensures
        pause_of(values.insert("pause_reason"@, reason).insert("paused"@, "true"@)) == Some(reason),
        pause_of(values.insert("pause_reason"@, ""@).insert("paused"@, "false"@)) is None,
{
    home_keys_differ();
    reveal_strlit("pause_reason");
    reveal_strlit("paused");
    assert("pause_reason"@.len() != "paused"@.len());
}

/// A log mode is read by its name, and no other word is one.
pub proof fn law_only_log_mode_names_are_read(s: Seq<char>)
    ensures
        WorkerLogMode::named(s) matches Some(mode) ==> mode.name() == s,
        WorkerLogMode::ErrorsOnly.name() == "errors_only"@,
        WorkerLogMode::AllSeparate.name() == "all_separate"@,
        WorkerLogMode::AllCombined.name() == "all_combined"@,
{
}

/// A home is what its setting names, explicit only where that was said; a pause
/// holds only while it is set, for the reason that is kept with it.
pub proof fn law_home_and_pause_are_read_from_their_settings(values: Map<Seq<char>, Seq<char>>)
    ensures
        home_of(values) is Some <==> values.contains_key(HOME_CHANNEL_KEY@) && values[HOME_CHANNEL_KEY@].len() > 0,
        home_of(values) matches Some((target, explicit)) ==> target == values[HOME_CHANNEL_KEY@] && (explicit
            <==> values.contains_key(HOME_CHANNEL_EXPLICIT_KEY@) && values[HOME_CHANNEL_EXPLICIT_KEY@] == "true"@),
        pause_of(values) is Some <==> values.contains_key(PAUSED_KEY@) && values[PAUSED_KEY@] == "true"@,
        pause_of(values) matches Some(reason) ==> (values.contains_key(PAUSE_REASON_KEY@) ==> reason
            == values[PAUSE_REASON_KEY@]) && (!values.contains_key(PAUSE_REASON_KEY@) ==> reason.len() == 0),
{
}

/// Every channel has a capture setting of its own.
pub proof fn law_capture_settings_are_kept_apart(one: Seq<char>, other: Seq<char>)
    ensures
        capture_key(one) == capture_key(other) ==> one == other,
        text::ends(capture_key(one), one),
{
    text::law_parts_occur("prompt_capture:"@, one, Seq::empty());
    if capture_key(one) == capture_key(other) {
        let n = "prompt_capture:"@.len() as int;
        assert(one =~= capture_key(one).subrange(n, capture_key(one).len() as int));
        assert(other =~= capture_key(other).subrange(n, capture_key(other).len() as int));
    }
}

/// Two settings are written together or not at all, and a write touches no
/// other.
pub proof fn law_two_settings_are_written_together(
    before: SettingsStore,
    after: SettingsStore,
    one: (Seq<char>, Seq<char>),
    two: (Seq<char>, Seq<char>),
    result: Result<(), SettingsError>,
    key: Seq<char>,
)
    requires
        SettingsStore::wrote_two(before, after, one, two, result),
    ensures
        result is Ok <==> before.writable,
        result is Err ==> after.values() == before.values(),
        result is Ok && one.0 != two.0 ==> after.values().contains_key(one.0) && after.values()[one.0] == one.1,
        result is Ok ==> after.values().contains_key(two.0) && after.values()[two.0] == two.1,
        key != one.0 && key != two.0 ==> after.values().contains_key(key) == before.values().contains_key(key),
        key != one.0 && key != two.0 && before.values().contains_key(key) ==> after.values()[key]
            == before.values()[key],
{
}

} // verus!
